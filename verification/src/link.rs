//! Link Graph Assembler: classifies an external library reference purely by
//! its filename (`lib<X>.a` means a static archive, anything else a dynamic
//! library) and emits the ordered link directives for it. The classification
//! never probes the file system; a dangling reference surfaces only at the
//! link stage.

use vstd::prelude::*;

verus! {

/// One instruction to the packaging tool's build-script protocol.
#[derive(Debug, PartialEq, Eq)]
pub enum LinkDirective {
    /// Add a directory to the linker's library search path.
    SearchDir { directory: String },
    /// Link a static archive by name.
    StaticLib { name: String },
    /// Link a dynamic library by name, resolved by the linker's default
    /// search.
    DynamicLib { name: String },
    /// Pass one raw link argument to a named output binary.
    RawArg { binary: String, argument: String },
}

/// The mathematical shape of a `LinkDirective`.
#[verifier::ext_equal]
pub enum DirectiveView {
    SearchDir { directory: Seq<char> },
    StaticLib { name: Seq<char> },
    DynamicLib { name: Seq<char> },
    RawArg { binary: Seq<char>, argument: Seq<char> },
}

impl View for LinkDirective {
    type V = DirectiveView;

    open spec fn view(&self) -> DirectiveView {
        match self {
            LinkDirective::SearchDir { directory } => DirectiveView::SearchDir {
                directory: directory@,
            },
            LinkDirective::StaticLib { name } => DirectiveView::StaticLib { name: name@ },
            LinkDirective::DynamicLib { name } => DirectiveView::DynamicLib { name: name@ },
            LinkDirective::RawArg { binary, argument } => DirectiveView::RawArg {
                binary: binary@,
                argument: argument@,
            },
        }
    }
}

impl DeepView for LinkDirective {
    type V = DirectiveView;

    open spec fn deep_view(&self) -> DirectiveView {
        self@
    }
}

/// How one external library reference resolves.
#[derive(Debug, PartialEq, Eq)]
pub enum Resolution {
    /// The reference has no file-name component (it is empty, ends in a
    /// separator, or ends in `.` or `..`): a no-op placeholder, silently
    /// skipped.
    Skipped,
    /// A static archive `lib<name>.a`, with its containing directory when the
    /// reference has one.
    StaticArchive { name: String, directory: Option<String> },
    /// A bare dynamic library name, taken unchanged.
    DynamicLibrary { name: String },
}

/// The mathematical shape of a `Resolution`.
#[verifier::ext_equal]
pub enum ResolutionView {
    Skipped,
    StaticArchive { name: Seq<char>, directory: Option<Seq<char>> },
    DynamicLibrary { name: Seq<char> },
}

impl View for Resolution {
    type V = ResolutionView;

    open spec fn view(&self) -> ResolutionView {
        match self {
            Resolution::Skipped => ResolutionView::Skipped,
            Resolution::StaticArchive { name, directory } => ResolutionView::StaticArchive {
                name: name@,
                directory: match directory {
                    Some(d) => Some(d@),
                    None => None,
                },
            },
            Resolution::DynamicLibrary { name } => ResolutionView::DynamicLibrary { name: name@ },
        }
    }
}

/// The index right after the last `/` of `s`, or `0` when `s` has no `/`:
/// where the file-name component starts.
pub open spec fn file_name_start(s: Seq<char>) -> int
    decreases s.len(),
{
    if s.len() == 0 {
        0
    } else if s[s.len() - 1] == '/' {
        s.len() as int
    } else {
        file_name_start(s.drop_last())
    }
}

/// The file-name component of a reference: everything after its last `/`.
pub open spec fn file_name(s: Seq<char>) -> Seq<char> {
    s.skip(file_name_start(s))
}

/// Whether a final path component names no file: it is empty (the reference
/// ends in a separator or is empty), or it is one of the path components `.`
/// and `..`, which refer to directories, never to a file.
pub open spec fn names_no_file(f: Seq<char>) -> bool {
    f.len() == 0 || (f.len() == 1 && f[0] == '.') || (f.len() == 2 && f[0] == '.' && f[1] == '.')
}

/// `d` without its trailing separators.
pub open spec fn drop_trailing_separators(d: Seq<char>) -> Seq<char>
    decreases d.len(),
{
    if d.len() > 0 && d[d.len() - 1] == '/' {
        drop_trailing_separators(d.drop_last())
    } else {
        d
    }
}

/// The directory component of a reference: everything before the file name,
/// with the separators in between dropped. A directory of separators alone
/// is the root directory `/`; a reference without a `/` has an empty
/// directory component.
pub open spec fn directory_part(s: Seq<char>) -> Seq<char> {
    let head = s.take(file_name_start(s));
    let d = drop_trailing_separators(head);
    if d.len() == 0 && head.len() > 0 {
        seq!['/']
    } else {
        d
    }
}

/// Whether a file name follows the static-archive convention `lib<X>.a`.
/// The match is purely syntactic; a dynamic library literally named `lib.a`
/// is taken as a static archive with an empty stem — a known limitation of
/// the convention this build must match byte-for-byte.
pub open spec fn is_archive_file_name(f: Seq<char>) -> bool {
    f.len() >= 5 && f[0] == 'l' && f[1] == 'i' && f[2] == 'b' && f[f.len() - 2] == '.' && f[f.len()
        - 1] == 'a'
}

/// The `<X>` of a file name `lib<X>.a`.
pub open spec fn archive_stem(f: Seq<char>) -> Seq<char> {
    f.subrange(3, f.len() - 2)
}

/// How a library reference is classified, from its text alone.
pub open spec fn spec_resolve(s: Seq<char>) -> ResolutionView {
    let f = file_name(s);
    if names_no_file(f) {
        ResolutionView::Skipped
    } else if is_archive_file_name(f) {
        ResolutionView::StaticArchive {
            name: archive_stem(f),
            directory: if directory_part(s).len() > 0 {
                Some(directory_part(s))
            } else {
                None
            },
        }
    } else {
        ResolutionView::DynamicLibrary { name: s }
    }
}

/// The directives one library reference contributes, in order: for a static
/// archive, its search directory (when the reference carries one) and then
/// the static-link directive; for anything else with a file name, a single
/// dynamic-link directive with the reference unchanged; for a reference
/// whose final component names no file, nothing.
pub open spec fn spec_library_directives(s: Seq<char>) -> Seq<DirectiveView> {
    match spec_resolve(s) {
        ResolutionView::Skipped => Seq::empty(),
        ResolutionView::StaticArchive { name, directory } => match directory {
            Some(d) => seq![
                DirectiveView::SearchDir { directory: d },
                DirectiveView::StaticLib { name },
            ],
            None => seq![DirectiveView::StaticLib { name }],
        },
        ResolutionView::DynamicLibrary { name } => seq![DirectiveView::DynamicLib { name }],
    }
}

/// Nothing at or after `file_name_start` is a `/`, and a `/` stands right
/// before it when it is positive.
proof fn lemma_file_name_start_facts(s: Seq<char>)
    ensures
        0 <= file_name_start(s) <= s.len(),
        forall|k: int| file_name_start(s) <= k < s.len() ==> s[k] != '/',
        file_name_start(s) >= 1 ==> s[file_name_start(s) - 1] == '/',
    decreases s.len(),
{
    if s.len() != 0 && s[s.len() - 1] != '/' {
        lemma_file_name_start_facts(s.drop_last());
        assert forall|k: int| file_name_start(s) <= k < s.len() implies s[k] != '/' by {
            if k < s.len() - 1 {
                assert(s.drop_last()[k] == s[k]);
            }
        }
        if file_name_start(s) >= 1 {
            assert(s.drop_last()[file_name_start(s) - 1] == s[file_name_start(s) - 1]);
        }
    }
}

fn last_separator_end(s: &str) -> (r: usize)
    ensures
        r == file_name_start(s@),
{
    let n = s.unicode_len();
    let mut k = n;
    proof {
        assert(s@.take(n as int) =~= s@);
    }
    loop
        invariant
            k <= n,
            n == s@.len(),
            file_name_start(s@) == file_name_start(s@.take(k as int)),
        decreases k,
    {
        proof {
            assert(s@.take(k as int).len() == k);
        }
        if k == 0 {
            proof {
                assert(s@.take(0) =~= Seq::<char>::empty());
            }
            return 0;
        }
        let c = s.get_char(k - 1);
        proof {
            assert(s@.take(k as int)[k - 1] == s@[k - 1]);
        }
        if c == '/' {
            return k;
        }
        proof {
            assert(s@.take(k as int).drop_last() =~= s@.take(k - 1 as int));
        }
        k = k - 1;
    }
}

/// Classify one external library reference, by its file name alone.
pub fn resolve_library(reference: &str) -> (r: Resolution)
    ensures
        r@ == spec_resolve(reference@),
{
    let n = reference.unicode_len();
    let start = last_separator_end(reference);
    proof {
        lemma_file_name_start_facts(reference@);
    }
    let flen = n - start;
    let ghost f = file_name(reference@);
    proof {
        assert(f.len() == flen);
        assert(forall|k: int| 0 <= k < f.len() ==> f[k] == reference@[start + k]);
    }
    if flen == 0 {
        return Resolution::Skipped;
    }
    if flen == 1 && reference.get_char(start) == '.' {
        return Resolution::Skipped;
    }
    if flen == 2 && reference.get_char(start) == '.' && reference.get_char(start + 1) == '.' {
        return Resolution::Skipped;
    }
    let is_archive = flen >= 5 && reference.get_char(start) == 'l' && reference.get_char(start + 1)
        == 'i' && reference.get_char(start + 2) == 'b' && reference.get_char(n - 2) == '.'
        && reference.get_char(n - 1) == 'a';
    proof {
        assert(!names_no_file(f));
        assert(is_archive == is_archive_file_name(f));
    }
    if is_archive {
        let stem = reference.substring_char(start + 3, n - 2).to_owned();
        proof {
            assert(reference@.subrange(start + 3, n - 2 as int) =~= archive_stem(f));
        }
        let mut dir_end = start;
        while dir_end > 0 && reference.get_char(dir_end - 1) == '/'
            invariant
                dir_end <= start <= n,
                n == reference@.len(),
                forall|k: int| dir_end <= k < start ==> reference@[k] == '/',
            decreases dir_end,
        {
            dir_end = dir_end - 1;
        }
        proof {
            lemma_drop_trailing_separators(reference@, dir_end as int, start as int);
        }
        let directory = if dir_end > 0 {
            let d = reference.substring_char(0, dir_end).to_owned();
            proof {
                assert(reference@.subrange(0, dir_end as int) =~= directory_part(reference@));
            }
            Some(d)
        } else if start > 0 {
            let d = "/".to_owned();
            proof {
                reveal_strlit("/");
                assert(reference@.take(start as int).len() > 0);
                assert(d@ =~= directory_part(reference@));
            }
            Some(d)
        } else {
            proof {
                assert(reference@.take(0).len() == 0);
                assert(directory_part(reference@).len() == 0);
            }
            None
        };
        Resolution::StaticArchive { name: stem, directory }
    } else {
        Resolution::DynamicLibrary { name: reference.to_owned() }
    }
}

/// Trimming the separators off the end of a directory prefix is exactly
/// `drop_trailing_separators`.
proof fn lemma_drop_trailing_separators(s: Seq<char>, e: int, p: int)
    requires
        0 <= e <= p <= s.len(),
        forall|k: int| e <= k < p ==> s[k] == '/',
        e > 0 ==> s[e - 1] != '/',
    ensures
        drop_trailing_separators(s.take(p)) == s.take(e),
    decreases p - e,
{
    if p == e {
    } else {
        assert(s.take(p)[p - 1] == '/');
        assert(s.take(p).drop_last() =~= s.take(p - 1));
        lemma_drop_trailing_separators(s, e, p - 1);
    }
}

/// Emit the link directives for one external library reference, in order.
pub fn library_directives(reference: &str) -> (r: Vec<LinkDirective>)
    ensures
        r.deep_view() == spec_library_directives(reference@),
{
    let mut r: Vec<LinkDirective> = Vec::new();
    match resolve_library(reference) {
        Resolution::Skipped => {},
        Resolution::StaticArchive { name, directory } => {
            match directory {
                Some(d) => {
                    r.push(LinkDirective::SearchDir { directory: d });
                    r.push(LinkDirective::StaticLib { name });
                },
                None => {
                    r.push(LinkDirective::StaticLib { name });
                },
            }
        },
        Resolution::DynamicLibrary { name } => {
            r.push(LinkDirective::DynamicLib { name });
        },
    }
    proof {
        assert(r.deep_view() =~= spec_library_directives(reference@));
    }
    r
}

/// A reference whose file name matches `lib<X>.a` yields exactly one
/// static-link directive for `<X>`, preceded by exactly one search-directory
/// directive when its directory component is non-empty and by nothing when
/// that component is empty.
pub proof fn lemma_static_reference_directives(s: Seq<char>)
    requires
        is_archive_file_name(file_name(s)),
    ensures
        directory_part(s).len() > 0 ==> spec_library_directives(s) == seq![
            DirectiveView::SearchDir { directory: directory_part(s) },
            DirectiveView::StaticLib { name: archive_stem(file_name(s)) },
        ],
        directory_part(s).len() == 0 ==> spec_library_directives(s) == seq![
            DirectiveView::StaticLib { name: archive_stem(file_name(s)) },
        ],
{
}

/// A reference whose file name names a file but does not match `lib<X>.a`
/// yields exactly one dynamic-link directive, carrying the whole reference
/// unchanged.
pub proof fn lemma_dynamic_reference_directive(s: Seq<char>)
    requires
        !names_no_file(file_name(s)),
        !is_archive_file_name(file_name(s)),
    ensures
        spec_library_directives(s) == seq![DirectiveView::DynamicLib { name: s }],
{
}

/// A reference with no file-name component — empty, ending in a separator,
/// or ending in one of the directory components `.` and `..` — yields no
/// directive at all, and no error.
pub proof fn lemma_no_file_name_no_directives(s: Seq<char>)
    requires
        names_no_file(file_name(s)),
    ensures
        spec_library_directives(s) == Seq::<DirectiveView>::empty(),
{
}

} // verus!
