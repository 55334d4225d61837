//! Build plan assembly: turns the environment-supplied source and library
//! lists and the program descriptor table into the ordered sequence of
//! archive builds and link directives of one whole build. A missing mandatory
//! list is fatal and yields no plan at all, so no partial build is ever
//! attempted.

use vstd::prelude::*;

use crate::descriptor::DescriptorView;
use crate::descriptor::ProgramDescriptor;
use crate::descriptor::spec_program_table;
use crate::descriptor::spec_source_set;
use crate::descriptor::program_table;
use crate::link::DirectiveView;
use crate::link::LinkDirective;
use crate::link::library_directives;
use crate::link::spec_library_directives;
use crate::resolver::BuildError;
use crate::resolver::resolve_source_list;
use crate::resolver::split_source_list;
use crate::resolver::split_units;

verus! {

/// A request to the toolchain abstraction: compile these sources, in order,
/// into one static archive of this name. Carrying out the request also
/// registers every source with the build system's change tracking, so the
/// archive is rebuilt whenever one of its inputs changes.
#[derive(Debug, PartialEq, Eq)]
pub struct ArchiveBuild {
    pub archive: String,
    pub sources: Vec<String>,
}

/// The mathematical shape of an `ArchiveBuild`.
#[verifier::ext_equal]
pub struct ArchiveBuildView {
    pub archive: Seq<char>,
    pub sources: Seq<Seq<char>>,
}

impl View for ArchiveBuild {
    type V = ArchiveBuildView;

    open spec fn view(&self) -> ArchiveBuildView {
        ArchiveBuildView { archive: self.archive@, sources: self.sources.deep_view() }
    }
}

/// One step of the build: compile an archive, or emit a link directive.
#[derive(Debug, PartialEq, Eq)]
pub enum BuildStep {
    Compile(ArchiveBuild),
    Link(LinkDirective),
}

/// The mathematical shape of a `BuildStep`.
#[verifier::ext_equal]
pub enum StepView {
    Compile(ArchiveBuildView),
    Link(DirectiveView),
}

impl View for BuildStep {
    type V = StepView;

    open spec fn view(&self) -> StepView {
        match self {
            BuildStep::Compile(b) => StepView::Compile(b@),
            BuildStep::Link(d) => StepView::Link(d@),
        }
    }
}

impl DeepView for BuildStep {
    type V = StepView;

    open spec fn deep_view(&self) -> StepView {
        self@
    }
}

/// The archive name of a binary-specific program: the `git-` prefix keeps
/// this family apart from the shared core archives.
pub open spec fn spec_archive_name(name: Seq<char>) -> Seq<char> {
    "git-"@ + name
}

/// The raw link argument that links a library by name.
pub open spec fn spec_link_argument(name: Seq<char>) -> Seq<char> {
    "-l"@ + name
}

/// The steps one program descriptor contributes, in order: its dedicated
/// archive build, the raw link argument attaching that archive to its binary,
/// and one raw link argument per required external library, in declaration
/// order.
pub open spec fn spec_program_steps(d: DescriptorView) -> Seq<StepView> {
    seq![
        StepView::Compile(
            ArchiveBuildView { archive: spec_archive_name(d.name), sources: spec_source_set(d) },
        ),
        StepView::Link(
            DirectiveView::RawArg {
                binary: spec_archive_name(d.name),
                argument: spec_link_argument(spec_archive_name(d.name)),
            },
        ),
    ] + d.required_libraries.map_values(
        |l: Seq<char>|
            StepView::Link(
                DirectiveView::RawArg {
                    binary: spec_archive_name(d.name),
                    argument: spec_link_argument(l),
                },
            ),
    )
}

/// The steps of a whole descriptor table, one program after another.
pub open spec fn spec_table_steps(t: Seq<DescriptorView>) -> Seq<StepView>
    decreases t.len(),
{
    if t.len() == 0 {
        Seq::empty()
    } else {
        spec_program_steps(t[0]) + spec_table_steps(t.skip(1))
    }
}

/// The link steps of a sequence of external library references, one
/// reference after another, each classified on its own.
pub open spec fn spec_library_steps(refs: Seq<Seq<char>>) -> Seq<StepView>
    decreases refs.len(),
{
    if refs.len() == 0 {
        Seq::empty()
    } else {
        spec_library_directives(refs[0]).map_values(|d: DirectiveView| StepView::Link(d))
            + spec_library_steps(refs.skip(1))
    }
}

/// The whole build, in order: the shared core archives, the two
/// single-binary archives with their raw link arguments, every program of
/// the descriptor table, the build-wide link directives, and the
/// environment-supplied external libraries.
pub open spec fn spec_build_plan(
    builtin_sources: Seq<char>,
    libraries: Seq<char>,
    manifest_dir: Seq<char>,
) -> Seq<StepView> {
    seq![
        StepView::Compile(
            ArchiveBuildView { archive: "git-builtin"@, sources: split_units(builtin_sources) },
        ),
        StepView::Compile(
            ArchiveBuildView { archive: "git-common-main"@, sources: seq!["common-main.c"@] },
        ),
        StepView::Compile(ArchiveBuildView { archive: "git-main"@, sources: seq!["git.c"@] }),
        StepView::Link(
            DirectiveView::RawArg { binary: "git"@, argument: spec_link_argument("git-main"@) },
        ),
        StepView::Compile(ArchiveBuildView { archive: "scalar"@, sources: seq!["scalar.c"@] }),
        StepView::Link(
            DirectiveView::RawArg { binary: "scalar"@, argument: spec_link_argument("scalar"@) },
        ),
    ] + spec_table_steps(spec_program_table()) + seq![
        StepView::Link(DirectiveView::DynamicLib { name: "git-builtin"@ }),
        StepView::Link(DirectiveView::DynamicLib { name: "git-common-main"@ }),
        StepView::Link(DirectiveView::SearchDir { directory: manifest_dir }),
        StepView::Link(DirectiveView::DynamicLib { name: "git"@ }),
    ] + spec_library_steps(split_units(libraries))
}

proof fn lemma_table_steps_push(t: Seq<DescriptorView>, d: DescriptorView)
    ensures
        spec_table_steps(t.push(d)) == spec_table_steps(t) + spec_program_steps(d),
    decreases t.len(),
{
    if t.len() == 0 {
        assert(t.push(d)[0] == d);
        assert(t.push(d).skip(1) =~= Seq::<DescriptorView>::empty());
        assert(spec_table_steps(t.push(d)) == spec_program_steps(d) + spec_table_steps(
            Seq::<DescriptorView>::empty(),
        ));
        assert(spec_table_steps(Seq::<DescriptorView>::empty()) =~= Seq::<StepView>::empty());
        assert(spec_table_steps(t) =~= Seq::<StepView>::empty());
        assert(spec_table_steps(t.push(d)) =~= spec_table_steps(t) + spec_program_steps(d));
    } else {
        assert(t.push(d)[0] == t[0]);
        assert(t.push(d).skip(1) =~= t.skip(1).push(d));
        assert(spec_table_steps(t.push(d)) == spec_program_steps(t[0]) + spec_table_steps(
            t.skip(1).push(d),
        ));
        lemma_table_steps_push(t.skip(1), d);
        assert(spec_table_steps(t) == spec_program_steps(t[0]) + spec_table_steps(t.skip(1)));
        assert(spec_table_steps(t.push(d)) =~= spec_table_steps(t) + spec_program_steps(d));
    }
}

proof fn lemma_library_steps_push(refs: Seq<Seq<char>>, r: Seq<char>)
    ensures
        spec_library_steps(refs.push(r)) == spec_library_steps(refs) + spec_library_directives(
            r,
        ).map_values(|d: DirectiveView| StepView::Link(d)),
    decreases refs.len(),
{
    let refmap = spec_library_directives(r).map_values(|d: DirectiveView| StepView::Link(d));
    if refs.len() == 0 {
        assert(refs.push(r)[0] == r);
        assert(refs.push(r).skip(1) =~= Seq::<Seq<char>>::empty());
        assert(spec_library_steps(refs.push(r)) == refmap + spec_library_steps(
            Seq::<Seq<char>>::empty(),
        ));
        assert(spec_library_steps(Seq::<Seq<char>>::empty()) =~= Seq::<StepView>::empty());
        assert(spec_library_steps(refs) =~= Seq::<StepView>::empty());
        assert(spec_library_steps(refs.push(r)) =~= spec_library_steps(refs) + refmap);
    } else {
        assert(refs.push(r)[0] == refs[0]);
        assert(refs.push(r).skip(1) =~= refs.skip(1).push(r));
        assert(spec_library_steps(refs.push(r)) == spec_library_directives(refs[0]).map_values(
            |d: DirectiveView| StepView::Link(d),
        ) + spec_library_steps(refs.skip(1).push(r)));
        lemma_library_steps_push(refs.skip(1), r);
        assert(spec_library_steps(refs) == spec_library_directives(refs[0]).map_values(
            |d: DirectiveView| StepView::Link(d),
        ) + spec_library_steps(refs.skip(1)));
        assert(spec_library_steps(refs.push(r)) =~= spec_library_steps(refs) + refmap);
    }
}

/// Archive names are unique across the whole build: the four fixed archive
/// names differ pairwise, every per-program archive name differs from each
/// of them, and two distinct programs of the table never share an archive
/// name. An archive, once produced, is therefore referenced by name alone
/// without ambiguity.
pub proof fn lemma_archive_names_unique()
    ensures
        "git-builtin"@ != "git-common-main"@,
        "git-builtin"@ != "git-main"@,
        "git-builtin"@ != "scalar"@,
        "git-common-main"@ != "git-main"@,
        "git-common-main"@ != "scalar"@,
        "git-main"@ != "scalar"@,
        forall|i: int, j: int|
            0 <= i < j < spec_program_table().len() ==> spec_archive_name(
                #[trigger] spec_program_table()[i].name,
            ) != spec_archive_name(#[trigger] spec_program_table()[j].name),
        forall|i: int|
            0 <= i < spec_program_table().len() ==> (spec_archive_name(
                #[trigger] spec_program_table()[i].name,
            ) != "git-builtin"@ && spec_archive_name(spec_program_table()[i].name)
                != "git-common-main"@ && spec_archive_name(spec_program_table()[i].name)
                != "git-main"@ && spec_archive_name(spec_program_table()[i].name) != "scalar"@),
{
    reveal_strlit("git-");
    reveal_strlit("git-builtin");
    reveal_strlit("git-common-main");
    reveal_strlit("git-main");
    reveal_strlit("scalar");
    reveal_strlit("daemon");
    reveal_strlit("http-backend");
    reveal_strlit("imap-send");
    reveal_strlit("sh-i18n--envsubst");
    reveal_strlit("shell");
    reveal_strlit("http-fetch");
    reveal_strlit("http-push");
    reveal_strlit("remote-http");
    assert("git-builtin"@.len() == 11);
    assert("git-common-main"@.len() == 15);
    assert("git-main"@.len() == 8);
    assert("scalar"@.len() == 6);
    assert("git-"@.len() == 4);
    let t = spec_program_table();
    assert forall|i: int, j: int| 0 <= i < j < t.len() implies spec_archive_name(
        t[i].name,
    ) != spec_archive_name(t[j].name) by {
        // Almost every pair of names already differs in length; the one
        // equal-length pair differs in its first character.
        if i == 2 && j == 6 {
            assert(spec_archive_name(t[2].name)[4] == 'i');
            assert(spec_archive_name(t[6].name)[4] == 'h');
        } else {
            assert(spec_archive_name(t[i].name).len() == 4 + t[i].name.len());
            assert(spec_archive_name(t[j].name).len() == 4 + t[j].name.len());
            if i == 0 {
            } else if i == 1 {
            } else if i == 2 {
            } else if i == 3 {
            } else if i == 4 {
            } else if i == 5 {
            } else if i == 6 {
            }
            if j == 1 {
            } else if j == 2 {
            } else if j == 3 {
            } else if j == 4 {
            } else if j == 5 {
            } else if j == 6 {
            } else if j == 7 {
            }
        }
    }
    assert forall|i: int| 0 <= i < t.len() implies (spec_archive_name(t[i].name)
        != "git-builtin"@ && spec_archive_name(t[i].name) != "git-common-main"@
        && spec_archive_name(t[i].name) != "git-main"@ && spec_archive_name(t[i].name)
        != "scalar"@) by {
        assert(spec_archive_name(t[i].name).len() == 4 + t[i].name.len());
        if i == 7 {
            // Same length as one fixed archive name; they differ right after
            // the prefix.
            assert(spec_archive_name(t[7].name)[4] == 'r');
            assert("git-common-main"@[4] == 'c');
        } else if i == 0 {
        } else if i == 1 {
        } else if i == 2 {
        } else if i == 3 {
        } else if i == 4 {
        } else if i == 5 {
        } else if i == 6 {
        }
    }
}

fn archive_name(name: &str) -> (r: String)
    ensures
        r@ == spec_archive_name(name@),
{
    let mut r = "git-".to_owned();
    r.append(name);
    r
}

fn link_argument(name: &str) -> (r: String)
    ensures
        r@ == spec_link_argument(name@),
{
    let mut r = "-l".to_owned();
    r.append(name);
    r
}

fn single_source(path: &str) -> (r: Vec<String>)
    ensures
        r.deep_view() == seq![path@],
{
    let mut r: Vec<String> = Vec::new();
    r.push(path.to_owned());
    proof {
        assert(r.deep_view() =~= seq![path@]);
    }
    r
}

/// Copy one link directive so it can stand in a build step.
fn directive_copy(d: &LinkDirective) -> (r: LinkDirective)
    ensures
        r@ == d@,
{
    match d {
        LinkDirective::SearchDir { directory } => LinkDirective::SearchDir {
            directory: directory.clone(),
        },
        LinkDirective::StaticLib { name } => LinkDirective::StaticLib { name: name.clone() },
        LinkDirective::DynamicLib { name } => LinkDirective::DynamicLib { name: name.clone() },
        LinkDirective::RawArg { binary, argument } => LinkDirective::RawArg {
            binary: binary.clone(),
            argument: argument.clone(),
        },
    }
}

/// Append the steps of one program descriptor.
fn push_program_steps(steps: &mut Vec<BuildStep>, d: &ProgramDescriptor)
    ensures
        final(steps).deep_view() == old(steps).deep_view() + spec_program_steps(d@),
{
    let ghost base = steps.deep_view();
    let name = archive_name(d.name.as_str());
    let sources = d.source_set();
    steps.push(BuildStep::Compile(ArchiveBuild { archive: name, sources }));
    let binary = archive_name(d.name.as_str());
    let argument = link_argument(binary.as_str());
    steps.push(BuildStep::Link(LinkDirective::RawArg { binary, argument }));
    let ghost head = steps.deep_view();
    let ghost libmap = d@.required_libraries.map_values(
        |l: Seq<char>|
            StepView::Link(
                DirectiveView::RawArg {
                    binary: spec_archive_name(d@.name),
                    argument: spec_link_argument(l),
                },
            ),
    );
    proof {
        assert(steps.deep_view() =~~= head + libmap.take(0));
    }
    let mut q: usize = 0;
    while q < d.required_libraries.len()
        invariant
            q <= d.required_libraries.len(),
            libmap == d@.required_libraries.map_values(
                |l: Seq<char>|
                    StepView::Link(
                        DirectiveView::RawArg {
                            binary: spec_archive_name(d@.name),
                            argument: spec_link_argument(l),
                        },
                    ),
            ),
            steps.deep_view() == head + libmap.take(q as int),
        decreases d.required_libraries.len() - q,
    {
        let binary = archive_name(d.name.as_str());
        let argument = link_argument(d.required_libraries[q].as_str());
        let ghost s0 = steps.deep_view();
        steps.push(BuildStep::Link(LinkDirective::RawArg { binary, argument }));
        proof {
            assert(d@.required_libraries[q as int] == d.required_libraries[q as int]@);
            assert(steps.deep_view() =~~= s0.push(libmap[q as int]));
            assert(libmap.take(q as int + 1) =~~= libmap.take(q as int).push(libmap[q as int]));
            assert(steps.deep_view() =~~= head + libmap.take(q as int + 1));
        }
        q = q + 1;
    }
    proof {
        assert(libmap.take(d.required_libraries.len() as int) =~~= libmap);
        assert(steps.deep_view() =~~= base + spec_program_steps(d@));
    }
}

/// Append the link steps of one external library reference.
fn push_library_steps(steps: &mut Vec<BuildStep>, reference: &str)
    ensures
        final(steps).deep_view() == old(steps).deep_view() + spec_library_directives(
            reference@,
        ).map_values(|d: DirectiveView| StepView::Link(d)),
{
    let ghost base = steps.deep_view();
    let ghost dirmap = spec_library_directives(reference@).map_values(
        |d: DirectiveView| StepView::Link(d),
    );
    let directives = library_directives(reference);
    let mut k: usize = 0;
    proof {
        assert(steps.deep_view() =~~= base + dirmap.take(0));
    }
    while k < directives.len()
        invariant
            k <= directives.len(),
            directives.deep_view() == spec_library_directives(reference@),
            dirmap == spec_library_directives(reference@).map_values(
                |d: DirectiveView| StepView::Link(d),
            ),
            steps.deep_view() == base + dirmap.take(k as int),
        decreases directives.len() - k,
    {
        let step = directive_copy(&directives[k]);
        let ghost s0 = steps.deep_view();
        steps.push(BuildStep::Link(step));
        proof {
            assert(steps.deep_view() =~~= s0.push(dirmap[k as int]));
            assert(dirmap.take(k as int + 1) =~~= dirmap.take(k as int).push(dirmap[k as int]));
            assert(steps.deep_view() =~~= base + dirmap.take(k as int + 1));
        }
        k = k + 1;
    }
    proof {
        assert(dirmap.take(directives.len() as int) =~~= dirmap);
    }
}

/// Assemble the plan of one whole build from the environment-supplied
/// source and library lists and the manifest directory. An absent mandatory
/// list is a fatal configuration error: the result is then an error naming
/// the variable, and no step — so no partial build — exists at all.
pub fn build_plan(
    builtin_sources: Option<String>,
    rust_libs: Option<String>,
    manifest_dir: String,
) -> (r: Result<Vec<BuildStep>, BuildError>)
    ensures
        builtin_sources is None ==> (r matches Err(BuildError::MissingSourceList {
            variable: v,
        }) && v@ == "BUILTIN_SRCS"@),
        builtin_sources is Some && rust_libs is None ==> (r matches Err(
            BuildError::MissingLibraryList { variable: v },
        ) && v@ == "RUST_LIBS"@),
        builtin_sources is Some && rust_libs is Some ==> (r matches Ok(steps)
            && steps.deep_view() == spec_build_plan(
            builtin_sources->Some_0@,
            rust_libs->Some_0@,
            manifest_dir@,
        )),
{
    let ghost b_view = match builtin_sources {
        Some(ref b) => b@,
        None => Seq::empty(),
    };
    let builtin_units = match resolve_source_list("BUILTIN_SRCS", builtin_sources) {
        Ok(units) => units,
        Err(e) => {
            return Err(e);
        },
    };
    let libraries = match rust_libs {
        Some(l) => l,
        None => {
            return Err(BuildError::MissingLibraryList { variable: "RUST_LIBS".to_owned() });
        },
    };
    let mut steps: Vec<BuildStep> = Vec::new();
    steps.push(
        BuildStep::Compile(ArchiveBuild { archive: "git-builtin".to_owned(), sources: builtin_units }),
    );
    steps.push(
        BuildStep::Compile(
            ArchiveBuild {
                archive: "git-common-main".to_owned(),
                sources: single_source("common-main.c"),
            },
        ),
    );
    steps.push(
        BuildStep::Compile(
            ArchiveBuild { archive: "git-main".to_owned(), sources: single_source("git.c") },
        ),
    );
    steps.push(
        BuildStep::Link(
            LinkDirective::RawArg { binary: "git".to_owned(), argument: link_argument("git-main") },
        ),
    );
    steps.push(
        BuildStep::Compile(
            ArchiveBuild { archive: "scalar".to_owned(), sources: single_source("scalar.c") },
        ),
    );
    steps.push(
        BuildStep::Link(
            LinkDirective::RawArg { binary: "scalar".to_owned(), argument: link_argument("scalar") },
        ),
    );
    let ghost opening = steps.deep_view();
    proof {
        assert(opening =~~= seq![
            StepView::Compile(
                ArchiveBuildView { archive: "git-builtin"@, sources: split_units(b_view) },
            ),
            StepView::Compile(
                ArchiveBuildView { archive: "git-common-main"@, sources: seq!["common-main.c"@] },
            ),
            StepView::Compile(ArchiveBuildView { archive: "git-main"@, sources: seq!["git.c"@] }),
            StepView::Link(
                DirectiveView::RawArg { binary: "git"@, argument: spec_link_argument("git-main"@) },
            ),
            StepView::Compile(ArchiveBuildView { archive: "scalar"@, sources: seq!["scalar.c"@] }),
            StepView::Link(
                DirectiveView::RawArg { binary: "scalar"@, argument: spec_link_argument("scalar"@) },
            ),
        ]);
    }
    let table = program_table();
    let ghost t = table.deep_view();
    let mut p: usize = 0;
    proof {
        assert(spec_table_steps(t.take(0)) =~= Seq::<StepView>::empty());
        assert(steps.deep_view() =~~= opening + spec_table_steps(t.take(0)));
    }
    while p < table.len()
        invariant
            p <= table.len(),
            t == table.deep_view(),
            steps.deep_view() == opening + spec_table_steps(t.take(p as int)),
        decreases table.len() - p,
    {
        push_program_steps(&mut steps, &table[p]);
        proof {
            lemma_table_steps_push(t.take(p as int), t[p as int]);
            assert(t.take(p as int).push(t[p as int]) =~= t.take(p as int + 1));
            assert(steps.deep_view() =~~= opening + spec_table_steps(t.take(p as int + 1)));
        }
        p = p + 1;
    }
    proof {
        assert(t.take(table.len() as int) =~= t);
    }
    steps.push(BuildStep::Link(LinkDirective::DynamicLib { name: "git-builtin".to_owned() }));
    steps.push(BuildStep::Link(LinkDirective::DynamicLib { name: "git-common-main".to_owned() }));
    steps.push(BuildStep::Link(LinkDirective::SearchDir { directory: manifest_dir }));
    steps.push(BuildStep::Link(LinkDirective::DynamicLib { name: "git".to_owned() }));
    let ghost closing = steps.deep_view();
    let references = split_source_list(libraries.as_str());
    let ghost refs = references.deep_view();
    let mut q: usize = 0;
    proof {
        assert(spec_library_steps(refs.take(0)) =~= Seq::<StepView>::empty());
        assert(steps.deep_view() =~~= closing + spec_library_steps(refs.take(0)));
    }
    while q < references.len()
        invariant
            q <= references.len(),
            refs == references.deep_view(),
            steps.deep_view() == closing + spec_library_steps(refs.take(q as int)),
        decreases references.len() - q,
    {
        push_library_steps(&mut steps, references[q].as_str());
        proof {
            lemma_library_steps_push(refs.take(q as int), refs[q as int]);
            assert(refs.take(q as int).push(refs[q as int]) =~= refs.take(q as int + 1));
            assert(steps.deep_view() =~~= closing + spec_library_steps(refs.take(q as int + 1)));
        }
        q = q + 1;
    }
    proof {
        assert(refs.take(references.len() as int) =~= refs);
        assert(steps.deep_view() =~~= spec_build_plan(b_view, libraries@, manifest_dir@));
    }
    Ok(steps)
}

} // verus!
