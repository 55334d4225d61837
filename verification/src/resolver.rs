//! Source Set Resolver: turns whitespace-delimited path lists into ordered
//! sequences of compilation units, and reports a missing mandatory
//! environment-supplied list as a fatal configuration error.

use vstd::prelude::*;

verus! {

/// The separators recognised when splitting a source list: exactly the ASCII
/// whitespace characters.
pub open spec fn is_list_sep(c: char) -> bool {
    c == ' ' || c == '\t' || c == '\n' || c == '\r' || c == '\x0c'
}

/// Length of the maximal non-separator run at the front of `s`.
pub open spec fn leading_unit_len(s: Seq<char>) -> nat
    decreases s.len(),
{
    if s.len() == 0 || is_list_sep(s[0]) {
        0
    } else {
        1 + leading_unit_len(s.skip(1))
    }
}

/// The ordered sequence of maximal non-separator runs of `s`: the compilation
/// units a source-list string resolves to.
pub open spec fn split_units(s: Seq<char>) -> Seq<Seq<char>>
    decreases s.len(),
    via split_units_decreases
{
    if s.len() == 0 {
        Seq::empty()
    } else if is_list_sep(s[0]) {
        split_units(s.skip(1))
    } else {
        seq![s.take(leading_unit_len(s) as int)] + split_units(s.skip(leading_unit_len(s) as int))
    }
}

#[via_fn]
proof fn split_units_decreases(s: Seq<char>) {
    if s.len() != 0 && !is_list_sep(s[0]) {
        lemma_leading_unit_len_le(s);
        assert(leading_unit_len(s) >= 1);
    }
}

proof fn lemma_leading_unit_len_le(s: Seq<char>)
    ensures
        leading_unit_len(s) <= s.len(),
    decreases s.len(),
{
    if s.len() != 0 && !is_list_sep(s[0]) {
        lemma_leading_unit_len_le(s.skip(1));
    }
}

/// Splitting a string that starts with a separator ignores that character.
proof fn lemma_split_past_sep(s: Seq<char>, i: int)
    requires
        0 <= i < s.len(),
        is_list_sep(s[i]),
    ensures
        split_units(s.skip(i)) == split_units(s.skip(i + 1)),
{
    assert(s.skip(i).skip(1) =~= s.skip(i + 1));
}

/// The length of the unit at the front of `t` is pinned by where the first
/// separator (or the end) stands.
proof fn lemma_leading_unit_len_run(t: Seq<char>, m: int)
    requires
        0 <= m <= t.len(),
        forall|k: int| 0 <= k < m ==> !is_list_sep(t[k]),
        m < t.len() ==> is_list_sep(t[m]),
    ensures
        leading_unit_len(t) == m,
    decreases m,
{
    if m == 0 {
    } else {
        assert(!is_list_sep(t[0]));
        let t1 = t.skip(1);
        assert forall|k: int| 0 <= k < m - 1 implies !is_list_sep(t1[k]) by {
            assert(t1[k] == t[k + 1]);
        }
        if m - 1 < t1.len() {
            assert(t1[m - 1] == t[m]);
        }
        lemma_leading_unit_len_run(t1, m - 1);
    }
}

/// Splitting a string whose characters from `i` up to `j` form a maximal
/// non-separator run yields that run followed by the split of the rest.
proof fn lemma_split_at_unit(s: Seq<char>, i: int, j: int)
    requires
        0 <= i < j <= s.len(),
        forall|k: int| i <= k < j ==> !is_list_sep(s[k]),
        j < s.len() ==> is_list_sep(s[j]),
    ensures
        split_units(s.skip(i)) == seq![s.subrange(i, j)] + split_units(s.skip(j)),
{
    let t = s.skip(i);
    assert forall|k: int| 0 <= k < j - i implies !is_list_sep(t[k]) by {
        assert(t[k] == s[k + i]);
    }
    if j - i < t.len() {
        assert(t[j - i] == s[j]);
    }
    lemma_leading_unit_len_run(t, j - i);
    assert(t.take(j - i) =~= s.subrange(i, j));
    assert(t.skip(j - i) =~= s.skip(j));
}

/// Counts the separator-to-unit transitions of `s`, given whether the
/// character before `s` (if any) was a separator: the number of maximal
/// non-separator runs.
pub open spec fn unit_count_from(s: Seq<char>, after_sep: bool) -> nat
    decreases s.len(),
{
    if s.len() == 0 {
        0
    } else {
        (if after_sep && !is_list_sep(s[0]) {
            1nat
        } else {
            0nat
        }) + unit_count_from(s.skip(1), is_list_sep(s[0]))
    }
}

/// The number of maximal non-separator runs of `s`.
pub open spec fn unit_count(s: Seq<char>) -> nat {
    unit_count_from(s, true)
}

/// Inside a run the count does not depend on what came before, and crossing
/// the run changes nothing.
proof fn lemma_unit_count_within_run(s: Seq<char>, m: int)
    requires
        0 <= m <= s.len(),
        forall|k: int| 0 <= k < m ==> !is_list_sep(s[k]),
    ensures
        unit_count_from(s, false) == unit_count_from(s.skip(m), false),
    decreases m,
{
    if m == 0 {
        assert(s.skip(0) =~= s);
    } else {
        let s1 = s.skip(1);
        assert forall|k: int| 0 <= k < m - 1 implies !is_list_sep(s1[k]) by {
            assert(s1[k] == s[k + 1]);
        }
        lemma_unit_count_within_run(s1, m - 1);
        assert(s1.skip(m - 1) =~= s.skip(m));
    }
}

/// At a separator (or at the end) the flag does not matter.
proof fn lemma_unit_count_at_sep(s: Seq<char>)
    requires
        s.len() == 0 || is_list_sep(s[0]),
    ensures
        unit_count_from(s, false) == unit_count_from(s, true),
{
}

/// Every produced unit is a non-empty run free of separators, and the number
/// of units is exactly the number of maximal non-separator runs of the input:
/// the resolver neither drops a path nor manufactures an empty one.
pub proof fn lemma_split_units_are_runs(s: Seq<char>)
    ensures
        split_units(s).len() == unit_count(s),
        forall|i: int|
            0 <= i < split_units(s).len() ==> (#[trigger] split_units(s)[i]).len() > 0,
        forall|i: int, k: int|
            0 <= i < split_units(s).len() && 0 <= k < split_units(s)[i].len() ==> !is_list_sep(
                #[trigger] split_units(s)[i][k],
            ),
    decreases s.len(),
{
    if s.len() == 0 {
    } else if is_list_sep(s[0]) {
        lemma_split_units_are_runs(s.skip(1));
        assert(unit_count_from(s, true) == unit_count_from(s.skip(1), true));
    } else {
        let m = leading_unit_len(s) as int;
        lemma_leading_unit_len_le(s);
        lemma_leading_unit_len_is_run(s);
        let rest = s.skip(m);
        lemma_split_units_are_runs(rest);
        // The unit count steps once at the front of the run, stays flat
        // inside it, and continues as the count of the rest.
        assert(unit_count_from(s, true) == 1 + unit_count_from(s.skip(1), false));
        let s1 = s.skip(1);
        assert forall|k: int| 0 <= k < m - 1 implies !is_list_sep(s1[k]) by {
            assert(s1[k] == s[k + 1]);
        }
        lemma_unit_count_within_run(s1, m - 1);
        assert(s1.skip(m - 1) =~= rest);
        if rest.len() == 0 || is_list_sep(rest[0]) {
            lemma_unit_count_at_sep(rest);
        }
        assert(split_units(s) == seq![s.take(m)] + split_units(rest));
        assert forall|i: int, k: int|
            0 <= i < split_units(s).len() && 0 <= k < split_units(s)[i].len() implies !is_list_sep(
            split_units(s)[i][k],
        ) by {
            if i == 0 {
                assert(split_units(s)[0] == s.take(m));
                assert(s.take(m)[k] == s[k]);
            } else {
                assert(split_units(s)[i] == split_units(rest)[i - 1]);
            }
        }
    }
}

/// The leading run really is a run: no separator inside it, and a separator
/// (or the end) right after it.
proof fn lemma_leading_unit_len_is_run(s: Seq<char>)
    ensures
        forall|k: int| 0 <= k < leading_unit_len(s) ==> !is_list_sep(s[k]),
        leading_unit_len(s) < s.len() ==> is_list_sep(s[leading_unit_len(s) as int]),
    decreases s.len(),
{
    if s.len() != 0 && !is_list_sep(s[0]) {
        let s1 = s.skip(1);
        lemma_leading_unit_len_le(s);
        lemma_leading_unit_len_le(s1);
        lemma_leading_unit_len_is_run(s1);
        assert forall|k: int| 0 <= k < leading_unit_len(s) implies !is_list_sep(s[k]) by {
            if k > 0 {
                assert(s1[k - 1] == s[k]);
            }
        }
        if leading_unit_len(s) < s.len() {
            assert(s1[leading_unit_len(s1) as int] == s[leading_unit_len(s) as int]);
        }
    }
}

/// A fatal configuration error: the build aborts before any compilation is
/// attempted.
#[derive(Debug, PartialEq, Eq)]
pub enum BuildError {
    /// A mandatory environment-supplied source list is absent; the variable
    /// name is reported.
    MissingSourceList { variable: String },
    /// A mandatory environment-supplied library list is absent; the variable
    /// name is reported.
    MissingLibraryList { variable: String },
}

/// Resolve a named, environment-supplied source list: `value` is what the
/// environment holds for the variable `variable`. An absent variable is a
/// fatal `MissingSourceList` error; a present one is split into its
/// compilation units.
pub fn resolve_source_list(variable: &str, value: Option<String>) -> (r: Result<
    Vec<String>,
    BuildError,
>)
    ensures
        value matches Some(v) ==> r matches Ok(units) && units.deep_view() == split_units(v@),
        value is None ==> (r matches Err(BuildError::MissingSourceList { variable: v }) && v@
            == variable@),
{
    match value {
        Some(v) => Ok(split_source_list(v.as_str())),
        None => Err(BuildError::MissingSourceList { variable: variable.to_owned() }),
    }
}

fn is_sep(c: char) -> (r: bool)
    ensures
        r == is_list_sep(c),
{
    c == ' ' || c == '\t' || c == '\n' || c == '\r' || c == '\x0c'
}

/// Split a whitespace-delimited source-list string into its compilation
/// units: the maximal non-whitespace runs, in order, with consecutive
/// whitespace collapsed so that no empty unit is produced.
pub fn split_source_list(s: &str) -> (r: Vec<String>)
    ensures
        r.deep_view() == split_units(s@),
{
    let n = s.unicode_len();
    let mut r: Vec<String> = Vec::new();
    let mut i: usize = 0;
    proof {
        assert(s@.skip(0) =~= s@);
        assert(r.deep_view() =~= Seq::<Seq<char>>::empty());
        assert(r.deep_view() + split_units(s@) =~= split_units(s@));
    }
    while i < n
        invariant
            n == s@.len(),
            i <= n,
            r.deep_view() + split_units(s@.skip(i as int)) == split_units(s@),
        decreases n - i,
    {
        let c = s.get_char(i);
        if is_sep(c) {
            proof {
                lemma_split_past_sep(s@, i as int);
            }
            i = i + 1;
        } else {
            let start = i;
            let mut j = i + 1;
            while j < n && !is_sep(s.get_char(j))
                invariant
                    n == s@.len(),
                    i < j <= n,
                    forall|k: int| i <= k < j ==> !is_list_sep(s@[k]),
                decreases n - j,
            {
                j = j + 1;
            }
            let unit = s.substring_char(start, j);
            let ghost old_r = r.deep_view();
            r.push(unit.to_owned());
            proof {
                lemma_split_at_unit(s@, i as int, j as int);
                assert(r.deep_view() =~= old_r + seq![s@.subrange(i as int, j as int)]);
                assert(r.deep_view() + split_units(s@.skip(j as int)) =~= split_units(s@));
            }
            i = j;
        }
    }
    proof {
        assert(s@.skip(n as int) =~= Seq::<char>::empty());
        assert(r.deep_view() =~= split_units(s@));
    }
    r
}

} // verus!
