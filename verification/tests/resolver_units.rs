use buildlink::resolver::BuildError;
use buildlink::resolver::resolve_source_list;
use buildlink::resolver::split_source_list;

fn strings(v: &[&str]) -> Vec<String> {
    v.iter().map(|s| s.to_string()).collect()
}

#[test]
fn split_two_units() {
    assert_eq!(split_source_list("a.c b.c"), strings(&["a.c", "b.c"]));
}

#[test]
fn split_collapses_consecutive_whitespace() {
    assert_eq!(
        split_source_list("  a.c \t\n b.c  "),
        strings(&["a.c", "b.c"])
    );
}

#[test]
fn split_empty_string_gives_no_units() {
    assert_eq!(split_source_list(""), strings(&[]));
}

#[test]
fn split_whitespace_only_gives_no_units() {
    assert_eq!(split_source_list(" \t\r\n\u{c} "), strings(&[]));
}

#[test]
fn split_recognises_every_ascii_whitespace_separator() {
    assert_eq!(
        split_source_list("a\tb\nc\rd\u{c}e f"),
        strings(&["a", "b", "c", "d", "e", "f"])
    );
}

#[test]
fn split_preserves_order_and_duplicates() {
    assert_eq!(
        split_source_list("x.c y.c x.c"),
        strings(&["x.c", "y.c", "x.c"])
    );
}

#[test]
fn split_length_matches_runs_and_units_hold_no_whitespace() {
    let units = split_source_list("one two  three\tfour\n");
    assert_eq!(units.len(), 4);
    for unit in &units {
        assert!(!unit.is_empty());
        assert!(!unit.contains(|c: char| c.is_ascii_whitespace()));
    }
}

#[test]
fn resolve_present_list_splits_it() {
    let r = resolve_source_list("BUILTIN_SRCS", Some("alpha.c beta.c".to_string()));
    assert_eq!(r, Ok(strings(&["alpha.c", "beta.c"])));
}

#[test]
fn resolve_missing_list_reports_the_variable() {
    let r = resolve_source_list("BUILTIN_SRCS", None);
    assert_eq!(
        r,
        Err(BuildError::MissingSourceList {
            variable: "BUILTIN_SRCS".to_string()
        })
    );
}
