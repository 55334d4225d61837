use buildlink::link::LinkDirective;
use buildlink::plan::BuildStep;
use buildlink::plan::build_plan;
use buildlink::resolver::BuildError;

fn strings(v: &[&str]) -> Vec<String> {
    v.iter().map(|s| s.to_string()).collect()
}

fn compile(archive: &str, sources: &[&str]) -> BuildStep {
    BuildStep::Compile(buildlink::plan::ArchiveBuild {
        archive: archive.to_string(),
        sources: strings(sources),
    })
}

fn raw_arg(binary: &str, argument: &str) -> BuildStep {
    BuildStep::Link(LinkDirective::RawArg {
        binary: binary.to_string(),
        argument: argument.to_string(),
    })
}

fn dynamic(name: &str) -> BuildStep {
    BuildStep::Link(LinkDirective::DynamicLib {
        name: name.to_string(),
    })
}

#[test]
fn missing_source_list_aborts_before_any_step() {
    let r = build_plan(None, Some("curl".to_string()), "/proj".to_string());
    assert_eq!(
        r,
        Err(BuildError::MissingSourceList {
            variable: "BUILTIN_SRCS".to_string()
        })
    );
}

#[test]
fn missing_library_list_aborts_before_any_step() {
    let r = build_plan(Some("a.c".to_string()), None, "/proj".to_string());
    assert_eq!(
        r,
        Err(BuildError::MissingLibraryList {
            variable: "RUST_LIBS".to_string()
        })
    );
}

#[test]
fn plan_is_the_whole_build_in_order() {
    let steps = build_plan(
        Some("a.c b.c".to_string()),
        Some("m /usr/lib/libz.a dir/".to_string()),
        "/proj".to_string(),
    )
    .unwrap();
    let expected = vec![
        compile("git-builtin", &["a.c", "b.c"]),
        compile("git-common-main", &["common-main.c"]),
        compile("git-main", &["git.c"]),
        raw_arg("git", "-lgit-main"),
        compile("scalar", &["scalar.c"]),
        raw_arg("scalar", "-lscalar"),
        compile("git-daemon", &["daemon.c"]),
        raw_arg("git-daemon", "-lgit-daemon"),
        compile("git-http-backend", &["http-backend.c"]),
        raw_arg("git-http-backend", "-lgit-http-backend"),
        compile("git-imap-send", &["imap-send.c"]),
        raw_arg("git-imap-send", "-lgit-imap-send"),
        compile("git-sh-i18n--envsubst", &["sh-i18n--envsubst.c"]),
        raw_arg("git-sh-i18n--envsubst", "-lgit-sh-i18n--envsubst"),
        compile("git-shell", &["shell.c"]),
        raw_arg("git-shell", "-lgit-shell"),
        compile(
            "git-http-fetch",
            &["http-fetch.c", "http.c", "http-walker.c", "http-fetch.c"],
        ),
        raw_arg("git-http-fetch", "-lgit-http-fetch"),
        raw_arg("git-http-fetch", "-lcurl"),
        compile("git-http-push", &["http-push.c", "http.c", "http-push.c"]),
        raw_arg("git-http-push", "-lgit-http-push"),
        raw_arg("git-http-push", "-lcurl"),
        raw_arg("git-http-push", "-lexpat"),
        compile(
            "git-remote-http",
            &["remote-curl.c", "http.c", "http-walker.c"],
        ),
        raw_arg("git-remote-http", "-lgit-remote-http"),
        raw_arg("git-remote-http", "-lcurl"),
        raw_arg("git-remote-http", "-lexpat"),
        dynamic("git-builtin"),
        dynamic("git-common-main"),
        BuildStep::Link(LinkDirective::SearchDir {
            directory: "/proj".to_string(),
        }),
        dynamic("git"),
        dynamic("m"),
        BuildStep::Link(LinkDirective::SearchDir {
            directory: "/usr/lib".to_string(),
        }),
        BuildStep::Link(LinkDirective::StaticLib {
            name: "z".to_string(),
        }),
    ];
    assert_eq!(steps, expected);
}

#[test]
fn empty_library_list_adds_no_trailing_directives() {
    let steps = build_plan(
        Some("a.c".to_string()),
        Some("".to_string()),
        "/proj".to_string(),
    )
    .unwrap();
    assert_eq!(steps.len(), 31);
    assert_eq!(*steps.last().unwrap(), dynamic("git"));
}

#[test]
fn whitespace_only_library_list_adds_no_trailing_directives() {
    let steps = build_plan(
        Some("a.c".to_string()),
        Some(" \t\n ".to_string()),
        "/proj".to_string(),
    )
    .unwrap();
    assert_eq!(steps.len(), 31);
}
