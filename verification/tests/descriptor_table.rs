use buildlink::descriptor::ProgramDescriptor;
use buildlink::descriptor::program_table;

fn strings(v: &[&str]) -> Vec<String> {
    v.iter().map(|s| s.to_string()).collect()
}

#[test]
fn self_named_main_alone_gives_one_unit() {
    let d = ProgramDescriptor {
        name: "daemon".to_string(),
        has_self_named_main: true,
        extra_sources: vec![],
        required_libraries: vec![],
    };
    assert_eq!(d.source_set(), strings(&["daemon.c"]));
}

#[test]
fn source_set_keeps_order_and_duplicates() {
    let d = ProgramDescriptor {
        name: "http-fetch".to_string(),
        has_self_named_main: true,
        extra_sources: strings(&["http.c", "http-walker.c", "http-fetch.c"]),
        required_libraries: strings(&["curl"]),
    };
    assert_eq!(
        d.source_set(),
        strings(&["http-fetch.c", "http.c", "http-walker.c", "http-fetch.c"])
    );
}

#[test]
fn without_self_named_main_only_extras_are_compiled() {
    let d = ProgramDescriptor {
        name: "remote-http".to_string(),
        has_self_named_main: false,
        extra_sources: strings(&["remote-curl.c", "http.c", "http-walker.c"]),
        required_libraries: strings(&["curl", "expat"]),
    };
    assert_eq!(
        d.source_set(),
        strings(&["remote-curl.c", "http.c", "http-walker.c"])
    );
}

#[test]
fn table_lists_the_eight_programs_in_declaration_order() {
    let table = program_table();
    let names: Vec<String> = table.iter().map(|d| d.name.clone()).collect();
    assert_eq!(
        names,
        strings(&[
            "daemon",
            "http-backend",
            "imap-send",
            "sh-i18n--envsubst",
            "shell",
            "http-fetch",
            "http-push",
            "remote-http",
        ])
    );
}

#[test]
fn table_records_required_libraries_in_order() {
    let table = program_table();
    assert_eq!(table[6].name, "http-push");
    assert_eq!(table[6].required_libraries, strings(&["curl", "expat"]));
    assert_eq!(table[5].required_libraries, strings(&["curl"]));
    assert_eq!(table[0].required_libraries, strings(&[]));
}

#[test]
fn table_only_remote_http_lacks_a_self_named_main() {
    let table = program_table();
    for d in &table {
        assert_eq!(d.has_self_named_main, d.name != "remote-http");
    }
}
