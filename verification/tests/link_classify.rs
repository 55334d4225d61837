use buildlink::link::LinkDirective;
use buildlink::link::Resolution;
use buildlink::link::library_directives;
use buildlink::link::resolve_library;

#[test]
fn static_archive_with_directory_gets_search_and_static() {
    assert_eq!(
        library_directives("/usr/lib/libfoo.a"),
        vec![
            LinkDirective::SearchDir {
                directory: "/usr/lib".to_string()
            },
            LinkDirective::StaticLib {
                name: "foo".to_string()
            },
        ]
    );
}

#[test]
fn static_archive_with_relative_directory() {
    assert_eq!(
        library_directives("deps/libbar.a"),
        vec![
            LinkDirective::SearchDir {
                directory: "deps".to_string()
            },
            LinkDirective::StaticLib {
                name: "bar".to_string()
            },
        ]
    );
}

#[test]
fn static_archive_without_directory_gets_static_only() {
    assert_eq!(
        library_directives("libfoo.a"),
        vec![LinkDirective::StaticLib {
            name: "foo".to_string()
        }]
    );
}

#[test]
fn bare_name_is_dynamic_unchanged() {
    assert_eq!(
        library_directives("z"),
        vec![LinkDirective::DynamicLib {
            name: "z".to_string()
        }]
    );
}

#[test]
fn archive_suffix_without_lib_prefix_is_dynamic_unchanged() {
    assert_eq!(
        library_directives("foo.a"),
        vec![LinkDirective::DynamicLib {
            name: "foo.a".to_string()
        }]
    );
}

#[test]
fn shared_object_name_is_dynamic_unchanged() {
    assert_eq!(
        library_directives("libfoo.so"),
        vec![LinkDirective::DynamicLib {
            name: "libfoo.so".to_string()
        }]
    );
}

#[test]
fn dynamic_reference_keeps_its_directory_text() {
    assert_eq!(
        library_directives("dir/curl"),
        vec![LinkDirective::DynamicLib {
            name: "dir/curl".to_string()
        }]
    );
}

#[test]
fn literal_lib_dot_a_is_static_with_empty_stem() {
    assert_eq!(
        library_directives("lib.a"),
        vec![LinkDirective::StaticLib {
            name: "".to_string()
        }]
    );
}

#[test]
fn trailing_separator_emits_nothing() {
    assert_eq!(library_directives("some/dir/"), vec![]);
}

#[test]
fn current_directory_reference_emits_nothing() {
    assert_eq!(library_directives("."), vec![]);
}

#[test]
fn parent_directory_reference_emits_nothing() {
    assert_eq!(library_directives(".."), vec![]);
}

#[test]
fn reference_ending_in_parent_component_emits_nothing() {
    assert_eq!(library_directives("a/.."), vec![]);
}

#[test]
fn reference_ending_in_current_component_emits_nothing() {
    assert_eq!(library_directives("libz.a/."), vec![]);
}

#[test]
fn root_anchored_archive_searches_the_root() {
    assert_eq!(
        library_directives("/libfoo.a"),
        vec![
            LinkDirective::SearchDir {
                directory: "/".to_string()
            },
            LinkDirective::StaticLib {
                name: "foo".to_string()
            },
        ]
    );
}

#[test]
fn doubled_separator_is_dropped_from_the_directory() {
    assert_eq!(
        library_directives("a//libx.a"),
        vec![
            LinkDirective::SearchDir {
                directory: "a".to_string()
            },
            LinkDirective::StaticLib {
                name: "x".to_string()
            },
        ]
    );
}

#[test]
fn separators_alone_make_the_root_directory() {
    assert_eq!(
        library_directives("//libx.a"),
        vec![
            LinkDirective::SearchDir {
                directory: "/".to_string()
            },
            LinkDirective::StaticLib {
                name: "x".to_string()
            },
        ]
    );
}

#[test]
fn empty_reference_emits_nothing() {
    assert_eq!(library_directives(""), vec![]);
}

#[test]
fn resolve_classifies_static_archive() {
    assert_eq!(
        resolve_library("/a/libx.a"),
        Resolution::StaticArchive {
            name: "x".to_string(),
            directory: Some("/a".to_string()),
        }
    );
}

#[test]
fn resolve_classifies_dynamic_library() {
    assert_eq!(
        resolve_library("expat"),
        Resolution::DynamicLibrary {
            name: "expat".to_string()
        }
    );
}

#[test]
fn resolve_classifies_placeholder() {
    assert_eq!(resolve_library("x/"), Resolution::Skipped);
}
