//! Program Descriptor Table: the static table of executable definitions, and
//! the computation of each program's source set. A descriptor with
//! `has_self_named_main` always compiles a unit literally named `<name>.c`
//! before its extra sources, in that order, with duplicates retained.

use vstd::prelude::*;

verus! {

/// One executable definition: its name, whether it embeds a self-named
/// `main` source, its extra sources, and the external libraries it links.
#[derive(Debug, PartialEq, Eq)]
pub struct ProgramDescriptor {
    pub name: String,
    pub has_self_named_main: bool,
    pub extra_sources: Vec<String>,
    pub required_libraries: Vec<String>,
}

/// The mathematical shape of a `ProgramDescriptor`.
#[verifier::ext_equal]
pub struct DescriptorView {
    pub name: Seq<char>,
    pub has_self_named_main: bool,
    pub extra_sources: Seq<Seq<char>>,
    pub required_libraries: Seq<Seq<char>>,
}

impl View for ProgramDescriptor {
    type V = DescriptorView;

    open spec fn view(&self) -> DescriptorView {
        DescriptorView {
            name: self.name@,
            has_self_named_main: self.has_self_named_main,
            extra_sources: self.extra_sources.deep_view(),
            required_libraries: self.required_libraries.deep_view(),
        }
    }
}

impl DeepView for ProgramDescriptor {
    type V = DescriptorView;

    open spec fn deep_view(&self) -> DescriptorView {
        self@
    }
}

/// The source set a descriptor compiles: `<name>.c` first when the program
/// embeds a self-named main, then the extra sources in declaration order.
/// Literal concatenation: a duplicate path is retained, never deduplicated.
pub open spec fn spec_source_set(d: DescriptorView) -> Seq<Seq<char>> {
    if d.has_self_named_main {
        seq![d.name + ".c"@] + d.extra_sources
    } else {
        d.extra_sources
    }
}

impl ProgramDescriptor {
    /// Compute this program's ordered source set.
    pub fn source_set(&self) -> (r: Vec<String>)
        ensures
            r.deep_view() == spec_source_set(self@),
    {
        let mut r: Vec<String> = Vec::new();
        if self.has_self_named_main {
            let mut main_unit = self.name.clone();
            main_unit.append(".c");
            r.push(main_unit);
        }
        let mut i: usize = 0;
        let ghost prefix = r.deep_view();
        let ghost extras = self.extra_sources.deep_view();
        proof {
            assert(r.deep_view() =~~= prefix + extras.take(0));
        }
        while i < self.extra_sources.len()
            invariant
                i <= self.extra_sources.len(),
                extras == self.extra_sources.deep_view(),
                r.deep_view() == prefix + extras.take(i as int),
            decreases self.extra_sources.len() - i,
        {
            let ghost r0 = r.deep_view();
            r.push(self.extra_sources[i].clone());
            proof {
                assert(r.deep_view() =~~= r0.push(extras[i as int]));
                assert(extras.take(i as int + 1) =~~= extras.take(i as int).push(
                    extras[i as int],
                ));
                assert(r.deep_view() =~~= prefix + extras.take(i as int + 1));
            }
            i = i + 1;
        }
        proof {
            assert(extras.take(self.extra_sources.len() as int) =~~= extras);
            assert(r.deep_view() =~~= spec_source_set(self@));
        }
        r
    }
}

/// The program descriptor table, as a value.
pub open spec fn spec_program_table() -> Seq<DescriptorView> {
    seq![
        DescriptorView {
            name: "daemon"@,
            has_self_named_main: true,
            extra_sources: Seq::empty(),
            required_libraries: Seq::empty(),
        },
        DescriptorView {
            name: "http-backend"@,
            has_self_named_main: true,
            extra_sources: Seq::empty(),
            required_libraries: Seq::empty(),
        },
        DescriptorView {
            name: "imap-send"@,
            has_self_named_main: true,
            extra_sources: Seq::empty(),
            required_libraries: Seq::empty(),
        },
        DescriptorView {
            name: "sh-i18n--envsubst"@,
            has_self_named_main: true,
            extra_sources: Seq::empty(),
            required_libraries: Seq::empty(),
        },
        DescriptorView {
            name: "shell"@,
            has_self_named_main: true,
            extra_sources: Seq::empty(),
            required_libraries: Seq::empty(),
        },
        DescriptorView {
            name: "http-fetch"@,
            has_self_named_main: true,
            extra_sources: seq!["http.c"@, "http-walker.c"@, "http-fetch.c"@],
            required_libraries: seq!["curl"@],
        },
        DescriptorView {
            name: "http-push"@,
            has_self_named_main: true,
            extra_sources: seq!["http.c"@, "http-push.c"@],
            required_libraries: seq!["curl"@, "expat"@],
        },
        DescriptorView {
            name: "remote-http"@,
            has_self_named_main: false,
            extra_sources: seq!["remote-curl.c"@, "http.c"@, "http-walker.c"@],
            required_libraries: seq!["curl"@, "expat"@],
        },
    ]
}

fn descriptor(
    name: &str,
    has_self_named_main: bool,
    extra_sources: Vec<String>,
    required_libraries: Vec<String>,
) -> (r: ProgramDescriptor)
    ensures
        r@ == (DescriptorView {
            name: name@,
            has_self_named_main,
            extra_sources: extra_sources.deep_view(),
            required_libraries: required_libraries.deep_view(),
        }),
{
    ProgramDescriptor {
        name: name.to_owned(),
        has_self_named_main,
        extra_sources,
        required_libraries,
    }
}

fn no_strings() -> (r: Vec<String>)
    ensures
        r.deep_view() == Seq::<Seq<char>>::empty(),
{
    let r: Vec<String> = Vec::new();
    proof {
        assert(r.deep_view() =~= Seq::<Seq<char>>::empty());
    }
    r
}

fn one_string(a: &str) -> (r: Vec<String>)
    ensures
        r.deep_view() == seq![a@],
{
    let mut r: Vec<String> = Vec::new();
    r.push(a.to_owned());
    proof {
        assert(r.deep_view() =~= seq![a@]);
    }
    r
}

fn two_strings(a: &str, b: &str) -> (r: Vec<String>)
    ensures
        r.deep_view() == seq![a@, b@],
{
    let mut r: Vec<String> = Vec::new();
    r.push(a.to_owned());
    r.push(b.to_owned());
    proof {
        assert(r.deep_view() =~= seq![a@, b@]);
    }
    r
}

fn three_strings(a: &str, b: &str, c: &str) -> (r: Vec<String>)
    ensures
        r.deep_view() == seq![a@, b@, c@],
{
    let mut r: Vec<String> = Vec::new();
    r.push(a.to_owned());
    r.push(b.to_owned());
    r.push(c.to_owned());
    proof {
        assert(r.deep_view() =~= seq![a@, b@, c@]);
    }
    r
}

/// The binary-specific executables this build produces, in declaration
/// order. The order is significant: it fixes both archive build order and
/// link order.
pub fn program_table() -> (r: Vec<ProgramDescriptor>)
    ensures
        r.deep_view() == spec_program_table(),
{
    let mut r: Vec<ProgramDescriptor> = Vec::new();
    r.push(descriptor("daemon", true, no_strings(), no_strings()));
    r.push(descriptor("http-backend", true, no_strings(), no_strings()));
    r.push(descriptor("imap-send", true, no_strings(), no_strings()));
    r.push(descriptor("sh-i18n--envsubst", true, no_strings(), no_strings()));
    r.push(descriptor("shell", true, no_strings(), no_strings()));
    r.push(
        descriptor(
            "http-fetch",
            true,
            three_strings("http.c", "http-walker.c", "http-fetch.c"),
            one_string("curl"),
        ),
    );
    r.push(
        descriptor(
            "http-push",
            true,
            two_strings("http.c", "http-push.c"),
            two_strings("curl", "expat"),
        ),
    );
    r.push(
        descriptor(
            "remote-http",
            false,
            three_strings("remote-curl.c", "http.c", "http-walker.c"),
            two_strings("curl", "expat"),
        ),
    );
    proof {
        assert(r.deep_view() =~~= spec_program_table());
    }
    r
}

} // verus!
