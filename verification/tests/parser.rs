use flake_cli::derivation::Derivation;
use flake_cli::derivation::ParseError;

fn parse(s: &str) -> Result<Derivation, ParseError> {
    Derivation::from_str(s)
}

#[test]
fn local_reference_parses() {
    let d = parse(".#foo").unwrap();
    match d {
        Derivation::Local(l) => assert_eq!(l.path, "foo"),
        _ => panic!("expected a local reference"),
    }
}

#[test]
fn local_reference_round_trips() {
    for s in [".#foo", ".#a", ".#some-long_name2"] {
        let d = parse(s).unwrap();
        assert!(matches!(d, Derivation::Local(_)));
        assert_eq!(d.to_string("packages", "x86_64-linux"), s);
    }
}

#[test]
fn remote_reference_parses() {
    let d = parse("nixpkgs:hello").unwrap();
    match d {
        Derivation::Remote(r) => {
            assert_eq!(r.protocol, "nixpkgs");
            assert_eq!(r.path, "hello");
        },
        _ => panic!("expected a remote reference"),
    }
}

#[test]
fn remote_reference_round_trips() {
    for s in ["nixpkgs:hello", "a:b", "flake-utils:lib_2"] {
        let d = parse(s).unwrap();
        assert!(matches!(d, Derivation::Remote(_)));
        assert_eq!(d.to_string("checks", "aarch64-darwin"), s);
    }
}

#[test]
fn partial_reference_parses() {
    for s in ["hello", "a", "-_A9z", "pkg-name_2"] {
        let d = parse(s).unwrap();
        match d {
            Derivation::Partial(p) => assert_eq!(p.name, s),
            _ => panic!("expected a partial reference"),
        }
    }
}

#[test]
fn partial_reference_expands_with_category_and_platform() {
    let d = parse("foo").unwrap();
    assert_eq!(d.to_string("packages", "x86_64-linux"), ".#packages.x86_64-linux.foo");
}

#[test]
fn partial_reference_expands_with_checks_category() {
    let d = parse("fmt").unwrap();
    assert_eq!(d.to_string("checks", "aarch64-linux"), ".#checks.aarch64-linux.fmt");
}

#[test]
fn unparsable_references_are_rejected() {
    for s in [
        "",
        ".#",
        ".",
        ".foo",
        "a:",
        ":a",
        ":",
        "a:b:c",
        ".#a.b",
        ".#a:b",
        "foo.bar",
        "a b",
        "a:b ",
        " a",
        "x86_64-linux.",
    ] {
        match parse(s) {
            Err(e) => assert_eq!(e, ParseError::UnableToParse),
            Ok(_) => panic!("expected a parse failure"),
        }
    }
}

#[test]
fn parse_error_message_is_stable() {
    let e = parse(".#").unwrap_err();
    assert_eq!(e.message(), "unable to parse derivation");
}
