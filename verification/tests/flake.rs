use flake_cli::cli::Cli;
use flake_cli::cli::Command;
use flake_cli::derivation::Derivation;
use flake_cli::flake::back_search;
use flake_cli::flake::system;
use flake_cli::flake::Flake;
use flake_cli::flake::FlakeError;

#[test]
fn system_maps_known_pairs() {
    assert_eq!(system("x86_64", "linux"), "x86_64-linux");
    assert_eq!(system("aarch64", "linux"), "aarch64-linux");
    assert_eq!(system("x86_64", "macos"), "x86_64-darwin");
    assert_eq!(system("aarch64", "macos"), "aarch64-darwin");
    assert_eq!(system("x86", "windows"), "i686-windows");
    assert_eq!(system("x86_64", "windows"), "x86_64-windows");
    assert_eq!(system("aarch64", "windows"), "aarch64-windows");
}

#[test]
fn system_falls_back_to_unknown() {
    assert_eq!(system("riscv64", "linux"), "unknown");
    assert_eq!(system("x86_64", "freebsd"), "unknown");
    assert_eq!(system("", ""), "unknown");
}

#[test]
fn back_search_finds_nearest_ancestor() {
    // the anchor sits two parent steps above the starting directory
    assert_eq!(back_search(&vec![false, false, true, true]), Ok(2));
    // the starting directory itself holds the anchor
    assert_eq!(back_search(&vec![true, false]), Ok(0));
}

#[test]
fn back_search_fails_without_anchor() {
    assert_eq!(back_search(&vec![false, false, false]), Err(FlakeError::AnchorNotFound));
    assert_eq!(back_search(&vec![]), Err(FlakeError::AnchorNotFound));
}

fn flake() -> Flake {
    Flake { system: String::from("x86_64-linux"), root: String::from("/work/proj") }
}

#[test]
fn build_args_without_reference() {
    assert_eq!(flake().build_args(None), vec!["build"]);
}

#[test]
fn build_args_expand_partial_reference() {
    let d = Derivation::from_str("foo").unwrap();
    assert_eq!(flake().build_args(Some(d)), vec!["build", ".#packages.x86_64-linux.foo"]);
}

#[test]
fn check_args_without_reference() {
    assert_eq!(flake().check_args(None), vec!["flake", "check"]);
}

#[test]
fn check_args_expand_partial_reference_with_checks() {
    let d = Derivation::from_str("fmt").unwrap();
    assert_eq!(flake().check_args(Some(d)), vec!["flake", "check", ".#checks.x86_64-linux.fmt"]);
}

#[test]
fn run_args_pass_local_reference_through() {
    let d = Derivation::from_str(".#hello").unwrap();
    assert_eq!(flake().run_args(Some(d)), vec!["run", ".#hello"]);
    assert_eq!(flake().run_args(None), vec!["run"]);
}

#[test]
fn build_args_pass_remote_reference_through() {
    let d = Derivation::from_str("nixpkgs:hello").unwrap();
    assert_eq!(flake().build_args(Some(d)), vec!["build", "nixpkgs:hello"]);
}

#[test]
fn show_args_ask_for_machine_readable_output() {
    assert_eq!(flake().show_args(), vec!["flake", "show", "--json"]);
}

#[test]
fn missing_command_defaults_to_show() {
    let cli = Cli { command: None };
    assert!(matches!(cli.command(), Command::Show {}));
}

#[test]
fn given_command_is_kept() {
    let d = Derivation::from_str("foo").unwrap();
    let cli = Cli { command: Some(Command::Build { derivation: Some(d) }) };
    match cli.command() {
        Command::Build { derivation: Some(Derivation::Partial(p)) } => {
            assert_eq!(p.name, "foo");
        },
        _ => panic!("expected the build command to be kept"),
    }
}

#[test]
fn error_messages_are_stable() {
    assert_eq!(
        FlakeError::AnchorNotFound.message(),
        "Unable to find a flake.nix in the directory ancestory"
    );
    assert_eq!(
        FlakeError::ProcessDidNotExitNormally.message(),
        "Child process was expected to have finished"
    );
    assert_eq!(
        FlakeError::UnexpectedShowOutputShape.message(),
        "Unexpected output from nix flake show"
    );
}
