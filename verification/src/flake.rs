//! The execution context and the pieces of each command that can be
//! computed ahead of running the external tool: platform detection, the
//! project-root search, and the argument lists.

use vstd::prelude::*;
use vstd::string::*;

use crate::derivation::Derivation;
use crate::derivation::resolved_view;
use crate::strutil::str_eq;

verus! {

/// The fatal error kinds of the front-end.
#[derive(Debug, Clone, PartialEq, Eq, Structural)]
pub enum FlakeError {
    /// No directory in the ancestry holds the anchor file.
    AnchorNotFound,
    /// The external tool is absent from the search path.
    ToolNotFound,
    /// The external tool could not be spawned.
    ProcessSpawnFailure,
    /// The child terminated without a normal exit code.
    ProcessDidNotExitNormally,
    /// The show output's top level is not an object.
    UnexpectedShowOutputShape,
}

/// The message that each fatal error prints.
pub open spec fn message_view(e: FlakeError) -> Seq<char> {
    match e {
        FlakeError::AnchorNotFound => "Unable to find a flake.nix in the directory ancestory"@,
        FlakeError::ToolNotFound => "Unable to find nix in the search path"@,
        FlakeError::ProcessSpawnFailure => "Unable to run nix"@,
        FlakeError::ProcessDidNotExitNormally => "Child process was expected to have finished"@,
        FlakeError::UnexpectedShowOutputShape => "Unexpected output from nix flake show"@,
    }
}

impl FlakeError {
    /// A printable description of the error.
    pub fn message(&self) -> (r: &'static str)
        ensures
            r@ == message_view(*self),
    {
        match self {
            FlakeError::AnchorNotFound => "Unable to find a flake.nix in the directory ancestory",
            FlakeError::ToolNotFound => "Unable to find nix in the search path",
            FlakeError::ProcessSpawnFailure => "Unable to run nix",
            FlakeError::ProcessDidNotExitNormally => "Child process was expected to have finished",
            FlakeError::UnexpectedShowOutputShape => "Unexpected output from nix flake show",
        }
    }
}

/// The canonical platform identifier for a (CPU architecture, OS) pair,
/// with an explicit "unknown" fallback for unmapped pairs.
pub open spec fn system_view(arch: Seq<char>, os: Seq<char>) -> Seq<char> {
    if arch == "x86_64"@ && os == "linux"@ {
        "x86_64-linux"@
    } else if arch == "aarch64"@ && os == "linux"@ {
        "aarch64-linux"@
    } else if arch == "x86_64"@ && os == "macos"@ {
        "x86_64-darwin"@
    } else if arch == "aarch64"@ && os == "macos"@ {
        "aarch64-darwin"@
    } else if arch == "x86"@ && os == "windows"@ {
        "i686-windows"@
    } else if arch == "x86_64"@ && os == "windows"@ {
        "x86_64-windows"@
    } else if arch == "aarch64"@ && os == "windows"@ {
        "aarch64-windows"@
    } else {
        "unknown"@
    }
}

/// Map a (CPU architecture, OS) pair to the canonical platform identifier.
/// Any unmapped pair yields the "unknown" sentinel; there is no error path.
pub fn system(arch: &str, os: &str) -> (r: &'static str)
    ensures
        r@ == system_view(arch@, os@),
{
    if str_eq(arch, "x86_64") && str_eq(os, "linux") {
        "x86_64-linux"
    } else if str_eq(arch, "aarch64") && str_eq(os, "linux") {
        "aarch64-linux"
    } else if str_eq(arch, "x86_64") && str_eq(os, "macos") {
        "x86_64-darwin"
    } else if str_eq(arch, "aarch64") && str_eq(os, "macos") {
        "aarch64-darwin"
    } else if str_eq(arch, "x86") && str_eq(os, "windows") {
        "i686-windows"
    } else if str_eq(arch, "x86_64") && str_eq(os, "windows") {
        "x86_64-windows"
    } else if str_eq(arch, "aarch64") && str_eq(os, "windows") {
        "aarch64-windows"
    } else {
        "unknown"
    }
}

/// Search the ancestor chain of a directory for the anchor file.
///
/// `anchored[k]` says whether the k-th ancestor of the starting directory
/// holds the anchor file (index 0 is the starting directory itself, the
/// last index the filesystem root). On success the result is the number of
/// parent steps to the nearest such ancestor; when no ancestor holds the
/// anchor the search fails with `AnchorNotFound`.
pub fn back_search(anchored: &Vec<bool>) -> (r: Result<usize, FlakeError>)
    ensures
        match r {
            Ok(i) => i < anchored@.len() && anchored@[i as int] && forall|j: int|
                0 <= j < i ==> !anchored@[j],
            Err(e) => e == FlakeError::AnchorNotFound && forall|j: int|
                0 <= j < anchored@.len() ==> !anchored@[j],
        },
{
    let n = anchored.len();
    let mut i: usize = 0;
    while i < n
        invariant
            0 <= i <= n,
            n == anchored@.len(),
            forall|j: int| 0 <= j < i ==> !anchored@[j],
        decreases n - i,
    {
        if *anchored.get(i).unwrap() {
            return Ok(i);
        }
        i = i + 1;
    }
    Err(FlakeError::AnchorNotFound)
}

/// The execution context: the detected platform identifier and the project
/// root directory, the one whose ancestry search found the anchor file.
#[derive(Debug, Clone)]
pub struct Flake {
    pub system: String,
    pub root: String,
}

/// The argument list of the external tool's build command.
pub open spec fn build_args_view(sys: Seq<char>, d: Option<Derivation>) -> Seq<Seq<char>> {
    match d {
        Some(d) => seq!["build"@, resolved_view(d, "packages"@, sys)],
        None => seq!["build"@],
    }
}

/// The argument list of the external tool's check command.
pub open spec fn check_args_view(sys: Seq<char>, d: Option<Derivation>) -> Seq<Seq<char>> {
    match d {
        Some(d) => seq!["flake"@, "check"@, resolved_view(d, "checks"@, sys)],
        None => seq!["flake"@, "check"@],
    }
}

/// The argument list of the external tool's run command.
pub open spec fn run_args_view(sys: Seq<char>, d: Option<Derivation>) -> Seq<Seq<char>> {
    match d {
        Some(d) => seq!["run"@, resolved_view(d, "packages"@, sys)],
        None => seq!["run"@],
    }
}

/// The argument list of the external tool's machine-readable show command.
pub open spec fn show_args_view() -> Seq<Seq<char>> {
    seq!["flake"@, "show"@, "--json"@]
}

impl Flake {
    /// Arguments for `build`: the resolved reference, if one was given,
    /// expands a partial form with the "packages" category.
    pub fn build_args(&self, derivation: Option<Derivation>) -> (r: Vec<String>)
        ensures
            r.deep_view() == build_args_view(self.system@, derivation),
    {
        let mut args: Vec<String> = Vec::new();
        args.push(String::from_str("build"));
        match derivation {
            Some(d) => {
                args.push(d.to_string("packages", self.system.as_str()));
                proof {
                    assert(args.deep_view() =~= build_args_view(self.system@, derivation));
                }
            },
            None => {
                proof {
                    assert(args.deep_view() =~= build_args_view(self.system@, derivation));
                }
            },
        }
        args
    }

    /// Arguments for `check`: the resolved reference, if one was given,
    /// expands a partial form with the "checks" category.
    pub fn check_args(&self, derivation: Option<Derivation>) -> (r: Vec<String>)
        ensures
            r.deep_view() == check_args_view(self.system@, derivation),
    {
        let mut args: Vec<String> = Vec::new();
        args.push(String::from_str("flake"));
        args.push(String::from_str("check"));
        match derivation {
            Some(d) => {
                args.push(d.to_string("checks", self.system.as_str()));
                proof {
                    assert(args.deep_view() =~= check_args_view(self.system@, derivation));
                }
            },
            None => {
                proof {
                    assert(args.deep_view() =~= check_args_view(self.system@, derivation));
                }
            },
        }
        args
    }

    /// Arguments for `run`: the resolved reference, if one was given,
    /// expands a partial form with the "packages" category.
    pub fn run_args(&self, derivation: Option<Derivation>) -> (r: Vec<String>)
        ensures
            r.deep_view() == run_args_view(self.system@, derivation),
    {
        let mut args: Vec<String> = Vec::new();
        args.push(String::from_str("run"));
        match derivation {
            Some(d) => {
                args.push(d.to_string("packages", self.system.as_str()));
                proof {
                    assert(args.deep_view() =~= run_args_view(self.system@, derivation));
                }
            },
            None => {
                proof {
                    assert(args.deep_view() =~= run_args_view(self.system@, derivation));
                }
            },
        }
        args
    }

    /// Arguments for `show` in its machine-readable form.
    pub fn show_args(&self) -> (r: Vec<String>)
        ensures
            r.deep_view() == show_args_view(),
    {
        let mut args: Vec<String> = Vec::new();
        args.push(String::from_str("flake"));
        args.push(String::from_str("show"));
        args.push(String::from_str("--json"));
        proof {
            assert(args.deep_view() =~= show_args_view());
        }
        args
    }
}

} // verus!
