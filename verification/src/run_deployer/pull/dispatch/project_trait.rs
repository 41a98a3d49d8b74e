//! The toolchains that build a project: how each is started and where it
//! leaves its output.

use crate::run_deployer::command::{invoke_with_two, with_two, Invocation};
use crate::text::{option_view, string_views, strip_prefix, trim, trimmed, without_prefix};
use vstd::prelude::*;

verus! {

/// A toolchain with a build step.
pub trait Project {
    /// The program that builds a project of this kind.
    spec fn program(&self) -> Seq<char>;

    /// The two arguments the program is given.
    spec fn arguments(&self) -> (Seq<char>, Seq<char>);

    /// Where the output lies, relative to the project's directory.
    spec fn output_dir(&self) -> Seq<char>;

    /// The build command, to be run in the project's directory `current_dir`.
    fn build(&self, current_dir: &str) -> (cmd: Invocation)
        ensures
            cmd@ == with_two(
                self.program(),
                self.arguments().0,
                self.arguments().1,
                Some(current_dir@),
            ),
    ;

    /// Where the output lies, relative to the project's directory.
    fn get_build_dir(&self) -> (dir: &str)
        ensures
            dir@ == self.output_dir(),
    ;
}

/// The Cargo toolchain.
pub struct Rust<'a> {
    build_dir: &'a str,
}

impl<'a> Rust<'a> {
    /// A release build leaves its output under `target/release`.
    pub fn new() -> (rust: Self)
        ensures
            rust.output_dir() == "target/release"@,
    {
        Rust { build_dir: "target/release" }
    }
}

impl<'a> Project for Rust<'a> {
    open spec fn program(&self) -> Seq<char> {
        "cargo"@
    }

    open spec fn arguments(&self) -> (Seq<char>, Seq<char>) {
        ("build"@, "--release"@)
    }

    closed spec fn output_dir(&self) -> Seq<char> {
        self.build_dir@
    }

    fn build(&self, current_dir: &str) -> (cmd: Invocation) {
        invoke_with_two("cargo", "build", "--release", Some(current_dir.to_owned()))
    }

    fn get_build_dir(&self) -> (dir: &str) {
        self.build_dir
    }
}

/// The Go toolchain.
pub struct Go<'a> {
    build_dir: &'a str,
}

/// The module name a `go.mod` declares: what follows `module ` on the first
/// line that starts with it, without the white space around it.
pub open spec fn module_name(lines: Seq<Seq<char>>) -> Option<Seq<char>>
    decreases lines.len(),
{
    if lines.len() == 0 {
        None
    } else {
        match without_prefix(lines[0], "module "@) {
            Some(rest) => Some(trimmed(rest)),
            None => module_name(lines.drop_first()),
        }
    }
}

impl<'a> Go<'a> {
    /// The binary is left in the project's directory itself.
    pub fn new() -> (go: Self)
        ensures
            go.output_dir() == ""@,
    {
        Go { build_dir: "" }
    }

    /// Finds the declared module name in the lines of a `go.mod`.
    pub fn get_build_name(&self, key_file: &Vec<String>) -> (name: Option<String>)
        ensures
            option_view(name) == module_name(string_views(key_file@)),
    {
        let ghost lines = string_views(key_file@);
        let mut i: usize = 0;
        assert(lines.skip(0) =~= lines);
        while i < key_file.len()
            invariant
                i <= key_file.len(),
                lines == string_views(key_file@),
                module_name(lines) == module_name(lines.skip(i as int)),
            decreases key_file.len() - i,
        {
            assert(lines.skip(i as int).drop_first() =~= lines.skip(i as int + 1));
            assert(lines.skip(i as int)[0] == key_file@[i as int]@);
            match strip_prefix(key_file[i].as_str(), "module ") {
                Some(rest) => {
                    return Some(trim(rest).to_owned());
                },
                None => {},
            }
            i += 1;
        }
        None
    }
}

impl<'a> Project for Go<'a> {
    open spec fn program(&self) -> Seq<char> {
        "go"@
    }

    open spec fn arguments(&self) -> (Seq<char>, Seq<char>) {
        ("build"@, "."@)
    }

    closed spec fn output_dir(&self) -> Seq<char> {
        self.build_dir@
    }

    fn build(&self, current_dir: &str) -> (cmd: Invocation) {
        invoke_with_two("go", "build", ".", Some(current_dir.to_owned()))
    }

    fn get_build_dir(&self) -> (dir: &str) {
        self.build_dir
    }
}

} // verus!
