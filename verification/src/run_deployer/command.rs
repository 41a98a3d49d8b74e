//! Description of an external program the caller is asked to run.

use crate::text::{option_view, string_views};
use vstd::prelude::*;

verus! {

/// One external program to run: what to start, with which arguments, and
/// in which directory (the caller's own when `None`).
#[derive(Debug, Clone, PartialEq, Eq)]
pub struct Invocation {
    pub program: String,
    pub args: Vec<String>,
    pub current_dir: Option<String>,
}

/// What an `Invocation` says, as plain character sequences.
pub struct InvocationView {
    pub program: Seq<char>,
    pub args: Seq<Seq<char>>,
    pub current_dir: Option<Seq<char>>,
}

impl View for Invocation {
    type V = InvocationView;

    open spec fn view(&self) -> InvocationView {
        InvocationView {
            program: self.program@,
            args: string_views(self.args@),
            current_dir: option_view(self.current_dir),
        }
    }
}

/// The views of a list of invocations, in order.
pub open spec fn invocation_views(plan: Seq<Invocation>) -> Seq<InvocationView> {
    Seq::new(plan.len(), |i: int| plan[i]@)
}

/// `program` with two arguments, run in `current_dir`.
pub open spec fn with_two(
    program: Seq<char>,
    first: Seq<char>,
    second: Seq<char>,
    current_dir: Option<Seq<char>>,
) -> InvocationView {
    InvocationView { program, args: seq![first, second], current_dir }
}

/// Describes running `program` with two arguments in `current_dir`.
pub fn invoke_with_two(program: &str, first: &str, second: &str, current_dir: Option<String>) -> (cmd:
    Invocation)
    ensures
        cmd@ == with_two(program@, first@, second@, option_view(current_dir)),
{
    let mut args: Vec<String> = Vec::new();
    args.push(first.to_owned());
    args.push(second.to_owned());
    assert(string_views(args@) =~= seq![first@, second@]);
    Invocation { program: program.to_owned(), args, current_dir }
}

} // verus!
