//! A command for an external program: the program and its argument list, each
//! argument handed over as it is, never through a shell.
use vstd::prelude::*;

verus! {

/// A program to run and its arguments, each passed as it is.
pub struct ToolCommand {
    /// The program, looked up on the `PATH`.
    pub program: String,
    /// The arguments, in order.
    pub args: Vec<String>,
}

/// The views of a list of strings.
pub open spec fn strings_view(v: Seq<String>) -> Seq<Seq<char>> {
    v.map_values(|s: String| s@)
}

/// Appends the argument `a`.
pub fn push_arg(args: &mut Vec<String>, a: &str)
    ensures
        final(args)@.len() == old(args)@.len() + 1,
        final(args)@.drop_last() == old(args)@,
        final(args)@.last()@ == a@,
{
    args.push(String::from_str(a));
}

} // verus!
