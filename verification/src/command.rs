//! A planned external-tool invocation: a program and its already-tokenized
//! argument list. The gateway only ever emits validated identifiers as
//! discrete arguments — never a string assembled for a shell — and the
//! application executes a plan exactly as tokenized here.

use vstd::prelude::*;

verus! {

/// One external invocation, fully tokenized.
#[derive(Debug)]
pub struct ToolCommand {
    pub program: String,
    pub args: Vec<String>,
}

/// The mathematical content of a `ToolCommand`.
pub ghost struct ToolCommandView {
    pub program: Seq<char>,
    pub args: Seq<Seq<char>>,
}

impl View for ToolCommand {
    type V = ToolCommandView;

    open spec fn view(&self) -> ToolCommandView {
        ToolCommandView { program: self.program@, args: self.args.deep_view() }
    }
}

} // verus!
