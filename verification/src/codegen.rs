//! The code generators: cursor-guarded emission state machines. Each
//! generator accepts its "set" operations in one valid order; an operation
//! issued out of order is silently a no-op, and the finalizer tolerates
//! skipped optional steps, so the assembled text is well-formed for
//! whatever subset of steps actually ran.

use vstd::prelude::*;

verus! {

pub trait BaseGenerator: Sized {
    fn new() -> Self;

    fn generate(&mut self) -> String;
}

/// The cursor states of the function generator, in the one valid order.
#[derive(PartialEq, Eq, Structural, Clone, Copy, Debug)]
enum FunctionCursorState {
    Start,
    Name,
    Params,
    Block,
}

/// Emits `function <name>(<params>) {\n<block>}\n` step by step.
pub struct FunctionGenerator {
    code: String,
    state: FunctionCursorState,
}

impl FunctionGenerator {
    /// The text assembled so far.
    pub closed spec fn code(self) -> Seq<char> {
        self.code@
    }

    pub closed spec fn at_start(self) -> bool {
        self.state is Start
    }

    pub closed spec fn named(self) -> bool {
        self.state is Name
    }

    pub closed spec fn in_params(self) -> bool {
        self.state is Params
    }

    pub closed spec fn finished(self) -> bool {
        self.state is Block
    }

    /// The cursor occupies exactly one state at a time: a generator is at
    /// its start, named, taking parameters, or finished, and never two of
    /// these at once. Callers use this to tell the no-op transitions from
    /// the effective ones.
    pub proof fn lemma_cursor_state(self)
        ensures
            self.at_start() || self.named() || self.in_params() || self.finished(),
            self.at_start() ==> !self.named() && !self.in_params() && !self.finished(),
            self.named() ==> !self.at_start() && !self.in_params() && !self.finished(),
            self.in_params() ==> !self.at_start() && !self.named() && !self.finished(),
            self.finished() ==> !self.at_start() && !self.named() && !self.in_params(),
    {
    }

    /// Accept the name: `function <name>`; moves the cursor to the named
    /// state wherever it stood.
    pub fn set_name(&mut self, name: String)
        ensures
            final(self).code() == old(self).code() + " "@ + name@,
            final(self).named(),
    {
        self.code.append(" ");
        self.code.append(name.as_str());
        self.state = FunctionCursorState::Name;
        proof {
            assert(self.code() =~= old(self).code() + " "@ + name@);
        }
    }

    /// Accept one parameter. Before the name was set this is a no-op;
    /// the first parameter opens the list, later ones are comma-separated.
    pub fn set_param(&mut self, param: String)
        ensures
            old(self).named() ==> final(self).code() == old(self).code() + "("@ + param@
                && final(self).in_params(),
            old(self).in_params() ==> final(self).code() == old(self).code() + ","@ + param@
                && final(self).in_params(),
            !old(self).named() && !old(self).in_params() ==> *final(self) == *old(self),
    {
        match self.state {
            FunctionCursorState::Name => {
                self.code.append("(");
                self.state = FunctionCursorState::Params;
                self.code.append(param.as_str());
                proof {
                    assert(self.code() =~= old(self).code() + "("@ + param@);
                }
            },
            FunctionCursorState::Params => {
                self.code.append(",");
                self.code.append(param.as_str());
                proof {
                    assert(self.code() =~= old(self).code() + ","@ + param@);
                }
            },
            _ => (),
        }
    }

    /// Accept the body and finalize. A parameterless function still
    /// finalizes correctly; in any state but named-or-params this is a
    /// no-op.
    pub fn set_block(&mut self, block: String)
        ensures
            old(self).in_params() ==> final(self).code() == old(self).code() + ") {\n"@ + block@
                + "}\n"@ && final(self).finished(),
            old(self).named() ==> final(self).code() == old(self).code() + "() {\n"@ + block@
                + "}\n"@ && final(self).finished(),
            !old(self).named() && !old(self).in_params() ==> *final(self) == *old(self),
    {
        match self.state {
            FunctionCursorState::Params => {
                self.code.append(") {\n");
                self.code.append(block.as_str());
                self.code.append("}\n");
                self.state = FunctionCursorState::Block;
            },
            FunctionCursorState::Name => {
                self.code.append("() {\n");
                self.code.append(block.as_str());
                self.code.append("}\n");
                self.state = FunctionCursorState::Block;
            },
            _ => (),
        }
    }
}

impl BaseGenerator for FunctionGenerator {
    /// A fresh generator holds the keyword alone.
    fn new() -> (g: Self)
        ensures
            g.code() == "function"@,
            g.at_start(),
    {
        Self { code: String::from_str("function"), state: FunctionCursorState::Start }
    }

    /// The assembled text.
    fn generate(&mut self) -> (s: String)
        ensures
            s@ == old(self).code(),
            *final(self) == *old(self),
    {
        self.code.clone()
    }
}

} // verus!
