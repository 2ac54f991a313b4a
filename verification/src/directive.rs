//! The exchange with the simulation engine that carries out one directive:
//! the engine may ask for tools to be run, at most twice, and its narrative
//! is gathered from its replies.

use vstd::prelude::*;

verus! {

/// Which reply of the engine the exchange waits for.
#[derive(Clone, Debug)]
pub enum TurnPhase {
    /// The reply to the directive itself.
    AwaitFirst,
    /// The reply after the first round of tools.
    AwaitSecond,
    /// The reply after the second round of tools, with the narrative so far.
    AwaitThird { narrative: String },
    /// The exchange is over.
    Finished,
}

/// A reply of the engine: its text, and whether it asks for tools to be run.
#[derive(Clone, Debug)]
pub struct EngineReply {
    pub content: String,
    pub has_tool_calls: bool,
}

/// What to do after a reply.
#[derive(Clone, Debug)]
pub enum TurnStep {
    /// Run the tools that the reply asks for, then ask the engine again,
    /// offering it the tools when `offer_tools` holds.
    RunTools { offer_tools: bool },
    /// The exchange is over, with this narrative.
    Finish { narrative: String },
}

/// How many more replies the exchange can take in this phase.
pub open spec fn replies_left(p: TurnPhase) -> nat {
    match p {
        TurnPhase::AwaitFirst => 3,
        TurnPhase::AwaitSecond => 2,
        TurnPhase::AwaitThird { .. } => 1,
        TurnPhase::Finished => 0,
    }
}

impl TurnPhase {
    /// Takes in the engine's reply: after the directive, tool requests lead
    /// to a round of tools (with the tools offered again) and otherwise the
    /// reply is the narrative; after the first round, the reply becomes the
    /// narrative, and tool requests lead to a last round (without the tools
    /// offered); after the last round, a non-empty reply is appended to the
    /// narrative after a blank line. A finished exchange stays finished.
    pub fn next(self, reply: EngineReply) -> (r: (TurnPhase, TurnStep))
        ensures
            !(self is Finished) ==> replies_left(r.0) < replies_left(self),
            r.1 is RunTools ==> !(r.0 is Finished),
            match self {
                TurnPhase::AwaitFirst => if reply.has_tool_calls {
                    &&& r.0 is AwaitSecond
                    &&& r.1 == (TurnStep::RunTools { offer_tools: true })
                } else {
                    &&& r.0 is Finished
                    &&& r.1 matches TurnStep::Finish { narrative } && narrative@ == reply.content@
                },
                TurnPhase::AwaitSecond => if reply.has_tool_calls {
                    &&& r.0 matches TurnPhase::AwaitThird { narrative } && narrative@ == reply.content@
                    &&& r.1 == (TurnStep::RunTools { offer_tools: false })
                } else {
                    &&& r.0 is Finished
                    &&& r.1 matches TurnStep::Finish { narrative } && narrative@ == reply.content@
                },
                TurnPhase::AwaitThird { narrative: so_far } => {
                    &&& r.0 is Finished
                    &&& r.1 matches TurnStep::Finish { narrative } && narrative@ == if reply.content@.len() == 0 {
                        so_far@
                    } else {
                        so_far@ + "\n\n"@ + reply.content@
                    }
                },
                TurnPhase::Finished => {
                    &&& r.0 is Finished
                    &&& r.1 matches TurnStep::Finish { narrative } && narrative@.len() == 0
                },
            },
    {
        match self {
            TurnPhase::AwaitFirst => if reply.has_tool_calls {
                (TurnPhase::AwaitSecond, TurnStep::RunTools { offer_tools: true })
            } else {
                (TurnPhase::Finished, TurnStep::Finish { narrative: reply.content })
            },
            TurnPhase::AwaitSecond => if reply.has_tool_calls {
                (TurnPhase::AwaitThird { narrative: reply.content }, TurnStep::RunTools { offer_tools: false })
            } else {
                (TurnPhase::Finished, TurnStep::Finish { narrative: reply.content })
            },
            TurnPhase::AwaitThird { narrative } => {
                let mut out = narrative;
                if reply.content.as_str().unicode_len() > 0 {
                    out.append("\n\n");
                    out.append(reply.content.as_str());
                }
                (TurnPhase::Finished, TurnStep::Finish { narrative: out })
            },
            TurnPhase::Finished => (TurnPhase::Finished, TurnStep::Finish { narrative: String::new() }),
        }
    }
}

} // verus!
