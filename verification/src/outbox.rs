//! The cross-device outbox: what still has to happen on the server for a
//! session that is no longer running.
use vstd::prelude::*;

verus! {

/// What still has to happen on the server for a session that stopped.
#[derive(Debug, Clone, Copy, PartialEq, Eq)]
pub enum OutboxAction {
    /// Turn the live line into a normal timesheet entry (or create one).
    Finalize,
    /// Drop the live line entirely — the user discarded the run.
    Discard,
}

/// The stored name of an action.
pub open spec fn action_name(a: OutboxAction) -> Seq<char> {
    match a {
        OutboxAction::Finalize => "finalize"@,
        OutboxAction::Discard => "discard"@,
    }
}

/// How a stored name reads back: `"discard"` is a discard, anything else a finalize.
pub open spec fn action_from_name(s: Seq<char>) -> OutboxAction {
    if s == "discard"@ {
        OutboxAction::Discard
    } else {
        OutboxAction::Finalize
    }
}

impl OutboxAction {
    /// The name stored for this action.
    pub fn as_str(self) -> (res: &'static str)
        ensures
            res@ == action_name(self),
    {
        match self {
            OutboxAction::Finalize => "finalize",
            OutboxAction::Discard => "discard",
        }
    }

    /// Read a stored name back; anything but `"discard"` is a finalize.
    pub fn parse(s: &str) -> (res: OutboxAction)
        ensures
            res == action_from_name(s@),
    {
        if crate::timer::str_eq(s, "discard") {
            OutboxAction::Discard
        } else {
            OutboxAction::Finalize
        }
    }
}

/// Reading back the stored name of an action gives the action.
pub proof fn law_action_name_round_trip(a: OutboxAction)
    ensures
        action_from_name(action_name(a)) == a,
{
    reveal_strlit("discard");
    reveal_strlit("finalize");
    assert("finalize"@.len() != "discard"@.len());
}

} // verus!
