//! The command lifecycle status and its monotonic ordering.
//!
//! A command progresses `Init -> Scheduled -> Executing -> Successful | Failed`.
//! `Scheduled` may be skipped; once a terminal status (`Successful` or
//! `Failed`) is reached no further transition is accepted.

use crate::text::str_eq;
use vstd::prelude::*;

verus! {

/// Lifecycle status of a command, ordered from initial to terminal.
#[derive(Clone, Copy, Debug, PartialEq, Eq, Structural)]
pub enum CommandStatus {
    Init,
    Scheduled,
    Executing,
    Successful,
    Failed,
}

impl CommandStatus {
    /// Position of a status in the lifecycle order; both terminal
    /// statuses share the last position.
    pub open spec fn rank(self) -> int {
        match self {
            CommandStatus::Init => 0,
            CommandStatus::Scheduled => 1,
            CommandStatus::Executing => 2,
            CommandStatus::Successful => 3,
            CommandStatus::Failed => 3,
        }
    }

    pub open spec fn spec_is_terminal(self) -> bool {
        self == CommandStatus::Successful || self == CommandStatus::Failed
    }

    #[verifier::when_used_as_spec(spec_is_terminal)]
    pub fn is_terminal(self) -> (r: bool)
        ensures
            r == self.spec_is_terminal(),
    {
        matches!(self, CommandStatus::Successful | CommandStatus::Failed)
    }

    /// Whether an update from `self` to `next` moves the lifecycle forward.
    ///
    /// An update is accepted exactly when the current status is not terminal
    /// and the new status does not move backward; repeating the current
    /// status (a duplicate delivery) is not a regression.
    pub open spec fn spec_accepts(self, next: CommandStatus) -> bool {
        !self.spec_is_terminal() && self.rank() <= next.rank()
    }

    #[verifier::when_used_as_spec(spec_accepts)]
    pub fn accepts(self, next: CommandStatus) -> (r: bool)
        ensures
            r == self.spec_accepts(next),
    {
        let own_rank: u8 = self.rank_u8();
        let next_rank: u8 = next.rank_u8();
        !self.is_terminal() && own_rank <= next_rank
    }

    fn rank_u8(self) -> (r: u8)
        ensures
            r as int == self.rank(),
    {
        match self {
            CommandStatus::Init => 0,
            CommandStatus::Scheduled => 1,
            CommandStatus::Executing => 2,
            CommandStatus::Successful => 3,
            CommandStatus::Failed => 3,
        }
    }

    /// The lowercase wire name of a status.
    pub open spec fn spec_name(self) -> Seq<char> {
        match self {
            CommandStatus::Init => "init"@,
            CommandStatus::Scheduled => "scheduled"@,
            CommandStatus::Executing => "executing"@,
            CommandStatus::Successful => "successful"@,
            CommandStatus::Failed => "failed"@,
        }
    }

    pub fn as_str(self) -> (r: &'static str)
        ensures
            r@ == self.spec_name(),
    {
        match self {
            CommandStatus::Init => "init",
            CommandStatus::Scheduled => "scheduled",
            CommandStatus::Executing => "executing",
            CommandStatus::Successful => "successful",
            CommandStatus::Failed => "failed",
        }
    }

    /// The status named by `s`, if any.
    pub open spec fn spec_parse(s: Seq<char>) -> Option<CommandStatus> {
        if s == "init"@ {
            Some(CommandStatus::Init)
        } else if s == "scheduled"@ {
            Some(CommandStatus::Scheduled)
        } else if s == "executing"@ {
            Some(CommandStatus::Executing)
        } else if s == "successful"@ {
            Some(CommandStatus::Successful)
        } else if s == "failed"@ {
            Some(CommandStatus::Failed)
        } else {
            None
        }
    }

    pub fn parse(s: &str) -> (r: Option<CommandStatus>)
        ensures
            r == Self::spec_parse(s@),
    {
        if str_eq(s, "init") {
            Some(CommandStatus::Init)
        } else if str_eq(s, "scheduled") {
            Some(CommandStatus::Scheduled)
        } else if str_eq(s, "executing") {
            Some(CommandStatus::Executing)
        } else if str_eq(s, "successful") {
            Some(CommandStatus::Successful)
        } else if str_eq(s, "failed") {
            Some(CommandStatus::Failed)
        } else {
            None
        }
    }
}

/// Round trip: the wire name of a status parses back to that status.
pub proof fn lemma_status_name_round_trip(s: CommandStatus)
    ensures
        CommandStatus::spec_parse(s.spec_name()) == Some(s),
{
    broadcast use vstd::string::group_string_axioms;

    reveal_strlit("init");
    reveal_strlit("scheduled");
    reveal_strlit("executing");
    reveal_strlit("successful");
    reveal_strlit("failed");
    assert("init"@.len() == 4);
    assert("scheduled"@.len() == 9);
    assert("executing"@.len() == 9);
    assert("successful"@.len() == 10);
    assert("failed"@.len() == 6);
    assert("scheduled"@[0] == 's');
    assert("executing"@[0] == 'e');
}

} // verus!
