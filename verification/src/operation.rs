//! The kinds of operation an entity can serve.

use crate::text::str_eq;
use vstd::prelude::*;

verus! {

/// A class of long-running operation, named on the command topics.
#[derive(Clone, Copy, Debug, PartialEq, Eq, Structural)]
pub enum OperationKind {
    Restart,
    SoftwareList,
    SoftwareUpdate,
}

impl OperationKind {
    /// The wire name of an operation kind, as it stands on the topic.
    pub open spec fn spec_name(self) -> Seq<char> {
        match self {
            OperationKind::Restart => "restart"@,
            OperationKind::SoftwareList => "software_list"@,
            OperationKind::SoftwareUpdate => "software_update"@,
        }
    }

    pub fn as_str(self) -> (r: &'static str)
        ensures
            r@ == self.spec_name(),
    {
        match self {
            OperationKind::Restart => "restart",
            OperationKind::SoftwareList => "software_list",
            OperationKind::SoftwareUpdate => "software_update",
        }
    }

    /// The operation kind named by `s`, if any.
    pub open spec fn spec_parse(s: Seq<char>) -> Option<OperationKind> {
        if s == "restart"@ {
            Some(OperationKind::Restart)
        } else if s == "software_list"@ {
            Some(OperationKind::SoftwareList)
        } else if s == "software_update"@ {
            Some(OperationKind::SoftwareUpdate)
        } else {
            None
        }
    }

    pub fn parse(s: &str) -> (r: Option<OperationKind>)
        ensures
            r == Self::spec_parse(s@),
    {
        if str_eq(s, "restart") {
            Some(OperationKind::Restart)
        } else if str_eq(s, "software_list") {
            Some(OperationKind::SoftwareList)
        } else if str_eq(s, "software_update") {
            Some(OperationKind::SoftwareUpdate)
        } else {
            None
        }
    }
}

/// Round trip: the wire name of an operation kind parses back to it.
pub proof fn lemma_operation_name_round_trip(op: OperationKind)
    ensures
        OperationKind::spec_parse(op.spec_name()) == Some(op),
{
    broadcast use vstd::string::group_string_axioms;

    reveal_strlit("restart");
    reveal_strlit("software_list");
    reveal_strlit("software_update");
    assert("restart"@.len() == 7);
    assert("software_list"@.len() == 13);
    assert("software_update"@.len() == 15);
}

/// The wire name of an operation kind is free of the topic separator and
/// of the topic wildcards.
pub proof fn lemma_operation_name_wf(op: OperationKind)
    ensures
        !op.spec_name().contains('/'),
        !op.spec_name().contains('+'),
        !op.spec_name().contains('#'),
{
    broadcast use vstd::string::group_string_axioms;

    reveal_strlit("restart");
    reveal_strlit("software_list");
    reveal_strlit("software_update");
    assert("restart"@ =~= seq!['r', 'e', 's', 't', 'a', 'r', 't']);
    assert("software_list"@ =~= seq![
        's',
        'o',
        'f',
        't',
        'w',
        'a',
        'r',
        'e',
        '_',
        'l',
        'i',
        's',
        't',
    ]);
    assert("software_update"@ =~= seq![
        's',
        'o',
        'f',
        't',
        'w',
        'a',
        'r',
        'e',
        '_',
        'u',
        'p',
        'd',
        'a',
        't',
        'e',
    ]);
}

} // verus!
