//! The command lifecycle tracker.
//!
//! Each in-flight command is identified by `(entity, operation, cmd-id)`
//! and carries a status that only moves forward. The tracker drops any
//! update that would move a command backward and any update to a command
//! already in a terminal state — the protection this layer offers against
//! duplicated or reordered deliveries from an at-least-once transport. A
//! terminal command stays on the board until it is cleared; only after
//! that may its id be reused for a new command.

use crate::entity::EntityTopicId;
use crate::operation::OperationKind;
use crate::status::CommandStatus;
use crate::text::str_eq;
use vstd::prelude::*;

verus! {

/// One tracked command.
pub struct TrackedCommand {
    pub entity: EntityTopicId,
    pub operation: OperationKind,
    pub cmd_id: String,
    pub status: CommandStatus,
}

/// The identity of a tracked command.
pub open spec fn cmd_key(t: TrackedCommand) -> (Seq<Seq<char>>, OperationKind, Seq<char>) {
    (t.entity@, t.operation, t.cmd_id@)
}

/// The status of the first entry with identity `k`.
pub open spec fn spec_status_lookup(
    entries: Seq<TrackedCommand>,
    k: (Seq<Seq<char>>, OperationKind, Seq<char>),
) -> Option<CommandStatus>
    decreases entries.len(),
{
    if entries.len() == 0 {
        None
    } else if cmd_key(entries[0]) == k {
        Some(entries[0].status)
    } else {
        spec_status_lookup(entries.drop_first(), k)
    }
}

/// Whether an update to `next` is accepted given the tracked status.
/// An unknown command is accepted with any initial status; a known one
/// only moves forward and never leaves a terminal state.
pub open spec fn spec_update_accepted(current: Option<CommandStatus>, next: CommandStatus) -> bool {
    match current {
        None => true,
        Some(cur) => cur.spec_accepts(next),
    }
}

/// Appending an entry changes no lookup that already succeeded, and
/// resolves a failing lookup exactly for the new entry's identity.
proof fn lemma_lookup_push(
    entries: Seq<TrackedCommand>,
    e: TrackedCommand,
    k: (Seq<Seq<char>>, OperationKind, Seq<char>),
)
    ensures
        spec_status_lookup(entries.push(e), k) == (match spec_status_lookup(entries, k) {
            Some(v) => Some(v),
            None => {
                if cmd_key(e) == k {
                    Some(e.status)
                } else {
                    None
                }
            },
        }),
    decreases entries.len(),
{
    if entries.len() == 0 {
        assert(entries.push(e).drop_first() =~= Seq::<TrackedCommand>::empty());
        assert(entries.push(e)[0] == e);
    } else {
        assert(entries.push(e)[0] == entries[0]);
        assert(entries.push(e).drop_first() =~= entries.drop_first().push(e));
        lemma_lookup_push(entries.drop_first(), e, k);
    }
}

/// Replacing the first entry of identity `k` with another entry of the
/// same identity changes exactly the lookup of `k`.
proof fn lemma_lookup_update(entries: Seq<TrackedCommand>, i: int, e: TrackedCommand)
    requires
        0 <= i < entries.len(),
        cmd_key(e) == cmd_key(entries[i]),
        forall|j: int| 0 <= j < i ==> cmd_key(#[trigger] entries[j]) != cmd_key(e),
    ensures
        spec_status_lookup(entries.update(i, e), cmd_key(e)) == Some(e.status),
        forall|k2: (Seq<Seq<char>>, OperationKind, Seq<char>)|
            k2 != cmd_key(e) ==> #[trigger] spec_status_lookup(entries.update(i, e), k2)
                == spec_status_lookup(entries, k2),
    decreases entries.len(),
{
    let updated = entries.update(i, e);
    if i == 0 {
        assert(updated[0] == e);
        assert(updated.drop_first() =~= entries.drop_first());
        assert(spec_status_lookup(updated, cmd_key(e)) == Some(e.status));
        assert forall|k2: (Seq<Seq<char>>, OperationKind, Seq<char>)| k2 != cmd_key(e) implies
            #[trigger] spec_status_lookup(updated, k2) == spec_status_lookup(entries, k2) by {
            assert(cmd_key(entries[0]) == cmd_key(e));
            assert(spec_status_lookup(updated, k2) == spec_status_lookup(updated.drop_first(), k2));
            assert(spec_status_lookup(entries, k2) == spec_status_lookup(
                entries.drop_first(),
                k2,
            ));
        }
    } else {
        assert(updated[0] == entries[0]);
        assert(updated.drop_first() =~= entries.drop_first().update(i - 1, e));
        assert(entries.drop_first()[i - 1] == entries[i]);
        assert forall|j: int| 0 <= j < i - 1 implies cmd_key(#[trigger] entries.drop_first()[j])
            != cmd_key(e) by {
            assert(entries.drop_first()[j] == entries[j + 1]);
        }
        lemma_lookup_update(entries.drop_first(), i - 1, e);
        assert(cmd_key(entries[0]) != cmd_key(e));
        assert(spec_status_lookup(updated, cmd_key(e)) == Some(e.status));
        assert forall|k2: (Seq<Seq<char>>, OperationKind, Seq<char>)| k2 != cmd_key(e) implies
            #[trigger] spec_status_lookup(updated, k2) == spec_status_lookup(entries, k2) by {
            assert(spec_status_lookup(entries.drop_first().update(i - 1, e), k2)
                == spec_status_lookup(entries.drop_first(), k2));
            if cmd_key(entries[0]) != k2 {
                assert(spec_status_lookup(updated, k2) == spec_status_lookup(
                    updated.drop_first(),
                    k2,
                ));
                assert(spec_status_lookup(entries, k2) == spec_status_lookup(
                    entries.drop_first(),
                    k2,
                ));
            }
        }
    }
}

/// Removing the first entry of identity `k` erases exactly the lookup of
/// `k` (there is no second entry of the same identity behind it to
/// uncover, the board never holds two).
proof fn lemma_lookup_remove(entries: Seq<TrackedCommand>, i: int)
    requires
        0 <= i < entries.len(),
        forall|j: int| 0 <= j < i ==> cmd_key(#[trigger] entries[j]) != cmd_key(entries[i]),
        forall|j: int| i < j < entries.len() ==> cmd_key(#[trigger] entries[j]) != cmd_key(
            entries[i],
        ),
    ensures
        spec_status_lookup(entries.remove(i), cmd_key(entries[i])) is None,
        forall|k2: (Seq<Seq<char>>, OperationKind, Seq<char>)|
            k2 != cmd_key(entries[i]) ==> #[trigger] spec_status_lookup(entries.remove(i), k2)
                == spec_status_lookup(entries, k2),
    decreases entries.len(),
{
    let removed = entries.remove(i);
    let k = cmd_key(entries[i]);
    if i == 0 {
        assert(removed =~= entries.drop_first());
        assert(spec_status_lookup(removed, k) is None) by {
            lemma_lookup_absent(entries.drop_first(), k);
        }
        assert forall|k2: (Seq<Seq<char>>, OperationKind, Seq<char>)| k2 != k implies
            #[trigger] spec_status_lookup(removed, k2) == spec_status_lookup(entries, k2) by {
            assert(cmd_key(entries[0]) == k);
            assert(spec_status_lookup(entries, k2) == spec_status_lookup(
                entries.drop_first(),
                k2,
            ));
        }
    } else {
        assert(removed[0] == entries[0]);
        assert(removed.drop_first() =~= entries.drop_first().remove(i - 1));
        assert(entries.drop_first()[i - 1] == entries[i]);
        assert forall|j: int| 0 <= j < i - 1 implies cmd_key(#[trigger] entries.drop_first()[j])
            != cmd_key(entries.drop_first()[i - 1]) by {
            assert(entries.drop_first()[j] == entries[j + 1]);
        }
        assert forall|j: int| i - 1 < j < entries.drop_first().len() implies cmd_key(
            #[trigger] entries.drop_first()[j],
        ) != cmd_key(entries.drop_first()[i - 1]) by {
            assert(entries.drop_first()[j] == entries[j + 1]);
        }
        lemma_lookup_remove(entries.drop_first(), i - 1);
        assert(cmd_key(entries[0]) != k);
        assert(spec_status_lookup(removed, k) == spec_status_lookup(removed.drop_first(), k));
        assert forall|k2: (Seq<Seq<char>>, OperationKind, Seq<char>)| k2 != k implies
            #[trigger] spec_status_lookup(removed, k2) == spec_status_lookup(entries, k2) by {
            assert(spec_status_lookup(entries.drop_first().remove(i - 1), k2)
                == spec_status_lookup(entries.drop_first(), k2));
            if cmd_key(entries[0]) != k2 {
                assert(spec_status_lookup(removed, k2) == spec_status_lookup(
                    removed.drop_first(),
                    k2,
                ));
                assert(spec_status_lookup(entries, k2) == spec_status_lookup(
                    entries.drop_first(),
                    k2,
                ));
            }
        }
    }
}

/// A lookup among entries whose identities all differ from `k` fails.
proof fn lemma_lookup_absent(
    entries: Seq<TrackedCommand>,
    k: (Seq<Seq<char>>, OperationKind, Seq<char>),
)
    requires
        forall|j: int| 0 <= j < entries.len() ==> cmd_key(#[trigger] entries[j]) != k,
    ensures
        spec_status_lookup(entries, k) is None,
    decreases entries.len(),
{
    if entries.len() > 0 {
        assert forall|j: int| 0 <= j < entries.drop_first().len() implies cmd_key(
            #[trigger] entries.drop_first()[j],
        ) != k by {
            assert(entries.drop_first()[j] == entries[j + 1]);
        }
        lemma_lookup_absent(entries.drop_first(), k);
    }
}

/// The board of in-flight commands.
pub struct CommandBoard {
    entries: Vec<TrackedCommand>,
}

impl CommandBoard {
    /// The tracked entries, in insertion order.
    pub closed spec fn entries_view(self) -> Seq<TrackedCommand> {
        self.entries@
    }

    /// The tracked status of `(entity, operation, cmd-id)`.
    pub open spec fn spec_status(
        self,
        k: (Seq<Seq<char>>, OperationKind, Seq<char>),
    ) -> Option<CommandStatus> {
        spec_status_lookup(self.entries_view(), k)
    }

    /// No two entries share an identity.
    pub open spec fn wf(self) -> bool {
        forall|i: int, j: int|
            0 <= i < j < self.entries_view().len() ==> cmd_key(#[trigger] self.entries_view()[i])
                != cmd_key(#[trigger] self.entries_view()[j])
    }

    /// An empty board: nothing is tracked.
    pub fn new() -> (b: CommandBoard)
        ensures
            b.wf(),
            forall|k: (Seq<Seq<char>>, OperationKind, Seq<char>)| #[trigger] b.spec_status(k) is None,
    {
        let b = CommandBoard { entries: Vec::new() };
        proof {
            assert forall|k: (Seq<Seq<char>>, OperationKind, Seq<char>)| #[trigger] b.spec_status(
                k,
            ) is None by {
                assert(b.entries_view().len() == 0);
            }
        }
        b
    }

    /// The index of the entry with identity `k`, if one is tracked.
    fn find(&self, entity: &EntityTopicId, op: OperationKind, cmd_id: &str) -> (r: Option<usize>)
        ensures
            r matches Some(i) ==> i < self.entries_view().len() && cmd_key(self.entries_view()[i as int])
                == (entity@, op, cmd_id@) && (forall|j: int|
                0 <= j < i ==> cmd_key(#[trigger] self.entries_view()[j]) != (entity@, op, cmd_id@)),
            r is None ==> forall|j: int|
                0 <= j < self.entries_view().len() ==> cmd_key(#[trigger] self.entries_view()[j])
                    != (entity@, op, cmd_id@),
    {
        let ghost k = (entity@, op, cmd_id@);
        let mut i: usize = 0;
        while i < self.entries.len()
            invariant
                0 <= i <= self.entries@.len(),
                self.entries@ == self.entries_view(),
                k == (entity@, op, cmd_id@),
                forall|j: int| 0 <= j < i ==> cmd_key(#[trigger] self.entries_view()[j]) != k,
            decreases self.entries@.len() - i,
        {
            let entry = &self.entries[i];
            let same_entity = entry.entity == *entity;
            let same_op = entry.operation == op;
            let same_id = str_eq(entry.cmd_id.as_str(), cmd_id);
            if same_entity && same_op && same_id {
                return Some(i);
            }
            i += 1;
        }
        None
    }

    /// The tracked status of a command, if any.
    pub fn status_of(&self, entity: &EntityTopicId, op: OperationKind, cmd_id: &str) -> (r: Option<
        CommandStatus,
    >)
        ensures
            r == self.spec_status((entity@, op, cmd_id@)),
    {
        let ghost k = (entity@, op, cmd_id@);
        match self.find(entity, op, cmd_id) {
            Some(i) => {
                proof {
                    lemma_lookup_found(self.entries_view(), i as int, k);
                }
                Some(self.entries[i].status)
            },
            None => {
                proof {
                    lemma_lookup_absent(self.entries_view(), k);
                }
                None
            },
        }
    }

    /// Apply a status update, unless it would move the command backward
    /// or revive a terminal command; a dropped update leaves the board
    /// untouched.
    pub fn update(
        &mut self,
        entity: &EntityTopicId,
        op: OperationKind,
        cmd_id: &str,
        status: CommandStatus,
    ) -> (accepted: bool)
        requires
            old(self).wf(),
        ensures
            final(self).wf(),
            accepted == spec_update_accepted(old(self).spec_status((entity@, op, cmd_id@)), status),
            accepted ==> final(self).spec_status((entity@, op, cmd_id@)) == Some(status),
            accepted ==> forall|k2: (Seq<Seq<char>>, OperationKind, Seq<char>)|
                k2 != (entity@, op, cmd_id@) ==> #[trigger] final(self).spec_status(k2) == old(
                    self,
                ).spec_status(k2),
            !accepted ==> final(self).entries_view() == old(self).entries_view(),
    {
        let ghost k = (entity@, op, cmd_id@);
        match self.find(entity, op, cmd_id) {
            Some(i) => {
                proof {
                    lemma_lookup_found(self.entries_view(), i as int, k);
                }
                let current = self.entries[i].status;
                if current.accepts(status) {
                    let ghost before = self.entries@;
                    let old_entry = self.entries.remove(i);
                    let new_entry = TrackedCommand {
                        entity: old_entry.entity,
                        operation: old_entry.operation,
                        cmd_id: old_entry.cmd_id,
                        status,
                    };
                    self.entries.insert(i, new_entry);
                    proof {
                        assert(self.entries@ =~= before.update(i as int, new_entry));
                        assert(cmd_key(new_entry) == k);
                        lemma_lookup_update(before, i as int, new_entry);
                        assert forall|ii: int, jj: int|
                            0 <= ii < jj < self.entries@.len() implies cmd_key(
                            #[trigger] self.entries@[ii],
                        ) != cmd_key(#[trigger] self.entries@[jj]) by {
                            assert(cmd_key(before[ii]) != cmd_key(before[jj]));
                            if ii == i {
                                assert(self.entries@[ii] == new_entry);
                                assert(self.entries@[jj] == before[jj]);
                                assert(cmd_key(new_entry) == cmd_key(before[ii]));
                            } else if jj == i {
                                assert(self.entries@[jj] == new_entry);
                                assert(self.entries@[ii] == before[ii]);
                                assert(cmd_key(new_entry) == cmd_key(before[jj]));
                            } else {
                                assert(self.entries@[ii] == before[ii]);
                                assert(self.entries@[jj] == before[jj]);
                            }
                        }
                    }
                    true
                } else {
                    false
                }
            },
            None => {
                let ghost before = self.entries@;
                let new_entry = TrackedCommand {
                    entity: entity.clone(),
                    operation: op,
                    cmd_id: cmd_id.to_owned(),
                    status,
                };
                self.entries.push(new_entry);
                proof {
                    assert(cmd_key(new_entry) == k);
                    lemma_lookup_absent(before, k);
                    lemma_lookup_push(before, new_entry, k);
                    assert forall|k2: (Seq<Seq<char>>, OperationKind, Seq<char>)| k2 != k implies
                        #[trigger] spec_status_lookup(before.push(new_entry), k2)
                        == spec_status_lookup(before, k2) by {
                        lemma_lookup_push(before, new_entry, k2);
                    }
                    assert forall|ii: int, jj: int|
                        0 <= ii < jj < self.entries@.len() implies cmd_key(
                        #[trigger] self.entries@[ii],
                    ) != cmd_key(#[trigger] self.entries@[jj]) by {
                        if jj < before.len() {
                            assert(self.entries@[ii] == before[ii]);
                            assert(self.entries@[jj] == before[jj]);
                        } else {
                            assert(self.entries@[jj] == new_entry);
                            assert(self.entries@[ii] == before[ii]);
                            assert(cmd_key(before[ii]) != k) by {
                                if cmd_key(before[ii]) == k {
                                    lemma_lookup_found_any(before, ii, k);
                                }
                            }
                        }
                    }
                }
                true
            },
        }
    }

    /// Forget a command, whatever its status; its id may then be reused
    /// for a fresh command.
    pub fn clear(&mut self, entity: &EntityTopicId, op: OperationKind, cmd_id: &str) -> (removed:
        bool)
        requires
            old(self).wf(),
        ensures
            final(self).wf(),
            removed == (old(self).spec_status((entity@, op, cmd_id@)) is Some),
            final(self).spec_status((entity@, op, cmd_id@)) is None,
            forall|k2: (Seq<Seq<char>>, OperationKind, Seq<char>)|
                k2 != (entity@, op, cmd_id@) ==> #[trigger] final(self).spec_status(k2) == old(
                    self,
                ).spec_status(k2),
    {
        let ghost k = (entity@, op, cmd_id@);
        match self.find(entity, op, cmd_id) {
            Some(i) => {
                let ghost before = self.entries@;
                proof {
                    lemma_lookup_found(before, i as int, k);
                    assert forall|j: int| i < j < before.len() implies cmd_key(
                        #[trigger] before[j],
                    ) != cmd_key(before[i as int]) by {}
                }
                self.entries.remove(i);
                proof {
                    assert(self.entries@ =~= before.remove(i as int));
                    lemma_lookup_remove(before, i as int);
                    assert forall|ii: int, jj: int|
                        0 <= ii < jj < self.entries@.len() implies cmd_key(
                        #[trigger] self.entries@[ii],
                    ) != cmd_key(#[trigger] self.entries@[jj]) by {
                        let before_ii = if ii < i { ii } else { ii + 1 };
                        let before_jj = if jj < i { jj } else { jj + 1 };
                        assert(self.entries@[ii] == before[before_ii]);
                        assert(self.entries@[jj] == before[before_jj]);
                    }
                }
                true
            },
            None => {
                proof {
                    lemma_lookup_absent(self.entries_view(), k);
                }
                false
            },
        }
    }
}

/// A lookup resolves to the first entry of its identity.
proof fn lemma_lookup_found(
    entries: Seq<TrackedCommand>,
    i: int,
    k: (Seq<Seq<char>>, OperationKind, Seq<char>),
)
    requires
        0 <= i < entries.len(),
        cmd_key(entries[i]) == k,
        forall|j: int| 0 <= j < i ==> cmd_key(#[trigger] entries[j]) != k,
    ensures
        spec_status_lookup(entries, k) == Some(entries[i].status),
    decreases i,
{
    if i > 0 {
        assert(entries.drop_first()[i - 1] == entries[i]);
        assert forall|j: int| 0 <= j < i - 1 implies cmd_key(#[trigger] entries.drop_first()[j])
            != k by {
            assert(entries.drop_first()[j] == entries[j + 1]);
        }
        lemma_lookup_found(entries.drop_first(), i - 1, k);
    }
}

/// An entry of identity `k` anywhere makes the lookup of `k` succeed.
proof fn lemma_lookup_found_any(
    entries: Seq<TrackedCommand>,
    i: int,
    k: (Seq<Seq<char>>, OperationKind, Seq<char>),
)
    requires
        0 <= i < entries.len(),
        cmd_key(entries[i]) == k,
    ensures
        spec_status_lookup(entries, k) is Some,
    decreases i,
{
    if cmd_key(entries[0]) != k {
        assert(entries.drop_first()[i - 1] == entries[i]);
        lemma_lookup_found_any(entries.drop_first(), i - 1, k);
    }
}

} // verus!
