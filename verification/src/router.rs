//! The topic router / operation converter.
//!
//! One converter serves one device entity under one topic root. Inbound
//! transport messages whose topic matches the command grammar are turned
//! into typed [`Command`] values and validated against the command board;
//! a topic that does not match is ignored, a malformed payload or an
//! out-of-order status is dropped, and neither disturbs the rest of the
//! state. Outbound command responses are rendered back onto the same
//! topic. Before any command traffic, the converter announces each
//! operation it serves with a retained capability message, at most once
//! per `(entity, operation)` for its whole lifetime.

use crate::board::spec_update_accepted;
use crate::board::CommandBoard;
use crate::board::TrackedCommand;
use crate::entity::EntityTopicId;
use crate::operation::OperationKind;
use crate::payload::parse_status_payload;
use crate::payload::render_status_payload;
use crate::payload::spec_parse_status_payload;
use crate::payload::spec_render_status_payload;
use crate::status::CommandStatus;
use crate::topic::capability_topic;
use crate::topic::command_topic;
use crate::topic::parse_command_topic;
use crate::topic::spec_capability_topic;
use crate::topic::spec_command_topic;
use crate::topic::spec_parse_command_topic;
use vstd::prelude::*;

verus! {

/// Delivery quality of service of a transport message.
#[derive(Clone, Copy, Debug, PartialEq, Eq, Structural)]
pub enum QoS {
    AtMostOnce,
    AtLeastOnce,
    ExactlyOnce,
}

/// A transport message: a topic, a textual payload, and its delivery
/// flags.
#[derive(Debug)]
pub struct MqttMessage {
    pub topic: String,
    pub payload: String,
    pub qos: QoS,
    pub retain: bool,
}

impl MqttMessage {
    /// A non-retained message with at-least-once delivery.
    pub fn new(topic: &str, payload: &str) -> (m: MqttMessage)
        ensures
            m.topic@ == topic@,
            m.payload@ == payload@,
            m.qos == QoS::AtLeastOnce,
            !m.retain,
    {
        MqttMessage {
            topic: topic.to_owned(),
            payload: payload.to_owned(),
            qos: QoS::AtLeastOnce,
            retain: false,
        }
    }

    /// The same message, retained by the broker for late subscribers.
    pub fn with_retain(self) -> (m: MqttMessage)
        ensures
            m.topic@ == self.topic@,
            m.payload@ == self.payload@,
            m.qos == self.qos,
            m.retain,
    {
        MqttMessage { retain: true, ..self }
    }
}

/// One instance of a long-running operation.
#[derive(Debug)]
pub struct Command {
    /// The entity the command addresses.
    pub target: EntityTopicId,
    /// The kind of operation.
    pub operation: OperationKind,
    /// Caller-chosen identifier, unique per outstanding command per
    /// `(target, operation)`.
    pub cmd_id: String,
    /// Where the command stands in its lifecycle.
    pub status: CommandStatus,
    /// The failure reason, when the payload carries one.
    pub reason: Option<String>,
}

/// The fresh operations a capability pass announces, and the announced
/// set it leaves behind: each operation of `ops` in turn is announced
/// for `device` unless that pair is already in the set.
pub open spec fn spec_start(
    announced: Seq<(Seq<Seq<char>>, OperationKind)>,
    device: Seq<Seq<char>>,
    ops: Seq<OperationKind>,
) -> (Seq<OperationKind>, Seq<(Seq<Seq<char>>, OperationKind)>)
    decreases ops.len(),
{
    if ops.len() == 0 {
        (Seq::<OperationKind>::empty(), announced)
    } else if announced.contains((device, ops[0])) {
        spec_start(announced, device, ops.drop_first())
    } else {
        let rec = spec_start(announced.push((device, ops[0])), device, ops.drop_first());
        (seq![ops[0]] + rec.0, rec.1)
    }
}

/// The router of one agent instance.
pub struct OperationConverter {
    root: String,
    device: EntityTopicId,
    operations: Vec<OperationKind>,
    announced: Vec<(EntityTopicId, OperationKind)>,
    board: CommandBoard,
}

impl OperationConverter {
    /// The topic root, e.g. `te`.
    pub closed spec fn spec_root(self) -> Seq<char> {
        self.root@
    }

    /// The device entity this instance governs.
    pub closed spec fn spec_device(self) -> Seq<Seq<char>> {
        self.device@
    }

    /// The operation kinds this instance serves.
    pub closed spec fn spec_operations(self) -> Seq<OperationKind> {
        self.operations@
    }

    /// The capability announcements made so far, in order.
    pub closed spec fn spec_announced(self) -> Seq<(Seq<Seq<char>>, OperationKind)> {
        self.announced@.map_values(|p: (EntityTopicId, OperationKind)| (p.0@, p.1))
    }

    /// The command board entries.
    pub closed spec fn board_entries(self) -> Seq<TrackedCommand> {
        self.board.entries_view()
    }

    /// The tracked status of a command.
    pub open spec fn spec_status(
        self,
        k: (Seq<Seq<char>>, OperationKind, Seq<char>),
    ) -> Option<CommandStatus> {
        crate::board::spec_status_lookup(self.board_entries(), k)
    }

    /// The board never tracks one command twice.
    pub closed spec fn wf(self) -> bool {
        self.board.wf()
    }

    /// A fresh converter: nothing announced, nothing tracked.
    pub fn new(root: String, device: EntityTopicId, operations: Vec<OperationKind>) -> (c:
        OperationConverter)
        ensures
            c.wf(),
            c.spec_root() == root@,
            c.spec_device() == device@,
            c.spec_operations() == operations@,
            c.spec_announced() == Seq::<(Seq<Seq<char>>, OperationKind)>::empty(),
            forall|k: (Seq<Seq<char>>, OperationKind, Seq<char>)| #[trigger] c.spec_status(k) is None,
    {
        let c = OperationConverter {
            root,
            device,
            operations,
            announced: Vec::new(),
            board: CommandBoard::new(),
        };
        proof {
            assert(c.spec_announced() =~= Seq::<(Seq<Seq<char>>, OperationKind)>::empty());
            assert forall|k: (Seq<Seq<char>>, OperationKind, Seq<char>)| #[trigger] c.spec_status(
                k,
            ) is None by {
                assert(c.board.spec_status(k) is None);
            }
        }
        c
    }

    /// Announce that `entity` serves `op`, unless that was already
    /// announced in this lifetime: the returned retained message carries
    /// an empty object on the capability topic.
    pub fn announce_capability(&mut self, entity: &EntityTopicId, op: OperationKind) -> (r: Option<
        MqttMessage,
    >)
        requires
            old(self).wf(),
        ensures
            final(self).wf(),
            final(self).spec_root() == old(self).spec_root(),
            final(self).spec_device() == old(self).spec_device(),
            final(self).spec_operations() == old(self).spec_operations(),
            final(self).board_entries() == old(self).board_entries(),
            r is Some <==> !old(self).spec_announced().contains((entity@, op)),
            r is Some ==> final(self).spec_announced() == old(self).spec_announced().push(
                (entity@, op),
            ),
            r is None ==> final(self).spec_announced() == old(self).spec_announced(),
            r matches Some(m) ==> m.topic@ == spec_capability_topic(
                old(self).spec_root(),
                entity@,
                op,
            ) && m.payload@ == "{}"@ && m.qos == QoS::AtLeastOnce && m.retain,
    {
        let ghost key = (entity@, op);
        let ghost mapped = self.spec_announced();
        let mut i: usize = 0;
        while i < self.announced.len()
            invariant
                0 <= i <= self.announced@.len(),
                *self == *old(self),
                self.wf(),
                mapped == self.announced@.map_values(|p: (EntityTopicId, OperationKind)| (p.0@, p.1)),
                key == (entity@, op),
                forall|j: int| 0 <= j < i ==> #[trigger] mapped[j] != key,
            decreases self.announced@.len() - i,
        {
            let entry = &self.announced[i];
            let same_entity = entry.0 == *entity;
            let same_op = entry.1 == op;
            proof {
                assert(mapped[i as int] == (entry.0@, entry.1));
            }
            if same_entity && same_op {
                proof {
                    assert(mapped.contains(key)) by {
                        assert(mapped[i as int] == key);
                    }
                }
                return None;
            }
            i += 1;
        }
        proof {
            assert(!mapped.contains(key)) by {
                if mapped.contains(key) {
                    let j = choose|j: int| 0 <= j < mapped.len() && mapped[j] == key;
                    assert(mapped[j] != key);
                }
            }
        }
        let ghost before = self.announced@;
        self.announced.push((entity.clone(), op));
        let topic = capability_topic(self.root.as_str(), entity, op);
        proof {
            assert(self.spec_announced() =~= before.map_values(
                |p: (EntityTopicId, OperationKind)| (p.0@, p.1),
            ).push((entity@, op)));
        }
        Some(MqttMessage::new(topic.as_str(), "{}").with_retain())
    }

    /// Announce every operation this instance serves for its own device,
    /// skipping the pairs already announced; the returned retained
    /// messages must be published before any command traffic is
    /// processed, so that late subscribers discover the capabilities.
    pub fn start_messages(&mut self) -> (r: Vec<MqttMessage>)
        requires
            old(self).wf(),
        ensures
            final(self).wf(),
            final(self).spec_root() == old(self).spec_root(),
            final(self).spec_device() == old(self).spec_device(),
            final(self).spec_operations() == old(self).spec_operations(),
            final(self).board_entries() == old(self).board_entries(),
            ({
                let plan = spec_start(
                    old(self).spec_announced(),
                    old(self).spec_device(),
                    old(self).spec_operations(),
                );
                &&& final(self).spec_announced() == plan.1
                &&& r@.len() == plan.0.len()
                &&& forall|j: int|
                    0 <= j < r@.len() ==> (#[trigger] r@[j]).topic@ == spec_capability_topic(
                        old(self).spec_root(),
                        old(self).spec_device(),
                        plan.0[j],
                    ) && r@[j].payload@ == "{}"@ && r@[j].qos == QoS::AtLeastOnce && r@[j].retain
            }),
    {
        let ghost announced0 = self.spec_announced();
        let ghost device0 = self.spec_device();
        let ghost ops0 = self.spec_operations();
        let ghost root0 = self.spec_root();
        let ghost board0 = self.board_entries();
        let ghost plan = spec_start(announced0, device0, ops0);
        let device = self.device.clone();
        let mut out: Vec<MqttMessage> = Vec::new();
        let ghost mut fresh: Seq<OperationKind> = Seq::empty();
        let mut i: usize = 0;
        proof {
            assert(ops0.skip(0) =~= ops0);
            assert(fresh + spec_start(self.spec_announced(), device0, ops0).0 =~= plan.0);
        }
        while i < self.operations.len()
            invariant
                0 <= i <= self.operations@.len(),
                self.wf(),
                self.spec_root() == root0,
                self.spec_device() == device0,
                self.spec_operations() == ops0,
                self.board_entries() == board0,
                device@ == device0,
                plan == spec_start(announced0, device0, ops0),
                plan.0 == fresh + spec_start(self.spec_announced(), device0, ops0.skip(i as int)).0,
                plan.1 == spec_start(self.spec_announced(), device0, ops0.skip(i as int)).1,
                out@.len() == fresh.len(),
                forall|j: int|
                    0 <= j < out@.len() ==> (#[trigger] out@[j]).topic@ == spec_capability_topic(
                        root0,
                        device0,
                        fresh[j],
                    ) && out@[j].payload@ == "{}"@ && out@[j].qos == QoS::AtLeastOnce
                        && out@[j].retain,
            decreases self.operations@.len() - i,
        {
            let op = self.operations[i];
            proof {
                assert(ops0.skip(i as int).len() > 0);
                assert(ops0.skip(i as int)[0] == ops0[i as int]);
                assert(ops0.skip(i as int).drop_first() =~= ops0.skip(i as int + 1));
            }
            let ghost announced_before = self.spec_announced();
            match self.announce_capability(&device, op) {
                Some(m) => {
                    proof {
                        assert(!announced_before.contains((device0, op)));
                        assert(spec_start(announced_before, device0, ops0.skip(i as int)) == (
                            seq![op] + spec_start(
                                announced_before.push((device0, op)),
                                device0,
                                ops0.skip(i as int + 1),
                            ).0,
                            spec_start(
                                announced_before.push((device0, op)),
                                device0,
                                ops0.skip(i as int + 1),
                            ).1,
                        ));
                        assert(fresh + (seq![op] + spec_start(
                            self.spec_announced(),
                            device0,
                            ops0.skip(i as int + 1),
                        ).0) =~= fresh.push(op) + spec_start(
                            self.spec_announced(),
                            device0,
                            ops0.skip(i as int + 1),
                        ).0);
                    }
                    out.push(m);
                    proof {
                        fresh = fresh.push(op);
                    }
                },
                None => {
                    proof {
                        assert(announced_before.contains((device0, op)));
                        assert(spec_start(announced_before, device0, ops0.skip(i as int))
                            == spec_start(announced_before, device0, ops0.skip(i as int + 1)));
                    }
                },
            }
            i += 1;
        }
        proof {
            assert(ops0.skip(i as int) =~= Seq::<OperationKind>::empty());
            assert(spec_start(self.spec_announced(), device0, ops0.skip(i as int)) == (
                Seq::<OperationKind>::empty(),
                self.spec_announced(),
            ));
            assert(fresh + Seq::<OperationKind>::empty() =~= fresh);
        }
        out
    }

    /// Route one inbound transport message.
    ///
    /// A topic that does not match the command grammar under this
    /// instance's root is ignored. A matching topic with a malformed
    /// payload is dropped. A well-formed update that would move the
    /// command backward — in particular, any update to a command already
    /// in a terminal state — is dropped without altering the tracked
    /// status. Otherwise the update is recorded and the typed command is
    /// returned, to be forwarded on the mailbox of its operation kind.
    pub fn handle_mqtt_message(&mut self, msg: &MqttMessage) -> (r: Option<Command>)
        requires
            old(self).wf(),
        ensures
            final(self).wf(),
            final(self).spec_root() == old(self).spec_root(),
            final(self).spec_device() == old(self).spec_device(),
            final(self).spec_operations() == old(self).spec_operations(),
            final(self).spec_announced() == old(self).spec_announced(),
            spec_parse_command_topic(old(self).spec_root(), msg.topic@) is None ==> r is None
                && final(self).board_entries() == old(self).board_entries(),
            ({
                let parsed = spec_parse_command_topic(old(self).spec_root(), msg.topic@);
                let payload = spec_parse_status_payload(msg.payload@);
                parsed is Some && payload is None ==> r is None && final(self).board_entries()
                    == old(self).board_entries()
            }),
            ({
                let parsed = spec_parse_command_topic(old(self).spec_root(), msg.topic@);
                let payload = spec_parse_status_payload(msg.payload@);
                parsed matches Some((entity, op, id)) ==> payload matches Some((status, reason))
                    ==> {
                    let accepted = spec_update_accepted(
                        old(self).spec_status((entity, op, id)),
                        status,
                    );
                    &&& !accepted ==> r is None && final(self).board_entries() == old(
                        self,
                    ).board_entries()
                    &&& accepted ==> {
                        &&& r is Some
                        &&& final(self).spec_status((entity, op, id)) == Some(status)
                        &&& forall|k2: (Seq<Seq<char>>, OperationKind, Seq<char>)|
                            k2 != (entity, op, id) ==> #[trigger] final(self).spec_status(k2)
                                == old(self).spec_status(k2)
                        &&& {
                            let cmd = r->0;
                            &&& cmd.target@ == entity
                            &&& cmd.operation == op
                            &&& cmd.cmd_id@ == id
                            &&& cmd.status == status
                            &&& (cmd.reason is Some <==> reason is Some)
                            &&& (cmd.reason matches Some(text) ==> reason == Some(text@))
                        }
                    }
                }
            }),
            ({
                let parsed = spec_parse_command_topic(old(self).spec_root(), msg.topic@);
                let payload = spec_parse_status_payload(msg.payload@);
                parsed matches Some((entity, op, id)) && payload is Some && (old(self).spec_status(
                    (entity, op, id),
                ) matches Some(cur) && cur.spec_is_terminal()) ==> r is None
                    && final(self).board_entries() == old(self).board_entries()
            }),
    {
        let parsed = match parse_command_topic(self.root.as_str(), msg.topic.as_str()) {
            Some(p) => p,
            None => {
                return None;
            },
        };
        let (status, reason) = match parse_status_payload(msg.payload.as_str()) {
            Some(p) => p,
            None => {
                return None;
            },
        };
        let ghost k = (parsed.entity@, parsed.operation, parsed.cmd_id@);
        let accepted = self.board.update(
            &parsed.entity,
            parsed.operation,
            parsed.cmd_id.as_str(),
            status,
        );
        if !accepted {
            return None;
        }
        proof {
            assert(self.board.spec_status(k) == Some(status));
            assert forall|k2: (Seq<Seq<char>>, OperationKind, Seq<char>)| k2 != k implies
                #[trigger] self.spec_status(k2) == old(self).spec_status(k2) by {
                assert(self.board.spec_status(k2) == old(self).board.spec_status(k2));
            }
        }
        Some(
            Command {
                target: parsed.entity,
                operation: parsed.operation,
                cmd_id: parsed.cmd_id,
                status,
                reason,
            },
        )
    }

    /// Serialize a typed response from a business actor back onto its
    /// command topic. The tracked status moves along with the response,
    /// so that later duplicated inbound updates are recognized; a
    /// response that would move the command backward is still published
    /// but leaves the tracked status alone.
    pub fn handle_command_response(&mut self, cmd: &Command) -> (r: MqttMessage)
        requires
            old(self).wf(),
        ensures
            final(self).wf(),
            final(self).spec_root() == old(self).spec_root(),
            final(self).spec_device() == old(self).spec_device(),
            final(self).spec_operations() == old(self).spec_operations(),
            final(self).spec_announced() == old(self).spec_announced(),
            r.topic@ == spec_command_topic(
                old(self).spec_root(),
                cmd.target@,
                cmd.operation,
                cmd.cmd_id@,
            ),
            cmd.reason is None ==> r.payload@ == spec_render_status_payload(cmd.status, None),
            cmd.reason matches Some(text) ==> r.payload@ == spec_render_status_payload(
                cmd.status,
                Some(text@),
            ),
            r.qos == QoS::AtLeastOnce,
            !r.retain,
            ({
                let k = (cmd.target@, cmd.operation, cmd.cmd_id@);
                let accepted = spec_update_accepted(old(self).spec_status(k), cmd.status);
                &&& accepted ==> final(self).spec_status(k) == Some(cmd.status) && (forall|
                    k2: (Seq<Seq<char>>, OperationKind, Seq<char>),
                |
                    k2 != k ==> #[trigger] final(self).spec_status(k2) == old(self).spec_status(
                        k2,
                    ))
                &&& !accepted ==> final(self).board_entries() == old(self).board_entries()
            }),
    {
        let topic = command_topic(
            self.root.as_str(),
            &cmd.target,
            cmd.operation,
            cmd.cmd_id.as_str(),
        );
        let payload = render_status_payload(cmd.status, &cmd.reason);
        let ghost k = (cmd.target@, cmd.operation, cmd.cmd_id@);
        let accepted = self.board.update(
            &cmd.target,
            cmd.operation,
            cmd.cmd_id.as_str(),
            cmd.status,
        );
        proof {
            if accepted {
                assert(self.board.spec_status(k) == Some(cmd.status));
                assert forall|k2: (Seq<Seq<char>>, OperationKind, Seq<char>)| k2 != k implies
                    #[trigger] self.spec_status(k2) == old(self).spec_status(k2) by {
                    assert(self.board.spec_status(k2) == old(self).board.spec_status(k2));
                }
            }
        }
        MqttMessage::new(topic.as_str(), payload.as_str())
    }

    /// The tracked status of a command.
    pub fn status_of(&self, entity: &EntityTopicId, op: OperationKind, cmd_id: &str) -> (r: Option<
        CommandStatus,
    >)
        ensures
            r == self.spec_status((entity@, op, cmd_id@)),
    {
        self.board.status_of(entity, op, cmd_id)
    }

    /// Forget a tracked command, so that its id may be reused for a new
    /// command.
    pub fn clear_command(&mut self, entity: &EntityTopicId, op: OperationKind, cmd_id: &str) -> (
        removed: bool)
        requires
            old(self).wf(),
        ensures
            final(self).wf(),
            final(self).spec_root() == old(self).spec_root(),
            final(self).spec_device() == old(self).spec_device(),
            final(self).spec_operations() == old(self).spec_operations(),
            final(self).spec_announced() == old(self).spec_announced(),
            removed == (old(self).spec_status((entity@, op, cmd_id@)) is Some),
            final(self).spec_status((entity@, op, cmd_id@)) is None,
            forall|k2: (Seq<Seq<char>>, OperationKind, Seq<char>)|
                k2 != (entity@, op, cmd_id@) ==> #[trigger] final(self).spec_status(k2) == old(
                    self,
                ).spec_status(k2),
    {
        let ghost k = (entity@, op, cmd_id@);
        let removed = self.board.clear(entity, op, cmd_id);
        proof {
            assert(self.board.spec_status(k) is None);
            assert forall|k2: (Seq<Seq<char>>, OperationKind, Seq<char>)| k2 != k implies
                #[trigger] self.spec_status(k2) == old(self).spec_status(k2) by {
                assert(self.board.spec_status(k2) == old(self).board.spec_status(k2));
            }
        }
        removed
    }
}

/// A successful announcement is remembered: its key stands in the
/// announced set from then on, and by the contract of
/// `announce_capability` every later announcement for the same key in
/// the same lifetime returns nothing — each capability is published at
/// most once per `(entity, operation)` per converter lifetime.
pub proof fn lemma_capability_announced_once(
    announced: Seq<(Seq<Seq<char>>, OperationKind)>,
    key: (Seq<Seq<char>>, OperationKind),
)
    ensures
        announced.push(key).contains(key),
{
    assert(announced.push(key)[announced.len() as int] == key);
}

/// Once a command is terminal, no update is accepted for it any more:
/// dropped updates leave the tracked status exactly as it was.
pub proof fn lemma_terminal_status_is_final(current: CommandStatus, next: CommandStatus)
    ensures
        current.spec_is_terminal() ==> !spec_update_accepted(Some(current), next),
{
}

} // verus!
