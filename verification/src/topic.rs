//! The command topic grammar.
//!
//! One command instance lives on
//! `<root>/<entity-path>/cmd/<operation>/<cmd-id>`; the retained capability
//! announcement for an operation lives on the same topic without the id,
//! `<root>/<entity-path>/cmd/<operation>`.

use crate::entity::entity_parts_wf;
use crate::entity::seg_wf;
use crate::entity::EntityTopicId;
use crate::operation::lemma_operation_name_round_trip;
use crate::operation::lemma_operation_name_wf;
use crate::operation::OperationKind;
use crate::text::lemma_join_split;
use crate::text::lemma_split_join;
use crate::text::lemma_split_parts_free_of_sep;
use crate::text::spec_join;
use crate::text::spec_split;
use crate::text::split_str;
use crate::text::str_eq;
use vstd::prelude::*;

verus! {

broadcast use crate::entity::lemma_entity_view_len;

/// The parts of a capability topic, in order.
pub open spec fn capability_topic_parts(
    root: Seq<char>,
    entity: Seq<Seq<char>>,
    op: OperationKind,
) -> Seq<Seq<char>> {
    seq![root] + entity + seq!["cmd"@, op.spec_name()]
}

/// The parts of the topic of one command instance, in order.
pub open spec fn command_topic_parts(
    root: Seq<char>,
    entity: Seq<Seq<char>>,
    op: OperationKind,
    id: Seq<char>,
) -> Seq<Seq<char>> {
    capability_topic_parts(root, entity, op).push(id)
}

/// The retained capability topic for `op` on `entity`.
pub open spec fn spec_capability_topic(
    root: Seq<char>,
    entity: Seq<Seq<char>>,
    op: OperationKind,
) -> Seq<char> {
    spec_join(capability_topic_parts(root, entity, op), '/')
}

/// The topic of the command instance `id` of `op` on `entity`.
pub open spec fn spec_command_topic(
    root: Seq<char>,
    entity: Seq<Seq<char>>,
    op: OperationKind,
    id: Seq<char>,
) -> Seq<char> {
    spec_join(command_topic_parts(root, entity, op, id), '/')
}

/// What a topic names under the command grammar: the entity, the
/// operation and the command id, provided the topic has exactly the
/// command shape under the given root.
pub open spec fn spec_parse_command_topic(root: Seq<char>, topic: Seq<char>) -> Option<
    (Seq<Seq<char>>, OperationKind, Seq<char>),
> {
    let parts = spec_split(topic, '/');
    if parts.len() == 8 && parts[0] == root && parts[5] == "cmd"@ && OperationKind::spec_parse(
        parts[6],
    ) is Some && entity_parts_wf(parts.subrange(1, 5)) {
        Some((parts.subrange(1, 5), OperationKind::spec_parse(parts[6])->0, parts[7]))
    } else {
        None
    }
}

/// A command topic taken apart.
pub struct ParsedCommandTopic {
    pub entity: EntityTopicId,
    pub operation: OperationKind,
    pub cmd_id: String,
}

/// Joining one more part appends a separator and the part.
proof fn lemma_join_push(parts: Seq<Seq<char>>, last: Seq<char>, sep: char)
    requires
        parts.len() >= 1,
    ensures
        spec_join(parts.push(last), sep) == spec_join(parts, sep) + seq![sep] + last,
    decreases parts.len(),
{
    if parts.len() == 1 {
        reveal_with_fuel(spec_join, 3);
        assert(parts.push(last).drop_first() =~= seq![last]);
        assert(spec_join(parts.push(last), sep) == parts[0] + seq![sep] + last);
    } else {
        lemma_join_push(parts.drop_first(), last, sep);
        assert(parts.push(last).drop_first() =~= parts.drop_first().push(last));
        assert(spec_join(parts.push(last), sep) == parts[0] + seq![sep] + spec_join(
            parts.drop_first().push(last),
            sep,
        ));
        assert(spec_join(parts.push(last), sep) =~= spec_join(parts, sep) + seq![sep] + last);
    }
}

/// The capability topic written out: `<root>/<entity-path>/cmd/<op>`.
pub proof fn lemma_capability_topic_form(root: Seq<char>, entity: Seq<Seq<char>>, op: OperationKind)
    requires
        entity.len() == 4,
    ensures
        spec_capability_topic(root, entity, op) == root + seq!['/'] + spec_join(entity, '/')
            + seq!['/'] + "cmd"@ + seq!['/'] + op.spec_name(),
{
    let head = seq![root] + entity;
    assert(head =~= (seq![root] + entity));
    lemma_join_cons(root, entity);
    lemma_join_push(head, "cmd"@, '/');
    lemma_join_push(head.push("cmd"@), op.spec_name(), '/');
    assert(capability_topic_parts(root, entity, op) =~= head.push("cmd"@).push(op.spec_name()));
    assert(spec_capability_topic(root, entity, op) =~= root + seq!['/'] + spec_join(entity, '/')
        + seq!['/'] + "cmd"@ + seq!['/'] + op.spec_name());
}

/// Joining with a first part prepends it and a separator.
proof fn lemma_join_cons(head: Seq<char>, rest: Seq<Seq<char>>)
    requires
        rest.len() >= 1,
    ensures
        spec_join(seq![head] + rest, '/') == head + seq!['/'] + spec_join(rest, '/'),
{
    let parts = seq![head] + rest;
    assert(parts.len() >= 2);
    assert(parts[0] == head);
    assert(parts.drop_first() =~= rest);
}

/// The command topic is the capability topic, a separator and the id.
pub proof fn lemma_command_topic_form(
    root: Seq<char>,
    entity: Seq<Seq<char>>,
    op: OperationKind,
    id: Seq<char>,
)
    ensures
        spec_command_topic(root, entity, op, id) == spec_capability_topic(root, entity, op)
            + seq!['/'] + id,
{
    lemma_join_push(capability_topic_parts(root, entity, op), id, '/');
    assert(capability_topic_parts(root, entity, op).len() >= 1) by {
        assert(capability_topic_parts(root, entity, op)[0] == root);
    }
}

/// Round trip: a command topic built from well-formed parts parses back
/// to exactly those parts.
pub proof fn lemma_command_topic_round_trip(
    root: Seq<char>,
    entity: Seq<Seq<char>>,
    op: OperationKind,
    id: Seq<char>,
)
    requires
        !root.contains('/'),
        entity_parts_wf(entity),
        !id.contains('/'),
    ensures
        spec_parse_command_topic(root, spec_command_topic(root, entity, op, id)) == Some(
            (entity, op, id),
        ),
{
    let parts = command_topic_parts(root, entity, op, id);
    lemma_operation_name_wf(op);
    lemma_operation_name_round_trip(op);
    lemma_cmd_literal_wf();
    assert(parts.len() == 8);
    assert forall|k: int| 0 <= k < parts.len() implies !(#[trigger] parts[k]).contains('/') by {
        if 1 <= k < 5 {
            assert(seg_wf(entity[k - 1]));
            assert(parts[k] == entity[k - 1]);
        }
    }
    lemma_join_split(parts, '/');
    let topic = spec_command_topic(root, entity, op, id);
    assert(spec_split(topic, '/') == parts);
    assert(parts.subrange(1, 5) =~= entity);
    assert(parts[5] == "cmd"@);
    assert(parts[6] == op.spec_name());
    assert(parts[7] == id);
}

/// Soundness: whatever parses as a command topic is exactly the command
/// topic rendered from the parsed parts.
pub proof fn lemma_parse_command_topic_sound(root: Seq<char>, topic: Seq<char>)
    requires
        spec_parse_command_topic(root, topic) is Some,
    ensures
        ({
            let (entity, op, id) = spec_parse_command_topic(root, topic)->0;
            topic == spec_command_topic(root, entity, op, id)
        }),
{
    let parts = spec_split(topic, '/');
    let (entity, op, id) = spec_parse_command_topic(root, topic)->0;
    assert(parts[6] == op.spec_name()) by {
        lemma_operation_name_parse_sound(parts[6]);
    }
    assert(command_topic_parts(root, entity, op, id) =~= parts);
    lemma_split_join(topic, '/');
}

/// A parsed operation name is the name of the parsed operation.
proof fn lemma_operation_name_parse_sound(s: Seq<char>)
    requires
        OperationKind::spec_parse(s) is Some,
    ensures
        (OperationKind::spec_parse(s)->0).spec_name() == s,
{
}

/// The literal `cmd` holds no separator and no wildcard.
proof fn lemma_cmd_literal_wf()
    ensures
        seg_wf("cmd"@),
{
    broadcast use vstd::string::group_string_axioms;

    reveal_strlit("cmd");
    assert("cmd"@ =~= seq!['c', 'm', 'd']);
}

/// Render the retained capability topic for `op` on `entity`.
pub fn capability_topic(root: &str, entity: &EntityTopicId, op: OperationKind) -> (t: String)
    ensures
        t@ == spec_capability_topic(root@, entity@, op),
{
    let mut out = String::from_str(root);
    out.append("/");
    let path = entity.to_path();
    out.append(path.as_str());
    out.append("/");
    out.append("cmd");
    out.append("/");
    out.append(op.as_str());
    proof {
        reveal_strlit("/");
        assert("/"@ =~= seq!['/']);
        lemma_capability_topic_form(root@, entity@, op);
        assert(out@ =~= spec_capability_topic(root@, entity@, op));
    }
    out
}

/// Render the topic of the command instance `cmd_id` of `op` on `entity`.
pub fn command_topic(root: &str, entity: &EntityTopicId, op: OperationKind, cmd_id: &str) -> (t:
    String)
    ensures
        t@ == spec_command_topic(root@, entity@, op, cmd_id@),
{
    let mut out = capability_topic(root, entity, op);
    out.append("/");
    out.append(cmd_id);
    proof {
        reveal_strlit("/");
        assert("/"@ =~= seq!['/']);
        lemma_command_topic_form(root@, entity@, op, cmd_id@);
        assert(out@ =~= spec_command_topic(root@, entity@, op, cmd_id@));
    }
    out
}

/// Take a topic apart under the command grammar; `None` when the topic
/// does not have the command shape under `root`.
pub fn parse_command_topic(root: &str, topic: &str) -> (r: Option<ParsedCommandTopic>)
    ensures
        r is Some <==> spec_parse_command_topic(root@, topic@) is Some,
        r matches Some(p) ==> spec_parse_command_topic(root@, topic@) == Some(
            (p.entity@, p.operation, p.cmd_id@),
        ) && p.entity.wf(),
{
    let mut parts = split_str(topic, '/');
    if parts.len() != 8 {
        return None;
    }
    if !str_eq(parts[0].as_str(), root) {
        return None;
    }
    if !str_eq(parts[5].as_str(), "cmd") {
        return None;
    }
    let op = match OperationKind::parse(parts[6].as_str()) {
        Some(op) => op,
        None => {
            return None;
        },
    };
    let ghost orig = parts@.map_values(|p: String| p@);
    let cmd_id = parts.pop().unwrap();
    let _op_name = parts.pop().unwrap();
    let _cmd = parts.pop().unwrap();
    let e4 = parts.pop().unwrap();
    let e3 = parts.pop().unwrap();
    let e2 = parts.pop().unwrap();
    let e1 = parts.pop().unwrap();
    proof {
        assert(seq![e1@, e2@, e3@, e4@] =~= orig.subrange(1, 5));
        lemma_split_parts_free_of_sep(topic@, '/');
    }
    let entity = match EntityTopicId::from_segments(e1, e2, e3, e4) {
        Some(e) => e,
        None => {
            return None;
        },
    };
    Some(ParsedCommandTopic { entity, operation: op, cmd_id })
}

} // verus!
