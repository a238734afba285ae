//! Translation of entity health payloads into the cloud's
//! service-monitoring messages.
//!
//! A health payload is an object of the payload grammar of this crate,
//! typically `{"pid":1234,"type":"systemd","status":"up"}`; only its
//! string members (here `type` and `status`) carry information. The
//! translation fills in defaults for missing or empty fields and renders
//! the `102` service-monitoring record, with values sanitized for the
//! record's quoted, comma-separated format.

use crate::entity::EntityTopicId;
use crate::payload::field_value;
use crate::payload::parse_payload;
use crate::payload::spec_field;
use crate::payload::spec_parse_payload;
use crate::router::MqttMessage;
use crate::router::QoS;
use crate::text::str_eq;
use vstd::prelude::*;

verus! {

broadcast use crate::entity::lemma_entity_view_len;

/// The size limit the cloud puts on one record's values.
pub const MAX_PAYLOAD_LIMIT_IN_BYTES: usize = 16184;

/// A service's health, as its payload reports it.
#[derive(Debug)]
pub struct HealthStatus {
    /// The kind of service; empty when the payload names none.
    pub service_type: String,
    /// The reported status; `unknown` when the payload names none.
    pub status: String,
}

/// The status assumed when a payload names none.
pub fn default_status() -> (r: String)
    ensures
        r@ == "unknown"@,
{
    String::from_str("unknown")
}

/// The service type assumed when a payload names none.
pub fn default_type() -> (r: String)
    ensures
        r@ == Seq::<char>::empty(),
{
    String::new()
}

/// Every double quote doubled, so that the value can stand inside a
/// quoted field of a record.
pub open spec fn spec_escape_quotes(s: Seq<char>) -> Seq<char>
    decreases s.len(),
{
    if s.len() == 0 {
        Seq::<char>::empty()
    } else {
        (if s[0] == '"' {
            seq!['"', '"']
        } else {
            seq![s[0]]
        }) + spec_escape_quotes(s.drop_first())
    }
}

/// Escaping one more character appends its escaped form.
proof fn lemma_escape_quotes_push(s: Seq<char>, c: char)
    ensures
        spec_escape_quotes(s.push(c)) == spec_escape_quotes(s) + (if c == '"' {
            seq!['"', '"']
        } else {
            seq![c]
        }),
    decreases s.len(),
{
    if s.len() == 0 {
        reveal_with_fuel(spec_escape_quotes, 3);
        assert(s.push(c)[0] == c);
        assert(s.push(c).drop_first() =~= Seq::<char>::empty());
        assert(spec_escape_quotes(s.push(c)) =~= spec_escape_quotes(s) + (if c == '"' {
            seq!['"', '"']
        } else {
            seq![c]
        }));
    } else {
        assert(s.push(c)[0] == s[0]);
        assert(s.push(c).drop_first() =~= s.drop_first().push(c));
        lemma_escape_quotes_push(s.drop_first(), c);
        assert(spec_escape_quotes(s.push(c)) =~= spec_escape_quotes(s) + (if c == '"' {
            seq!['"', '"']
        } else {
            seq![c]
        }));
    }
}

/// A value sanitized for a record: quotes doubled, then cut to at most
/// `max` characters.
pub open spec fn spec_sanitize(s: Seq<char>, max: int) -> Seq<char> {
    let escaped = spec_escape_quotes(s);
    if escaped.len() <= max {
        escaped
    } else {
        escaped.take(max)
    }
}

/// Sanitize a value for a record.
pub fn sanitize_for_smartrest(value: &str, max: usize) -> (r: String)
    ensures
        r@ == spec_sanitize(value@, max as int),
{
    let n = value.unicode_len();
    let mut out = String::new();
    let mut i: usize = 0;
    proof {
        assert(value@.take(0) =~= Seq::<char>::empty());
    }
    while i < n
        invariant
            0 <= i <= n,
            n == value@.len(),
            out@ == spec_escape_quotes(value@.take(i as int)),
        decreases n - i,
    {
        let c = value.get_char(i);
        proof {
            assert(value@.take(i as int + 1) =~= value@.take(i as int).push(value@[i as int]));
            lemma_escape_quotes_push(value@.take(i as int), value@[i as int]);
            reveal_strlit("\"\"");
            assert("\"\""@ =~= seq!['"', '"']);
        }
        if c == '"' {
            out.append("\"\"");
        } else {
            let piece = value.substring_char(i, i + 1);
            proof {
                assert(piece@ =~= seq![value@[i as int]]);
            }
            out.append(piece);
        }
        i += 1;
    }
    proof {
        assert(value@.take(n as int) =~= value@);
    }
    let escaped_len = out.as_str().unicode_len();
    if escaped_len <= max {
        out
    } else {
        let cut = out.as_str().substring_char(0, max).to_owned();
        proof {
            assert(cut@ =~= spec_escape_quotes(value@).take(max as int));
        }
        cut
    }
}

/// Whether `sub` occurs in `s`.
pub open spec fn has_substring(s: Seq<char>, sub: Seq<char>) -> bool {
    exists|i: int| 0 <= i <= s.len() - sub.len() && #[trigger] s.subrange(i, i + sub.len()) == sub
}

/// Search for `sub` in `s`.
pub fn contains_substring(s: &str, sub: &str) -> (r: bool)
    ensures
        r == has_substring(s@, sub@),
{
    let n = s.unicode_len();
    let m = sub.unicode_len();
    if m > n {
        proof {
            assert(!has_substring(s@, sub@)) by {
                if has_substring(s@, sub@) {
                    let i = choose|i: int|
                        0 <= i <= s@.len() - sub@.len() && #[trigger] s@.subrange(i, i + sub@.len())
                            == sub@;
                }
            }
        }
        return false;
    }
    if m == 0 {
        proof {
            assert(has_substring(s@, sub@)) by {
                assert(s@.subrange(0, 0 + sub@.len() as int) =~= sub@);
            }
        }
        return true;
    }
    let mut i: usize = 0;
    while i <= n - m
        invariant
            0 <= i <= n - m + 1,
            1 <= m <= n,
            n == s@.len(),
            m == sub@.len(),
            forall|j: int| 0 <= j < i ==> #[trigger] s@.subrange(j, j + sub@.len()) != sub@,
        decreases n - i,
    {
        let piece = s.substring_char(i, i + m);
        if str_eq(piece, sub) {
            proof {
                assert(has_substring(s@, sub@)) by {
                    assert(s@.subrange(i as int, i as int + sub@.len()) == sub@);
                }
            }
            return true;
        }
        i += 1;
    }
    proof {
        assert(!has_substring(s@, sub@)) by {
            if has_substring(s@, sub@) {
                let j = choose|j: int|
                    0 <= j <= s@.len() - sub@.len() && #[trigger] s@.subrange(j, j + sub@.len())
                        == sub@;
                assert(s@.subrange(j, j + sub@.len()) != sub@);
            }
        }
    }
    false
}

/// The status and service type a health payload reports, defaults
/// applied: an unreadable payload or a missing or empty status reports
/// `unknown`; a missing or empty type falls back to the configured
/// default, or to `service` when that is empty too.
pub open spec fn spec_health_fields(payload: Seq<char>, default_service_type: Seq<char>) -> (
    Seq<char>,
    Seq<char>,
) {
    let parsed = spec_parse_payload(payload);
    let raw_status = match parsed {
        Some(members) => match spec_field(members, "status"@) {
            Some(s) => s,
            None => "unknown"@,
        },
        None => "unknown"@,
    };
    let raw_type = match parsed {
        Some(members) => match spec_field(members, "type"@) {
            Some(t) => t,
            None => Seq::<char>::empty(),
        },
        None => default_service_type,
    };
    let status = if raw_status.len() == 0 {
        "unknown"@
    } else {
        raw_status
    };
    let service_type = if raw_type.len() == 0 {
        if default_service_type.len() == 0 {
            "service"@
        } else {
            default_service_type
        }
    } else {
        raw_type
    };
    (status, service_type)
}

/// Read a health payload, defaults applied.
pub fn parse_health_status(payload: &str, default_service_type: &str) -> (r: HealthStatus)
    ensures
        r.status@ == spec_health_fields(payload@, default_service_type@).0,
        r.service_type@ == spec_health_fields(payload@, default_service_type@).1,
{
    let (raw_status, raw_type) = match parse_payload(payload) {
        Some(members) => {
            let s = match field_value(&members, "status") {
                Some(v) => v,
                None => default_status(),
            };
            let t = match field_value(&members, "type") {
                Some(v) => v,
                None => default_type(),
            };
            (s, t)
        },
        None => (default_status(), default_service_type.to_owned()),
    };
    let status = if raw_status.as_str().is_empty() {
        default_status()
    } else {
        raw_status
    };
    let service_type = if raw_type.as_str().is_empty() {
        if default_service_type.is_empty() {
            String::from_str("service")
        } else {
            default_service_type.to_owned()
        }
    } else {
        raw_type
    };
    HealthStatus { service_type, status }
}

/// The topic of a service-monitoring record: the shared record topic,
/// with the child device appended when the service runs on one.
pub open spec fn spec_monitor_topic(child_id: Option<Seq<char>>) -> Seq<char> {
    match child_id {
        None => "c8y/s/us"@,
        Some(cid) => "c8y/s/us/"@ + cid,
    }
}

/// The `102` record announcing a service and its status. The service's
/// external id is the device name, the child device name when there is
/// one, and the service name, joined by underscores.
pub open spec fn spec_monitor_payload(
    device_name: Seq<char>,
    daemon_name: Seq<char>,
    status: Seq<char>,
    service_type: Seq<char>,
    child_id: Option<Seq<char>>,
    max: int,
) -> Seq<char> {
    let sanitized_status = spec_sanitize(status, max);
    let sanitized_type = spec_sanitize(service_type, max);
    match child_id {
        Some(cid) => "102,"@ + device_name + "_"@ + cid + "_"@ + daemon_name + ",\""@
            + sanitized_type + "\","@ + daemon_name + ",\""@ + sanitized_status + "\""@,
        None => "102,"@ + device_name + "_"@ + daemon_name + ",\""@ + sanitized_type + "\","@
            + daemon_name + ",\""@ + sanitized_status + "\""@,
    }
}

/// Render the service-monitoring record for one service.
pub fn service_monitor_status_message(
    device_name: &str,
    daemon_name: &str,
    status: &str,
    service_type: &str,
    child_id: Option<String>,
) -> (m: MqttMessage)
    ensures
        child_id is None ==> m.topic@ == spec_monitor_topic(None),
        child_id matches Some(cid) ==> m.topic@ == spec_monitor_topic(Some(cid@)),
        child_id is None ==> m.payload@ == spec_monitor_payload(
            device_name@,
            daemon_name@,
            status@,
            service_type@,
            None,
            MAX_PAYLOAD_LIMIT_IN_BYTES as int,
        ),
        child_id matches Some(cid) ==> m.payload@ == spec_monitor_payload(
            device_name@,
            daemon_name@,
            status@,
            service_type@,
            Some(cid@),
            MAX_PAYLOAD_LIMIT_IN_BYTES as int,
        ),
        m.qos == QoS::AtLeastOnce,
        !m.retain,
{
    let sanitized_status = sanitize_for_smartrest(status, MAX_PAYLOAD_LIMIT_IN_BYTES);
    let sanitized_type = sanitize_for_smartrest(service_type, MAX_PAYLOAD_LIMIT_IN_BYTES);
    match child_id {
        Some(cid) => {
            let mut topic = String::from_str("c8y/s/us/");
            topic.append(cid.as_str());
            let mut payload = String::from_str("102,");
            payload.append(device_name);
            payload.append("_");
            payload.append(cid.as_str());
            payload.append("_");
            payload.append(daemon_name);
            payload.append(",\"");
            payload.append(sanitized_type.as_str());
            payload.append("\",");
            payload.append(daemon_name);
            payload.append(",\"");
            payload.append(sanitized_status.as_str());
            payload.append("\"");
            MqttMessage::new(topic.as_str(), payload.as_str())
        },
        None => {
            let mut payload = String::from_str("102,");
            payload.append(device_name);
            payload.append("_");
            payload.append(daemon_name);
            payload.append(",\"");
            payload.append(sanitized_type.as_str());
            payload.append("\",");
            payload.append(daemon_name);
            payload.append(",\"");
            payload.append(sanitized_status.as_str());
            payload.append("\"");
            MqttMessage::new("c8y/s/us", payload.as_str())
        },
    }
}

/// Translate one health message of a service entity into
/// service-monitoring records. A bridge service's health is not
/// translated (the bridge is monitored by other means), so the result
/// holds one record for an ordinary service and none for a bridge.
pub fn convert_health_status_message(
    entity: &EntityTopicId,
    message: &MqttMessage,
    device_name: String,
    default_service_type: String,
) -> (r: Vec<MqttMessage>)
    requires
        entity@[0] == "device"@,
        entity@[2] == "service"@,
    ensures
        has_substring(entity@[3], "bridge"@) ==> r@.len() == 0,
        !has_substring(entity@[3], "bridge"@) ==> ({
            let fields = spec_health_fields(message.payload@, default_service_type@);
            let child_id = if entity@[1] == "main"@ {
                None
            } else {
                Some(entity@[1])
            };
            &&& r@.len() == 1
            &&& r@[0].topic@ == spec_monitor_topic(child_id)
            &&& r@[0].payload@ == spec_monitor_payload(
                device_name@,
                entity@[3],
                fields.0,
                fields.1,
                child_id,
                MAX_PAYLOAD_LIMIT_IN_BYTES as int,
            )
            &&& r@[0].qos == QoS::AtLeastOnce
            &&& !r@[0].retain
        }),
{
    let mut records: Vec<MqttMessage> = Vec::new();
    let service_name = entity.default_service_name().unwrap();
    let parent = entity.default_parent_identifier().unwrap();
    let child_id: Option<String> = if parent.is_default_child_device() {
        parent.default_device_name()
    } else {
        None
    };
    if !contains_substring(service_name.as_str(), "bridge") {
        let health = parse_health_status(message.payload.as_str(), default_service_type.as_str());
        let record = service_monitor_status_message(
            device_name.as_str(),
            service_name.as_str(),
            health.status.as_str(),
            health.service_type.as_str(),
            child_id,
        );
        records.push(record);
    }
    records
}

} // verus!
