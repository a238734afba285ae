use tedge_core::payload::parse_payload;
use tedge_core::payload::parse_status_payload;
use tedge_core::payload::render_status_payload;
use tedge_core::status::CommandStatus;

#[test]
fn parse_minimal_status_payload() {
    let parsed = parse_status_payload("{\"status\":\"init\"}").unwrap();
    assert_eq!(parsed.0, CommandStatus::Init);
    assert_eq!(parsed.1, None);
}

#[test]
fn parse_tolerates_whitespace() {
    let parsed = parse_status_payload(" { \"status\" : \"executing\" } ").unwrap();
    assert_eq!(parsed.0, CommandStatus::Executing);
}

#[test]
fn parse_reads_the_failure_reason() {
    let parsed = parse_status_payload("{\"status\":\"failed\",\"reason\":\"power lost\"}").unwrap();
    assert_eq!(parsed.0, CommandStatus::Failed);
    assert_eq!(parsed.1.as_deref(), Some("power lost"));
}

#[test]
fn parse_rejects_missing_status() {
    assert!(parse_status_payload("{\"id\":\"random\"}").is_none());
}

#[test]
fn parse_rejects_unknown_status_names() {
    assert!(parse_status_payload("{\"status\":\"resting\"}").is_none());
}

#[test]
fn parse_rejects_malformed_payloads() {
    assert!(parse_status_payload("").is_none());
    assert!(parse_status_payload("not json").is_none());
    assert!(parse_status_payload("{\"status\":\"init\"").is_none());
    assert!(parse_status_payload("{\"status\":\"init\"} trailing").is_none());
    // Unicode escapes are not part of the payload format.
    assert!(parse_status_payload("{\"status\":\"init\",\"reason\":\"\\u0041\"}").is_none());
    // Nested members are not part of the payload format.
    assert!(parse_status_payload("{\"status\":\"init\",\"extra\":{\"a\":\"b\"}}").is_none());
    assert!(parse_status_payload("{\"status\":\"init\",\"extra\":[\"a\"]}").is_none());
    // A broken number is not a scalar.
    assert!(parse_status_payload("{\"status\":\"init\",\"attempt\":1e}").is_none());
}

#[test]
fn parse_resolves_string_escapes() {
    let parsed = parse_status_payload(
        "{\"status\":\"failed\",\"reason\":\"power \\\"lost\\\"\\n\\tat \\\\home\"}",
    )
    .unwrap();
    assert_eq!(parsed.0, CommandStatus::Failed);
    assert_eq!(parsed.1.as_deref(), Some("power \"lost\"\n\tat \\home"));
}

#[test]
fn parse_skips_non_string_members() {
    let parsed = parse_status_payload("{\"pid\":1234,\"status\":\"init\"}").unwrap();
    assert_eq!(parsed.0, CommandStatus::Init);

    let parsed = parse_status_payload(
        "{\"status\":\"executing\",\"attempt\":-1.5e3,\"urgent\":true,\"note\":null,\"done\":false}",
    )
    .unwrap();
    assert_eq!(parsed.0, CommandStatus::Executing);

    // A skipped member carries no value: a numeric status is no status.
    assert!(parse_status_payload("{\"status\":3}").is_none());
}

#[test]
fn parse_keeps_every_member() {
    let members = parse_payload("{\"status\":\"init\",\"id\":\"1234\"}").unwrap();
    assert_eq!(members.len(), 2);
    assert_eq!(members[0].0, "status");
    assert_eq!(members[0].1, "init");
    assert_eq!(members[1].0, "id");
    assert_eq!(members[1].1, "1234");
}

#[test]
fn parse_empty_object() {
    let members = parse_payload("{}").unwrap();
    assert!(members.is_empty());
}

#[test]
fn render_status_without_reason() {
    let payload = render_status_payload(CommandStatus::Executing, &None);
    assert_eq!(payload, "{\"status\":\"executing\"}");
}

#[test]
fn render_status_with_reason() {
    let payload = render_status_payload(CommandStatus::Failed, &Some("power lost".to_string()));
    assert_eq!(payload, "{\"status\":\"failed\",\"reason\":\"power lost\"}");
}

#[test]
fn render_escapes_the_reason() {
    let reason = "power \"lost\"\n\tat \\home".to_string();
    let payload = render_status_payload(CommandStatus::Failed, &Some(reason.clone()));
    assert_eq!(
        payload,
        "{\"status\":\"failed\",\"reason\":\"power \\\"lost\\\"\\n\\tat \\\\home\"}"
    );

    // The escaped rendering parses back to the same reason.
    let parsed = parse_status_payload(payload.as_str()).unwrap();
    assert_eq!(parsed.0, CommandStatus::Failed);
    assert_eq!(parsed.1, Some(reason));
}

#[test]
fn rendered_payloads_parse_back() {
    let statuses = [
        CommandStatus::Init,
        CommandStatus::Scheduled,
        CommandStatus::Executing,
        CommandStatus::Successful,
        CommandStatus::Failed,
    ];
    for status in statuses {
        let rendered = render_status_payload(status, &None);
        let parsed = parse_status_payload(rendered.as_str()).unwrap();
        assert_eq!(parsed.0, status);
        assert_eq!(parsed.1, None);
    }
}

#[test]
fn status_names_round_trip() {
    assert_eq!(CommandStatus::Init.as_str(), "init");
    assert_eq!(CommandStatus::Scheduled.as_str(), "scheduled");
    assert_eq!(CommandStatus::Executing.as_str(), "executing");
    assert_eq!(CommandStatus::Successful.as_str(), "successful");
    assert_eq!(CommandStatus::Failed.as_str(), "failed");
    assert_eq!(CommandStatus::parse("successful"), Some(CommandStatus::Successful));
    assert_eq!(CommandStatus::parse("unheard-of"), None);
}

#[test]
fn terminal_statuses_accept_nothing() {
    for terminal in [CommandStatus::Successful, CommandStatus::Failed] {
        for next in [
            CommandStatus::Init,
            CommandStatus::Scheduled,
            CommandStatus::Executing,
            CommandStatus::Successful,
            CommandStatus::Failed,
        ] {
            assert!(!terminal.accepts(next));
        }
    }
    assert!(CommandStatus::Init.accepts(CommandStatus::Executing));
    assert!(CommandStatus::Executing.accepts(CommandStatus::Executing));
    assert!(!CommandStatus::Executing.accepts(CommandStatus::Init));
}
