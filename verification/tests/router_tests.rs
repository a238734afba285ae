use tedge_core::entity::EntityTopicId;
use tedge_core::operation::OperationKind;
use tedge_core::router::MqttMessage;
use tedge_core::router::OperationConverter;
use tedge_core::status::CommandStatus;

fn make_converter(device: &str) -> OperationConverter {
    OperationConverter::new(
        "te".to_string(),
        EntityTopicId::parse(device).expect("Invalid topic id"),
        vec![OperationKind::Restart],
    )
}

#[test]
fn convert_incoming_restart_request() {
    let target_device = "device/child-foo//";
    let mut converter = make_converter(target_device);

    // Simulate a restart MQTT message received.
    let mqtt_message = MqttMessage::new("te/device/child-foo///cmd/restart/random", "{\"status\": \"init\"}");
    let command = converter.handle_mqtt_message(&mqtt_message).expect("a restart command");

    assert_eq!(command.target.to_path(), target_device);
    assert_eq!(command.operation, OperationKind::Restart);
    assert_eq!(command.cmd_id, "random");
    assert_eq!(command.status, CommandStatus::Init);
    assert_eq!(command.reason, None);
}

#[test]
fn publish_capabilities_on_start() {
    let mut converter = make_converter("device/child//");

    let messages = converter.start_messages();

    assert_eq!(messages.len(), 1);
    assert_eq!(messages[0].topic, "te/device/child///cmd/restart");
    assert_eq!(messages[0].payload, "{}");
    assert!(messages[0].retain);
}

#[test]
fn convert_outgoing_restart_response() {
    let mut converter = make_converter("device/main//");

    // Skip capabilities messages.
    let _capabilities = converter.start_messages();

    // Simulate a restart response from the business actor.
    let executing_response = tedge_core::router::Command {
        target: EntityTopicId::default_main_device(),
        operation: OperationKind::Restart,
        cmd_id: "abc".to_string(),
        status: CommandStatus::Executing,
        reason: None,
    };
    let message = converter.handle_command_response(&executing_response);

    assert_eq!(message.topic, "te/device/main///cmd/restart/abc");
    assert!(message.payload.contains("\"status\":\"executing\""));
}

#[test]
fn convert_incoming_software_list_request() {
    let mut converter = OperationConverter::new(
        "te".to_string(),
        EntityTopicId::parse("device/main//").unwrap(),
        vec![OperationKind::SoftwareList],
    );

    let mqtt_message =
        MqttMessage::new("te/device/main///cmd/software_list/random", "{\"status\":\"init\"}");
    let command = converter.handle_mqtt_message(&mqtt_message).expect("a software list command");

    assert_eq!(command.operation, OperationKind::SoftwareList);
    assert_eq!(command.cmd_id, "random");
    assert_eq!(command.status, CommandStatus::Init);
}

#[test]
fn foreign_topics_are_ignored() {
    let mut converter = make_converter("device/main//");
    let message = MqttMessage::new("te/device/main///m/environment", "{\"temperature\":\"21\"}");
    assert!(converter.handle_mqtt_message(&message).is_none());
}

#[test]
fn malformed_payloads_are_dropped() {
    let mut converter = make_converter("device/main//");
    let message = MqttMessage::new("te/device/main///cmd/restart/abc", "not json at all");
    assert!(converter.handle_mqtt_message(&message).is_none());

    // The drop did not poison the router: the next well-formed message
    // still goes through.
    let message = MqttMessage::new("te/device/main///cmd/restart/abc", "{\"status\":\"init\"}");
    assert!(converter.handle_mqtt_message(&message).is_some());
}

#[test]
fn terminal_status_is_never_left() {
    let mut converter = make_converter("device/main//");
    let topic = "te/device/main///cmd/restart/op-1";

    assert!(converter
        .handle_mqtt_message(&MqttMessage::new(topic, "{\"status\":\"init\"}"))
        .is_some());
    assert!(converter
        .handle_mqtt_message(&MqttMessage::new(topic, "{\"status\":\"executing\"}"))
        .is_some());
    assert!(converter
        .handle_mqtt_message(&MqttMessage::new(topic, "{\"status\":\"successful\"}"))
        .is_some());

    // A duplicated or reordered delivery after the terminal status is
    // dropped and the tracked status stays `successful`.
    assert!(converter
        .handle_mqtt_message(&MqttMessage::new(topic, "{\"status\":\"executing\"}"))
        .is_none());

    let entity = EntityTopicId::default_main_device();
    assert_eq!(
        converter.status_of(&entity, OperationKind::Restart, "op-1"),
        Some(CommandStatus::Successful)
    );
}

#[test]
fn out_of_order_status_is_dropped() {
    let mut converter = make_converter("device/main//");
    let topic = "te/device/main///cmd/restart/op-2";

    assert!(converter
        .handle_mqtt_message(&MqttMessage::new(topic, "{\"status\":\"executing\"}"))
        .is_some());
    // Going back to `init` would move the command backward.
    assert!(converter
        .handle_mqtt_message(&MqttMessage::new(topic, "{\"status\":\"init\"}"))
        .is_none());

    let entity = EntityTopicId::default_main_device();
    assert_eq!(
        converter.status_of(&entity, OperationKind::Restart, "op-2"),
        Some(CommandStatus::Executing)
    );
}

#[test]
fn capabilities_are_announced_at_most_once() {
    let mut converter = make_converter("device/child//");

    let first = converter.start_messages();
    assert_eq!(first.len(), 1);

    // A second pass in the same lifetime announces nothing new.
    let second = converter.start_messages();
    assert_eq!(second.len(), 0);

    let entity = EntityTopicId::parse("device/child//").unwrap();
    assert!(converter.announce_capability(&entity, OperationKind::Restart).is_none());
}

#[test]
fn failed_reason_round_trip() {
    let mut converter = make_converter("device/main//");
    let topic = "te/device/main///cmd/restart/op-3";

    let command = converter
        .handle_mqtt_message(&MqttMessage::new(
            topic,
            "{\"status\":\"failed\",\"reason\":\"power lost\"}",
        ))
        .expect("a failed restart command");
    assert_eq!(command.status, CommandStatus::Failed);
    assert_eq!(command.reason.as_deref(), Some("power lost"));

    let mut fresh = make_converter("device/main//");
    let message = fresh.handle_command_response(&command);
    assert_eq!(message.topic, topic);
    assert_eq!(message.payload, "{\"status\":\"failed\",\"reason\":\"power lost\"}");
}

#[test]
fn cleared_commands_may_reuse_their_id() {
    let mut converter = make_converter("device/main//");
    let topic = "te/device/main///cmd/restart/op-4";
    let entity = EntityTopicId::default_main_device();

    assert!(converter
        .handle_mqtt_message(&MqttMessage::new(topic, "{\"status\":\"successful\"}"))
        .is_some());
    assert!(converter.clear_command(&entity, OperationKind::Restart, "op-4"));

    // The id now names a new command.
    let command = converter
        .handle_mqtt_message(&MqttMessage::new(topic, "{\"status\":\"init\"}"))
        .expect("a fresh command");
    assert_eq!(command.status, CommandStatus::Init);
}

#[test]
fn restart_command_end_to_end() {
    let mut converter = make_converter("device/child-foo//");
    let _capabilities = converter.start_messages();

    // A restart command arrives with status `init`.
    let inbound = MqttMessage::new("te/device/child-foo///cmd/restart/random", "{\"status\":\"init\"}");
    let request = converter.handle_mqtt_message(&inbound).expect("a restart request");
    assert_eq!(request.target.to_path(), "device/child-foo//");
    assert_eq!(request.cmd_id, "random");
    assert_eq!(request.status, CommandStatus::Init);

    // The business actor responds with status `executing`.
    let response = tedge_core::router::Command {
        target: request.target,
        operation: request.operation,
        cmd_id: request.cmd_id,
        status: CommandStatus::Executing,
        reason: None,
    };
    let outbound = converter.handle_command_response(&response);
    assert_eq!(outbound.topic, "te/device/child-foo///cmd/restart/random");
    assert_eq!(outbound.payload, "{\"status\":\"executing\"}");
}
