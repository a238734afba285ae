use tedge_core::entity::EntityTopicId;
use tedge_core::operation::OperationKind;
use tedge_core::topic::capability_topic;
use tedge_core::topic::command_topic;
use tedge_core::topic::parse_command_topic;

#[test]
fn entity_identifiers_have_four_segments() {
    let entity = EntityTopicId::parse("device/child-foo//").unwrap();
    assert_eq!(entity.to_path(), "device/child-foo//");

    assert!(EntityTopicId::parse("device/main").is_none());
    assert!(EntityTopicId::parse("device/main///too-long").is_none());
    assert!(EntityTopicId::parse("device/+//").is_none());
    assert!(EntityTopicId::parse("device/#//").is_none());
}

#[test]
fn service_entities_resolve_to_their_device() {
    let entity = EntityTopicId::parse("device/child/service/tedge-agent").unwrap();
    assert_eq!(entity.default_service_name().as_deref(), Some("tedge-agent"));
    let parent = entity.default_parent_identifier().unwrap();
    assert_eq!(parent.to_path(), "device/child//");
    assert!(parent.is_default_child_device());
    assert_eq!(parent.default_device_name().as_deref(), Some("child"));

    let main = EntityTopicId::default_main_device();
    assert_eq!(main.to_path(), "device/main//");
    assert!(!main.is_default_child_device());
}

#[test]
fn command_topics_round_trip() {
    let entity = EntityTopicId::parse("device/child-foo//").unwrap();
    let topic = command_topic("te", &entity, OperationKind::Restart, "random");
    assert_eq!(topic, "te/device/child-foo///cmd/restart/random");

    let parsed = parse_command_topic("te", topic.as_str()).unwrap();
    assert_eq!(parsed.entity.to_path(), "device/child-foo//");
    assert_eq!(parsed.operation, OperationKind::Restart);
    assert_eq!(parsed.cmd_id, "random");
}

#[test]
fn capability_topics_have_no_command_id() {
    let entity = EntityTopicId::parse("device/child//").unwrap();
    let topic = capability_topic("te", &entity, OperationKind::Restart);
    assert_eq!(topic, "te/device/child///cmd/restart");

    // Without an id the topic is not a command instance.
    assert!(parse_command_topic("te", topic.as_str()).is_none());
}

#[test]
fn topics_under_another_root_do_not_match() {
    assert!(parse_command_topic("te", "other/device/main///cmd/restart/abc").is_none());
}

#[test]
fn operation_names_round_trip() {
    assert_eq!(OperationKind::Restart.as_str(), "restart");
    assert_eq!(OperationKind::SoftwareList.as_str(), "software_list");
    assert_eq!(OperationKind::SoftwareUpdate.as_str(), "software_update");
    assert_eq!(OperationKind::parse("software_update"), Some(OperationKind::SoftwareUpdate));
    assert_eq!(OperationKind::parse("reboot"), None);
}
