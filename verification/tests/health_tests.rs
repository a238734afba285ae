use tedge_core::entity::EntityTopicId;
use tedge_core::health::convert_health_status_message;
use tedge_core::health::sanitize_for_smartrest;
use tedge_core::router::MqttMessage;

fn translate(entity: &str, payload: &str) -> Vec<MqttMessage> {
    let entity = EntityTopicId::parse(entity).unwrap();
    let message = MqttMessage::new("te/ignored", payload);
    convert_health_status_message(&entity, &message, "test_device".to_string(), "service".to_string())
}

#[test]
fn service_monitoring_thin_edge_device() {
    let messages = translate(
        "device/main/service/tedge-mapper-c8y",
        "{\"pid\":\"1234\",\"type\":\"systemd\",\"status\":\"up\"}",
    );
    assert_eq!(messages[0].topic, "c8y/s/us");
    assert_eq!(
        messages[0].payload,
        "102,test_device_tedge-mapper-c8y,\"systemd\",tedge-mapper-c8y,\"up\""
    );
}

#[test]
fn service_monitoring_thin_edge_child_device() {
    let messages = translate(
        "device/child/service/tedge-mapper-c8y",
        "{\"pid\":\"1234\",\"type\":\"systemd\",\"status\":\"up\"}",
    );
    assert_eq!(messages[0].topic, "c8y/s/us/child");
    assert_eq!(
        messages[0].payload,
        "102,test_device_child_tedge-mapper-c8y,\"systemd\",tedge-mapper-c8y,\"up\""
    );
}

#[test]
fn service_monitoring_thin_edge_no_status() {
    let messages = translate(
        "device/main/service/tedge-mapper-c8y",
        "{\"pid\":\"123456\",\"type\":\"systemd\"}",
    );
    assert_eq!(
        messages[0].payload,
        "102,test_device_tedge-mapper-c8y,\"systemd\",tedge-mapper-c8y,\"unknown\""
    );
}

#[test]
fn service_monitoring_empty_status_and_type() {
    let messages = translate(
        "device/main/service/tedge-mapper-c8y",
        "{\"type\":\"\", \"status\":\"\"}",
    );
    assert_eq!(
        messages[0].payload,
        "102,test_device_tedge-mapper-c8y,\"service\",tedge-mapper-c8y,\"unknown\""
    );
}

#[test]
fn service_monitoring_empty_health_message() {
    let messages = translate("device/main/service/tedge-mapper-c8y", "{}");
    assert_eq!(
        messages[0].payload,
        "102,test_device_tedge-mapper-c8y,\"service\",tedge-mapper-c8y,\"unknown\""
    );
}

#[test]
fn service_monitoring_type_with_comma_health_message() {
    let messages = translate(
        "device/main/service/tedge-mapper-c8y",
        "{\"type\":\"thin,edge\",\"status\":\"up,down\"}",
    );
    assert_eq!(
        messages[0].payload,
        "102,test_device_tedge-mapper-c8y,\"thin,edge\",tedge-mapper-c8y,\"up,down\""
    );
}

#[test]
fn service_monitoring_unreadable_health_message() {
    let messages = translate("device/main/service/tedge-mapper-c8y", "not json");
    assert_eq!(
        messages[0].payload,
        "102,test_device_tedge-mapper-c8y,\"service\",tedge-mapper-c8y,\"unknown\""
    );
}

#[test]
fn bridge_services_are_not_monitored() {
    let messages = translate(
        "device/main/service/mosquitto-c8y-bridge",
        "{\"status\":\"up\"}",
    );
    assert!(messages.is_empty());
}

#[test]
fn sanitize_doubles_quotes_and_truncates() {
    assert_eq!(sanitize_for_smartrest("up\"down", 100), "up\"\"down");
    assert_eq!(sanitize_for_smartrest("thin\"\"edge", 100), "thin\"\"\"\"edge");
    assert_eq!(sanitize_for_smartrest("abcdef", 3), "abc");
    assert_eq!(sanitize_for_smartrest("plain", 100), "plain");
}

#[test]
fn service_monitoring_numeric_pid_health_message() {
    let messages = translate(
        "device/main/service/tedge-mapper-c8y",
        "{\"pid\":1234,\"type\":\"systemd\",\"status\":\"up\"}",
    );
    assert_eq!(
        messages[0].payload,
        "102,test_device_tedge-mapper-c8y,\"systemd\",tedge-mapper-c8y,\"up\""
    );
}

#[test]
fn service_monitoring_double_quotes_health_message() {
    let messages = translate(
        "device/main/service/tedge-mapper-c8y",
        "{\"type\":\"thin\\\"\\\"edge\",\"status\":\"up\\\"down\"}",
    );
    assert_eq!(
        messages[0].payload,
        "102,test_device_tedge-mapper-c8y,\"thin\"\"\"\"edge\",tedge-mapper-c8y,\"up\"\"down\""
    );
}
