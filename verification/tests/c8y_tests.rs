use tedge_core::c8y::clear_alarm;
use tedge_core::c8y::convert_alarm_type;
use tedge_core::c8y::convert_severity;
use tedge_core::c8y::convert_source;
use tedge_core::c8y::convert_text;
use tedge_core::c8y::AlarmSeverity;
use tedge_core::c8y::C8ySoftwareModuleItem;
use tedge_core::c8y::C8yAlarmError;
use tedge_core::c8y::EntityType;
use tedge_core::c8y::InternalIdResponse;
use tedge_core::c8y::SoftwareModule;

#[test]
fn get_id_from_c8y_response() {
    let response = InternalIdResponse::new("12345", "test");

    assert_eq!(response.id(), "12345".to_string());
}

#[test]
fn from_software_module_to_c8y_software_module_item() {
    let software_module = SoftwareModule {
        module_type: Some("a".into()),
        name: "b".into(),
        version: Some("c".into()),
        url: Some("".into()),
        file_path: None,
    };

    let expected_c8y_item = C8ySoftwareModuleItem {
        name: "b".into(),
        version: Some("c".into()),
        software_type: "a".to_string(),
        url: Some("".into()),
    };

    let converted = C8ySoftwareModuleItem::from_module(software_module);

    assert_eq!(converted, expected_c8y_item);
}

#[test]
fn module_lists_map_elementwise_in_order() {
    let modules = vec![
        SoftwareModule {
            module_type: Some("debian".into()),
            name: "a".into(),
            version: None,
            url: None,
            file_path: None,
        },
        SoftwareModule {
            module_type: Some("apama".into()),
            name: "m".into(),
            version: None,
            url: Some("https://foobar.io/m.epl".into()),
            file_path: None,
        },
    ];

    let items = C8ySoftwareModuleItem::from_modules(modules);

    assert_eq!(items.len(), 2);
    assert_eq!(items[0].name, "a");
    assert_eq!(items[0].software_type, "debian");
    assert_eq!(items[0].url.as_deref(), Some(""));
    assert_eq!(items[1].name, "m");
    assert_eq!(items[1].software_type, "apama");
    assert_eq!(items[1].url.as_deref(), Some("https://foobar.io/m.epl"));
}

#[test]
fn missing_url_and_type_get_their_defaults() {
    let software_module = SoftwareModule {
        module_type: None,
        name: "b".into(),
        version: None,
        url: None,
        file_path: None,
    };

    let converted = C8ySoftwareModuleItem::from_module(software_module);

    assert_eq!(converted.software_type, "default");
    assert_eq!(converted.url.as_deref(), Some(""));
}

#[test]
fn severity_names_parse_exactly() {
    assert_eq!(AlarmSeverity::try_from("critical").unwrap(), AlarmSeverity::Critical);
    assert_eq!(AlarmSeverity::try_from("major").unwrap(), AlarmSeverity::Major);
    assert_eq!(AlarmSeverity::try_from("minor").unwrap(), AlarmSeverity::Minor);
    assert_eq!(AlarmSeverity::try_from("warning").unwrap(), AlarmSeverity::Warning);
    match AlarmSeverity::try_from("CRITICAL") {
        Err(C8yAlarmError::UnsupportedAlarmSeverity(name)) => assert_eq!(name, "CRITICAL"),
        other => panic!("expected an unsupported-severity error, got {:?}", other),
    }
}

#[test]
fn severity_wire_names_are_uppercase() {
    assert_eq!(AlarmSeverity::Critical.as_str(), "CRITICAL");
    assert_eq!(AlarmSeverity::Warning.as_str(), "WARNING");
}

#[test]
fn unknown_severities_fall_back_to_minor() {
    assert_eq!(convert_severity(&Some("invalid".to_string())), AlarmSeverity::Minor);
    assert_eq!(convert_severity(&None), AlarmSeverity::Minor);
    assert_eq!(convert_severity(&Some("critical".to_string())), AlarmSeverity::Critical);
}

#[test]
fn empty_alarm_types_get_the_default() {
    assert_eq!(convert_alarm_type(""), "ThinEdgeAlarm");
    assert_eq!(convert_alarm_type("temperature alarm"), "temperature alarm");
}

#[test]
fn main_device_alarms_have_no_source() {
    assert!(convert_source("main_device", &EntityType::MainDevice).is_none());
    let source = convert_source("external_source", &EntityType::ChildDevice).unwrap();
    assert_eq!(source.id, "external_source");
    assert_eq!(source.source_type, "c8y_Serial");
}

#[test]
fn alarm_text_defaults_to_the_alarm_type() {
    assert_eq!(convert_text(&Some("Temperature went high".to_string()), "t"), "Temperature went high");
    assert_eq!(convert_text(&None, "ThinEdgeAlarm"), "ThinEdgeAlarm");
}

#[test]
fn convert_to_clear_alarm() {
    let cleared = clear_alarm("", "main_device", &EntityType::MainDevice);
    assert_eq!(cleared.alarm_type, "ThinEdgeAlarm");
    assert!(cleared.source.is_none());

    let cleared = clear_alarm("temperature alarm", "external_source", &EntityType::Service);
    assert_eq!(cleared.alarm_type, "temperature alarm");
    assert_eq!(cleared.source.unwrap().id, "external_source");
}
