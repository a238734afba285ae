use tedge_core::c8y::convert_event_fields;
use tedge_core::file_transfer::FileTransferError;
use tedge_core::file_transfer::FileTransferRequestError;
use tedge_core::mailbox::Mailbox;
use tedge_core::mailbox::RuntimeError;
use tedge_core::mailbox::SendOutcome;

#[test]
fn event_type_comes_from_the_payload_unless_empty() {
    let (event_type, text) = convert_event_fields(
        "click_event",
        &Some("custom_type".to_string()),
        &Some("Someone clicked".to_string()),
    );
    assert_eq!(event_type, "custom_type");
    assert_eq!(text, "Someone clicked");

    let (event_type, text) = convert_event_fields("click_event", &Some("".to_string()), &None);
    assert_eq!(event_type, "click_event");
    assert_eq!(text, "click_event");

    let (event_type, text) = convert_event_fields("click_event", &None, &None);
    assert_eq!(event_type, "click_event");
    assert_eq!(text, "click_event");
}

#[test]
fn request_errors_pick_their_status_code() {
    assert_eq!(FileTransferError::FromIo("broken".to_string()).http_status(), 500);
    assert_eq!(FileTransferRequestError::FromIo("broken".to_string()).http_status(), 500);
    let refused = FileTransferRequestError::DeleteIoError {
        err: "permission denied".to_string(),
        path: "logs/x".to_string(),
    };
    assert_eq!(refused.http_status(), 403);
    assert_eq!(refused.response_body(), "Cannot delete path logs/x");

    let missing = FileTransferRequestError::FileNotFound("logs/y".to_string());
    assert_eq!(missing.http_status(), 404);
    assert_eq!(missing.response_body(), "File not found: logs/y");

    let invalid = FileTransferRequestError::InvalidPath { path: "../../etc".to_string() };
    assert_eq!(invalid.http_status(), 404);
    assert_eq!(invalid.response_body(), "Invalid file path: ../../etc");

    let upload = FileTransferRequestError::Upload {
        err: "disk full".to_string(),
        path: "logs/z".to_string(),
    };
    assert_eq!(upload.http_status(), 403);
    assert_eq!(upload.response_body(), "Cannot upload to path logs/z");
}

#[test]
fn faults_travel_on_their_own_channel() {
    // The runtime-error channel is a mailbox like any other, owned by
    // the supervisor; business mailboxes never carry faults.
    let mut faults: Mailbox<RuntimeError> = Mailbox::new(4);
    let fault = RuntimeError::new("restart-actor", "restart worker stopped unexpectedly");
    assert_eq!(fault.actor, "restart-actor");
    assert!(matches!(faults.send(fault), SendOutcome::Sent));
}
