use tedge_core::apt::build_list_filter;
use tedge_core::apt::filter_installed_lines;
use tedge_core::apt::get_installer;
use tedge_core::apt::get_name_and_version;
use tedge_core::apt::lines_of;
use tedge_core::apt::parse_update_list;
use tedge_core::apt::plugin_exit_code;
use tedge_core::apt::update_list_arg;
use tedge_core::apt::validate_version;
use tedge_core::apt::AptError;
use tedge_core::apt::SoftwareModuleUpdate;
use tedge_core::apt::UpdateAction;

#[test]
fn get_package_name_and_version() {
    let line =
        "zsh\t5.8-6+deb11u1\tDebian Zsh Maintainers <pkg-zsh-devel@lists.alioth.debian.org>\tinstall ok installed";
    let (name, version) = get_name_and_version(line);
    assert_eq!(name, "zsh");
    assert_eq!(version, "5.8-6+deb11u1");
}

#[test]
fn name_and_version_fall_back_on_short_rows() {
    let (name, version) = get_name_and_version("zsh");
    assert_eq!(name, "zsh");
    assert_eq!(version, "unknown version");
}

#[test]
fn installer_argument_carries_the_pinned_version() {
    assert_eq!(get_installer("rolldice".to_string(), None), "rolldice");
    assert_eq!(get_installer("rolldice".to_string(), Some("1.16-1".to_string())), "rolldice=1.16-1");
}

#[test]
fn both_filters_are_empty_strings() {
    let filter = build_list_filter(&Some("".into()), &Some("".into()));
    assert!(filter.is_ok());
}

#[test]
fn default_filter_keeps_installed_rows_only() {
    let filter = build_list_filter(&None, &None).unwrap();
    let output = "zsh\t5.8\tZsh Maintainers\tinstall ok installed\n\
                  removedpkg\t1.0\tSomeone\tdeinstall ok config-files\n\
                  rolldice\t1.16-1\tDebian Games\tinstall ok installed\n";
    let lines = lines_of(output);
    let rows = filter_installed_lines(&lines, &filter);
    assert_eq!(rows.len(), 2);
    assert_eq!(rows[0], ("zsh".to_string(), "5.8".to_string()));
    assert_eq!(rows[1], ("rolldice".to_string(), "1.16-1".to_string()));
}

#[test]
fn name_filter_keeps_the_named_package() {
    let filter = build_list_filter(&Some("zsh".into()), &None).unwrap();
    let output = "zsh\t5.8\tZsh Maintainers\tinstall ok installed\n\
                  rolldice\t1.16-1\tDebian Games\tinstall ok installed\n";
    let lines = lines_of(output);
    let rows = filter_installed_lines(&lines, &filter);
    assert_eq!(rows.len(), 1);
    assert_eq!(rows[0].0, "zsh");
}

#[test]
fn validate_version_accepts_the_installed_version() {
    let output = "Listing...\nrolldice/stable,now 1.16-1+b3 amd64 [installed]\n";
    assert!(validate_version("rolldice", "1.16-1+b3", output).is_ok());
}

#[test]
fn validate_version_rejects_a_mismatch() {
    let output = "Listing...\nrolldice/stable,now 1.16-1+b3 amd64 [installed]\n";
    match validate_version("rolldice", "2.0", output) {
        Err(AptError::MetaDataMismatch { package, expected_key, expected_value, provided_value }) => {
            assert_eq!(package, "rolldice");
            assert_eq!(expected_key, "Version");
            assert_eq!(expected_value, "1.16-1+b3");
            assert_eq!(provided_value, "2.0");
        }
        other => panic!("expected a metadata mismatch, got {:?}", other),
    }
}

#[test]
fn validate_version_passes_without_a_listing() {
    assert!(validate_version("rolldice", "1.0", "Listing...\n").is_ok());
}

#[test]
fn update_list_rows_parse_into_updates() {
    let input = "install\trolldice\t1.16-1\t\nremove\tzsh\t\t\n";
    let updates = parse_update_list(input).unwrap();
    assert_eq!(updates.len(), 2);
    assert!(matches!(updates[0].action, UpdateAction::Install));
    assert_eq!(updates[0].name, "rolldice");
    assert_eq!(updates[0].version.as_deref(), Some("1.16-1"));
    assert_eq!(updates[0].path, None);
    assert!(matches!(updates[1].action, UpdateAction::Remove));
    assert_eq!(updates[1].name, "zsh");
    assert_eq!(updates[1].version, None);
}

#[test]
fn update_list_rejects_unknown_actions() {
    match parse_update_list("upgrade\trolldice\t\t\n") {
        Err(AptError::UnknownAction { action }) => assert_eq!(action, "upgrade"),
        other => panic!("expected an unknown-action error, got {:?}", other),
    }
}

#[test]
fn update_list_rejects_rows_without_a_name() {
    match parse_update_list("install\n") {
        Err(AptError::MissingName { line }) => assert_eq!(line, "install"),
        other => panic!("expected a missing-name error, got {:?}", other),
    }
}

#[test]
fn an_unbalanced_name_makes_an_invalid_filter() {
    match build_list_filter(&Some("(".into()), &None) {
        Err(AptError::InvalidFilter { .. }) => (),
        other => panic!("expected an invalid-filter error, got {:?}", other),
    }
}

#[test]
fn update_arguments_follow_the_action() {
    let install = SoftwareModuleUpdate {
        action: UpdateAction::Install,
        name: "rolldice".to_string(),
        version: Some("1.16-1".to_string()),
        path: None,
    };
    assert_eq!(update_list_arg(&install), "rolldice=1.16-1");

    // `latest` asks for the newest version: no pin.
    let latest = SoftwareModuleUpdate {
        action: UpdateAction::Install,
        name: "rolldice".to_string(),
        version: Some("latest".to_string()),
        path: None,
    };
    assert_eq!(update_list_arg(&latest), "rolldice");

    let from_file = SoftwareModuleUpdate {
        action: UpdateAction::Install,
        name: "rolldice".to_string(),
        version: None,
        path: Some("/tmp/rolldice.deb".to_string()),
    };
    assert_eq!(update_list_arg(&from_file), "/tmp/rolldice.deb");

    let remove = SoftwareModuleUpdate {
        action: UpdateAction::Remove,
        name: "rolldice".to_string(),
        version: None,
        path: None,
    };
    assert_eq!(update_list_arg(&remove), "rolldice-");
}

#[test]
fn exit_codes_follow_the_outcome() {
    assert_eq!(plugin_exit_code(true, true, true), 0);
    assert_eq!(plugin_exit_code(true, false, true), 2);
    assert_eq!(plugin_exit_code(true, false, false), 4);
    assert_eq!(plugin_exit_code(false, false, false), 5);
}
