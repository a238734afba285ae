use tedge_core::config_location::get_config_dir;
use tedge_core::config_location::TEdgeConfigLocation;

#[test]
fn test_from_custom_root() {
    let config_location = TEdgeConfigLocation::from_custom_root("/opt/etc/tedge");
    assert_eq!(config_location.tedge_config_root_path, "/opt/etc/tedge");
    assert_eq!(config_location.tedge_config_file_path, "/opt/etc/tedge/tedge.toml");
}

#[test]
fn test_from_default_system_location() {
    let config_location = TEdgeConfigLocation::default();
    assert_eq!(config_location.tedge_config_root_path, "/etc/tedge");
    assert_eq!(config_location.tedge_config_file_path, "/etc/tedge/tedge.toml");
}

#[test]
fn accessors_return_the_paths() {
    let config_location = TEdgeConfigLocation::from_custom_root("/opt/etc/tedge");
    assert_eq!(config_location.root_path(), "/opt/etc/tedge");
    assert_eq!(config_location.file_path(), "/opt/etc/tedge/tedge.toml");
}

#[test]
fn config_dir_prefers_a_non_empty_environment_value() {
    assert_eq!(get_config_dir(&Some("/opt/etc/tedge".to_string())), "/opt/etc/tedge");
    assert_eq!(get_config_dir(&Some("".to_string())), "/etc/tedge");
    assert_eq!(get_config_dir(&None), "/etc/tedge");
}
