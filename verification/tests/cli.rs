use midi_keybindr::cli::{default_log_level, resolve_config_path, ConfigLocation};

#[test]
fn cli_config_wins() {
    let path = resolve_config_path(
        Some("/tmp/config.yaml".to_string()),
        Some("/tmp/env-config.yaml".to_string()),
    );
    assert_eq!(path, ConfigLocation::Path("/tmp/config.yaml".to_string()));
}

#[test]
fn env_var_is_used() {
    let path = resolve_config_path(None, Some("/tmp/env-config.yaml".to_string()));
    assert_eq!(path, ConfigLocation::Path("/tmp/env-config.yaml".to_string()));
}

#[test]
fn blank_env_var_falls_back_to_home() {
    assert_eq!(
        resolve_config_path(None, Some("  \t".to_string())),
        ConfigLocation::HomeDefault
    );
    assert_eq!(resolve_config_path(None, None), ConfigLocation::HomeDefault);
}

#[test]
fn verbosity_levels() {
    assert_eq!(default_log_level(0), "warn");
    assert_eq!(default_log_level(1), "info");
    assert_eq!(default_log_level(2), "debug");
    assert_eq!(default_log_level(3), "trace");
    assert_eq!(default_log_level(200), "trace");
}
