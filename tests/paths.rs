use file_browser::paths::{
    config_base_var, config_file_path, env_or_default, fallback_dir, home_var, join_path,
    resolve_config_path, resolve_home_dir, OsFamily,
};

#[test]
fn unix_config_path() {
    assert_eq!(config_file_path(OsFamily::Unix, "/home/ann", "ExampleApp"), "/home/ann/.ExampleApp-config.toml");
    assert_eq!(config_file_path(OsFamily::Unix, "/home/ann/", "x"), "/home/ann/.x-config.toml");
}

#[test]
fn macos_config_path() {
    assert_eq!(
        config_file_path(OsFamily::MacOs, "/Users/ann", "ExampleApp"),
        "/Users/ann/Library/Application Support/ExampleApp/config.toml"
    );
}

#[test]
fn windows_config_path() {
    assert_eq!(
        config_file_path(OsFamily::Windows, "C:\\Users\\ann\\AppData\\Roaming", "ExampleApp"),
        "C:\\Users\\ann\\AppData\\Roaming\\ExampleApp\\config.toml"
    );
    assert_eq!(config_file_path(OsFamily::Windows, "D:/data/", "app"), "D:/data/app\\config.toml");
}

#[test]
fn fallbacks_when_variable_unset() {
    assert_eq!(resolve_config_path(OsFamily::Unix, None, "app"), "/tmp/.app-config.toml");
    assert_eq!(
        resolve_config_path(OsFamily::MacOs, None, "app"),
        "/Users/Shared/Library/Application Support/app/config.toml"
    );
    assert_eq!(resolve_config_path(OsFamily::Windows, None, "app"), "C:\\Users\\Public\\app\\config.toml");
    assert_eq!(resolve_home_dir(OsFamily::Windows, None), "C:\\Users\\Public");
    assert_eq!(resolve_home_dir(OsFamily::MacOs, None), "/Users/Shared");
    assert_eq!(resolve_home_dir(OsFamily::Unix, None), "/tmp");
}

#[test]
fn variable_value_wins_over_fallback() {
    assert_eq!(resolve_home_dir(OsFamily::Unix, Some("/home/zed".to_string())), "/home/zed");
    assert_eq!(resolve_config_path(OsFamily::Unix, Some("/h".to_string()), "a"), "/h/.a-config.toml");
    assert_eq!(env_or_default(Some("v".to_string()), "f"), "v");
    assert_eq!(env_or_default(None, "f"), "f");
}

#[test]
fn variable_names_per_family() {
    assert_eq!(config_base_var(OsFamily::Windows), "APPDATA");
    assert_eq!(config_base_var(OsFamily::MacOs), "HOME");
    assert_eq!(config_base_var(OsFamily::Unix), "HOME");
    assert_eq!(home_var(OsFamily::Windows), "USERPROFILE");
    assert_eq!(home_var(OsFamily::Unix), "HOME");
    assert_eq!(fallback_dir(OsFamily::Unix), "/tmp");
}

#[test]
fn join_path_separators() {
    assert_eq!(join_path(OsFamily::Unix, "", "a"), "a");
    assert_eq!(join_path(OsFamily::Unix, "/x", "a"), "/x/a");
    assert_eq!(join_path(OsFamily::Unix, "/x\\", "a"), "/x\\/a");
    assert_eq!(join_path(OsFamily::Windows, "C:\\x\\", "a"), "C:\\x\\a");
    assert_eq!(join_path(OsFamily::Windows, "C:\\x", "a"), "C:\\x\\a");
}
