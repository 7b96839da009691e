use pake::config::{resolve_app_name, ConfigError};
use pake::paths::{join_path, resolve_state_path, state_file_name, state_path};

#[test]
fn join_puts_one_separator() {
    assert_eq!(join_path("/home/u/Downloads", "f.bin"), "/home/u/Downloads/f.bin");
}

#[test]
fn state_file_name_is_fixed() {
    assert_eq!(state_file_name(), ".window-state");
}

#[test]
fn state_path_layout() {
    assert_eq!(state_path("/home/u/.config", "myapp"), "/home/u/.config/myapp/.window-state");
}

#[test]
fn resolve_state_path_ends_with_app_and_file() {
    match resolve_state_path("myapp") {
        Some(p) => assert!(p.ends_with("/myapp/.window-state")),
        None => {
            // No per-user config root on this machine; fatal at startup.
        },
    }
}

#[test]
fn app_name_is_lowercased_product_name() {
    let r = resolve_app_name(Some("WeRead".to_string()));
    assert_eq!(r, Ok("weread".to_string()));
}

#[test]
fn missing_product_name_is_fatal() {
    assert_eq!(resolve_app_name(None), Err(ConfigError::MissingProductName));
}
