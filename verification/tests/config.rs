use scouty::config::{default_error_interval, default_interval, default_ws_url, Config};

#[test]
fn it_gets_a_config_from_the_lazy_static() {
    let config = Config::new(default_ws_url(), vec![]);
    assert_ne!(config.substrate_ws_url, "".to_string());
}

#[test]
fn config_defaults() {
    assert_eq!(default_interval(), 21600);
    assert_eq!(default_error_interval(), 30);
    assert_eq!(default_ws_url(), "ws://127.0.0.1:9944".to_string());
    let config = Config::new(
        "wss://kusama-rpc.polkadot.io:443".to_string(),
        vec!["stash-one".to_string(), "stash-two".to_string()],
    );
    assert_eq!(config.interval, 21600);
    assert_eq!(config.error_interval, 30);
    assert_eq!(config.stashes.len(), 2);
    assert_eq!(config.stashes[0], "stash-one".to_string());
    assert!(!config.is_short);
    assert!(!config.is_debug);
    assert!(!config.matrix_disabled);
    assert_eq!(config.hook_new_session_path, "".to_string());
}
