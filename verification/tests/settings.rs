use file_sync::config::{
    address, notify_address, rooted_path, transfer_address, AppConfig, ConfigError, ServerConfig,
    ServerVars, StoreFailure, StoredConfig,
};

fn some(s: &str) -> Option<String> {
    Some(s.to_string())
}

fn unset() -> ServerVars {
    ServerVars {
        target_dir: None,
        bind_addr: None,
        http_port: None,
        http_path: None,
        notify_port: None,
        transfer_port: None,
        debounce_ms: None,
    }
}

fn error(vars: ServerVars) -> Option<&'static str> {
    match ServerConfig::from_vars(&vars) {
        Ok(_) => None,
        Err(e) => Some(e.message()),
    }
}

#[test]
fn settings_have_defaults() {
    let c = ServerConfig::from_vars(&unset()).ok().unwrap();
    assert_eq!(c.target_dir, ".");
    assert_eq!(c.bind_addr, "0.0.0.0");
    assert_eq!(c.http_port, 44448);
    assert_eq!(c.http_path, "/files");
    assert_eq!(c.notify_port, 44444);
    assert_eq!(c.transfer_port, 44445);
    assert_eq!(c.debounce_ms, 1000);
}

#[test]
fn settings_are_taken_over() {
    let vars = ServerVars {
        target_dir: some("/srv"),
        bind_addr: some("127.0.0.1"),
        http_port: some("80"),
        http_path: some("list"),
        notify_port: some("0"),
        transfer_port: some("65535"),
        debounce_ms: some("18446744073709551615"),
    };
    let c = ServerConfig::from_vars(&vars).ok().unwrap();
    assert_eq!(c.target_dir, "/srv");
    assert_eq!(c.bind_addr, "127.0.0.1");
    assert_eq!(c.http_port, 80);
    assert_eq!(c.http_path, "/list");
    assert_eq!(c.notify_port, 0);
    assert_eq!(c.transfer_port, 65535);
    assert_eq!(c.debounce_ms, u64::MAX);
}

#[test]
fn wrong_numbers_are_refused() {
    assert_eq!(
        error(ServerVars { http_port: some("x"), ..unset() }),
        Some("HTTP_PORT must be a number")
    );
    assert_eq!(
        error(ServerVars { notify_port: some("65536"), ..unset() }),
        Some("NOTIFY_PORT must be a number")
    );
    assert_eq!(
        error(ServerVars { transfer_port: some(""), ..unset() }),
        Some("TRANSFER_PORT must be a number")
    );
    assert_eq!(
        error(ServerVars { debounce_ms: some("-1"), ..unset() }),
        Some("DEBOUNCE_MS must be a number")
    );
    assert_eq!(
        error(ServerVars { http_port: some("x"), debounce_ms: some("y"), ..unset() }),
        Some("HTTP_PORT must be a number")
    );
    assert_eq!(ConfigError::HttpPort.message(), "HTTP_PORT must be a number");
}

#[test]
fn paths_and_addresses_are_built() {
    assert_eq!(rooted_path("files"), "/files");
    assert_eq!(rooted_path("/files"), "/files");
    assert_eq!(rooted_path(""), "/");
    assert_eq!(address("0.0.0.0", 44448), "0.0.0.0:44448");
    assert_eq!(notify_address("w4090"), "w4090:44444");
    assert_eq!(transfer_address("w4090"), "w4090:44445");
}

#[test]
fn client_settings_are_loaded() {
    assert_eq!(AppConfig::load(StoredConfig::Missing).ok().unwrap().save_dir, ".\\Download");
    assert_eq!(AppConfig::load(StoredConfig::Read(None)).ok().unwrap().save_dir, ".\\Download");
    let stored = AppConfig { save_dir: "D:\\x".to_string() };
    assert_eq!(AppConfig::load(StoredConfig::Read(Some(stored))).ok().unwrap().save_dir, "D:\\x");
    assert_eq!(
        AppConfig::load(StoredConfig::Unreadable("e".to_string())).err().unwrap(),
        "設定読み込みエラー: e"
    );
    assert_eq!(AppConfig::default().save_dir, ".\\Download");
}

#[test]
fn failures_to_store_settings_are_described() {
    assert_eq!(
        AppConfig::describe_failure(&StoreFailure::Json("a".to_string())),
        "JSON変換エラー: a"
    );
    assert_eq!(
        AppConfig::describe_failure(&StoreFailure::Write("b".to_string())),
        "設定保存エラー: b"
    );
}
