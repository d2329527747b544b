use hermes_launcher::config::{
    auth_method, default_port, default_remote_host, known_host_key, load_known_host,
    needs_password, password_to_store, pick_service, save_known_host, AppConfig, AuthConfig,
    AuthMethod, KnownHosts, ServerConfig, ServiceConfig,
};

#[test]
fn defaults() {
    assert_eq!(default_port(), 22);
    assert_eq!(default_remote_host(), "localhost");
    let s = ServerConfig::default();
    assert_eq!((s.host.as_str(), s.port, s.username.as_str()), ("", 22, ""));
    let a = AuthConfig::default();
    assert_eq!((a.mode.as_str(), a.key_path.as_str()), ("agent", ""));
    let v = ServiceConfig::default();
    assert_eq!(v.local_port, 0);
    assert_eq!(v.remote_host, "localhost");
    assert_eq!(v.remote_port, 0);
    assert!(v.start_cmd.is_empty() && v.health_check_cmd.is_empty());
    let c = AppConfig::default();
    assert_eq!(c.server.port, 22);
    assert_eq!(c.auth.mode, "agent");
    assert_eq!(c.dashboard.remote_host, "localhost");
    assert_eq!(c.webui.remote_host, "localhost");
}

fn config() -> AppConfig {
    let mut c = AppConfig::default();
    c.dashboard.local_port = 9119;
    c.webui.local_port = 8080;
    c
}

#[test]
fn pick_service_by_name() {
    let c = config();
    assert_eq!(pick_service(&c, "dashboard").unwrap().local_port, 9119);
    assert_eq!(pick_service(&c, "webui").unwrap().local_port, 8080);
    assert!(pick_service(&c, "Dashboard").is_none());
    assert!(pick_service(&c, "").is_none());
}

#[test]
fn auth_modes() {
    let mut a = AuthConfig::default();
    assert_eq!(auth_method(&a), AuthMethod::Agent);
    assert!(!needs_password(&a));
    a.mode = "password".to_string();
    assert_eq!(auth_method(&a), AuthMethod::Password);
    assert!(needs_password(&a));
    a.mode = "key".to_string();
    assert_eq!(auth_method(&a), AuthMethod::KeyFile);
    a.mode = "anything".to_string();
    assert_eq!(auth_method(&a), AuthMethod::KeyFile);
}

#[test]
fn only_non_empty_passwords_are_stored() {
    assert_eq!(password_to_store(Some("pw".to_string())), Some("pw".to_string()));
    assert_eq!(password_to_store(Some(String::new())), None);
    assert_eq!(password_to_store(None), None);
}

#[test]
fn known_host_key_format() {
    assert_eq!(known_host_key("example.com", 22), "example.com:22");
    assert_eq!(known_host_key("::1", 2222), "::1:2222");
    assert_eq!(known_host_key("h", 0), "h:0");
    assert_eq!(known_host_key("h", 65535), "h:65535");
}

#[test]
fn saved_host_key_is_loaded_back() {
    assert_eq!(load_known_host("{}", "example.com", 22), None);
    let t1 = save_known_host(None, "example.com", 22, "SHA256:abc");
    assert_eq!(load_known_host(&t1, "example.com", 22), Some("SHA256:abc".to_string()));
    assert_eq!(load_known_host(&t1, "example.com", 2222), None);
    assert_eq!(load_known_host(&t1, "other.com", 22), None);
    let t2 = save_known_host(Some(&t1), "other.com", 22, "SHA256:xyz");
    assert_eq!(load_known_host(&t2, "example.com", 22), Some("SHA256:abc".to_string()));
    assert_eq!(load_known_host(&t2, "other.com", 22), Some("SHA256:xyz".to_string()));
    let t3 = save_known_host(Some(&t2), "example.com", 22, "SHA256:new");
    assert_eq!(load_known_host(&t3, "example.com", 22), Some("SHA256:new".to_string()));
}

#[test]
fn known_hosts_text_format() {
    let t = save_known_host(None, "example.com", 22, "SHA256:abc");
    assert_eq!(t, "{\n  \"example.com:22\": \"SHA256:abc\"\n}");
    let existing = "{\"a:22\": \"1\", \"b:22\": \"2\"}";
    assert_eq!(load_known_host(existing, "b", 22), Some("2".to_string()));
    let t = save_known_host(Some(existing), "a", 22, "9");
    assert_eq!(t, "{\n  \"a:22\": \"9\",\n  \"b:22\": \"2\"\n}");
}

#[test]
fn unreadable_known_hosts_text_counts_as_empty() {
    assert_eq!(load_known_host("not json", "a", 22), None);
    assert_eq!(load_known_host("[1, 2]", "a", 22), None);
    let t = save_known_host(Some("not json"), "a", 22, "fp");
    assert_eq!(load_known_host(&t, "a", 22), Some("fp".to_string()));
    assert_eq!(t, save_known_host(None, "a", 22, "fp"));
}

#[test]
fn known_hosts_from_and_to_pairs() {
    let k = KnownHosts::from_pairs(vec![
        ("a:22".to_string(), "1".to_string()),
        ("b:22".to_string(), "2".to_string()),
        ("a:22".to_string(), "3".to_string()),
    ]);
    assert_eq!(k.get("a:22"), Some("3".to_string()));
    assert_eq!(k.get("b:22"), Some("2".to_string()));
    let mut pairs = k.pairs();
    pairs.sort();
    assert_eq!(pairs, vec![("a:22".to_string(), "3".to_string()), ("b:22".to_string(), "2".to_string())]);
}

#[test]
fn pins_of_look_alike_hosts_stay_apart() {
    let t = save_known_host(None, "h:1", 2, "first");
    let t = save_known_host(Some(&t), "h", 12, "second");
    assert_ne!(known_host_key("h:1", 2), known_host_key("h", 12));
    assert_eq!(load_known_host(&t, "h:1", 2), Some("first".to_string()));
    assert_eq!(load_known_host(&t, "h", 12), Some("second".to_string()));
    assert_eq!(load_known_host(&t, "h", 1), None);
}
