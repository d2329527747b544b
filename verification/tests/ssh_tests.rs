use hermes_launcher::config::AuthConfig;
use hermes_launcher::ssh::{
    auth_failure, auth_plan, connect_failure, fingerprint_to_pin, key_load_failure, AuthPlan,
    Client, ServerKey,
};

#[test]
fn first_use_trusts_and_records_the_key() {
    let mut c = Client::new(None);
    assert!(!c.had_pin());
    assert_eq!(c.seen_fingerprint(), None);
    assert!(c.check_fingerprint("SHA256:aaa"));
    assert_eq!(c.seen_fingerprint(), Some("SHA256:aaa".to_string()));
}

#[test]
fn pinned_key_must_match() {
    let mut c = Client::new(Some("SHA256:aaa".to_string()));
    assert!(c.had_pin());
    assert!(c.check_fingerprint("SHA256:aaa"));
    assert!(!c.check_fingerprint("SHA256:bbb"));
    assert_eq!(c.seen_fingerprint(), Some("SHA256:bbb".to_string()));
}

#[test]
fn pin_only_on_first_use() {
    assert_eq!(fingerprint_to_pin(false, Some("fp".to_string())), Some("fp".to_string()));
    assert_eq!(fingerprint_to_pin(true, Some("fp".to_string())), None);
    assert_eq!(fingerprint_to_pin(false, None), None);
}

fn auth(mode: &str, key_path: &str) -> AuthConfig {
    AuthConfig { mode: mode.to_string(), key_path: key_path.to_string() }
}

#[test]
fn password_mode_needs_a_stored_password() {
    assert_eq!(
        auth_plan(&auth("password", ""), Some("pw".to_string())),
        Ok(AuthPlan::Password("pw".to_string()))
    );
    assert_eq!(
        auth_plan(&auth("password", ""), None),
        Err("password auth selected but no password stored".to_string())
    );
}

#[test]
fn agent_mode_uses_the_agent() {
    assert_eq!(auth_plan(&auth("agent", "/k"), None), Ok(AuthPlan::Agent));
}

#[test]
fn key_mode_refuses_a_public_key() {
    assert_eq!(
        auth_plan(&auth("key", "/home/u/.ssh/id_ed25519"), None),
        Ok(AuthPlan::KeyFile("/home/u/.ssh/id_ed25519".to_string()))
    );
    assert_eq!(
        auth_plan(&auth("key", "/home/u/.ssh/id_ed25519.pub"), None),
        Err("/home/u/.ssh/id_ed25519.pub is a public key; select the private key (same path without .pub)"
            .to_string())
    );
}

#[test]
fn changed_host_key_message() {
    let pin = || Some("SHA256:old".to_string());
    assert_eq!(
        connect_failure(pin(), Some("SHA256:new".to_string()), "srv", 22, "rejected".to_string()),
        "host key changed for srv:22 (server now offers SHA256:new). If this is expected, remove the entry from known_hosts.json and retry."
    );
    assert_eq!(connect_failure(None, Some("fp".to_string()), "srv", 22, "boom".to_string()), "boom");
    assert_eq!(connect_failure(pin(), None, "srv", 22, "refused".to_string()), "refused");
    // The key matched the pin; the connection failed later.
    assert_eq!(
        connect_failure(pin(), Some("SHA256:old".to_string()), "srv", 22, "handshake".to_string()),
        "handshake"
    );
}

#[test]
fn other_connect_messages() {
    assert_eq!(key_load_failure("/k", "bad"), "load private key /k: bad");
    assert_eq!(auth_failure("alice"), "authentication failed for alice");
}

fn server_key() -> ServerKey {
    let key = russh::keys::PublicKey::from_openssh(
        "ssh-ed25519 AAAAC3NzaC1lZDI1NTE5AAAAILXXPmLqNM1CWmtcVN/M1MaBZsh62YnVUETHCFFE9N3z",
    )
    .unwrap();
    ServerKey { blob: key.to_bytes().unwrap() }
}

#[test]
fn server_key_is_checked_by_its_sha256_fingerprint() {
    let fp = "SHA256:fcDQ0i0fqwEKljK1yKt0oUjvXE5CNHKCZsJlI4fh3tg";
    let mut first = Client::new(None);
    assert!(first.check_server_key(&server_key()));
    assert_eq!(first.seen_fingerprint(), Some(fp.to_string()));
    let mut pinned = Client::new(Some(fp.to_string()));
    assert!(pinned.check_server_key(&server_key()));
    let mut changed = Client::new(Some("SHA256:other".to_string()));
    assert!(!changed.check_server_key(&server_key()));
}

#[test]
fn bytes_that_encode_no_key_are_refused() {
    let mut c = Client::new(None);
    assert!(!c.check_server_key(&ServerKey { blob: vec![1, 2, 3] }));
    assert_eq!(c.seen_fingerprint(), None);
}

#[test]
fn pinned_fingerprint_is_reported() {
    assert_eq!(Client::new(Some("fp".to_string())).pinned_fingerprint(), Some("fp".to_string()));
    assert_eq!(Client::new(None).pinned_fingerprint(), None);
}
