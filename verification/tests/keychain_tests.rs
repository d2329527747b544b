use hermes_launcher::config::AuthConfig;
use hermes_launcher::keychain::{
    connect_password, delete_password, deletion_outcome, get_password, has_password, set_password, store_outcome,
    stored_password, KeychainError, KeychainFault,
};

fn use_mock_store() {
    keyring::set_default_credential_builder(keyring::mock::default_credential_builder());
}

#[test]
fn keychain_calls_with_mock_store() {
    use_mock_store();
    assert_eq!(set_password("secret"), Ok(()));
    // The mock store keeps a password only in the entry that set it.
    assert_eq!(get_password(), None);
    assert!(!has_password());
    assert_eq!(delete_password(), Ok(()));
}

#[test]
fn outcomes_of_keychain_calls() {
    assert_eq!(store_outcome(Ok(())), Ok(()));
    assert_eq!(store_outcome(Err(KeychainFault::Failure)), Err(KeychainError::StorePassword));
    assert_eq!(stored_password(Ok("pw".to_string())), Some("pw".to_string()));
    assert_eq!(stored_password(Err(KeychainFault::NoEntry)), None);
    assert_eq!(stored_password(Err(KeychainFault::Failure)), None);
    assert_eq!(deletion_outcome(Ok(())), Ok(()));
    assert_eq!(deletion_outcome(Err(KeychainFault::NoEntry)), Ok(()));
    assert_eq!(deletion_outcome(Err(KeychainFault::Failure)), Err(KeychainError::DeletePassword));
}

#[test]
fn keychain_error_messages() {
    assert_eq!(KeychainError::KeyringEntry.message(), "keyring entry");
    assert_eq!(KeychainError::StorePassword.message(), "store password");
    assert_eq!(KeychainError::DeletePassword.message(), "delete password");
}

#[test]
fn password_is_used_only_in_password_mode() {
    use_mock_store();
    for mode in ["agent", "key", "anything"] {
        let auth = AuthConfig { mode: mode.to_string(), key_path: String::new() };
        assert_eq!(connect_password(&auth), None);
    }
    // The mock store holds nothing for a fresh entry.
    let auth = AuthConfig { mode: "password".to_string(), key_path: String::new() };
    assert_eq!(connect_password(&auth), None);
}
