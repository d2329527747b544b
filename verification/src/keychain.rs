use vstd::prelude::*;

use crate::config::{AuthConfig, KEYRING_ACCOUNT, KEYRING_SERVICE};
use crate::text::same_text;

verus! {

#[verifier::external_type_specification]
#[verifier::external_body]
pub struct ExKeyringEntry(keyring::Entry);

#[verifier::external_type_specification]
#[verifier::external_body]
pub struct ExKeyringError(keyring::Error);

/// What the keychain reported when a call failed: that it holds no such
/// credential, or any other failure.
#[derive(Debug, PartialEq, Eq, Structural)]
pub enum KeychainFault {
    NoEntry,
    Failure,
}

/// Tells `keyring::Error::NoEntry` from the crate's other errors.
#[verifier::external_body]
fn fault_of(e: &keyring::Error) -> (f: KeychainFault) {
    match e {
        keyring::Error::NoEntry => KeychainFault::NoEntry,
        _ => KeychainFault::Failure,
    }
}

/// Calls `keyring::Entry::new`, which builds an entry of the platform's default
/// credential store for a service and a user; it fails when the store refuses the
/// names. Whether it fails depends on the store, so nothing is promised.
#[verifier::external_body]
fn entry_new(service: &str, user: &str) -> (r: Result<keyring::Entry, keyring::Error>) {
    keyring::Entry::new(service, user)
}

/// Calls `keyring::Entry::set_password`, which stores the password in the OS
/// credential store; whether that succeeds depends on the store.
#[verifier::external_body]
fn entry_set_password(entry: &keyring::Entry, password: &str) -> (r: Result<(), keyring::Error>) {
    entry.set_password(password)
}

/// Calls `keyring::Entry::get_password`, which reads the stored password (`NoEntry`
/// when there is none); what comes back depends on the store's contents.
#[verifier::external_body]
fn entry_get_password(entry: &keyring::Entry) -> (r: Result<String, keyring::Error>) {
    entry.get_password()
}

/// Calls `keyring::Entry::delete_credential`, which removes the stored credential
/// (`NoEntry` when there is none); what comes back depends on the store.
#[verifier::external_body]
fn entry_delete_credential(entry: &keyring::Entry) -> (r: Result<(), keyring::Error>) {
    entry.delete_credential()
}

/// A keychain call's result with its error told apart.
fn classify<T>(r: Result<T, keyring::Error>) -> (out: Result<T, KeychainFault>)
    ensures
        r matches Ok(v) ==> out == Ok::<T, KeychainFault>(v),
        r is Err ==> out is Err,
{
    match r {
        Ok(v) => Ok(v),
        Err(e) => Err(fault_of(&e)),
    }
}

/// Why a keychain operation failed.
#[derive(Debug, PartialEq, Eq, Structural)]
pub enum KeychainError {
    /// The keychain entry could not be made.
    KeyringEntry,
    /// The password could not be stored.
    StorePassword,
    /// The password could not be deleted.
    DeletePassword,
}

/// The message shown for each error.
pub open spec fn error_text(e: KeychainError) -> Seq<char> {
    match e {
        KeychainError::KeyringEntry => "keyring entry"@,
        KeychainError::StorePassword => "store password"@,
        KeychainError::DeletePassword => "delete password"@,
    }
}

impl KeychainError {
    /// The message shown to the user.
    pub fn message(&self) -> (m: String)
        ensures
            m@ == error_text(*self),
    {
        match self {
            KeychainError::KeyringEntry => "keyring entry".to_string(),
            KeychainError::StorePassword => "store password".to_string(),
            KeychainError::DeletePassword => "delete password".to_string(),
        }
    }
}

/// An entry of the OS keychain, with the service and user it was made for.
pub struct KeychainEntry {
    service: String,
    user: String,
    inner: keyring::Entry,
}

impl KeychainEntry {
    /// The service the entry was made for.
    pub closed spec fn service(self) -> Seq<char> {
        self.service@
    }

    /// The user the entry was made for.
    pub closed spec fn user(self) -> Seq<char> {
        self.user@
    }

    /// The entry of the platform's credential store for `service` and `user`;
    /// whether the store makes one is up to it.
    pub fn new(service: &str, user: &str) -> (r: Result<KeychainEntry, KeychainError>)
        ensures
            r matches Ok(e) ==> e.service() == service@ && e.user() == user@,
            r matches Err(e) ==> e == KeychainError::KeyringEntry,
    {
        match classify(entry_new(service, user)) {
            Ok(inner) => Ok(KeychainEntry { service: service.to_string(), user: user.to_string(), inner }),
            Err(_) => Err(KeychainError::KeyringEntry),
        }
    }

    /// Asks the keychain to store `password` under this entry; what it reports
    /// depends on the keychain.
    pub fn write_password(&self, password: &str) -> (r: Result<(), KeychainFault>) {
        classify(entry_set_password(&self.inner, password))
    }

    /// Asks the keychain for the password stored under this entry; what it reports
    /// depends on the keychain.
    pub fn read_password(&self) -> (r: Result<String, KeychainFault>) {
        classify(entry_get_password(&self.inner))
    }

    /// Asks the keychain to remove the credential stored under this entry; what it
    /// reports depends on the keychain.
    pub fn remove_password(&self) -> (r: Result<(), KeychainFault>) {
        classify(entry_delete_credential(&self.inner))
    }
}

/// `made` is what asking the keychain for the application's entry (service
/// `KEYRING_SERVICE`, user `KEYRING_ACCOUNT`) gave.
pub open spec fn app_entry_result(made: Result<KeychainEntry, KeychainError>) -> bool {
    call_ensures(KeychainEntry::new, (KEYRING_SERVICE, KEYRING_ACCOUNT), made)
}

/// The application's entry in the OS keychain: service `KEYRING_SERVICE`, user
/// `KEYRING_ACCOUNT`.
fn entry() -> (r: Result<KeychainEntry, KeychainError>)
    ensures
        r matches Ok(e) ==> e.service() == KEYRING_SERVICE@ && e.user() == KEYRING_ACCOUNT@,
        r matches Err(e) ==> e == KeychainError::KeyringEntry,
        app_entry_result(r),
{
    let make = KeychainEntry::new;
    make(KEYRING_SERVICE, KEYRING_ACCOUNT)
}

/// What storing the password reported, as the library's result.
pub fn store_outcome(r: Result<(), KeychainFault>) -> (out: Result<(), KeychainError>)
    ensures
        out == (match r {
            Ok(()) => Ok(()),
            Err(_) => Err(KeychainError::StorePassword),
        }),
{
    match r {
        Ok(()) => Ok(()),
        Err(_) => Err(KeychainError::StorePassword),
    }
}

/// What reading the password reported, as an optional password: any failure,
/// `NoEntry` among them, means there is none.
pub fn stored_password(r: Result<String, KeychainFault>) -> (out: Option<String>)
    ensures
        out == (match r {
            Ok(p) => Some(p),
            Err(_) => None,
        }),
{
    match r {
        Ok(p) => Some(p),
        Err(_) => None,
    }
}

/// What deleting the password reported, as the library's result: a password that
/// was not there is already deleted.
pub fn deletion_outcome(r: Result<(), KeychainFault>) -> (out: Result<(), KeychainError>)
    ensures
        out == (match r {
            Ok(()) => Ok(()),
            Err(KeychainFault::NoEntry) => Ok(()),
            Err(KeychainFault::Failure) => Err(KeychainError::DeletePassword),
        }),
{
    match r {
        Ok(()) => Ok(()),
        Err(KeychainFault::NoEntry) => Ok(()),
        Err(KeychainFault::Failure) => Err(KeychainError::DeletePassword),
    }
}

/// What storing `password` comes to: the entry could not be made, or the
/// keychain's answer to storing exactly `password` under the application's entry.
pub open spec fn stored_as(r: Result<(), KeychainError>, password: Seq<char>) -> bool {
    exists|made: Result<KeychainEntry, KeychainError>|
        #[trigger] app_entry_result(made) && match made {
            Err(_) => r == Err::<(), KeychainError>(KeychainError::KeyringEntry),
            Ok(e) => exists|p: &str, x: Result<(), KeychainFault>|
                #[trigger] call_ensures(KeychainEntry::write_password, (&e, p), x) && p@ == password
                    && r == match x {
                    Ok(()) => Ok::<(), KeychainError>(()),
                    Err(_) => Err(KeychainError::StorePassword),
                },
        }
}

/// Stores the SSH password in the OS keychain.
pub fn set_password(password: &str) -> (r: Result<(), KeychainError>)
    ensures
        r matches Err(e) ==> (e == KeychainError::KeyringEntry || e == KeychainError::StorePassword),
        stored_as(r, password@),
{
    let e = entry()?;
    let write = KeychainEntry::write_password;
    let x = write(&e, password);
    store_outcome(x)
}

/// What reading the password comes to: none when the entry could not be made,
/// else the keychain's answer to reading the application's entry, any failure
/// meaning none.
pub open spec fn read_as(r: Option<String>) -> bool {
    exists|made: Result<KeychainEntry, KeychainError>|
        #[trigger] app_entry_result(made) && match made {
            Err(_) => r is None,
            Ok(e) => exists|x: Result<String, KeychainFault>|
                #[trigger] call_ensures(KeychainEntry::read_password, (&e,), x) && r == match x {
                    Ok(p) => Some(p),
                    Err(_) => None,
                },
        }
}

/// The SSH password stored in the OS keychain, if any can be read.
pub fn get_password() -> (r: Option<String>)
    ensures
        read_as(r),
{
    let made = entry();
    match made {
        Ok(e) => {
            let read = KeychainEntry::read_password;
            let x = read(&e);
            stored_password(x)
        },
        Err(_) => None,
    }
}

/// Whether a password can be read from the OS keychain: whether a read of it
/// gives one.
pub fn has_password() -> (r: bool)
    ensures
        exists|p: Option<String>| #[trigger] call_ensures(get_password, (), p) && r == p is Some,
{
    let read = get_password;
    read().is_some()
}

/// What removing the password comes to: the entry could not be made, or the
/// keychain's answer to removing the application's entry, a credential that was
/// not there counting as removed.
pub open spec fn removed_as(r: Result<(), KeychainError>) -> bool {
    exists|made: Result<KeychainEntry, KeychainError>|
        #[trigger] app_entry_result(made) && match made {
            Err(_) => r == Err::<(), KeychainError>(KeychainError::KeyringEntry),
            Ok(e) => exists|x: Result<(), KeychainFault>|
                #[trigger] call_ensures(KeychainEntry::remove_password, (&e,), x) && r == match x {
                    Ok(()) => Ok::<(), KeychainError>(()),
                    Err(KeychainFault::NoEntry) => Ok(()),
                    Err(KeychainFault::Failure) => Err(KeychainError::DeletePassword),
                },
        }
}

/// Removes the SSH password from the OS keychain; none being stored is no error.
pub fn delete_password() -> (r: Result<(), KeychainError>)
    ensures
        r matches Err(e) ==> (e == KeychainError::KeyringEntry || e == KeychainError::DeletePassword),
        removed_as(r),
{
    let e = entry()?;
    let remove = KeychainEntry::remove_password;
    let x = remove(&e);
    deletion_outcome(x)
}

/// The password to connect with: the stored one in password mode; in any other
/// mode none, and the keychain is not read.
pub fn connect_password(auth: &AuthConfig) -> (r: Option<String>)
    ensures
        auth.mode@ != "password"@ ==> r is None,
        auth.mode@ == "password"@ ==> call_ensures(get_password, (), r),
{
    if same_text(auth.mode.as_str(), "password") {
        let read = get_password;
        read()
    } else {
        None
    }
}

/// The password to connect with comes from the keychain in password mode: every
/// answer `connect_password` can give there is an answer a keychain read can give;
/// in any other mode it is none.
pub proof fn law_connect_password_reads_keychain(auth: AuthConfig, r: Option<String>)
    requires
        call_ensures(connect_password, (&auth,), r),
    ensures
        auth.mode@ == "password"@ ==> call_ensures(get_password, (), r),
        auth.mode@ != "password"@ ==> r is None,
{
}

/// Storing the password succeeds only when the keychain accepted exactly that
/// password under the application's entry (service `KEYRING_SERVICE`, user
/// `KEYRING_ACCOUNT`).
pub proof fn law_set_password_ok_means_stored(password: &str, r: Result<(), KeychainError>)
    requires
        call_ensures(set_password, (password,), r),
        r is Ok,
    ensures
        exists|e: KeychainEntry, p: &str, x: Result<(), KeychainFault>|
            #![trigger app_entry_result(Ok(e)), call_ensures(KeychainEntry::write_password, (&e, p), x)]
            e.service() == KEYRING_SERVICE@ && e.user() == KEYRING_ACCOUNT@ && app_entry_result(Ok(e))
                && p@ == password@ && call_ensures(KeychainEntry::write_password, (&e, p), x)
                && x is Ok,
{
    let made = choose|made: Result<KeychainEntry, KeychainError>|
        #[trigger] app_entry_result(made) && match made {
            Err(_) => r == Err::<(), KeychainError>(KeychainError::KeyringEntry),
            Ok(e) => exists|p: &str, x: Result<(), KeychainFault>|
                #[trigger] call_ensures(KeychainEntry::write_password, (&e, p), x) && p@ == password@
                    && r == match x {
                    Ok(()) => Ok::<(), KeychainError>(()),
                    Err(_) => Err(KeychainError::StorePassword),
                },
        };
    assert(made is Ok);
    let e = made->Ok_0;
    assert(call_ensures(KeychainEntry::new, (KEYRING_SERVICE, KEYRING_ACCOUNT), made));
    let (p, x) = choose|p: &str, x: Result<(), KeychainFault>|
        #[trigger] call_ensures(KeychainEntry::write_password, (&e, p), x) && p@ == password@
            && r == match x {
            Ok(()) => Ok::<(), KeychainError>(()),
            Err(_) => Err(KeychainError::StorePassword),
        };
    assert(x is Ok);
    assert(app_entry_result(Ok(e)));
}

/// Removing the password succeeds only when the keychain removed the application's
/// entry or reported that it held none.
pub proof fn law_delete_password_ok_means_removed(r: Result<(), KeychainError>)
    requires
        call_ensures(delete_password, (), r),
        r is Ok,
    ensures
        exists|e: KeychainEntry, x: Result<(), KeychainFault>|
            #![trigger app_entry_result(Ok(e)), call_ensures(KeychainEntry::remove_password, (&e,), x)]
            e.service() == KEYRING_SERVICE@ && e.user() == KEYRING_ACCOUNT@ && app_entry_result(Ok(e))
                && call_ensures(KeychainEntry::remove_password, (&e,), x) && (x is Ok || x
                == Err::<(), KeychainFault>(KeychainFault::NoEntry)),
{
    let made = choose|made: Result<KeychainEntry, KeychainError>|
        #[trigger] app_entry_result(made) && match made {
            Err(_) => r == Err::<(), KeychainError>(KeychainError::KeyringEntry),
            Ok(e) => exists|x: Result<(), KeychainFault>|
                #[trigger] call_ensures(KeychainEntry::remove_password, (&e,), x) && r == match x {
                    Ok(()) => Ok::<(), KeychainError>(()),
                    Err(KeychainFault::NoEntry) => Ok(()),
                    Err(KeychainFault::Failure) => Err(KeychainError::DeletePassword),
                },
        };
    let e = made->Ok_0;
    assert(call_ensures(KeychainEntry::new, (KEYRING_SERVICE, KEYRING_ACCOUNT), made));
}

/// A password read gives the stored password exactly when the keychain's read of
/// the application's entry succeeded, and gives that password.
pub proof fn law_get_password_is_the_read(r: Option<String>)
    requires
        call_ensures(get_password, (), r),
    ensures
        r matches Some(pw) ==> exists|e: KeychainEntry|
            #![trigger app_entry_result(Ok(e))]
            e.service() == KEYRING_SERVICE@ && e.user() == KEYRING_ACCOUNT@ && app_entry_result(Ok(e))
                && call_ensures(KeychainEntry::read_password, (&e,), Ok::<String, KeychainFault>(pw)),
{
    if r is Some {
        let made = choose|made: Result<KeychainEntry, KeychainError>|
            #[trigger] app_entry_result(made) && match made {
                Err(_) => r is None,
                Ok(e) => exists|x: Result<String, KeychainFault>|
                    #[trigger] call_ensures(KeychainEntry::read_password, (&e,), x) && r == match x {
                        Ok(p) => Some(p),
                        Err(_) => None,
                    },
            };
        let e = made->Ok_0;
        assert(call_ensures(KeychainEntry::new, (KEYRING_SERVICE, KEYRING_ACCOUNT), made));
    }
}

} // verus!
