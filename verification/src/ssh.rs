use vstd::prelude::*;

use crate::config::{host_key, method_of, AuthConfig, AuthMethod, KNOWN_HOSTS_FILE};
use crate::text::{chars_of, decimal, has_suffix, push_all, push_decimal, same_text, suffix_matches};

verus! {

/// The text of an optional string.
pub open spec fn opt_text(o: Option<String>) -> Option<Seq<char>> {
    match o {
        Some(s) => Some(s@),
        None => None,
    }
}

/// Whether a server offering `seen` is trusted when `expected` is pinned: a pin
/// must match; with none, the key is trusted on first use.
pub open spec fn key_trusted(expected: Option<Seq<char>>, seen: Seq<char>) -> bool {
    match expected {
        Some(pinned) => pinned == seen,
        None => true,
    }
}

/// A server's public key, as the bytes of its SSH wire encoding.
#[derive(Debug)]
pub struct ServerKey {
    pub blob: Vec<u8>,
}

/// The SHA-256 fingerprint, as text, of the public key whose SSH wire encoding is
/// `blob`, or `None` when the bytes encode no public key.
pub uninterp spec fn sha256_fingerprint_text(blob: Seq<u8>) -> Option<Seq<char>>;

/// Calls `ssh_key::PublicKey::from_bytes` and, when the bytes encode a key,
/// `PublicKey::fingerprint` with SHA-256, shown as text: the result depends on the
/// bytes alone. The source shows the text is `SHA256:` followed by the digest in
/// unpadded base64; only the prefix is stated.
#[verifier::external_body]
fn sha256_fingerprint(blob: &[u8]) -> (fp: Option<String>)
    ensures
        opt_text(fp) == sha256_fingerprint_text(blob@),
        fp matches Some(f) ==> f@.len() >= 7 && f@.take(7) == "SHA256:"@,
{
    match russh::keys::PublicKey::from_bytes(blob) {
        Ok(k) => Some(k.fingerprint(russh::keys::HashAlg::Sha256).to_string()),
        Err(_) => None,
    }
}

/// The SSH client's view of the server key: the fingerprint pinned for this
/// host and port, if any, and the one the server presented.
#[derive(Debug)]
pub struct Client {
    expected: Option<String>,
    seen: Option<String>,
}

impl Client {
    /// The fingerprint pinned for the host.
    pub closed spec fn expected(self) -> Option<Seq<char>> {
        opt_text(self.expected)
    }

    /// The fingerprint the server presented, once it did.
    pub closed spec fn seen(self) -> Option<Seq<char>> {
        opt_text(self.seen)
    }

    /// A client that expects `expected` (the stored pin, if any).
    pub fn new(expected: Option<String>) -> (c: Client)
        ensures
            c.expected() == opt_text(expected),
            c.seen() is None,
    {
        Client { expected, seen: None }
    }

    /// Whether a pin was stored for the host.
    pub fn had_pin(&self) -> (r: bool)
        ensures
            r == self.expected() is Some,
    {
        self.expected.is_some()
    }

    /// The fingerprint pinned for the host, if any.
    pub fn pinned_fingerprint(&self) -> (r: Option<String>)
        ensures
            opt_text(r) == self.expected(),
    {
        match &self.expected {
            Some(s) => Some(s.clone()),
            None => None,
        }
    }

    /// The fingerprint the server presented, if it did.
    pub fn seen_fingerprint(&self) -> (r: Option<String>)
        ensures
            opt_text(r) == self.seen(),
    {
        match &self.seen {
            Some(s) => Some(s.clone()),
            None => None,
        }
    }

    /// The server presented this key: records its SHA-256 fingerprint and says
    /// whether to trust it (see `check_fingerprint`). Bytes that encode no key are
    /// not trusted and leave nothing recorded.
    pub fn check_server_key(&mut self, server_public_key: &ServerKey) -> (trust: bool)
        ensures
            final(self).expected() == old(self).expected(),
            match sha256_fingerprint_text(server_public_key.blob@) {
                Some(fp) => final(self).seen() == Some(fp) && trust == key_trusted(
                    old(self).expected(),
                    fp,
                ),
                None => final(self).seen() == old(self).seen() && !trust,
            },
    {
        match sha256_fingerprint(server_public_key.blob.as_slice()) {
            Some(fingerprint) => self.check_fingerprint(fingerprint.as_str()),
            None => false,
        }
    }

    /// The server presented the key with this fingerprint: records it and says
    /// whether to trust it. A pinned key must match; with no pin the key is
    /// trusted on first use.
    pub fn check_fingerprint(&mut self, fingerprint: &str) -> (trust: bool)
        ensures
            final(self).seen() == Some(fingerprint@),
            final(self).expected() == old(self).expected(),
            trust == key_trusted(old(self).expected(), fingerprint@),
    {
        self.seen = Some(fingerprint.to_string());
        match &self.expected {
            Some(pinned) => same_text(pinned.as_str(), fingerprint),
            None => true,
        }
    }
}

/// The fingerprint to pin once authentication has succeeded: the one seen, but only
/// when none was pinned before.
pub fn fingerprint_to_pin(had_pin: bool, seen: Option<String>) -> (r: Option<String>)
    ensures
        r == (if had_pin { None } else { seen }),
{
    if had_pin {
        None
    } else {
        seen
    }
}

/// How the client authenticates.
#[derive(Debug, PartialEq, Eq)]
pub enum AuthPlan {
    /// With the keys loaded in the user's SSH agent.
    Agent,
    /// With the private key in this file.
    KeyFile(String),
    /// With this password.
    Password(String),
}

/// The message when password authentication is selected and no password is stored.
pub open spec fn no_password_text() -> Seq<char> {
    "password auth selected but no password stored"@
}

/// The message when the key path names a public key.
pub open spec fn public_key_text(path: Seq<char>) -> Seq<char> {
    path + " is a public key; select the private key (same path without .pub)"@
}

/// How to authenticate with these settings, or why not: password mode needs a
/// stored password; key mode refuses a path ending in `.pub`.
pub fn auth_plan(auth: &AuthConfig, password: Option<String>) -> (r: Result<AuthPlan, String>)
    ensures
        method_of(auth.mode@) is Password ==> (match password {
            Some(p) => r matches Ok(AuthPlan::Password(q)) && q@ == p@,
            None => r matches Err(e) && e@ == no_password_text(),
        }),
        method_of(auth.mode@) is Agent ==> r matches Ok(AuthPlan::Agent),
        method_of(auth.mode@) is KeyFile ==> (if has_suffix(auth.key_path@, ".pub"@) {
            r matches Err(e) && e@ == public_key_text(auth.key_path@)
        } else {
            r matches Ok(AuthPlan::KeyFile(p)) && p@ == auth.key_path@
        }),
{
    match crate::config::auth_method(auth) {
        AuthMethod::Password => match password {
            Some(p) => Ok(AuthPlan::Password(p)),
            None => Err("password auth selected but no password stored".to_string()),
        },
        AuthMethod::Agent => Ok(AuthPlan::Agent),
        AuthMethod::KeyFile => {
            let path = chars_of(auth.key_path.as_str());
            if suffix_matches(&path, ".pub") {
                let mut e = auth.key_path.clone();
                push_all(&mut e, " is a public key; select the private key (same path without .pub)");
                Err(e)
            } else {
                Ok(AuthPlan::KeyFile(auth.key_path.clone()))
            }
        },
    }
}

/// The message when the server's key no longer matches the pin.
pub open spec fn host_key_changed_text(host: Seq<char>, port: u16, fingerprint: Seq<char>) -> Seq<char> {
    "host key changed for "@ + host + seq![':'] + decimal(port as nat) + " (server now offers "@
        + fingerprint + ("). If this is expected, remove the entry from "@ + "known_hosts.json"@
        + " and retry."@)
}

/// The error to report when connecting failed with `error`: when a pin existed
/// and the server presented a different key, the pin refused it, so the host key
/// has changed; any other failure is reported as it came.
pub fn connect_failure(pin: Option<String>, seen: Option<String>, host: &str, port: u16, error: String) -> (r: String)
    ensures
        (pin is Some && seen is Some && seen->0@ != pin->0@) ==> r@ == host_key_changed_text(
            host@,
            port,
            seen->0@,
        ),
        !(pin is Some && seen is Some && seen->0@ != pin->0@) ==> r@ == error@,
{
    if let Some(p) = pin {
        if let Some(fp) = seen {
            if !same_text(p.as_str(), fp.as_str()) {
                let mut m = String::new();
                push_all(&mut m, "host key changed for ");
                push_all(&mut m, host);
                m.push(':');
                push_decimal(&mut m, port as u32);
                push_all(&mut m, " (server now offers ");
                push_all(&mut m, fp.as_str());
                push_all(&mut m, "). If this is expected, remove the entry from ");
                push_all(&mut m, KNOWN_HOSTS_FILE);
                push_all(&mut m, " and retry.");
                assert(m@ == host_key_changed_text(host@, port, fp@));
                return m;
            }
        }
    }
    error
}

/// The message when the private key cannot be loaded.
pub fn key_load_failure(path: &str, error: &str) -> (r: String)
    ensures
        r@ == "load private key "@ + path@ + ": "@ + error@,
{
    let mut m = String::new();
    push_all(&mut m, "load private key ");
    push_all(&mut m, path);
    push_all(&mut m, ": ");
    push_all(&mut m, error);
    m
}

/// The message when the server refused the credentials.
pub fn auth_failure(username: &str) -> (r: String)
    ensures
        r@ == "authentication failed for "@ + username@,
{
    let mut m = String::new();
    push_all(&mut m, "authentication failed for ");
    push_all(&mut m, username);
    m
}

/// The fingerprint pinned for `host:port` in `pins`, if any.
pub open spec fn pinned(pins: Map<Seq<char>, Seq<char>>, host: Seq<char>, port: u16) -> Option<Seq<char>> {
    if pins.contains_key(host_key(host, port)) {
        Some(pins[host_key(host, port)])
    } else {
        None
    }
}

/// Trust on first use: a host with no pin is trusted whatever key it offers; once
/// that key is pinned, the host is trusted again exactly when it offers the same
/// key; and pinning it leaves every other host's pin as it was.
pub proof fn law_trust_on_first_use(
    pins: Map<Seq<char>, Seq<char>>,
    host: Seq<char>,
    port: u16,
    fingerprint: Seq<char>,
    offered: Seq<char>,
    other_host: Seq<char>,
    other_port: u16,
)
    requires
        pinned(pins, host, port) is None,
    ensures
        key_trusted(pinned(pins, host, port), fingerprint),
        key_trusted(pinned(pins.insert(host_key(host, port), fingerprint), host, port), offered)
            == (offered == fingerprint),
        (other_host != host || other_port != port) ==> pinned(
            pins.insert(host_key(host, port), fingerprint),
            other_host,
            other_port,
        ) == pinned(pins, other_host, other_port),
{
    if other_host != host || other_port != port {
        if host_key(other_host, other_port) == host_key(host, port) {
            crate::config::law_host_key_injective(other_host, other_port, host, port);
        }
    }
}

} // verus!
