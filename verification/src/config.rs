use vstd::prelude::*;

use crate::text::{
    decimal, lemma_decimal_digits, lemma_decimal_injective, push_all, push_decimal, same_text,
};

verus! {

broadcast use vstd::string::group_string_axioms;

/// Name of the application's directory under the user's configuration directory.
pub const APP_DIR: &'static str = "com.hermes.uilauncher";

/// File, in the application's directory, that holds the settings.
pub const CONFIG_FILE: &'static str = "config.json";

/// File, in the application's directory, that holds the pinned host keys.
pub const KNOWN_HOSTS_FILE: &'static str = "known_hosts.json";

/// Service under which the SSH password is kept in the OS keychain.
pub const KEYRING_SERVICE: &'static str = "com.hermes.uilauncher";

/// Account under which the SSH password is kept in the OS keychain.
pub const KEYRING_ACCOUNT: &'static str = "ssh-password";

/// The SSH port used when the settings name none.
pub fn default_port() -> (p: u16)
    ensures
        p == 22,
{
    22
}

/// The remote host a service is reached at when the settings name none.
pub fn default_remote_host() -> (h: String)
    ensures
        h@ == "localhost"@,
{
    "localhost".to_string()
}

/// Where to connect: host, SSH port and user name.
#[derive(Debug)]
pub struct ServerConfig {
    pub host: String,
    pub port: u16,
    pub username: String,
}

impl Default for ServerConfig {
    fn default() -> (r: ServerConfig)
        ensures
            r.host@ == Seq::<char>::empty(),
            r.port == 22,
            r.username@ == Seq::<char>::empty(),
    {
        ServerConfig { host: String::new(), port: default_port(), username: String::new() }
    }
}

/// How to authenticate: `mode` is "agent", "key" or "password"; `key_path` names
/// the private key file for "key".
#[derive(Debug)]
pub struct AuthConfig {
    pub mode: String,
    pub key_path: String,
}

impl Default for AuthConfig {
    /// The SSH agent is the default: it matches the system `ssh` client and works
    /// with passphrase-protected and hardware-backed keys.
    fn default() -> (r: AuthConfig)
        ensures
            r.mode@ == "agent"@,
            r.key_path@ == Seq::<char>::empty(),
    {
        AuthConfig { mode: "agent".to_string(), key_path: String::new() }
    }
}

/// One remote service: the local port of its tunnel, where the tunnel leads on the
/// server side, and the commands that start it and check its health.
#[derive(Debug)]
pub struct ServiceConfig {
    pub local_port: u16,
    pub remote_host: String,
    pub remote_port: u16,
    pub start_cmd: String,
    pub health_check_cmd: String,
}

impl Default for ServiceConfig {
    fn default() -> (r: ServiceConfig)
        ensures
            r.local_port == 0,
            r.remote_host@ == "localhost"@,
            r.remote_port == 0,
            r.start_cmd@ == Seq::<char>::empty(),
            r.health_check_cmd@ == Seq::<char>::empty(),
    {
        ServiceConfig {
            local_port: 0,
            remote_host: default_remote_host(),
            remote_port: 0,
            start_cmd: String::new(),
            health_check_cmd: String::new(),
        }
    }
}

/// All settings: the server, the authentication, and the two services.
#[derive(Debug)]
pub struct AppConfig {
    pub server: ServerConfig,
    pub auth: AuthConfig,
    pub dashboard: ServiceConfig,
    pub webui: ServiceConfig,
}

/// The settings of a fresh installation.
pub open spec fn is_default_service(s: ServiceConfig) -> bool {
    &&& s.local_port == 0
    &&& s.remote_host@ == "localhost"@
    &&& s.remote_port == 0
    &&& s.start_cmd@ == Seq::<char>::empty()
    &&& s.health_check_cmd@ == Seq::<char>::empty()
}

impl Default for AppConfig {
    fn default() -> (r: AppConfig)
        ensures
            r.server.host@ == Seq::<char>::empty(),
            r.server.port == 22,
            r.server.username@ == Seq::<char>::empty(),
            r.auth.mode@ == "agent"@,
            r.auth.key_path@ == Seq::<char>::empty(),
            is_default_service(r.dashboard),
            is_default_service(r.webui),
    {
        AppConfig {
            server: ServerConfig::default(),
            auth: AuthConfig::default(),
            dashboard: ServiceConfig::default(),
            webui: ServiceConfig::default(),
        }
    }
}

/// The settings of the service called `name`: "dashboard" or "webui".
pub fn pick_service<'a>(cfg: &'a AppConfig, name: &str) -> (r: Option<&'a ServiceConfig>)
    ensures
        name@ == "dashboard"@ ==> r == Some(&cfg.dashboard),
        name@ == "webui"@ ==> r == Some(&cfg.webui),
        name@ != "dashboard"@ && name@ != "webui"@ ==> r is None,
{
    proof {
        reveal_strlit("dashboard");
        reveal_strlit("webui");
        assert("dashboard"@.len() == 9);
        assert("webui"@.len() == 5);
    }
    if same_text(name, "dashboard") {
        Some(&cfg.dashboard)
    } else if same_text(name, "webui") {
        Some(&cfg.webui)
    } else {
        None
    }
}

/// The ways of authenticating that the settings can select.
#[derive(Debug, PartialEq, Eq)]
pub enum AuthMethod {
    Agent,
    KeyFile,
    Password,
}

/// The method `mode` selects: "password" and "agent" select theirs; anything else
/// means a private key file.
pub open spec fn method_of(mode: Seq<char>) -> AuthMethod {
    if mode == "password"@ {
        AuthMethod::Password
    } else if mode == "agent"@ {
        AuthMethod::Agent
    } else {
        AuthMethod::KeyFile
    }
}

/// The authentication method the settings select.
pub fn auth_method(auth: &AuthConfig) -> (m: AuthMethod)
    ensures
        m == method_of(auth.mode@),
{
    if same_text(auth.mode.as_str(), "password") {
        AuthMethod::Password
    } else if same_text(auth.mode.as_str(), "agent") {
        AuthMethod::Agent
    } else {
        AuthMethod::KeyFile
    }
}

/// Whether connecting needs the stored password: only in password mode.
pub fn needs_password(auth: &AuthConfig) -> (r: bool)
    ensures
        r == (auth.mode@ == "password"@),
{
    same_text(auth.mode.as_str(), "password")
}

/// The password to keep in the keychain after the settings were saved: one that was
/// given and is not empty.
pub fn password_to_store(password: Option<String>) -> (r: Option<String>)
    ensures
        r == (match password {
            Some(p) => if p@.len() > 0 { Some(p) } else { None },
            None => None,
        }),
{
    match password {
        Some(p) => if p.as_str().unicode_len() > 0 { Some(p) } else { None },
        None => None,
    }
}

/// The key under which the host key of `host:port` is pinned.
pub open spec fn host_key(host: Seq<char>, port: u16) -> Seq<char> {
    host + seq![':'] + decimal(port as nat)
}

/// `host:port`, the key of a pinned host key.
pub fn known_host_key(host: &str, port: u16) -> (k: String)
    ensures
        k@ == host_key(host@, port),
{
    let mut k = String::new();
    push_all(&mut k, host);
    k.push(':');
    push_decimal(&mut k, port as u32);
    k
}

/// Pinned host-key fingerprints, by `host:port`.
#[derive(Debug)]
pub struct KnownHosts {
    entries: Vec<(String, String)>,
}

/// The map the entries stand for; a later entry for a key overrides an earlier one.
pub open spec fn entries_map(es: Seq<(String, String)>) -> Map<Seq<char>, Seq<char>>
    decreases es.len(),
{
    if es.len() == 0 {
        Map::empty()
    } else {
        entries_map(es.drop_last()).insert(es.last().0@, es.last().1@)
    }
}

impl View for KnownHosts {
    type V = Map<Seq<char>, Seq<char>>;

    closed spec fn view(&self) -> Map<Seq<char>, Seq<char>> {
        entries_map(self.entries@)
    }
}

proof fn lemma_entries_map_finite(es: Seq<(String, String)>)
    ensures
        entries_map(es).dom().finite(),
    decreases es.len(),
{
    if es.len() > 0 {
        lemma_entries_map_finite(es.drop_last());
    }
}

proof fn lemma_same_entries_map(a: Seq<(String, String)>, b: Seq<(String, String)>)
    requires
        a.len() == b.len(),
        forall|j: int| 0 <= j < a.len() ==> (#[trigger] a[j]).0@ == b[j].0@ && a[j].1@ == b[j].1@,
    ensures
        entries_map(a) == entries_map(b),
    decreases a.len(),
{
    if a.len() > 0 {
        lemma_same_entries_map(a.drop_last(), b.drop_last());
        assert(a.last() == a[a.len() - 1]);
        assert(b.last() == b[b.len() - 1]);
    }
}

impl KnownHosts {
    /// No host pinned.
    pub fn new() -> (r: KnownHosts)
        ensures
            r@ == Map::<Seq<char>, Seq<char>>::empty(),
    {
        KnownHosts { entries: Vec::new() }
    }

    /// The pins given as (key, fingerprint) pairs; for a key given twice the later
    /// pair counts.
    pub fn from_pairs(pairs: Vec<(String, String)>) -> (r: KnownHosts)
        ensures
            r@ == entries_map(pairs@),
    {
        let mut r = KnownHosts::new();
        for i in 0..pairs.len()
            invariant
                r@ == entries_map(pairs@.take(i as int)),
        {
            r.insert(pairs[i].0.clone(), pairs[i].1.clone());
            assert(pairs@.take(i + 1).drop_last() == pairs@.take(i as int));
        }
        assert(pairs@.take(pairs@.len() as int) == pairs@);
        r
    }

    /// Every pin as a (key, fingerprint) pair.
    pub fn pairs(&self) -> (r: Vec<(String, String)>)
        ensures
            entries_map(r@) == self@,
    {
        let mut out: Vec<(String, String)> = Vec::new();
        for i in 0..self.entries.len()
            invariant
                out@.len() == i,
                forall|j: int|
                    0 <= j < i ==> (#[trigger] out@[j]).0@ == self.entries@[j].0@ && out@[j].1@
                        == self.entries@[j].1@,
        {
            out.push((self.entries[i].0.clone(), self.entries[i].1.clone()));
        }
        proof { lemma_same_entries_map(out@, self.entries@); }
        out
    }

    /// The fingerprint pinned under `key`.
    pub fn get(&self, key: &str) -> (r: Option<String>)
        ensures
            r matches Some(v) ==> self@.contains_key(key@) && v@ == self@[key@],
            r is None ==> !self@.contains_key(key@),
    {
        let mut found: Option<String> = None;
        for i in 0..self.entries.len()
            invariant
                found matches Some(v) ==> entries_map(self.entries@.take(i as int)).contains_key(
                    key@,
                ) && v@ == entries_map(self.entries@.take(i as int))[key@],
                found is None ==> !entries_map(self.entries@.take(i as int)).contains_key(key@),
        {
            assert(self.entries@.take(i + 1).drop_last() == self.entries@.take(i as int));
            assert(self.entries@.take(i + 1).last() == self.entries@[i as int]);
            if same_text(self.entries[i].0.as_str(), key) {
                found = Some(self.entries[i].1.clone());
            }
        }
        assert(self.entries@.take(self.entries@.len() as int) == self.entries@);
        found
    }

    /// Pins `value` under `key`, replacing what was pinned there.
    pub fn insert(&mut self, key: String, value: String)
        ensures
            final(self)@ == old(self)@.insert(key@, value@),
    {
        let mut kept: Vec<(String, String)> = Vec::new();
        for i in 0..self.entries.len()
            invariant
                entries_map(kept@) == entries_map(self.entries@.take(i as int)).remove(key@),
        {
            let ghost pre = self.entries@.take(i as int);
            assert(self.entries@.take(i + 1) == pre.push(self.entries@[i as int]));
            assert(self.entries@.take(i + 1).drop_last() == pre);
            if !same_text(self.entries[i].0.as_str(), key.as_str()) {
                let ghost kept_before = kept@;
                kept.push((self.entries[i].0.clone(), self.entries[i].1.clone()));
                assert(kept@.drop_last() == kept_before);
                assert(entries_map(kept@) =~= entries_map(pre).insert(
                    self.entries@[i as int].0@,
                    self.entries@[i as int].1@,
                ).remove(key@));
            } else {
                assert(entries_map(kept@) =~= entries_map(pre).insert(
                    self.entries@[i as int].0@,
                    self.entries@[i as int].1@,
                ).remove(key@));
            }
        }
        assert(self.entries@.take(self.entries@.len() as int) == self.entries@);
        let ghost kept_before = kept@;
        kept.push((key, value));
        assert(kept@.drop_last() == kept_before);
        assert(entries_map(kept@) =~= old(self)@.insert(key@, value@));
        self.entries = kept;
    }

}

/// The pins a known-hosts file's text holds: a JSON object from `host:port` to
/// fingerprint, or `None` when the text is not one.
pub uninterp spec fn json_pins(text: Seq<char>) -> Option<Map<Seq<char>, Seq<char>>>;

/// The text of the known-hosts file that holds exactly the pins `pins`.
pub uninterp spec fn json_pins_text(pins: Map<Seq<char>, Seq<char>>) -> Seq<char>;

/// Calls `serde_json::from_str` into a map from string to string: the pins the
/// text holds, when it is such a JSON object. The result depends on the text alone.
#[verifier::external_body]
fn parse_pins(text: &str) -> (r: Option<Vec<(String, String)>>)
    ensures
        r is Some <==> json_pins(text@) is Some,
        r matches Some(v) ==> entries_map(v@) == json_pins(text@)->0,
{
    match serde_json::from_str::<std::collections::HashMap<String, String>>(text) {
        Ok(m) => Some(m.into_iter().collect()),
        Err(_) => None,
    }
}

/// Calls `serde_json::to_string_pretty` on the pins as a `serde_json::Map` (which
/// orders its keys): the text depends on the pins alone, and reading it back with
/// `serde_json::from_str` gives the same pins.
#[verifier::external_body]
fn render_pins(pairs: &Vec<(String, String)>) -> (r: String)
    ensures
        r@ == json_pins_text(entries_map(pairs@)),
        json_pins(r@) == Some(entries_map(pairs@)),
{
    let map: serde_json::Map<String, serde_json::Value> =
        pairs.iter().map(|(k, v)| (k.clone(), serde_json::Value::String(v.clone()))).collect();
    serde_json::to_string_pretty(&map).unwrap_or_default()
}

/// The pins held by a known-hosts file's text, if it was read: none when it was
/// not, or does not hold pins.
pub open spec fn pins_of(text: Option<Seq<char>>) -> Map<Seq<char>, Seq<char>> {
    match text {
        Some(t) => match json_pins(t) {
            Some(m) => m,
            None => Map::empty(),
        },
        None => Map::empty(),
    }
}

/// The fingerprint pinned for `host:port` in a known-hosts file's text, if the text
/// holds pins and one for that key.
pub fn load_known_host(text: &str, host: &str, port: u16) -> (r: Option<String>)
    ensures
        r matches Some(v) ==> json_pins(text@) matches Some(m) && m.contains_key(host_key(host@, port))
            && v@ == m[host_key(host@, port)],
        r is None ==> !(json_pins(text@) matches Some(m) && m.contains_key(host_key(host@, port))),
{
    match parse_pins(text) {
        Some(pairs) => {
            let known = KnownHosts::from_pairs(pairs);
            let k = known_host_key(host, port);
            known.get(k.as_str())
        },
        None => None,
    }
}

/// The known-hosts file's new text once `fingerprint` is pinned for `host:port`
/// (trust on first use): the pins of the old text (`None` when it could not be
/// read; a text that holds no pins counts as none) with this one set.
pub fn save_known_host(text: Option<&str>, host: &str, port: u16, fingerprint: &str) -> (r: String)
    ensures
        r@ == json_pins_text(pins_of(opt_str(text)).insert(host_key(host@, port), fingerprint@)),
        json_pins(r@) == Some(pins_of(opt_str(text)).insert(host_key(host@, port), fingerprint@)),
{
    let mut known = match text {
        Some(t) => match parse_pins(t) {
            Some(pairs) => KnownHosts::from_pairs(pairs),
            None => KnownHosts::new(),
        },
        None => KnownHosts::new(),
    };
    let k = known_host_key(host, port);
    known.insert(k, fingerprint.to_string());
    let pairs = known.pairs();
    render_pins(&pairs)
}

/// The text of an optional string slice.
pub open spec fn opt_str(t: Option<&str>) -> Option<Seq<char>> {
    match t {
        Some(s) => Some(s@),
        None => None,
    }
}

/// Distinct hosts or ports have distinct pin keys.
pub proof fn law_host_key_injective(h1: Seq<char>, p1: u16, h2: Seq<char>, p2: u16)
    requires
        host_key(h1, p1) == host_key(h2, p2),
    ensures
        h1 == h2,
        p1 == p2,
{
    let k = host_key(h1, p1);
    let d1 = decimal(p1 as nat);
    let d2 = decimal(p2 as nat);
    lemma_decimal_digits(p1 as nat);
    lemma_decimal_digits(p2 as nat);
    let a1 = h1 + seq![':'];
    let a2 = h2 + seq![':'];
    assert(k == a1 + d1);
    assert(k == a2 + d2);
    if h1.len() < h2.len() {
        let i = h2.len() as int;
        assert(k[i] == (a2 + d2)[i]);
        assert((a2 + d2)[i] == ':');
        assert(k[i] == (a1 + d1)[i]);
        assert((a1 + d1)[i] == d1[i - a1.len()]);
        assert('0' <= d1[i - a1.len()] <= '9');
    } else if h2.len() < h1.len() {
        let i = h1.len() as int;
        assert(k[i] == (a1 + d1)[i]);
        assert((a1 + d1)[i] == ':');
        assert(k[i] == (a2 + d2)[i]);
        assert((a2 + d2)[i] == d2[i - a2.len()]);
        assert('0' <= d2[i - a2.len()] <= '9');
    }
    assert(h1 == k.take(h1.len() as int));
    assert(h2 == k.take(h2.len() as int));
    assert(d1 == k.skip(h1.len() as int + 1));
    assert(d2 == k.skip(h2.len() as int + 1));
    lemma_decimal_injective(p1 as nat, p2 as nat);
}

/// What is saved for a host is what is loaded for it afterwards, and saving for one
/// host and port leaves what is loaded for any other as it was.
pub proof fn law_saved_host_key_loads_back(
    known: Map<Seq<char>, Seq<char>>,
    host: Seq<char>,
    port: u16,
    fingerprint: Seq<char>,
    other_host: Seq<char>,
    other_port: u16,
)
    ensures
        known.insert(host_key(host, port), fingerprint).contains_key(host_key(host, port)),
        known.insert(host_key(host, port), fingerprint)[host_key(host, port)] == fingerprint,
        (other_host != host || other_port != port) ==> (known.insert(
            host_key(host, port),
            fingerprint,
        ).contains_key(host_key(other_host, other_port)) == known.contains_key(
            host_key(other_host, other_port),
        ) && known.insert(host_key(host, port), fingerprint)[host_key(other_host, other_port)]
            == known[host_key(other_host, other_port)]),
{
    if other_host != host || other_port != port {
        if host_key(other_host, other_port) == host_key(host, port) {
            law_host_key_injective(other_host, other_port, host, port);
        }
    }
}

} // verus!
