use vstd::prelude::*;

use crate::config::{pick_service, AppConfig, ServerConfig, ServiceConfig};
use crate::names::{texts, NameSet};
use crate::text::{blank, decimal, is_blank, push_all, push_decimal};

verus! {

/// The state of a service as the launcher shows it.
#[derive(Debug, PartialEq, Eq, Structural, Clone, Copy)]
pub enum ServiceStatus {
    Idle,
    Starting,
    Running,
    Error,
}

/// The word the user interface shows for each state.
pub open spec fn status_text(s: ServiceStatus) -> Seq<char> {
    match s {
        ServiceStatus::Idle => "idle"@,
        ServiceStatus::Starting => "starting"@,
        ServiceStatus::Running => "running"@,
        ServiceStatus::Error => "error"@,
    }
}

impl ServiceStatus {
    /// The word the user interface shows.
    pub fn as_text(&self) -> (t: String)
        ensures
            t@ == status_text(*self),
    {
        match self {
            ServiceStatus::Idle => "idle".to_string(),
            ServiceStatus::Starting => "starting".to_string(),
            ServiceStatus::Running => "running".to_string(),
            ServiceStatus::Error => "error".to_string(),
        }
    }
}

/// A status report for one service.
#[derive(Debug, PartialEq, Eq)]
pub struct StatusUpdate {
    pub service: String,
    pub status: ServiceStatus,
    pub detail: String,
}

/// Appends `a` then `b` to an empty text.
fn text2(a: &str, b: &str) -> (r: String)
    ensures
        r@ == a@ + b@,
{
    let mut r = String::new();
    push_all(&mut r, a);
    push_all(&mut r, b);
    r
}

/// `a`, `b` and `c` one after the other.
fn text3(a: &str, b: &str, c: &str) -> (r: String)
    ensures
        r@ == a@ + b@ + c@,
{
    let mut r = String::new();
    push_all(&mut r, a);
    push_all(&mut r, b);
    push_all(&mut r, c);
    r
}

/// The message when the settings name no such service.
pub open spec fn unknown_service_text(name: Seq<char>) -> Seq<char> {
    "unknown service '"@ + name + "'"@
}

/// The message when a service's ports are not set.
pub open spec fn ports_missing_text(name: Seq<char>) -> Seq<char> {
    "configure ports for '"@ + name + "' first"@
}

/// The message when a launch of the service is already under way.
pub open spec fn already_launching_text(name: Seq<char>) -> Seq<char> {
    name + " is already launching"@
}

/// What the launcher keeps between commands: whether an SSH connection is up, and
/// which services have a tunnel, a start command running, or a launch under way.
#[derive(Debug)]
pub struct Launcher {
    tunnels: NameSet,
    procs: NameSet,
    launching: NameSet,
}

/// What to do about the SSH connection before using it.
#[derive(Debug, PartialEq, Eq)]
pub enum ConnectDecision {
    /// The connection is alive: use it.
    Reuse,
    /// Connect anew, first stopping these tunnels and start commands, which ran
    /// over the connection that is gone.
    Reconnect { tunnels: Vec<String>, procs: Vec<String> },
}

impl Launcher {
    /// Well-formedness of the sets it keeps.
    pub open spec fn wf(self) -> bool {
        &&& self.tunnels().wf()
        &&& self.procs().wf()
        &&& self.launching().wf()
    }

    /// Services with a tunnel.
    pub closed spec fn tunnels(self) -> NameSet {
        self.tunnels
    }

    /// Services whose start command runs.
    pub closed spec fn procs(self) -> NameSet {
        self.procs
    }

    /// Services with a launch under way.
    pub closed spec fn launching(self) -> NameSet {
        self.launching
    }

    /// Nothing running.
    pub fn new() -> (l: Launcher)
        ensures
            l.wf(),
            l.tunnels()@ == Set::<Seq<char>>::empty(),
            l.procs()@ == Set::<Seq<char>>::empty(),
            l.launching()@ == Set::<Seq<char>>::empty(),
    {
        Launcher { tunnels: NameSet::new(), procs: NameSet::new(), launching: NameSet::new() }
    }

    /// Whether the service has a tunnel.
    pub fn has_tunnel(&self, name: &str) -> (r: bool)
        ensures
            r == self.tunnels()@.contains(name@),
    {
        self.tunnels.contains(name)
    }

    /// Whether the service's start command runs.
    pub fn has_proc(&self, name: &str) -> (r: bool)
        ensures
            r == self.procs()@.contains(name@),
    {
        self.procs.contains(name)
    }

    /// Whether a launch of the service is under way.
    pub fn is_launching(&self, name: &str) -> (r: bool)
        ensures
            r == self.launching()@.contains(name@),
    {
        self.launching.contains(name)
    }

    /// Whether the live connection can be used (`connection_open`); when not,
    /// everything bound to the old connection is forgotten and handed back to be
    /// stopped.
    pub fn ensure_connected(&mut self, connection_open: bool) -> (d: ConnectDecision)
        requires
            old(self).wf(),
        ensures
            final(self).wf(),
            final(self).launching()@ == old(self).launching()@,
            connection_open ==> d is Reuse && final(self).tunnels()@ == old(self).tunnels()@
                && final(self).procs()@ == old(self).procs()@,
            !connection_open ==> (d matches ConnectDecision::Reconnect { tunnels, procs } && texts(
                tunnels@,
            ).to_set() == old(self).tunnels()@ && texts(procs@).to_set() == old(self).procs()@
                && final(self).tunnels()@ == Set::<Seq<char>>::empty() && final(self).procs()@
                == Set::<Seq<char>>::empty()),
    {
        if connection_open {
            ConnectDecision::Reuse
        } else {
            let tunnels = self.tunnels.drain();
            let procs = self.procs.drain();
            ConnectDecision::Reconnect { tunnels, procs }
        }
    }

    /// Claims the launch of service `name`: the settings must name it, its ports
    /// must be set, and no launch of it may be under way. Gives the service's
    /// settings to launch with.
    pub fn begin_launch<'a>(&mut self, cfg: &'a AppConfig, name: &str) -> (r: Result<&'a ServiceConfig, String>)
        requires
            old(self).wf(),
        ensures
            final(self).wf(),
            final(self).tunnels() == old(self).tunnels(),
            final(self).procs() == old(self).procs(),
            name@ != "dashboard"@ && name@ != "webui"@ ==> (r matches Err(e) && e@
                == unknown_service_text(name@) && final(self).launching()@ == old(self).launching()@),
            (name@ == "dashboard"@ || name@ == "webui"@) ==> {
                let svc = if name@ == "dashboard"@ { &cfg.dashboard } else { &cfg.webui };
                if svc.local_port == 0 || svc.remote_port == 0 {
                    r matches Err(e) && e@ == ports_missing_text(name@) && final(self).launching()@
                        == old(self).launching()@
                } else if old(self).launching()@.contains(name@) {
                    r matches Err(e) && e@ == already_launching_text(name@)
                        && final(self).launching()@ == old(self).launching()@
                } else {
                    r == Ok::<&ServiceConfig, String>(svc) && final(self).launching()@ == old(
                        self,
                    ).launching()@.insert(name@)
                }
            },
    {
        let svc = match pick_service(cfg, name) {
            Some(s) => s,
            None => {
                return Err(text3("unknown service '", name, "'"));
            },
        };
        if svc.local_port == 0 || svc.remote_port == 0 {
            return Err(text3("configure ports for '", name, "' first"));
        }
        if !self.launching.insert(name.to_string()) {
            return Err(text2(name, " is already launching"));
        }
        Ok(svc)
    }

    /// Releases the launch slot of `name` and gives the status that ends the launch:
    /// running with its tunnel open, or the error.
    pub fn end_launch(&mut self, name: &str, result: &Result<u16, String>) -> (u: StatusUpdate)
        requires
            old(self).wf(),
        ensures
            final(self).wf(),
            final(self).launching()@ == old(self).launching()@.remove(name@),
            final(self).tunnels() == old(self).tunnels(),
            final(self).procs() == old(self).procs(),
            u.service@ == name@,
            result is Ok ==> u.status == ServiceStatus::Running && u.detail@ == "tunnel open"@,
            result matches Err(e) ==> u.status == ServiceStatus::Error && u.detail@ == e@,
    {
        self.launching.remove(name);
        match result {
            Ok(_) => StatusUpdate {
                service: name.to_string(),
                status: ServiceStatus::Running,
                detail: "tunnel open".to_string(),
            },
            Err(e) => StatusUpdate {
                service: name.to_string(),
                status: ServiceStatus::Error,
                detail: e.clone(),
            },
        }
    }

    /// Stops service `name`: forgets its tunnel and start command, saying which of
    /// the two were there to be stopped, and gives the idle status.
    pub fn stop_service(&mut self, name: &str) -> (r: (bool, bool, StatusUpdate))
        requires
            old(self).wf(),
        ensures
            final(self).wf(),
            final(self).tunnels()@ == old(self).tunnels()@.remove(name@),
            final(self).procs()@ == old(self).procs()@.remove(name@),
            final(self).launching() == old(self).launching(),
            r.0 == old(self).tunnels()@.contains(name@),
            r.1 == old(self).procs()@.contains(name@),
            r.2.service@ == name@,
            r.2.status == ServiceStatus::Idle,
            r.2.detail@ == "stopped"@,
    {
        let t = self.tunnels.remove(name);
        let p = self.procs.remove(name);
        (t, p, StatusUpdate {
            service: name.to_string(),
            status: ServiceStatus::Idle,
            detail: "stopped".to_string(),
        })
    }

    /// Remembers that the start command of `name` runs.
    pub fn note_started(&mut self, name: &str)
        requires
            old(self).wf(),
        ensures
            final(self).wf(),
            final(self).procs()@ == old(self).procs()@.insert(name@),
            final(self).tunnels() == old(self).tunnels(),
            final(self).launching() == old(self).launching(),
    {
        self.procs.insert(name.to_string());
    }

    /// Remembers that `name` has a tunnel.
    pub fn note_tunnel(&mut self, name: &str)
        requires
            old(self).wf(),
        ensures
            final(self).wf(),
            final(self).tunnels()@ == old(self).tunnels()@.insert(name@),
            final(self).procs() == old(self).procs(),
            final(self).launching() == old(self).launching(),
    {
        self.tunnels.insert(name.to_string());
    }

    /// Forgets the tunnel of `name`.
    pub fn forget_tunnel(&mut self, name: &str)
        requires
            old(self).wf(),
        ensures
            final(self).wf(),
            final(self).tunnels()@ == old(self).tunnels()@.remove(name@),
            final(self).procs() == old(self).procs(),
            final(self).launching() == old(self).launching(),
    {
        self.tunnels.remove(name);
    }

    /// Drops the connection: forgets every tunnel and start command, handing them
    /// back to be stopped.
    pub fn disconnect(&mut self) -> (r: (Vec<String>, Vec<String>))
        requires
            old(self).wf(),
        ensures
            final(self).wf(),
            texts(r.0@).to_set() == old(self).tunnels()@,
            texts(r.1@).to_set() == old(self).procs()@,
            final(self).tunnels()@ == Set::<Seq<char>>::empty(),
            final(self).procs()@ == Set::<Seq<char>>::empty(),
            final(self).launching() == old(self).launching(),
    {
        let t = self.tunnels.drain();
        let p = self.procs.drain();
        (t, p)
    }
}

/// The message logged before connecting.
pub fn connecting_message(server: &ServerConfig) -> (m: String)
    ensures
        m@ == "connecting to "@ + server.username@ + "@"@ + server.host@ + "..."@,
{
    let mut m = String::new();
    push_all(&mut m, "connecting to ");
    push_all(&mut m, server.username.as_str());
    push_all(&mut m, "@");
    push_all(&mut m, server.host.as_str());
    push_all(&mut m, "...");
    m
}

/// The result of the connection test from the exit code of `echo` on the server.
pub fn connection_test_result(code: u32) -> (r: Result<String, String>)
    ensures
        code == 0 ==> (r matches Ok(m) && m@ == "Connection OK"@),
        code != 0 ==> (r matches Err(m) && m@ == "remote echo exited with code "@ + decimal(
            code as nat,
        )),
{
    if code == 0 {
        Ok("Connection OK".to_string())
    } else {
        let mut m = String::new();
        push_all(&mut m, "remote echo exited with code ");
        push_decimal(&mut m, code);
        Err(m)
    }
}

/// The status to report when the start command, running in the background,
/// ended: an error when it exited non-zero or could not run, nothing otherwise.
pub fn start_command_outcome(name: &str, result: &Result<u32, String>) -> (r: Option<StatusUpdate>)
    ensures
        result matches Ok(code) ==> (if code == 0 { r is None } else {
            r matches Some(u) && u.service@ == name@ && u.status == ServiceStatus::Error && u.detail@
                == "start command exited "@ + decimal(code as nat)
        }),
        result matches Err(e) ==> (r matches Some(u) && u.service@ == name@ && u.status
            == ServiceStatus::Error && u.detail@ == "start command error: "@ + e@),
{
    match result {
        Ok(code) => {
            if *code == 0 {
                None
            } else {
                let mut d = String::new();
                push_all(&mut d, "start command exited ");
                push_decimal(&mut d, *code);
                Some(StatusUpdate { service: name.to_string(), status: ServiceStatus::Error, detail: d })
            }
        },
        Err(e) => Some(StatusUpdate {
            service: name.to_string(),
            status: ServiceStatus::Error,
            detail: text2("start command error: ", e.as_str()),
        }),
    }
}

/// The status to report when a tunnel stopped with an error.
pub fn tunnel_failure(name: &str, error: &str) -> (u: StatusUpdate)
    ensures
        u.service@ == name@,
        u.status == ServiceStatus::Error,
        u.detail@ == "tunnel: "@ + error@,
{
    StatusUpdate { service: name.to_string(), status: ServiceStatus::Error, detail: text2("tunnel: ", error) }
}

} // verus!
