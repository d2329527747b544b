use vstd::prelude::*;

use crate::config::ServiceConfig;
use crate::launch::{Launcher, ServiceStatus};
use crate::names::NameSet;
use crate::text::{blank, decimal, is_blank, push_all, push_decimal};

verus! {

/// How many times the health check is tried again after the start command ran.
pub const HEALTH_POLLS: u32 = 20;

/// What the launch asks the caller to do next.
#[derive(Debug, PartialEq, Eq)]
pub enum LaunchAction {
    /// Report this status of the service.
    Status(ServiceStatus, String),
    /// Write this line to the service's log.
    Log(String),
    /// Run the health check, its output going to the log, and report its exit code.
    RunHealthCheck(String),
    /// Start this command in the background, in place of one already running for
    /// the service.
    StartService(String),
    /// Wait a second, run the health check quietly and report its exit code.
    PollHealth(String),
    /// Report whether the tunnel task kept for the service has finished.
    CheckTunnel,
    /// Forget the finished tunnel task kept for the service.
    DropTunnel,
    /// Listen on this local port and forward to the remote host and port.
    OpenTunnel { local_port: u16, remote_host: String, remote_port: u16 },
    /// Open this address in the browser.
    OpenUrl(String),
    /// The launch is over, with this result.
    Finish(Result<u16, String>),
}

/// A `LaunchAction` with its texts as sequences.
pub enum ActionView {
    Status(ServiceStatus, Seq<char>),
    Log(Seq<char>),
    RunHealthCheck(Seq<char>),
    StartService(Seq<char>),
    PollHealth(Seq<char>),
    CheckTunnel,
    DropTunnel,
    OpenTunnel { local_port: u16, remote_host: Seq<char>, remote_port: u16 },
    OpenUrl(Seq<char>),
    Finish(Result<u16, Seq<char>>),
}

impl View for LaunchAction {
    type V = ActionView;

    open spec fn view(&self) -> ActionView {
        match self {
            LaunchAction::Status(s, d) => ActionView::Status(*s, d@),
            LaunchAction::Log(l) => ActionView::Log(l@),
            LaunchAction::RunHealthCheck(c) => ActionView::RunHealthCheck(c@),
            LaunchAction::StartService(c) => ActionView::StartService(c@),
            LaunchAction::PollHealth(c) => ActionView::PollHealth(c@),
            LaunchAction::CheckTunnel => ActionView::CheckTunnel,
            LaunchAction::DropTunnel => ActionView::DropTunnel,
            LaunchAction::OpenTunnel { local_port, remote_host, remote_port } => ActionView::OpenTunnel {
                local_port: *local_port,
                remote_host: remote_host@,
                remote_port: *remote_port,
            },
            LaunchAction::OpenUrl(u) => ActionView::OpenUrl(u@),
            LaunchAction::Finish(r) => ActionView::Finish(
                match r {
                    Ok(p) => Ok(*p),
                    Err(e) => Err(e@),
                },
            ),
        }
    }
}

/// The actions as views.
pub open spec fn action_views(v: Seq<LaunchAction>) -> Seq<ActionView> {
    v.map_values(|a: LaunchAction| a@)
}

/// What the caller reports back to the launch.
#[derive(Debug, PartialEq, Eq)]
pub enum LaunchEvent {
    /// Connected: the launch may start.
    Begin,
    /// The health check exited with this code, or could not run.
    HealthChecked(Result<u32, String>),
    /// A quiet health check after the start exited with this code, or could not run.
    Polled(Result<u32, String>),
    /// Whether the tunnel task kept for the service has finished.
    TunnelChecked { finished: bool },
    /// The tunnel's listener is open, or could not be.
    TunnelOpened(Result<(), String>),
    /// The browser was asked to open the address, or could not be.
    UrlOpened(Result<(), String>),
}

/// A `LaunchEvent` with its texts as sequences.
pub enum EventView {
    Begin,
    HealthChecked(Result<u32, Seq<char>>),
    Polled(Result<u32, Seq<char>>),
    TunnelChecked { finished: bool },
    TunnelOpened(Result<(), Seq<char>>),
    UrlOpened(Result<(), Seq<char>>),
}

/// The text of a result's error.
pub open spec fn result_view<T>(r: Result<T, String>) -> Result<T, Seq<char>> {
    match r {
        Ok(v) => Ok(v),
        Err(e) => Err(e@),
    }
}

impl View for LaunchEvent {
    type V = EventView;

    open spec fn view(&self) -> EventView {
        match self {
            LaunchEvent::Begin => EventView::Begin,
            LaunchEvent::HealthChecked(r) => EventView::HealthChecked(result_view(*r)),
            LaunchEvent::Polled(r) => EventView::Polled(result_view(*r)),
            LaunchEvent::TunnelChecked { finished } => EventView::TunnelChecked { finished: *finished },
            LaunchEvent::TunnelOpened(r) => EventView::TunnelOpened(result_view(*r)),
            LaunchEvent::UrlOpened(r) => EventView::UrlOpened(result_view(*r)),
        }
    }
}

/// Where a launch stands.
#[derive(Debug, PartialEq, Eq, Structural, Clone, Copy)]
pub enum LaunchPhase {
    /// Not begun.
    Ready,
    /// Waiting for the health check.
    AwaitHealth,
    /// The start command runs; this many quiet health checks were asked for.
    Polling(u32),
    /// Waiting to hear whether the kept tunnel task has finished.
    AwaitTunnelCheck,
    /// Waiting for the tunnel's listener.
    AwaitTunnel,
    /// Waiting for the browser.
    AwaitUrl,
    /// Over.
    Done,
}

/// What a launch needs to know of its service.
pub struct RunView {
    pub name: Seq<char>,
    pub local_port: u16,
    pub remote_host: Seq<char>,
    pub remote_port: u16,
    pub start_cmd: Seq<char>,
    pub health_cmd: Seq<char>,
}

/// The address the browser opens.
pub open spec fn url_text(port: u16) -> Seq<char> {
    "http://localhost:"@ + decimal(port as nat)
}

/// The actions that open the browser.
pub open spec fn open_url_actions(r: RunView) -> Seq<ActionView> {
    seq![ActionView::Log("opening "@ + url_text(r.local_port)), ActionView::OpenUrl(url_text(r.local_port))]
}

/// Where the launch goes once it knows whether the service is up: on to the tunnel
/// when it is; else the start command runs, when there is one, followed by quiet
/// health checks when there is a health check.
pub open spec fn after_health(r: RunView, healthy: bool) -> (LaunchPhase, Seq<ActionView>) {
    if healthy {
        (LaunchPhase::AwaitTunnelCheck, seq![ActionView::Log(r.name + " already running"@), ActionView::CheckTunnel])
    } else if !is_blank(r.start_cmd) {
        if !is_blank(r.health_cmd) {
            (LaunchPhase::Polling(1), seq![
                ActionView::Log("starting "@ + r.name),
                ActionView::StartService(r.start_cmd),
                ActionView::PollHealth(r.health_cmd),
            ])
        } else {
            (LaunchPhase::AwaitTunnelCheck, seq![
                ActionView::Log("starting "@ + r.name),
                ActionView::StartService(r.start_cmd),
                ActionView::CheckTunnel,
            ])
        }
    } else {
        (LaunchPhase::AwaitTunnelCheck, seq![
            ActionView::Log("no start command for "@ + r.name + "; assuming reachable"@),
            ActionView::CheckTunnel,
        ])
    }
}

/// One step of a launch: from the phase, whether the launcher keeps a tunnel for the
/// service, and what the caller reports, to the next phase and the actions asked
/// for. An event the phase does not wait for changes nothing.
pub open spec fn launch_transition(r: RunView, phase: LaunchPhase, tunnel_kept: bool, event: EventView) -> (LaunchPhase, Seq<ActionView>) {
    match (phase, event) {
        (LaunchPhase::Ready, EventView::Begin) => {
            let status = ActionView::Status(ServiceStatus::Starting, "checking service"@);
            if is_blank(r.health_cmd) {
                let next = after_health(r, false);
                (next.0, seq![status] + next.1)
            } else {
                (LaunchPhase::AwaitHealth, seq![
                    status,
                    ActionView::Log("health check: "@ + r.health_cmd),
                    ActionView::RunHealthCheck(r.health_cmd),
                ])
            }
        },
        (LaunchPhase::AwaitHealth, EventView::HealthChecked(res)) => match res {
            Ok(code) => after_health(r, code == 0),
            Err(e) => {
                let next = after_health(r, false);
                (next.0, seq![ActionView::Log("health check error: "@ + e)] + next.1)
            },
        },
        (LaunchPhase::Polling(n), EventView::Polled(res)) => {
            if res == Ok::<u32, Seq<char>>(0) {
                (LaunchPhase::AwaitTunnelCheck, seq![ActionView::CheckTunnel])
            } else if n < HEALTH_POLLS {
                (LaunchPhase::Polling((n + 1) as u32), seq![ActionView::PollHealth(r.health_cmd)])
            } else {
                (LaunchPhase::AwaitTunnelCheck, seq![
                    ActionView::Log("warning: "@ + r.name + " health check still failing"@),
                    ActionView::CheckTunnel,
                ])
            }
        },
        (LaunchPhase::AwaitTunnelCheck, EventView::TunnelChecked { finished }) => {
            if tunnel_kept && !finished {
                (LaunchPhase::AwaitUrl, seq![ActionView::Log("tunnel for "@ + r.name + " already open"@)]
                    + open_url_actions(r))
            } else {
                let open = ActionView::OpenTunnel {
                    local_port: r.local_port,
                    remote_host: r.remote_host,
                    remote_port: r.remote_port,
                };
                if tunnel_kept {
                    (LaunchPhase::AwaitTunnel, seq![ActionView::DropTunnel, open])
                } else {
                    (LaunchPhase::AwaitTunnel, seq![open])
                }
            }
        },
        (LaunchPhase::AwaitTunnel, EventView::TunnelOpened(res)) => match res {
            Ok(()) => (LaunchPhase::AwaitUrl, open_url_actions(r)),
            Err(e) => (LaunchPhase::Done, seq![ActionView::Finish(Err(e))]),
        },
        (LaunchPhase::AwaitUrl, EventView::UrlOpened(res)) => match res {
            Ok(()) => (LaunchPhase::Done, seq![ActionView::Finish(Ok(r.local_port))]),
            Err(e) => (LaunchPhase::Done, seq![ActionView::Finish(Err(e))]),
        },
        _ => (phase, Seq::<ActionView>::empty()),
    }
}

/// Whether a step keeps or drops the launcher's tunnel and start command for the
/// service: the tunnel is forgotten when its task finished and a new one opened,
/// remembered once a listener is open; the start command is remembered once
/// started.
pub open spec fn tunnel_after(phase: LaunchPhase, tunnel_kept: bool, event: EventView) -> bool {
    match (phase, event) {
        (LaunchPhase::AwaitTunnelCheck, EventView::TunnelChecked { finished }) => tunnel_kept && !finished,
        (LaunchPhase::AwaitTunnel, EventView::TunnelOpened(Ok(()))) => true,
        _ => tunnel_kept,
    }
}

/// One launch of one service, from the health check to the browser.
#[derive(Debug)]
pub struct LaunchRun {
    name: String,
    local_port: u16,
    remote_host: String,
    remote_port: u16,
    start_cmd: String,
    health_cmd: String,
    phase: LaunchPhase,
}

impl LaunchRun {
    /// The service as the launch sees it.
    pub closed spec fn view(self) -> RunView {
        RunView {
            name: self.name@,
            local_port: self.local_port,
            remote_host: self.remote_host@,
            remote_port: self.remote_port,
            start_cmd: self.start_cmd@,
            health_cmd: self.health_cmd@,
        }
    }

    /// Where the launch stands.
    pub closed spec fn phase(self) -> LaunchPhase {
        self.phase
    }

    /// A launch of service `name` with these settings, not begun.
    pub fn new(name: &str, svc: &ServiceConfig) -> (r: LaunchRun)
        ensures
            r.view() == (RunView {
                name: name@,
                local_port: svc.local_port,
                remote_host: svc.remote_host@,
                remote_port: svc.remote_port,
                start_cmd: svc.start_cmd@,
                health_cmd: svc.health_check_cmd@,
            }),
            r.phase() == LaunchPhase::Ready,
    {
        LaunchRun {
            name: name.to_string(),
            local_port: svc.local_port,
            remote_host: svc.remote_host.clone(),
            remote_port: svc.remote_port,
            start_cmd: svc.start_cmd.clone(),
            health_cmd: svc.health_check_cmd.clone(),
            phase: LaunchPhase::Ready,
        }
    }

    /// Where the launch stands now.
    pub fn phase_now(&self) -> (p: LaunchPhase)
        ensures
            p == self.phase(),
    {
        self.phase
    }

    /// Whether the launch is over.
    pub fn is_done(&self) -> (r: bool)
        ensures
            r == (self.phase() == LaunchPhase::Done),
    {
        self.phase == LaunchPhase::Done
    }
}

/// Whether a step starts the service's start command: when the health check did not
/// report the service up (or there is none) and a start command is set.
pub open spec fn starts_service(r: RunView, phase: LaunchPhase, event: EventView) -> bool {
    &&& !is_blank(r.start_cmd)
    &&& match (phase, event) {
        (LaunchPhase::Ready, EventView::Begin) => is_blank(r.health_cmd),
        (LaunchPhase::AwaitHealth, EventView::HealthChecked(res)) => res != Ok::<u32, Seq<char>>(0),
        _ => false,
    }
}

fn concat_text(a: &str, b: &str) -> (r: String)
    ensures
        r@ == a@ + b@,
{
    let mut r = String::new();
    push_all(&mut r, a);
    push_all(&mut r, b);
    r
}

fn concat_text3(a: &str, b: &str, c: &str) -> (r: String)
    ensures
        r@ == a@ + b@ + c@,
{
    let mut r = String::new();
    push_all(&mut r, a);
    push_all(&mut r, b);
    push_all(&mut r, c);
    r
}

fn url_of(port: u16) -> (u: String)
    ensures
        u@ == url_text(port),
{
    let mut u = String::new();
    push_all(&mut u, "http://localhost:");
    push_decimal(&mut u, port as u32);
    u
}

impl LaunchRun {
    fn push_open_url(&self, acts: &mut Vec<LaunchAction>)
        ensures
            action_views(final(acts)@) == action_views(old(acts)@) + open_url_actions(self.view()),
    {
        let url = url_of(self.local_port);
        let ghost before = old(acts)@;
        acts.push(LaunchAction::Log(concat_text("opening ", url.as_str())));
        acts.push(LaunchAction::OpenUrl(url));
        assert(action_views(acts@) =~= action_views(before) + open_url_actions(self.view()));
    }

    /// The actions of `after_health`, appended, with the start command remembered
    /// when it is started.
    fn push_after_health(&mut self, launcher: &mut Launcher, healthy: bool, acts: &mut Vec<LaunchAction>)
        requires
            old(launcher).wf(),
        ensures
            final(launcher).wf(),
            final(self).view() == old(self).view(),
            final(self).phase() == after_health(old(self).view(), healthy).0,
            action_views(final(acts)@) == action_views(old(acts)@) + after_health(old(self).view(), healthy).1,
            final(launcher).tunnels() == old(launcher).tunnels(),
            final(launcher).launching() == old(launcher).launching(),
            final(launcher).procs()@ == (if !healthy && !is_blank(old(self).view().start_cmd) {
                old(launcher).procs()@.insert(old(self).view().name)
            } else {
                old(launcher).procs()@
            }),
    {
        let ghost before = old(acts)@;
        let ghost r = self.view();
        if healthy {
            acts.push(LaunchAction::Log(concat_text(self.name.as_str(), " already running")));
            acts.push(LaunchAction::CheckTunnel);
            self.phase = LaunchPhase::AwaitTunnelCheck;
        } else if !blank(self.start_cmd.as_str()) {
            acts.push(LaunchAction::Log(concat_text("starting ", self.name.as_str())));
            acts.push(LaunchAction::StartService(self.start_cmd.clone()));
            launcher.note_started(self.name.as_str());
            if !blank(self.health_cmd.as_str()) {
                acts.push(LaunchAction::PollHealth(self.health_cmd.clone()));
                self.phase = LaunchPhase::Polling(1);
            } else {
                acts.push(LaunchAction::CheckTunnel);
                self.phase = LaunchPhase::AwaitTunnelCheck;
            }
        } else {
            acts.push(LaunchAction::Log(concat_text3("no start command for ", self.name.as_str(), "; assuming reachable")));
            acts.push(LaunchAction::CheckTunnel);
            self.phase = LaunchPhase::AwaitTunnelCheck;
        }
        assert(action_views(acts@) =~= action_views(before) + after_health(r, healthy).1);
    }

    /// Takes one step (see `launch_transition`): from what the caller reports, moves
    /// the launch on and gives what to do next; keeps the launcher's record of the
    /// service's start command and tunnel in step.
    pub fn step(&mut self, launcher: &mut Launcher, event: LaunchEvent) -> (acts: Vec<LaunchAction>)
        requires
            old(launcher).wf(),
        ensures
            final(launcher).wf(),
            final(self).view() == old(self).view(),
            (final(self).phase(), action_views(acts@)) == launch_transition(
                old(self).view(),
                old(self).phase(),
                old(launcher).tunnels()@.contains(old(self).view().name),
                event@,
            ),
            final(launcher).tunnels()@ == (if tunnel_after(
                old(self).phase(),
                old(launcher).tunnels()@.contains(old(self).view().name),
                event@,
            ) {
                old(launcher).tunnels()@.insert(old(self).view().name)
            } else {
                old(launcher).tunnels()@.remove(old(self).view().name)
            }),
            final(launcher).procs()@ == (if starts_service(old(self).view(), old(self).phase(), event@) {
                old(launcher).procs()@.insert(old(self).view().name)
            } else {
                old(launcher).procs()@
            }),
            final(launcher).launching() == old(launcher).launching(),
    {
        let ghost r = self.view();
        let ghost phase0 = self.phase;
        let ghost ev = event@;
        let ghost t0 = launcher.tunnels()@;
        let kept = launcher.has_tunnel(self.name.as_str());
        proof {
            if kept {
                assert(t0.insert(r.name) =~= t0);
            } else {
                assert(t0.remove(r.name) =~= t0);
            }
        }
        let mut acts: Vec<LaunchAction> = Vec::new();
        match self.phase {
            LaunchPhase::Ready => {
                if let LaunchEvent::Begin = event {
                    acts.push(LaunchAction::Status(ServiceStatus::Starting, "checking service".to_string()));
                    if blank(self.health_cmd.as_str()) {
                        self.push_after_health(launcher, false, &mut acts);
                    } else {
                        acts.push(LaunchAction::Log(concat_text("health check: ", self.health_cmd.as_str())));
                        acts.push(LaunchAction::RunHealthCheck(self.health_cmd.clone()));
                        self.phase = LaunchPhase::AwaitHealth;
                    }
                }
            },
            LaunchPhase::AwaitHealth => {
                if let LaunchEvent::HealthChecked(res) = event {
                    match res {
                        Ok(code) => {
                            self.push_after_health(launcher, code == 0, &mut acts);
                        },
                        Err(e) => {
                            acts.push(LaunchAction::Log(concat_text("health check error: ", e.as_str())));
                            self.push_after_health(launcher, false, &mut acts);
                        },
                    }
                }
            },
            LaunchPhase::Polling(n) => {
                if let LaunchEvent::Polled(res) = event {
                    let up = match res {
                        Ok(code) => code == 0,
                        Err(_) => false,
                    };
                    if up {
                        acts.push(LaunchAction::CheckTunnel);
                        self.phase = LaunchPhase::AwaitTunnelCheck;
                    } else if n < HEALTH_POLLS {
                        acts.push(LaunchAction::PollHealth(self.health_cmd.clone()));
                        self.phase = LaunchPhase::Polling(n + 1);
                    } else {
                        acts.push(LaunchAction::Log(concat_text3("warning: ", self.name.as_str(), " health check still failing")));
                        acts.push(LaunchAction::CheckTunnel);
                        self.phase = LaunchPhase::AwaitTunnelCheck;
                    }
                }
            },
            LaunchPhase::AwaitTunnelCheck => {
                if let LaunchEvent::TunnelChecked { finished } = event {
                    if kept && !finished {
                        acts.push(LaunchAction::Log(concat_text3("tunnel for ", self.name.as_str(), " already open")));
                        self.push_open_url(&mut acts);
                        self.phase = LaunchPhase::AwaitUrl;
                    } else {
                        if kept {
                            launcher.forget_tunnel(self.name.as_str());
                            acts.push(LaunchAction::DropTunnel);
                        }
                        acts.push(LaunchAction::OpenTunnel {
                            local_port: self.local_port,
                            remote_host: self.remote_host.clone(),
                            remote_port: self.remote_port,
                        });
                        self.phase = LaunchPhase::AwaitTunnel;
                    }
                }
            },
            LaunchPhase::AwaitTunnel => {
                if let LaunchEvent::TunnelOpened(res) = event {
                    match res {
                        Ok(()) => {
                            launcher.note_tunnel(self.name.as_str());
                            self.push_open_url(&mut acts);
                            self.phase = LaunchPhase::AwaitUrl;
                        },
                        Err(e) => {
                            acts.push(LaunchAction::Finish(Err(e)));
                            self.phase = LaunchPhase::Done;
                        },
                    }
                }
            },
            LaunchPhase::AwaitUrl => {
                if let LaunchEvent::UrlOpened(res) = event {
                    match res {
                        Ok(()) => {
                            acts.push(LaunchAction::Finish(Ok(self.local_port)));
                        },
                        Err(e) => {
                            acts.push(LaunchAction::Finish(Err(e)));
                        },
                    }
                    self.phase = LaunchPhase::Done;
                }
            },
            LaunchPhase::Done => {},
        }
        proof {
            assert(action_views(acts@) =~= launch_transition(r, phase0, kept, ev).1);
        }
        acts
    }
}

/// How many of the actions satisfy `f`.
pub open spec fn count_where(acts: Seq<ActionView>, f: spec_fn(ActionView) -> bool) -> nat
    decreases acts.len(),
{
    if acts.len() == 0 {
        0
    } else {
        count_where(acts.drop_last(), f) + if f(acts.last()) { 1nat } else { 0nat }
    }
}

/// Starting the service's start command.
pub open spec fn is_start(a: ActionView) -> bool {
    a is StartService
}

/// A quiet health check after the start.
pub open spec fn is_poll(a: ActionView) -> bool {
    a is PollHealth
}

/// The end of the launch.
pub open spec fn is_finish(a: ActionView) -> bool {
    a is Finish
}

/// The launch run through a sequence of steps, each given as whether the launcher
/// kept a tunnel for the service and what the caller reported: the phase reached
/// and every action asked for, in order.
pub open spec fn run_trace(r: RunView, phase: LaunchPhase, steps: Seq<(bool, EventView)>) -> (LaunchPhase, Seq<ActionView>)
    decreases steps.len(),
{
    if steps.len() == 0 {
        (phase, Seq::<ActionView>::empty())
    } else {
        let prev = run_trace(r, phase, steps.drop_last());
        let next = launch_transition(r, prev.0, steps.last().0, steps.last().1);
        (next.0, prev.1 + next.1)
    }
}

proof fn lemma_count_concat(a: Seq<ActionView>, b: Seq<ActionView>, f: spec_fn(ActionView) -> bool)
    ensures
        count_where(a + b, f) == count_where(a, f) + count_where(b, f),
    decreases b.len(),
{
    if b.len() == 0 {
        assert(a + b == a);
    } else {
        lemma_count_concat(a, b.drop_last(), f);
        assert((a + b).drop_last() == a + b.drop_last());
        assert((a + b).last() == b.last());
    }
}

/// Phases a launch can be in: it polls at most `HEALTH_POLLS` times.
pub open spec fn phase_valid(p: LaunchPhase) -> bool {
    p matches LaunchPhase::Polling(n) ==> 1 <= n <= HEALTH_POLLS
}

/// How many start commands a launch in phase `p` may still start.
pub open spec fn starts_left(p: LaunchPhase) -> nat {
    match p {
        LaunchPhase::Ready | LaunchPhase::AwaitHealth => 1,
        _ => 0,
    }
}

/// How many quiet health checks a launch in phase `p` may still ask for.
pub open spec fn polls_left(p: LaunchPhase) -> nat {
    match p {
        LaunchPhase::Ready | LaunchPhase::AwaitHealth => HEALTH_POLLS as nat,
        LaunchPhase::Polling(n) => if n <= HEALTH_POLLS { (HEALTH_POLLS - n) as nat } else { 0 },
        _ => 0,
    }
}

/// How many results a launch in phase `p` may still give.
pub open spec fn finishes_left(p: LaunchPhase) -> nat {
    match p {
        LaunchPhase::Done => 0,
        _ => 1,
    }
}

proof fn lemma_step_budget(r: RunView, p: LaunchPhase, kept: bool, e: EventView)
    requires
        phase_valid(p),
    ensures
        phase_valid(launch_transition(r, p, kept, e).0),
        count_where(launch_transition(r, p, kept, e).1, |a: ActionView| is_start(a)) + starts_left(
            launch_transition(r, p, kept, e).0,
        ) <= starts_left(p),
        count_where(launch_transition(r, p, kept, e).1, |a: ActionView| is_poll(a)) + polls_left(
            launch_transition(r, p, kept, e).0,
        ) <= polls_left(p),
        count_where(launch_transition(r, p, kept, e).1, |a: ActionView| is_finish(a)) + finishes_left(
            launch_transition(r, p, kept, e).0,
        ) <= finishes_left(p),
        forall|i: int|
            0 <= i < launch_transition(r, p, kept, e).1.len() ==> (#[trigger] launch_transition(
                r,
                p,
                kept,
                e,
            ).1[i] matches ActionView::Finish(Ok(port)) ==> port == r.local_port),
{
    reveal_with_fuel(count_where, 5);
    let t = launch_transition(r, p, kept, e);
    let h = after_health(r, false);
    let h1 = after_health(r, true);
    assert(seq![ActionView::Status(ServiceStatus::Starting, "checking service"@)] + h.1 == seq![
        ActionView::Status(ServiceStatus::Starting, "checking service"@),
    ].add(h.1));
    if (p, e) matches (LaunchPhase::Ready, EventView::Begin) {
        if is_blank(r.health_cmd) {
            lemma_count_concat(seq![ActionView::Status(ServiceStatus::Starting, "checking service"@)], h.1, |a: ActionView| is_start(a));
            lemma_count_concat(seq![ActionView::Status(ServiceStatus::Starting, "checking service"@)], h.1, |a: ActionView| is_poll(a));
            lemma_count_concat(seq![ActionView::Status(ServiceStatus::Starting, "checking service"@)], h.1, |a: ActionView| is_finish(a));
        }
    }
    match (p, e) {
        (LaunchPhase::AwaitHealth, EventView::HealthChecked(Err(msg))) => {
            let l = seq![ActionView::Log("health check error: "@ + msg)];
            lemma_count_concat(l, h.1, |a: ActionView| is_start(a));
            lemma_count_concat(l, h.1, |a: ActionView| is_poll(a));
            lemma_count_concat(l, h.1, |a: ActionView| is_finish(a));
        },
        (LaunchPhase::AwaitTunnelCheck, EventView::TunnelChecked { finished }) => {
            if kept && !finished {
                let l = seq![ActionView::Log("tunnel for "@ + r.name + " already open"@)];
                lemma_count_concat(l, open_url_actions(r), |a: ActionView| is_start(a));
                lemma_count_concat(l, open_url_actions(r), |a: ActionView| is_poll(a));
                lemma_count_concat(l, open_url_actions(r), |a: ActionView| is_finish(a));
            }
        },
        _ => {},
    }
}

/// What a launch asks for over any sequence of steps: its start command at most
/// once, the quiet health check at most `HEALTH_POLLS` times, and a result at most
/// once, a successful one giving the service's local port.
pub proof fn law_launch_bounds(r: RunView, steps: Seq<(bool, EventView)>)
    ensures
        count_where(run_trace(r, LaunchPhase::Ready, steps).1, |a: ActionView| is_start(a)) <= 1,
        count_where(run_trace(r, LaunchPhase::Ready, steps).1, |a: ActionView| is_poll(a))
            <= HEALTH_POLLS,
        count_where(run_trace(r, LaunchPhase::Ready, steps).1, |a: ActionView| is_finish(a)) <= 1,
        forall|i: int|
            0 <= i < run_trace(r, LaunchPhase::Ready, steps).1.len() ==> (#[trigger] run_trace(
                r,
                LaunchPhase::Ready,
                steps,
            ).1[i] matches ActionView::Finish(Ok(port)) ==> port == r.local_port),
{
    lemma_trace_budget(r, steps);
}

proof fn lemma_trace_budget(r: RunView, steps: Seq<(bool, EventView)>)
    ensures
        phase_valid(run_trace(r, LaunchPhase::Ready, steps).0),
        count_where(run_trace(r, LaunchPhase::Ready, steps).1, |a: ActionView| is_start(a))
            + starts_left(run_trace(r, LaunchPhase::Ready, steps).0) <= 1,
        count_where(run_trace(r, LaunchPhase::Ready, steps).1, |a: ActionView| is_poll(a))
            + polls_left(run_trace(r, LaunchPhase::Ready, steps).0) <= HEALTH_POLLS,
        count_where(run_trace(r, LaunchPhase::Ready, steps).1, |a: ActionView| is_finish(a))
            + finishes_left(run_trace(r, LaunchPhase::Ready, steps).0) <= 1,
        forall|i: int|
            0 <= i < run_trace(r, LaunchPhase::Ready, steps).1.len() ==> (#[trigger] run_trace(
                r,
                LaunchPhase::Ready,
                steps,
            ).1[i] matches ActionView::Finish(Ok(port)) ==> port == r.local_port),
    decreases steps.len(),
{
    if steps.len() > 0 {
        let prev = run_trace(r, LaunchPhase::Ready, steps.drop_last());
        lemma_trace_budget(r, steps.drop_last());
        let k = steps.last().0;
        let e = steps.last().1;
        lemma_step_budget(r, prev.0, k, e);
        let next = launch_transition(r, prev.0, k, e);
        lemma_count_concat(prev.1, next.1, |a: ActionView| is_start(a));
        lemma_count_concat(prev.1, next.1, |a: ActionView| is_poll(a));
        lemma_count_concat(prev.1, next.1, |a: ActionView| is_finish(a));
        let all = prev.1 + next.1;
        assert forall|i: int| 0 <= i < all.len() implies (#[trigger] all[i] matches ActionView::Finish(Ok(port)) ==> port == r.local_port) by {
            if i >= prev.1.len() {
                assert(all[i] == next.1[i - prev.1.len()]);
            } else {
                assert(all[i] == prev.1[i]);
            }
        }
    }
}

/// The start command runs only when the service is down: a step asks to start it
/// exactly when the health check did not report it up (or there is no health check)
/// and a start command is set, and then it is that command.
pub proof fn law_start_only_when_down(r: RunView, p: LaunchPhase, kept: bool, e: EventView)
    ensures
        (exists|i: int|
            0 <= i < launch_transition(r, p, kept, e).1.len() && is_start(
                #[trigger] launch_transition(r, p, kept, e).1[i],
            )) == starts_service(r, p, e),
        forall|i: int|
            0 <= i < launch_transition(r, p, kept, e).1.len() ==> (#[trigger] launch_transition(
                r,
                p,
                kept,
                e,
            ).1[i] matches ActionView::StartService(c) ==> c == r.start_cmd),
{
    let t = launch_transition(r, p, kept, e);
    let h = after_health(r, false);
    let st = seq![ActionView::Status(ServiceStatus::Starting, "checking service"@)];
    if starts_service(r, p, e) {
        if (p, e) matches (LaunchPhase::Ready, EventView::Begin) {
            assert(t.1 == st + h.1);
            assert(is_start(t.1[2]));
        } else if (p, e) matches (LaunchPhase::AwaitHealth, EventView::HealthChecked(Err(_))) {
            assert(is_start(t.1[2]));
        } else {
            assert(is_start(t.1[1]));
        }
    } else {
        if (p, e) matches (LaunchPhase::Ready, EventView::Begin) {
            if is_blank(r.health_cmd) {
                assert(t.1 == st + h.1);
                assert forall|i: int| 0 <= i < t.1.len() implies !is_start(#[trigger] t.1[i]) by {
                    if i > 0 {
                        assert(t.1[i] == h.1[i - 1]);
                    }
                }
            }
        }
        match (p, e) {
            (LaunchPhase::AwaitHealth, EventView::HealthChecked(Err(msg))) => {
                assert forall|i: int| 0 <= i < t.1.len() implies !is_start(#[trigger] t.1[i]) by {
                    if i > 0 {
                        assert(t.1[i] == h.1[i - 1]);
                    }
                }
            },
            (LaunchPhase::AwaitTunnelCheck, EventView::TunnelChecked { finished }) => {
                if kept && !finished {
                    assert forall|i: int| 0 <= i < t.1.len() implies !is_start(#[trigger] t.1[i]) by {
                        if i > 0 {
                            assert(t.1[i] == open_url_actions(r)[i - 1]);
                        }
                    }
                }
            },
            _ => {},
        }
    }
    assert forall|i: int| 0 <= i < t.1.len() implies (#[trigger] t.1[i] matches ActionView::StartService(c) ==> c == r.start_cmd) by {
        if (p, e) matches (LaunchPhase::Ready, EventView::Begin) {
            if is_blank(r.health_cmd) && i > 0 {
                assert(t.1[i] == h.1[i - 1]);
            }
        }
        match (p, e) {
            (LaunchPhase::AwaitHealth, EventView::HealthChecked(Err(msg))) => {
                if i > 0 {
                    assert(t.1[i] == h.1[i - 1]);
                }
            },
            (LaunchPhase::AwaitTunnelCheck, EventView::TunnelChecked { finished }) => {
                if kept && !finished && i > 0 {
                    assert(t.1[i] == open_url_actions(r)[i - 1]);
                }
            },
            _ => {},
        }
    }
}

/// Asking the browser to open the address.
pub open spec fn is_open_url(a: ActionView) -> bool {
    a is OpenUrl
}

/// A successful end of the launch.
pub open spec fn is_success(a: ActionView) -> bool {
    a matches ActionView::Finish(Ok(_))
}

/// The browser is sent to the service only once a tunnel leads there: a step asks
/// to open the address only when the tunnel kept for the service is still running
/// or a new tunnel's listener has just opened.
pub proof fn law_browser_after_tunnel(r: RunView, p: LaunchPhase, kept: bool, e: EventView)
    ensures
        (exists|i: int|
            0 <= i < launch_transition(r, p, kept, e).1.len() && is_open_url(
                #[trigger] launch_transition(r, p, kept, e).1[i],
            )) ==> match (p, e) {
            (LaunchPhase::AwaitTunnelCheck, EventView::TunnelChecked { finished }) => kept && !finished,
            (LaunchPhase::AwaitTunnel, EventView::TunnelOpened(res)) => res is Ok,
            _ => false,
        },
{
    let t = launch_transition(r, p, kept, e);
    let h = after_health(r, false);
    let st = seq![ActionView::Status(ServiceStatus::Starting, "checking service"@)];
    match (p, e) {
        (LaunchPhase::Ready, EventView::Begin) => {
            if is_blank(r.health_cmd) {
                assert(t.1 == st + h.1);
                assert forall|i: int| 0 <= i < t.1.len() implies !is_open_url(#[trigger] t.1[i]) by {
                    if i > 0 {
                        assert(t.1[i] == h.1[i - 1]);
                    }
                }
            }
        },
        (LaunchPhase::AwaitHealth, EventView::HealthChecked(Err(msg))) => {
            assert forall|i: int| 0 <= i < t.1.len() implies !is_open_url(#[trigger] t.1[i]) by {
                if i > 0 {
                    assert(t.1[i] == h.1[i - 1]);
                }
            }
        },
        _ => {},
    }
}

/// A launch reports success only after it asked the browser to open the service:
/// in any run, every successful result comes after an `OpenUrl`.
pub proof fn law_success_after_browser(r: RunView, steps: Seq<(bool, EventView)>)
    ensures
        forall|i: int|
            0 <= i < run_trace(r, LaunchPhase::Ready, steps).1.len() && is_success(
                #[trigger] run_trace(r, LaunchPhase::Ready, steps).1[i],
            ) ==> exists|j: int|
                0 <= j < i && is_open_url(#[trigger] run_trace(r, LaunchPhase::Ready, steps).1[j]),
{
    lemma_success_after_browser(r, steps);
}

proof fn lemma_success_after_browser(r: RunView, steps: Seq<(bool, EventView)>)
    ensures
        run_trace(r, LaunchPhase::Ready, steps).0 == LaunchPhase::AwaitUrl ==> exists|j: int|
            0 <= j < run_trace(r, LaunchPhase::Ready, steps).1.len() && is_open_url(
                #[trigger] run_trace(r, LaunchPhase::Ready, steps).1[j],
            ),
        forall|i: int|
            0 <= i < run_trace(r, LaunchPhase::Ready, steps).1.len() && is_success(
                #[trigger] run_trace(r, LaunchPhase::Ready, steps).1[i],
            ) ==> exists|j: int|
                0 <= j < i && is_open_url(#[trigger] run_trace(r, LaunchPhase::Ready, steps).1[j]),
    decreases steps.len(),
{
    if steps.len() > 0 {
        let prev = run_trace(r, LaunchPhase::Ready, steps.drop_last());
        lemma_success_after_browser(r, steps.drop_last());
        let k = steps.last().0;
        let e = steps.last().1;
        let next = launch_transition(r, prev.0, k, e);
        let all = prev.1 + next.1;
        assert(run_trace(r, LaunchPhase::Ready, steps) == (next.0, all));
        let n = prev.1.len() as int;
        let h = after_health(r, false);
        let h1 = after_health(r, true);
        let st = seq![ActionView::Status(ServiceStatus::Starting, "checking service"@)];
        // The actions of this step that open the browser or report success.
        assert forall|i: int| 0 <= i < next.1.len() && is_success(#[trigger] next.1[i]) implies
            prev.0 == LaunchPhase::AwaitUrl by {
            match (prev.0, e) {
                (LaunchPhase::Ready, EventView::Begin) => {
                    if is_blank(r.health_cmd) && i > 0 {
                        assert(next.1[i] == h.1[i - 1]);
                    }
                },
                (LaunchPhase::AwaitHealth, EventView::HealthChecked(Err(msg))) => {
                    if i > 0 {
                        assert(next.1[i] == h.1[i - 1]);
                    }
                },
                (LaunchPhase::AwaitTunnelCheck, EventView::TunnelChecked { finished }) => {
                    if k && !finished && i > 0 {
                        assert(next.1[i] == open_url_actions(r)[i - 1]);
                    }
                },
                _ => {},
            }
        }
        if next.0 == LaunchPhase::AwaitUrl && prev.0 != LaunchPhase::AwaitUrl {
            match (prev.0, e) {
                (LaunchPhase::AwaitTunnelCheck, EventView::TunnelChecked { finished }) => {
                    assert(next.1[2] == ActionView::OpenUrl(url_text(r.local_port)));
                    assert(all[n + 2] == next.1[2]);
                    assert(is_open_url(all[n + 2]));
                    assert(is_open_url(run_trace(r, LaunchPhase::Ready, steps).1[n + 2]));
                },
                (LaunchPhase::AwaitTunnel, EventView::TunnelOpened(Ok(()))) => {
                    assert(next.1[1] == ActionView::OpenUrl(url_text(r.local_port)));
                    assert(all[n + 1] == next.1[1]);
                    assert(is_open_url(all[n + 1]));
                    assert(is_open_url(run_trace(r, LaunchPhase::Ready, steps).1[n + 1]));
                },
                _ => {},
            }
        }
        if next.0 == LaunchPhase::AwaitUrl && prev.0 == LaunchPhase::AwaitUrl {
            let j = choose|j: int| 0 <= j < prev.1.len() && is_open_url(#[trigger] prev.1[j]);
            assert(all[j] == prev.1[j]);
            assert(is_open_url(all[j]));
            assert(is_open_url(run_trace(r, LaunchPhase::Ready, steps).1[j]));
        }
        assert forall|i: int| 0 <= i < all.len() && is_success(#[trigger] all[i]) implies exists|j: int|
            0 <= j < i && is_open_url(#[trigger] all[j]) by {
            if i < n {
                assert(all[i] == prev.1[i]);
                let j = choose|j: int| 0 <= j < i && is_open_url(#[trigger] prev.1[j]);
                assert(all[j] == prev.1[j]);
            } else {
                assert(all[i] == next.1[i - n]);
                assert(prev.0 == LaunchPhase::AwaitUrl);
                let j = choose|j: int| 0 <= j < prev.1.len() && is_open_url(#[trigger] prev.1[j]);
                assert(all[j] == prev.1[j]);
            }
        }
    }
}

} // verus!
