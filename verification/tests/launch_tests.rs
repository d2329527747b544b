use hermes_launcher::config::{AppConfig, ServerConfig, ServiceConfig};
use hermes_launcher::launch::{
    connecting_message, connection_test_result, start_command_outcome, tunnel_failure,
    ConnectDecision, Launcher, ServiceStatus,
};
use hermes_launcher::run::{LaunchAction, LaunchEvent, LaunchPhase, LaunchRun, HEALTH_POLLS};
use hermes_launcher::tunnel::{bind_failure_context, forward_failure_message, listening_message};

fn config() -> AppConfig {
    let mut c = AppConfig::default();
    c.dashboard.local_port = 9119;
    c.dashboard.remote_port = 9119;
    c.webui.local_port = 8080;
    c
}

#[test]
fn launch_needs_a_known_service_with_ports() {
    let c = config();
    let mut l = Launcher::new();
    assert_eq!(l.begin_launch(&c, "nope").unwrap_err(), "unknown service 'nope'");
    assert_eq!(l.begin_launch(&c, "webui").unwrap_err(), "configure ports for 'webui' first");
    assert!(!l.is_launching("webui"));
    assert!(!l.is_launching("nope"));
}

#[test]
fn no_second_launch_of_the_same_service() {
    let c = config();
    let mut l = Launcher::new();
    assert_eq!(l.begin_launch(&c, "dashboard").unwrap().local_port, 9119);
    assert!(l.is_launching("dashboard"));
    assert_eq!(l.begin_launch(&c, "dashboard").unwrap_err(), "dashboard is already launching");
    let u = l.end_launch("dashboard", &Ok(9119));
    assert_eq!(u.status, ServiceStatus::Running);
    assert_eq!(u.detail, "tunnel open");
    assert_eq!(u.service, "dashboard");
    assert!(!l.is_launching("dashboard"));
    assert!(l.begin_launch(&c, "dashboard").is_ok());
    let u = l.end_launch("dashboard", &Err("bind failed".to_string()));
    assert_eq!(u.status, ServiceStatus::Error);
    assert_eq!(u.detail, "bind failed");
}

#[test]
fn status_words() {
    assert_eq!(ServiceStatus::Idle.as_text(), "idle");
    assert_eq!(ServiceStatus::Starting.as_text(), "starting");
    assert_eq!(ServiceStatus::Running.as_text(), "running");
    assert_eq!(ServiceStatus::Error.as_text(), "error");
}

fn dashboard(start: &str, health: &str) -> ServiceConfig {
    ServiceConfig {
        local_port: 9119,
        remote_host: "localhost".to_string(),
        remote_port: 9120,
        start_cmd: start.to_string(),
        health_check_cmd: health.to_string(),
    }
}

fn open_tunnel() -> LaunchAction {
    LaunchAction::OpenTunnel { local_port: 9119, remote_host: "localhost".to_string(), remote_port: 9120 }
}

fn log(s: &str) -> LaunchAction {
    LaunchAction::Log(s.to_string())
}

#[test]
fn healthy_service_is_not_started() {
    let mut l = Launcher::new();
    let mut r = LaunchRun::new("dashboard", &dashboard("serve", "check"));
    assert_eq!(r.step(&mut l, LaunchEvent::Begin), vec![
        LaunchAction::Status(ServiceStatus::Starting, "checking service".to_string()),
        log("health check: check"),
        LaunchAction::RunHealthCheck("check".to_string()),
    ]);
    assert_eq!(r.step(&mut l, LaunchEvent::HealthChecked(Ok(0))), vec![
        log("dashboard already running"),
        LaunchAction::CheckTunnel,
    ]);
    assert!(!l.has_proc("dashboard"));
    assert_eq!(r.step(&mut l, LaunchEvent::TunnelChecked { finished: false }), vec![open_tunnel()]);
    assert_eq!(r.step(&mut l, LaunchEvent::TunnelOpened(Ok(()))), vec![
        log("opening http://localhost:9119"),
        LaunchAction::OpenUrl("http://localhost:9119".to_string()),
    ]);
    assert!(l.has_tunnel("dashboard"));
    assert_eq!(r.step(&mut l, LaunchEvent::UrlOpened(Ok(()))), vec![LaunchAction::Finish(Ok(9119))]);
    assert!(r.is_done());
    assert!(r.step(&mut l, LaunchEvent::UrlOpened(Ok(()))).is_empty());
}

#[test]
fn down_service_is_started_and_polled() {
    let mut l = Launcher::new();
    let mut r = LaunchRun::new("dashboard", &dashboard("serve", "check"));
    r.step(&mut l, LaunchEvent::Begin);
    assert_eq!(r.step(&mut l, LaunchEvent::HealthChecked(Ok(1))), vec![
        log("starting dashboard"),
        LaunchAction::StartService("serve".to_string()),
        LaunchAction::PollHealth("check".to_string()),
    ]);
    assert!(l.has_proc("dashboard"));
    let mut polls = 1;
    loop {
        let acts = r.step(&mut l, LaunchEvent::Polled(Err("timeout".to_string())));
        if acts == vec![LaunchAction::PollHealth("check".to_string())] {
            polls += 1;
        } else {
            assert_eq!(acts, vec![
                log("warning: dashboard health check still failing"),
                LaunchAction::CheckTunnel,
            ]);
            break;
        }
    }
    assert_eq!(polls, HEALTH_POLLS);
    assert_eq!(r.phase_now(), LaunchPhase::AwaitTunnelCheck);
}

#[test]
fn polling_stops_when_the_service_is_up() {
    let mut l = Launcher::new();
    let mut r = LaunchRun::new("dashboard", &dashboard("serve", "check"));
    r.step(&mut l, LaunchEvent::Begin);
    r.step(&mut l, LaunchEvent::HealthChecked(Err("ssh down".to_string())));
    assert_eq!(r.step(&mut l, LaunchEvent::Polled(Ok(7))), vec![LaunchAction::PollHealth("check".to_string())]);
    assert_eq!(r.step(&mut l, LaunchEvent::Polled(Ok(0))), vec![LaunchAction::CheckTunnel]);
}

#[test]
fn health_check_error_is_logged_and_counts_as_down() {
    let mut l = Launcher::new();
    let mut r = LaunchRun::new("dashboard", &dashboard("serve", "check"));
    r.step(&mut l, LaunchEvent::Begin);
    assert_eq!(r.step(&mut l, LaunchEvent::HealthChecked(Err("ssh down".to_string()))), vec![
        log("health check error: ssh down"),
        log("starting dashboard"),
        LaunchAction::StartService("serve".to_string()),
        LaunchAction::PollHealth("check".to_string()),
    ]);
}

#[test]
fn no_health_check_means_start_without_polling() {
    let mut l = Launcher::new();
    let mut r = LaunchRun::new("dashboard", &dashboard("serve", "   "));
    assert_eq!(r.step(&mut l, LaunchEvent::Begin), vec![
        LaunchAction::Status(ServiceStatus::Starting, "checking service".to_string()),
        log("starting dashboard"),
        LaunchAction::StartService("serve".to_string()),
        LaunchAction::CheckTunnel,
    ]);
}

#[test]
fn no_start_command_assumes_reachable() {
    let mut l = Launcher::new();
    let mut r = LaunchRun::new("dashboard", &dashboard("", ""));
    assert_eq!(r.step(&mut l, LaunchEvent::Begin), vec![
        LaunchAction::Status(ServiceStatus::Starting, "checking service".to_string()),
        log("no start command for dashboard; assuming reachable"),
        LaunchAction::CheckTunnel,
    ]);
    assert!(!l.has_proc("dashboard"));
}

fn run_to_tunnel_check(l: &mut Launcher) -> LaunchRun {
    let mut r = LaunchRun::new("dashboard", &dashboard("", ""));
    r.step(l, LaunchEvent::Begin);
    r
}

#[test]
fn open_tunnel_is_reused_and_finished_one_replaced() {
    let mut l = Launcher::new();
    let mut r = run_to_tunnel_check(&mut l);
    r.step(&mut l, LaunchEvent::TunnelChecked { finished: false });
    r.step(&mut l, LaunchEvent::TunnelOpened(Ok(())));
    assert!(l.has_tunnel("dashboard"));

    let mut again = run_to_tunnel_check(&mut l);
    assert_eq!(again.step(&mut l, LaunchEvent::TunnelChecked { finished: false }), vec![
        log("tunnel for dashboard already open"),
        log("opening http://localhost:9119"),
        LaunchAction::OpenUrl("http://localhost:9119".to_string()),
    ]);

    let mut third = run_to_tunnel_check(&mut l);
    assert_eq!(third.step(&mut l, LaunchEvent::TunnelChecked { finished: true }), vec![
        LaunchAction::DropTunnel,
        open_tunnel(),
    ]);
    assert!(!l.has_tunnel("dashboard"));
}

#[test]
fn failures_end_the_launch() {
    let mut l = Launcher::new();
    let mut r = run_to_tunnel_check(&mut l);
    r.step(&mut l, LaunchEvent::TunnelChecked { finished: false });
    assert_eq!(r.step(&mut l, LaunchEvent::TunnelOpened(Err("in use".to_string()))), vec![
        LaunchAction::Finish(Err("in use".to_string())),
    ]);
    assert!(r.is_done());
    assert!(!l.has_tunnel("dashboard"));

    let mut r = run_to_tunnel_check(&mut l);
    r.step(&mut l, LaunchEvent::TunnelChecked { finished: false });
    r.step(&mut l, LaunchEvent::TunnelOpened(Ok(())));
    assert_eq!(r.step(&mut l, LaunchEvent::UrlOpened(Err("no browser".to_string()))), vec![
        LaunchAction::Finish(Err("no browser".to_string())),
    ]);
}

#[test]
fn unexpected_events_change_nothing() {
    let mut l = Launcher::new();
    let mut r = LaunchRun::new("dashboard", &dashboard("serve", "check"));
    assert!(r.step(&mut l, LaunchEvent::UrlOpened(Ok(()))).is_empty());
    assert_eq!(r.phase_now(), LaunchPhase::Ready);
    assert!(r.step(&mut l, LaunchEvent::Polled(Ok(0))).is_empty());
}

#[test]
fn reconnect_stops_everything_bound_to_the_old_connection() {
    let mut l = Launcher::new();
    let mut r = LaunchRun::new("dashboard", &dashboard("serve", ""));
    r.step(&mut l, LaunchEvent::Begin);
    r.step(&mut l, LaunchEvent::TunnelChecked { finished: false });
    r.step(&mut l, LaunchEvent::TunnelOpened(Ok(())));
    assert_eq!(l.ensure_connected(true), ConnectDecision::Reuse);
    assert!(l.has_tunnel("dashboard") && l.has_proc("dashboard"));
    assert_eq!(l.ensure_connected(false), ConnectDecision::Reconnect {
        tunnels: vec!["dashboard".to_string()],
        procs: vec!["dashboard".to_string()],
    });
    assert!(!l.has_tunnel("dashboard") && !l.has_proc("dashboard"));
}

#[test]
fn stop_and_disconnect() {
    let mut l = Launcher::new();
    let mut r = LaunchRun::new("webui", &dashboard("serve", ""));
    r.step(&mut l, LaunchEvent::Begin);
    let (t, p, u) = l.stop_service("webui");
    assert!(!t && p);
    assert_eq!((u.service.as_str(), u.status, u.detail.as_str()), ("webui", ServiceStatus::Idle, "stopped"));
    assert!(!l.has_proc("webui"));
    let (t, p, _) = l.stop_service("webui");
    assert!(!t && !p);
    r = LaunchRun::new("webui", &dashboard("serve", ""));
    r.step(&mut l, LaunchEvent::Begin);
    assert_eq!(l.disconnect(), (vec![], vec!["webui".to_string()]));
    assert!(!l.has_proc("webui"));
}

#[test]
fn messages() {
    let s = ServerConfig { host: "srv".to_string(), port: 22, username: "bob".to_string() };
    assert_eq!(connecting_message(&s), "connecting to bob@srv...");
    assert_eq!(connection_test_result(0), Ok("Connection OK".to_string()));
    assert_eq!(connection_test_result(127), Err("remote echo exited with code 127".to_string()));
    assert_eq!(start_command_outcome("webui", &Ok(0)), None);
    let u = start_command_outcome("webui", &Ok(2)).unwrap();
    assert_eq!((u.status, u.detail.as_str()), (ServiceStatus::Error, "start command exited 2"));
    let u = start_command_outcome("webui", &Err("broken".to_string())).unwrap();
    assert_eq!(u.detail, "start command error: broken");
    assert_eq!(tunnel_failure("webui", "eof").detail, "tunnel: eof");
    assert_eq!(bind_failure_context(9119), "bind 127.0.0.1:9119 (port already in use?)");
    assert_eq!(listening_message("localhost", 80), "tunnel listening on 127.0.0.1 -> localhost:80");
    assert_eq!(forward_failure_message("x"), "tunnel connection failed (SSH handle dead?): x");
}
