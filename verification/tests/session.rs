use opencode_ssh::connect::{
    error_kind, failure_message, poll, port_result, teardown_plan, Connect, ErrorKind, Event, Poll,
    PortWait, Stage, Started, Step, Teardown, POLL_INTERVAL_MS, READY_TIMEOUT_MS,
};
use opencode_ssh::control::Host;
use opencode_ssh::deep_link::{DeepLinkAction, LinkUrl};
use opencode_ssh::display::{
    backend_note, backend_variables, configure_display_backend, Backend, DisplayEnv,
};
use opencode_ssh::proxy::{list_entries, no_proxy_value};
use opencode_ssh::session::{connect_data, path_in, plan_session, url_of, SessionSlot};

fn unix() -> Host {
    Host { unix: true, windows: false, display: true }
}

fn windows() -> Host {
    Host { unix: false, windows: true, display: false }
}

fn is_token(s: &str) -> bool {
    s.len() == 36
        && s.chars().enumerate().all(|(i, c)| {
            if i == 8 || i == 13 || i == 18 || i == 23 {
                c == '-'
            } else {
                c.is_ascii_digit() || ('a'..='f').contains(&c)
            }
        })
}

fn run(host: &Host, events: &[Event]) -> Connect {
    let mut c = Connect::begin(host);
    for e in events {
        c = c.advance(*e);
    }
    c
}

fn steps(host: &Host, outdated: bool) -> Vec<Step> {
    let mut c = Connect::begin(host);
    let mut seen = Vec::new();
    while let Stage::Run(step) = c.stage {
        seen.push(step);
        let event = if step == Step::QueryVersion && outdated { Event::Outdated } else { Event::Done };
        c = c.advance(event);
    }
    assert_eq!(c.stage, Stage::Connected);
    seen
}

#[test]
fn proxy_bypass_keeps_entries_and_adds_the_loopback() {
    assert_eq!(no_proxy_value("example.com, localhost"), "example.com,localhost,127.0.0.1,::1");
}

#[test]
fn proxy_bypass_of_nothing() {
    assert_eq!(no_proxy_value(""), "127.0.0.1,localhost,::1");
    assert_eq!(no_proxy_value(" , ,"), "127.0.0.1,localhost,::1");
}

#[test]
fn proxy_bypass_ignores_case() {
    assert_eq!(no_proxy_value("LOCALHOST,::1"), "LOCALHOST,::1,127.0.0.1");
    assert_eq!(no_proxy_value("LocalHost"), "LocalHost,127.0.0.1,::1");
}

#[test]
fn proxy_bypass_is_idempotent() {
    for start in ["", "a,b", "example.com, localhost", "127.0.0.1,localhost,::1", "::1, x ,,y"] {
        let once = no_proxy_value(start);
        assert_eq!(no_proxy_value(&once), once);
        let items = list_entries(&once);
        for host in ["127.0.0.1", "localhost", "::1"] {
            assert_eq!(items.iter().filter(|i| i.eq_ignore_ascii_case(host)).count(), 1);
        }
    }
}

#[test]
fn proxy_bypass_keeps_what_was_there_twice() {
    assert_eq!(no_proxy_value("a,a,localhost,Localhost"), "a,a,localhost,Localhost,127.0.0.1,::1");
}

#[test]
fn proxy_entries_are_trimmed() {
    assert_eq!(list_entries(" a ,b,, c d ,"), vec!["a", "b", "c d"]);
    assert_eq!(list_entries(""), Vec::<String>::new());
    assert_eq!(list_entries("x"), vec!["x"]);
}

#[test]
fn session_plan_on_unix() {
    let plan = plan_session(&unix(), "/var/folders/xy/T", 50123);
    assert!(is_token(&plan.key));
    assert!(is_token(&plan.password));
    assert_ne!(plan.key, plan.password);
    assert_eq!(plan.local_port, 50123);
    assert_eq!(plan.url, "http://127.0.0.1:50123");
    assert_eq!(plan.dir, format!("/tmp/opencode-ssh-{}", plan.key));
    assert_eq!(plan.socket_path, Some(format!("/tmp/opencode-ssh-{}/ssh.sock", plan.key)));
    assert_eq!(plan.askpass_socket, Some(format!("/tmp/opencode-ssh-{}/askpass.sock", plan.key)));
}

#[test]
fn session_plan_elsewhere() {
    let plan = plan_session(&windows(), "C:/Temp", 8080);
    assert_eq!(plan.url, "http://127.0.0.1:8080");
    assert_eq!(plan.dir, format!("C:/Temp/opencode-ssh-{}", plan.key));
    assert_eq!(plan.socket_path, None);
    assert_eq!(plan.askpass_socket, None);
    let plan = plan_session(&windows(), "C:/Temp/", 1);
    assert_eq!(plan.dir, format!("C:/Temp/opencode-ssh-{}", plan.key));
}

#[test]
fn session_plans_differ() {
    let a = plan_session(&unix(), "/tmp", 1);
    let b = plan_session(&unix(), "/tmp", 1);
    assert_ne!(a.key, b.key);
    assert_ne!(a.password, b.password);
}

#[test]
fn paths_and_urls() {
    assert_eq!(path_in("/tmp", "x"), "/tmp/x");
    assert_eq!(path_in("/tmp/", "x"), "/tmp/x");
    assert_eq!(path_in("", "x"), "x");
    assert_eq!(url_of(0), "http://127.0.0.1:0");
    assert_eq!(url_of(65535), "http://127.0.0.1:65535");
}

#[test]
fn connect_data_of_a_plan() {
    let plan = plan_session(&unix(), "/tmp", 4000);
    let data = connect_data(&plan, "user@host");
    assert_eq!(data.key, plan.key);
    assert_eq!(data.url, "http://127.0.0.1:4000");
    assert_eq!(data.password, plan.password);
    assert_eq!(data.destination, "user@host");
    let copy = data.clone();
    assert_eq!(copy.key, data.key);
    assert_eq!(copy.destination, "user@host");
}

#[test]
fn slot_holds_one_session() {
    let mut slot: SessionSlot<&str> = SessionSlot::new();
    assert!(!slot.is_occupied());
    assert_eq!(slot.install("k1".to_string(), "first"), None);
    assert!(slot.is_occupied());
    assert_eq!(slot.install("k2".to_string(), "second"), Some("first"));
    assert!(slot.is_occupied());
    assert_eq!(slot.take(), Some("second"));
    assert!(!slot.is_occupied());
    assert_eq!(slot.take(), None);
}

#[test]
fn disconnect_needs_the_key() {
    let mut slot: SessionSlot<u8> = SessionSlot::new();
    assert_eq!(slot.take_if("k"), None);
    slot.install("k".to_string(), 1);
    assert_eq!(slot.take_if("other"), None);
    assert_eq!(slot.take_if(""), None);
    assert_eq!(slot.take_if("K"), None);
    assert!(slot.is_occupied());
    assert_eq!(slot.take_if("k"), Some(1));
    assert!(!slot.is_occupied());
    assert_eq!(slot.take_if("k"), None);
}

#[test]
fn steps_of_a_connect_on_unix() {
    assert_eq!(
        steps(&unix(), false),
        vec![
            Step::CheckSsh,
            Step::Parse,
            Step::CloseOld,
            Step::Plan,
            Step::CreateDir,
            Step::StartAskpass,
            Step::LocateHelper,
            Step::StartMaster,
            Step::AwaitMaster,
            Step::QueryVersion,
            Step::StartServer,
            Step::AwaitPort,
            Step::StartForward,
            Step::AwaitHealth,
            Step::Publish,
        ]
    );
}

#[test]
fn steps_of_a_connect_without_control_socket() {
    assert_eq!(
        steps(&windows(), true),
        vec![
            Step::CheckSsh,
            Step::Parse,
            Step::CloseOld,
            Step::Plan,
            Step::CreateDir,
            Step::StartAskpass,
            Step::LocateHelper,
            Step::QueryVersion,
            Step::Install,
            Step::StartServer,
            Step::AwaitPort,
            Step::StartForward,
            Step::AwaitHealth,
            Step::Publish,
        ]
    );
}

#[test]
fn failed_version_query_leads_to_install() {
    let mut c = Connect::begin(&unix());
    while c.stage != Stage::Run(Step::QueryVersion) {
        c = c.advance(Event::Done);
    }
    assert_eq!(c.advance(Event::Failed).stage, Stage::Run(Step::Install));
    assert_eq!(c.advance(Event::Outdated).stage, Stage::Run(Step::Install));
    assert_eq!(c.advance(Event::Done).stage, Stage::Run(Step::StartServer));
    assert_eq!(c.advance(Event::Failed).failed_at, None);
}

#[test]
fn live_session_has_all_of_its_parts() {
    let c = run(&unix(), &[Event::Done; 15]);
    assert_eq!(c.stage, Stage::Connected);
    assert_eq!(
        c.started,
        Started { dir: true, askpass: true, master: true, server: true, forward: true }
    );
    assert_eq!(c.failed_at, None);
    let again = c.advance(Event::Failed);
    assert_eq!(again.stage, Stage::Connected);
    assert_eq!(again.started, c.started);
    let c = run(&windows(), &[Event::Done; 13]);
    assert_eq!(c.stage, Stage::Connected);
    assert_eq!(
        c.started,
        Started { dir: true, askpass: true, master: false, server: true, forward: true }
    );
}

#[test]
fn failure_tears_down_what_was_started() {
    let mut c = Connect::begin(&unix());
    while c.stage != Stage::Run(Step::AwaitHealth) {
        c = c.advance(Event::Done);
    }
    let failed = c.advance(Event::Failed);
    assert_eq!(failed.stage, Stage::Unwind);
    assert_eq!(failed.failed_at, Some(Step::AwaitHealth));
    assert_eq!(
        failed.unwind_plan(),
        vec![
            Teardown::KillForward,
            Teardown::KillServer,
            Teardown::KillMaster,
            Teardown::AbortAskpass,
            Teardown::RemoveDir
        ]
    );
    let over = failed.advance(Event::Done);
    assert_eq!(over.stage, Stage::Failed);
    assert_eq!(over.started, Started::empty());
    assert_eq!(over.failed_at, Some(Step::AwaitHealth));
    assert!(over.unwind_plan().is_empty());
    assert_eq!(over.advance(Event::Done).stage, Stage::Failed);
}

#[test]
fn failure_at_each_step_leaves_nothing() {
    for host in [unix(), windows()] {
        for n in 0..15 {
            let mut c = Connect::begin(&host);
            for _ in 0..n {
                c = c.advance(Event::Done);
            }
            let Stage::Run(step) = c.stage else { continue };
            if step == Step::QueryVersion {
                continue;
            }
            let unwinding = c.advance(Event::Failed);
            assert_eq!(unwinding.stage, Stage::Unwind);
            assert_eq!(unwinding.failed_at, Some(step));
            let plan = unwinding.unwind_plan();
            assert_eq!(
                plan.contains(&Teardown::KillForward),
                c.started.forward || step == Step::StartForward
            );
            assert_eq!(
                plan.contains(&Teardown::KillServer),
                c.started.server || step == Step::StartServer
            );
            assert_eq!(
                plan.contains(&Teardown::KillMaster),
                c.started.master || step == Step::StartMaster
            );
            assert_eq!(
                plan.contains(&Teardown::AbortAskpass),
                c.started.askpass || step == Step::StartAskpass
            );
            assert_eq!(
                plan.contains(&Teardown::RemoveDir),
                c.started.dir || step == Step::CreateDir
            );
            for event in [Event::Done, Event::Failed, Event::Outdated] {
                let over = unwinding.advance(event);
                assert_eq!(over.stage, Stage::Failed);
                assert_eq!(over.started, Started::empty());
            }
        }
    }
}

#[test]
fn nothing_is_started_before_the_old_session_is_closed() {
    let mut c = Connect::begin(&unix());
    loop {
        let Stage::Run(step) = c.stage else { break };
        if step == Step::CreateDir {
            break;
        }
        assert_eq!(c.started, Started::empty());
        c = c.advance(Event::Done);
    }
    assert_eq!(c.stage, Stage::Run(Step::CreateDir));
    let early = run(&unix(), &[Event::Done, Event::Failed]);
    assert_eq!(early.stage, Stage::Unwind);
    assert!(early.unwind_plan().is_empty());
}

#[test]
fn teardown_order() {
    assert_eq!(
        teardown_plan(&Started::of_session(true)),
        vec![
            Teardown::KillForward,
            Teardown::KillServer,
            Teardown::KillMaster,
            Teardown::AbortAskpass,
            Teardown::RemoveDir
        ]
    );
    assert_eq!(
        teardown_plan(&Started::of_session(false)),
        vec![
            Teardown::KillForward,
            Teardown::KillServer,
            Teardown::AbortAskpass,
            Teardown::RemoveDir
        ]
    );
    assert!(teardown_plan(&Started::empty()).is_empty());
    assert_eq!(
        teardown_plan(&Started { dir: true, askpass: false, master: true, server: false, forward: false }),
        vec![Teardown::KillMaster, Teardown::RemoveDir]
    );
}

#[test]
fn waiting_loop() {
    assert_eq!(READY_TIMEOUT_MS, 30000);
    assert_eq!(POLL_INTERVAL_MS, 100);
    assert_eq!(poll(0, None), Poll::Probe);
    assert_eq!(poll(30000, None), Poll::Probe);
    assert_eq!(poll(30001, None), Poll::TimedOut);
    assert_eq!(poll(u64::MAX, None), Poll::TimedOut);
    assert_eq!(poll(5, Some(true)), Poll::Ready);
    assert_eq!(poll(40000, Some(true)), Poll::Ready);
    assert_eq!(poll(5, Some(false)), Poll::Sleep(100));
    assert_eq!(poll(40000, Some(false)), Poll::Sleep(100));
}

#[test]
fn wait_for_the_port() {
    assert_eq!(port_result(PortWait::Port(43117)), Ok(43117));
    assert_eq!(
        port_result(PortWait::TimedOut),
        Err("Timed out waiting for remote server to start".to_string())
    );
    assert_eq!(
        port_result(PortWait::Closed),
        Err("Remote server exited before becoming ready".to_string())
    );
}

#[test]
fn kinds_of_failure() {
    assert_eq!(error_kind(Step::CheckSsh), ErrorKind::NotInstalled);
    assert_eq!(error_kind(Step::Parse), ErrorKind::BadCommand);
    assert_eq!(error_kind(Step::CreateDir), ErrorKind::SetupFailure);
    assert_eq!(error_kind(Step::StartAskpass), ErrorKind::SetupFailure);
    assert_eq!(error_kind(Step::AwaitMaster), ErrorKind::AuthTimeout);
    assert_eq!(error_kind(Step::QueryVersion), ErrorKind::RemoteBootstrapFailure);
    assert_eq!(error_kind(Step::Install), ErrorKind::RemoteBootstrapFailure);
    assert_eq!(error_kind(Step::StartServer), ErrorKind::RemoteLaunchFailure);
    assert_eq!(error_kind(Step::AwaitPort), ErrorKind::RemoteLaunchFailure);
    assert_eq!(error_kind(Step::StartForward), ErrorKind::ForwardFailure);
    assert_eq!(error_kind(Step::AwaitHealth), ErrorKind::HealthTimeout);
}

#[test]
fn messages_of_failure() {
    assert_eq!(failure_message(&unix(), Step::CheckSsh, "x"), "ssh was not found on PATH");
    assert_eq!(
        failure_message(&windows(), Step::CheckSsh, "x"),
        "ssh.exe was not found on PATH. Install Windows OpenSSH or Git for Windows and ensure ssh.exe is on PATH."
    );
    assert_eq!(failure_message(&unix(), Step::Parse, "SSH command is empty"), "SSH command is empty");
    assert_eq!(
        failure_message(&unix(), Step::CreateDir, "denied"),
        "Failed to create temp dir: denied"
    );
    assert_eq!(
        failure_message(&unix(), Step::LocateHelper, "gone"),
        "Failed to locate current binary: gone"
    );
    assert_eq!(failure_message(&unix(), Step::StartMaster, "e"), "Failed to start ssh: e");
    assert_eq!(
        failure_message(&unix(), Step::AwaitMaster, "e"),
        "Timed out waiting for SSH connection"
    );
    assert_eq!(failure_message(&unix(), Step::Install, "curl: not found"), "curl: not found");
    assert_eq!(
        failure_message(&unix(), Step::StartServer, "e"),
        "Failed to start remote server: e"
    );
    assert_eq!(
        failure_message(&unix(), Step::StartForward, "e"),
        "Failed to start port forward: e"
    );
    assert_eq!(
        failure_message(&unix(), Step::AwaitHealth, "e"),
        "Timed out waiting for forwarded server health"
    );
}

fn link(scheme: &str, path: &str, query: &[(&str, &str)]) -> LinkUrl {
    LinkUrl {
        scheme: scheme.to_string(),
        path: path.to_string(),
        query: query.iter().map(|(k, v)| (k.to_string(), v.to_string())).collect(),
    }
}

#[test]
fn deep_link_opens_a_project() {
    match DeepLinkAction::from_url(&link("opencode", "/open-project", &[("directory", "/home/me/p")])) {
        Some(DeepLinkAction::OpenProject { directory, session }) => {
            assert_eq!(directory, "/home/me/p");
            assert_eq!(session, None);
        }
        None => panic!("no action"),
    }
    match DeepLinkAction::from_url(&link(
        "opencode",
        "///open-project",
        &[("session", "s1"), ("directory", "a"), ("directory", "b"), ("x", "y")],
    )) {
        Some(DeepLinkAction::OpenProject { directory, session }) => {
            assert_eq!(directory, "b");
            assert_eq!(session, Some("s1".to_string()));
        }
        None => panic!("no action"),
    }
}

#[test]
fn deep_link_without_action() {
    assert!(DeepLinkAction::from_url(&link("https", "/open-project", &[("directory", "d")])).is_none());
    assert!(DeepLinkAction::from_url(&link("opencode", "/open", &[("directory", "d")])).is_none());
    assert!(DeepLinkAction::from_url(&link("opencode", "/open-project/", &[("directory", "d")])).is_none());
    assert!(DeepLinkAction::from_url(&link("opencode", "/open-project", &[("session", "s")])).is_none());
    assert!(DeepLinkAction::from_url(&link("opencode", "", &[])).is_none());
}

fn display_env(wayland: bool, session: Option<&str>, allow: Option<&str>, display: bool) -> DisplayEnv {
    DisplayEnv {
        wayland_display: wayland,
        session_type: session.map(|s| s.to_string()),
        allow_wayland: allow.map(|s| s.to_string()),
        display,
    }
}

#[test]
fn display_backend_choice() {
    assert_eq!(configure_display_backend(&display_env(false, None, None, true)), None);
    assert_eq!(configure_display_backend(&display_env(false, Some("x11"), Some("1"), true)), None);
    assert_eq!(
        configure_display_backend(&display_env(true, None, None, true)),
        Some(Backend::ForceX11)
    );
    assert_eq!(
        configure_display_backend(&display_env(false, Some("Wayland"), None, false)),
        Some(Backend::WaylandOnly)
    );
    for allow in ["1", "true", "TRUE", "Yes"] {
        assert_eq!(
            configure_display_backend(&display_env(true, None, Some(allow), true)),
            Some(Backend::KeepWayland)
        );
    }
    for allow in ["0", "", "no", "on"] {
        assert_eq!(
            configure_display_backend(&display_env(true, None, Some(allow), true)),
            Some(Backend::ForceX11)
        );
    }
}

#[test]
fn display_backend_variables_and_notes() {
    assert!(backend_variables(Backend::KeepWayland).is_empty());
    assert_eq!(
        backend_variables(Backend::ForceX11),
        vec![
            ("WINIT_UNIX_BACKEND".to_string(), "x11".to_string()),
            ("GDK_BACKEND".to_string(), "x11".to_string()),
            ("WEBKIT_DISABLE_DMABUF_RENDERER".to_string(), "1".to_string()),
        ]
    );
    assert_eq!(
        backend_variables(Backend::WaylandOnly),
        vec![("WEBKIT_DISABLE_DMABUF_RENDERER".to_string(), "1".to_string())]
    );
    assert_eq!(
        backend_note(Backend::KeepWayland),
        "Wayland session detected; respecting OC_ALLOW_WAYLAND=1"
    );
    assert!(backend_note(Backend::ForceX11).starts_with("Wayland session detected; forcing X11"));
    assert!(backend_note(Backend::WaylandOnly).starts_with("Wayland session detected without X11"));
}
