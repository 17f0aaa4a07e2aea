//! Tests of the secure control-plane listener's state machine.

use auraed::listener::AuraedRuntime;
use auraed::listener::ListenerAction;
use auraed::listener::ListenerError;
use auraed::listener::ListenerEvent;
use auraed::listener::ListenerState;
use auraed::listener::ListenerStep;
use auraed::listener::daemon_exit_code;

fn runtime() -> AuraedRuntime {
    AuraedRuntime {
        ca_crt: "/etc/aurae/pki/ca.crt".to_string(),
        server_crt: "/etc/aurae/pki/_signed.server.crt".to_string(),
        server_key: "/etc/aurae/pki/server.key".to_string(),
        socket: "/var/run/aurae/aurae.sock".to_string(),
    }
}

/// Drives the machine, answering every action with the given outcomes, and
/// returns the actions performed and how the run ended.
fn drive(rt: &AuraedRuntime, outcomes: &[ListenerEvent]) -> (Vec<ListenerAction>, ListenerStep) {
    let mut state = ListenerState::Start;
    let mut actions = Vec::new();
    let mut it = outcomes.iter();
    let mut event = ListenerEvent::Succeeded;
    loop {
        let (next, step) = rt.listener_next(state, event.clone());
        state = next;
        match step {
            ListenerStep::Act(action) => {
                actions.push(action);
                event = it.next().cloned().unwrap_or(ListenerEvent::Succeeded);
            }
            end => return (actions, end),
        }
    }
}

#[test]
fn socket_parent_is_the_directory_of_the_path() {
    let rt = runtime();
    assert_eq!(rt.socket_parent().as_deref(), Some("/var/run/aurae"));

    let no_parent = AuraedRuntime { socket: "aurae.sock".to_string(), ..runtime() };
    assert_eq!(no_parent.socket_parent(), None);
}

#[test]
fn happy_path_removes_creates_loads_binds_then_serves() {
    let rt = runtime();
    let (actions, end) = drive(&rt, &[]);
    assert_eq!(
        actions,
        vec![
            ListenerAction::RemoveStaleSocket("/var/run/aurae/aurae.sock".to_string()),
            ListenerAction::CreateParentDir("/var/run/aurae".to_string()),
            ListenerAction::LoadServerCert("/etc/aurae/pki/_signed.server.crt".to_string()),
            ListenerAction::LoadServerKey("/etc/aurae/pki/server.key".to_string()),
            ListenerAction::LoadCaCert("/etc/aurae/pki/ca.crt".to_string()),
            ListenerAction::ConfigureTls,
            ListenerAction::BindSocket("/var/run/aurae/aurae.sock".to_string()),
            ListenerAction::SetSocketPermissions(
                "/var/run/aurae/aurae.sock".to_string(),
                0o766,
            ),
        ]
    );
    assert_eq!(end, ListenerStep::Serve);
}

#[test]
fn stale_socket_removal_failure_is_ignored() {
    let rt = runtime();
    let (actions, end) = drive(
        &rt,
        &[ListenerEvent::Failed("no such file".to_string())],
    );
    assert_eq!(actions.len(), 8);
    assert_eq!(end, ListenerStep::Serve);
}

#[test]
fn certificate_failure_halts_before_any_bind() {
    let rt = runtime();
    // Removal ok, directory ok, certificate read fails.
    let (actions, end) = drive(
        &rt,
        &[
            ListenerEvent::Succeeded,
            ListenerEvent::Succeeded,
            ListenerEvent::Failed("malformed certificate".to_string()),
        ],
    );
    assert_eq!(actions.len(), 3);
    assert!(actions
        .iter()
        .all(|a| !matches!(a, ListenerAction::BindSocket(_))));
    assert_eq!(
        end,
        ListenerStep::Fail(ListenerError::Io("malformed certificate".to_string()))
    );
}

#[test]
fn tls_failure_is_distinguished() {
    let rt = runtime();
    let (actions, end) = drive(
        &rt,
        &[
            ListenerEvent::Succeeded,
            ListenerEvent::Succeeded,
            ListenerEvent::Succeeded,
            ListenerEvent::Succeeded,
            ListenerEvent::Succeeded,
            ListenerEvent::Failed("bad identity".to_string()),
        ],
    );
    assert_eq!(actions.len(), 6);
    assert_eq!(end, ListenerStep::Fail(ListenerError::Tls("bad identity".to_string())));
}

#[test]
fn socket_without_parent_fails_fast() {
    let rt = AuraedRuntime { socket: "aurae.sock".to_string(), ..runtime() };
    let (actions, end) = drive(&rt, &[]);
    assert_eq!(actions.len(), 1);
    assert_eq!(end, ListenerStep::Fail(ListenerError::NoParentDirectory));
}

#[test]
fn exit_code_reflects_listener_outcome() {
    assert_eq!(daemon_exit_code(false), 0);
    assert_eq!(daemon_exit_code(true), 1);
}
