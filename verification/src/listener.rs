//! Secure control-plane listener: the state machine that sequences stale
//! socket removal, parent-directory creation, certificate and key loading,
//! TLS configuration, the socket bind, and the permission widening, before
//! connections are served.
//!
//! The driver performs each action and reports whether it succeeded; the
//! machine decides what comes next. Construction failures are fatal at this
//! layer: the machine halts with the error and never reaches the bind.

use vstd::prelude::*;

verus! {

/// The configured identity of the daemon: certificate, key and trust-anchor
/// paths, and the control-plane socket path.
#[derive(Debug, Clone, PartialEq, Eq)]
pub struct AuraedRuntime {
    /// Path of the trust anchor used to validate client certificates.
    pub ca_crt: String,
    /// Path of the server certificate.
    pub server_crt: String,
    /// Path of the server private key.
    pub server_key: String,
    /// Path of the control-plane socket.
    pub socket: String,
}

/// The mathematical value of the configuration: the four path texts.
pub struct RuntimeModel {
    pub ca_crt: Seq<char>,
    pub server_crt: Seq<char>,
    pub server_key: Seq<char>,
    pub socket: Seq<char>,
}

impl AuraedRuntime {
    /// The mathematical value of this configuration.
    pub open spec fn model(self) -> RuntimeModel {
        RuntimeModel {
            ca_crt: self.ca_crt@,
            server_crt: self.server_crt@,
            server_key: self.server_key@,
            socket: self.socket@,
        }
    }
}

/// The text before the last slash of a path: the parent directory. A path
/// without a slash has no parent.
pub open spec fn parent_dir(s: Seq<char>) -> Option<Seq<char>>
    decreases s.len(),
{
    if s.len() == 0 {
        None
    } else if s.last() == '/' {
        Some(s.drop_last())
    } else {
        parent_dir(s.drop_last())
    }
}

proof fn lemma_parent_scan(s: Seq<char>, end: int)
    requires
        0 <= end <= s.len(),
        forall|i: int| end <= i < s.len() ==> s[i] != '/',
        end == 0 || s[end - 1] == '/',
    ensures
        parent_dir(s) == (if end == 0 {
            None::<Seq<char>>
        } else {
            Some(s.subrange(0, end - 1))
        }),
    decreases s.len(),
{
    if s.len() > end {
        assert(s.last() != '/');
        lemma_parent_scan(s.drop_last(), end);
        if end > 0 {
            assert(s.drop_last().subrange(0, end - 1) =~= s.subrange(0, end - 1));
        }
    } else if end > 0 {
        assert(s.last() == '/');
        assert(s.drop_last() =~= s.subrange(0, end - 1));
    }
}

/// The states of the listener machine, in the order they are passed
/// through.
#[derive(Debug, Clone, Copy, PartialEq, Eq, Structural)]
pub enum ListenerState {
    Start,
    SocketRemoved,
    ParentCreating,
    CertLoading,
    KeyLoading,
    CaLoading,
    TlsConfiguring,
    Binding,
    PermissionsSetting,
    Serving,
}

/// One action the driver performs for the machine.
#[derive(Debug, Clone, PartialEq, Eq)]
pub enum ListenerAction {
    /// Delete whatever file sits at the socket path; at most one live
    /// listener per path. Failure is ignored: there may be nothing there.
    RemoveStaleSocket(String),
    /// Create the parent directory tree of the socket path.
    CreateParentDir(String),
    /// Read the server certificate bytes.
    LoadServerCert(String),
    /// Read the server key bytes.
    LoadServerKey(String),
    /// Read the trust-anchor bytes.
    LoadCaCert(String),
    /// Build the TLS configuration that requires and validates client
    /// certificates.
    ConfigureTls,
    /// Bind the local socket.
    BindSocket(String),
    /// Widen the socket's file permissions so any local user may connect;
    /// authorization rests on client-certificate validation, not file mode.
    SetSocketPermissions(String, u32),
}

/// A fatal listener failure, propagated to the caller; there is no retry at
/// this layer.
#[derive(Debug, Clone, PartialEq, Eq)]
pub enum ListenerError {
    /// The socket path has no parent directory.
    NoParentDirectory,
    /// An I/O step failed: directory creation, a file read, the bind, or
    /// the permission change.
    Io(String),
    /// The TLS configuration could not be built.
    Tls(String),
}

/// What the machine asks for next.
#[derive(Debug, Clone, PartialEq, Eq)]
pub enum ListenerStep {
    /// Perform this action and report the outcome.
    Act(ListenerAction),
    /// Halt: listener construction failed.
    Fail(ListenerError),
    /// Everything is in place: accept connections indefinitely.
    Serve,
}

/// The driver's report on the last action.
#[derive(Debug, Clone, PartialEq, Eq)]
pub enum ListenerEvent {
    Succeeded,
    Failed(String),
}

/// The mathematical value of an action.
pub enum ListenerActionModel {
    RemoveStale(Seq<char>),
    CreateDir(Seq<char>),
    LoadCert(Seq<char>),
    LoadKey(Seq<char>),
    LoadCa(Seq<char>),
    BuildTls,
    Bind(Seq<char>),
    SetPerms(Seq<char>, u32),
}

/// The mathematical value of an error.
pub enum ListenerErrorModel {
    NoParent,
    IoFailed(Seq<char>),
    TlsFailed(Seq<char>),
}

/// The mathematical value of a step.
pub enum ListenerStepModel {
    ActM(ListenerActionModel),
    FailM(ListenerErrorModel),
    ServeM,
}

/// The mathematical value of an exec action.
pub open spec fn action_model(a: ListenerAction) -> ListenerActionModel {
    match a {
        ListenerAction::RemoveStaleSocket(p) => ListenerActionModel::RemoveStale(p@),
        ListenerAction::CreateParentDir(p) => ListenerActionModel::CreateDir(p@),
        ListenerAction::LoadServerCert(p) => ListenerActionModel::LoadCert(p@),
        ListenerAction::LoadServerKey(p) => ListenerActionModel::LoadKey(p@),
        ListenerAction::LoadCaCert(p) => ListenerActionModel::LoadCa(p@),
        ListenerAction::ConfigureTls => ListenerActionModel::BuildTls,
        ListenerAction::BindSocket(p) => ListenerActionModel::Bind(p@),
        ListenerAction::SetSocketPermissions(p, m) => ListenerActionModel::SetPerms(p@, m),
    }
}

/// The mathematical value of an exec step.
pub open spec fn step_model(s: ListenerStep) -> ListenerStepModel {
    match s {
        ListenerStep::Act(a) => ListenerStepModel::ActM(action_model(a)),
        ListenerStep::Fail(ListenerError::NoParentDirectory) => ListenerStepModel::FailM(
            ListenerErrorModel::NoParent,
        ),
        ListenerStep::Fail(ListenerError::Io(m)) => ListenerStepModel::FailM(
            ListenerErrorModel::IoFailed(m@),
        ),
        ListenerStep::Fail(ListenerError::Tls(m)) => ListenerStepModel::FailM(
            ListenerErrorModel::TlsFailed(m@),
        ),
        ListenerStep::Serve => ListenerStepModel::ServeM,
    }
}

/// The mathematical value of an event: whether the action succeeded, and
/// the failure message otherwise.
pub open spec fn event_model(e: ListenerEvent) -> (bool, Seq<char>) {
    match e {
        ListenerEvent::Succeeded => (true, Seq::<char>::empty()),
        ListenerEvent::Failed(m) => (false, m@),
    }
}

/// The transition of the listener machine: from a state and the outcome of
/// the last action, the next state and what to do. Stale-socket removal is
/// best-effort and its outcome is ignored; every later failure is fatal.
/// Certificate, key and trust-anchor loads and the TLS build all happen
/// before the bind, so a load failure halts the machine with no socket left
/// bound.
pub open spec fn listener_spec(rt: RuntimeModel, state: ListenerState, ev: (bool, Seq<char>)) -> (
    ListenerState,
    ListenerStepModel,
) {
    match state {
        ListenerState::Start => (
            ListenerState::SocketRemoved,
            ListenerStepModel::ActM(ListenerActionModel::RemoveStale(rt.socket)),
        ),
        ListenerState::SocketRemoved => (
            match parent_dir(rt.socket) {
                Some(p) => (
                    ListenerState::ParentCreating,
                    ListenerStepModel::ActM(ListenerActionModel::CreateDir(p)),
                ),
                None => (state, ListenerStepModel::FailM(ListenerErrorModel::NoParent)),
            }
        ),
        ListenerState::ParentCreating => (
            if ev.0 {
                (
                    ListenerState::CertLoading,
                    ListenerStepModel::ActM(ListenerActionModel::LoadCert(rt.server_crt)),
                )
            } else {
                (state, ListenerStepModel::FailM(ListenerErrorModel::IoFailed(ev.1)))
            }
        ),
        ListenerState::CertLoading => (
            if ev.0 {
                (
                    ListenerState::KeyLoading,
                    ListenerStepModel::ActM(ListenerActionModel::LoadKey(rt.server_key)),
                )
            } else {
                (state, ListenerStepModel::FailM(ListenerErrorModel::IoFailed(ev.1)))
            }
        ),
        ListenerState::KeyLoading => (
            if ev.0 {
                (
                    ListenerState::CaLoading,
                    ListenerStepModel::ActM(ListenerActionModel::LoadCa(rt.ca_crt)),
                )
            } else {
                (state, ListenerStepModel::FailM(ListenerErrorModel::IoFailed(ev.1)))
            }
        ),
        ListenerState::CaLoading => (
            if ev.0 {
                (
                    ListenerState::TlsConfiguring,
                    ListenerStepModel::ActM(ListenerActionModel::BuildTls),
                )
            } else {
                (state, ListenerStepModel::FailM(ListenerErrorModel::IoFailed(ev.1)))
            }
        ),
        ListenerState::TlsConfiguring => (
            if ev.0 {
                (
                    ListenerState::Binding,
                    ListenerStepModel::ActM(ListenerActionModel::Bind(rt.socket)),
                )
            } else {
                (state, ListenerStepModel::FailM(ListenerErrorModel::TlsFailed(ev.1)))
            }
        ),
        ListenerState::Binding => (
            if ev.0 {
                (
                    ListenerState::PermissionsSetting,
                    ListenerStepModel::ActM(
                        ListenerActionModel::SetPerms(rt.socket, 0o766),
                    ),
                )
            } else {
                (state, ListenerStepModel::FailM(ListenerErrorModel::IoFailed(ev.1)))
            }
        ),
        ListenerState::PermissionsSetting => (
            if ev.0 {
                (ListenerState::Serving, ListenerStepModel::ServeM)
            } else {
                (state, ListenerStepModel::FailM(ListenerErrorModel::IoFailed(ev.1)))
            }
        ),
        ListenerState::Serving => (ListenerState::Serving, ListenerStepModel::ServeM),
    }
}

impl AuraedRuntime {
    /// The parent directory of the socket path, if the path has one.
    pub fn socket_parent(&self) -> (r: Option<String>)
        ensures
            match r {
                Some(p) => parent_dir(self.socket@) == Some(p@),
                None => parent_dir(self.socket@) is None,
            },
    {
        let n = self.socket.as_str().unicode_len();
        let mut end: usize = n;
        while end > 0 && self.socket.as_str().get_char(end - 1) != '/'
            invariant
                0 <= end <= n,
                n == self.socket@.len(),
                forall|i: int| end <= i < n ==> self.socket@[i] != '/',
            decreases end,
        {
            end = end - 1;
        }
        proof {
            lemma_parent_scan(self.socket@, end as int);
        }
        if end == 0 {
            None
        } else {
            Some(String::from_str(self.socket.as_str().substring_char(0, end - 1)))
        }
    }

    /// One move of the listener machine; see [`listener_spec`].
    pub fn listener_next(&self, state: ListenerState, event: ListenerEvent) -> (r: (
        ListenerState,
        ListenerStep,
    ))
        ensures
            (r.0, step_model(r.1)) == listener_spec(self.model(), state, event_model(event)),
    {
        let ok = match &event {
            ListenerEvent::Succeeded => true,
            ListenerEvent::Failed(_) => false,
        };
        match state {
            ListenerState::Start => (
                ListenerState::SocketRemoved,
                ListenerStep::Act(ListenerAction::RemoveStaleSocket(self.socket.clone())),
            ),
            ListenerState::SocketRemoved => {
                match self.socket_parent() {
                    Some(p) => (
                        ListenerState::ParentCreating,
                        ListenerStep::Act(ListenerAction::CreateParentDir(p)),
                    ),
                    None => (
                        state,
                        ListenerStep::Fail(ListenerError::NoParentDirectory),
                    ),
                }
            },
            ListenerState::ParentCreating => {
                if ok {
                    (
                        ListenerState::CertLoading,
                        ListenerStep::Act(
                            ListenerAction::LoadServerCert(self.server_crt.clone()),
                        ),
                    )
                } else {
                    (state, ListenerStep::Fail(ListenerError::Io(event_message(event))))
                }
            },
            ListenerState::CertLoading => {
                if ok {
                    (
                        ListenerState::KeyLoading,
                        ListenerStep::Act(
                            ListenerAction::LoadServerKey(self.server_key.clone()),
                        ),
                    )
                } else {
                    (state, ListenerStep::Fail(ListenerError::Io(event_message(event))))
                }
            },
            ListenerState::KeyLoading => {
                if ok {
                    (
                        ListenerState::CaLoading,
                        ListenerStep::Act(ListenerAction::LoadCaCert(self.ca_crt.clone())),
                    )
                } else {
                    (state, ListenerStep::Fail(ListenerError::Io(event_message(event))))
                }
            },
            ListenerState::CaLoading => {
                if ok {
                    (
                        ListenerState::TlsConfiguring,
                        ListenerStep::Act(ListenerAction::ConfigureTls),
                    )
                } else {
                    (state, ListenerStep::Fail(ListenerError::Io(event_message(event))))
                }
            },
            ListenerState::TlsConfiguring => {
                if ok {
                    (
                        ListenerState::Binding,
                        ListenerStep::Act(ListenerAction::BindSocket(self.socket.clone())),
                    )
                } else {
                    (state, ListenerStep::Fail(ListenerError::Tls(event_message(event))))
                }
            },
            ListenerState::Binding => {
                if ok {
                    (
                        ListenerState::PermissionsSetting,
                        ListenerStep::Act(
                            ListenerAction::SetSocketPermissions(self.socket.clone(), 0o766),
                        ),
                    )
                } else {
                    (state, ListenerStep::Fail(ListenerError::Io(event_message(event))))
                }
            },
            ListenerState::PermissionsSetting => {
                if ok {
                    (ListenerState::Serving, ListenerStep::Serve)
                } else {
                    (state, ListenerStep::Fail(ListenerError::Io(event_message(event))))
                }
            },
            ListenerState::Serving => (ListenerState::Serving, ListenerStep::Serve),
        }
    }
}

fn event_message(event: ListenerEvent) -> (m: String)
    ensures
        m@ == event_model(event).1,
{
    match event {
        ListenerEvent::Succeeded => String::new(),
        ListenerEvent::Failed(m) => m,
    }
}

/// The daemon's exit indicator: nonzero exactly when the control-plane
/// listener failed fatally.
pub fn daemon_exit_code(run_failed: bool) -> (code: i32)
    ensures
        code == 0 <==> !run_failed,
{
    if run_failed {
        1
    } else {
        0
    }
}

/// The actions a run of the machine performs, from a state, for a sequence
/// of action outcomes: one outcome is consumed per move, and the run stops
/// when the machine halts or serves.
pub open spec fn listener_trace(
    rt: RuntimeModel,
    state: ListenerState,
    events: Seq<(bool, Seq<char>)>,
) -> Seq<ListenerActionModel>
    decreases events.len(),
{
    if events.len() == 0 {
        Seq::<ListenerActionModel>::empty()
    } else {
        let (next, step) = listener_spec(rt, state, events[0]);
        match step {
            ListenerStepModel::ActM(a) => seq![a] + listener_trace(
                rt,
                next,
                events.drop_first(),
            ),
            ListenerStepModel::FailM(_) => Seq::<ListenerActionModel>::empty(),
            ListenerStepModel::ServeM => Seq::<ListenerActionModel>::empty(),
        }
    }
}

/// The fixed order of the listener's actions: stale-socket removal, parent
/// directory creation, the two identity loads and the trust-anchor load,
/// the TLS build, the bind, and the permission change.
pub open spec fn listener_action_order(rt: RuntimeModel) -> Seq<ListenerActionModel> {
    seq![
        ListenerActionModel::RemoveStale(rt.socket),
        ListenerActionModel::CreateDir(parent_dir(rt.socket)->0),
        ListenerActionModel::LoadCert(rt.server_crt),
        ListenerActionModel::LoadKey(rt.server_key),
        ListenerActionModel::LoadCa(rt.ca_crt),
        ListenerActionModel::BuildTls,
        ListenerActionModel::Bind(rt.socket),
        ListenerActionModel::SetPerms(rt.socket, 0o766),
    ]
}

/// The actions still ahead of a state, in order.
pub open spec fn actions_from(rt: RuntimeModel, state: ListenerState) -> Seq<
    ListenerActionModel,
> {
    match state {
        ListenerState::Start => listener_action_order(rt),
        ListenerState::SocketRemoved => listener_action_order(rt).skip(1),
        ListenerState::ParentCreating => listener_action_order(rt).skip(2),
        ListenerState::CertLoading => listener_action_order(rt).skip(3),
        ListenerState::KeyLoading => listener_action_order(rt).skip(4),
        ListenerState::CaLoading => listener_action_order(rt).skip(5),
        ListenerState::TlsConfiguring => listener_action_order(rt).skip(6),
        ListenerState::Binding => listener_action_order(rt).skip(7),
        ListenerState::PermissionsSetting => Seq::<ListenerActionModel>::empty(),
        ListenerState::Serving => Seq::<ListenerActionModel>::empty(),
    }
}

proof fn lemma_trace_prefix_from(
    rt: RuntimeModel,
    state: ListenerState,
    events: Seq<(bool, Seq<char>)>,
)
    ensures
        listener_trace(rt, state, events).is_prefix_of(actions_from(rt, state)),
    decreases events.len(),
{
    if events.len() > 0 {
        let (next, step) = listener_spec(rt, state, events[0]);
        match step {
            ListenerStepModel::ActM(a) => {
                lemma_trace_prefix_from(rt, next, events.drop_first());
                assert(a == actions_from(rt, state)[0]);
                assert(actions_from(rt, next) =~= actions_from(rt, state).drop_first());
                assert(listener_trace(rt, state, events) =~= seq![a] + listener_trace(
                    rt,
                    next,
                    events.drop_first(),
                ));
            },
            _ => {},
        }
    }
}

/// Every run of the listener performs a prefix of the fixed action order:
/// in particular, the stale socket is removed and the parent directory is
/// created before anything else, and every load and the TLS build precede
/// the bind.
pub proof fn lemma_listener_actions_in_order(rt: RuntimeModel, events: Seq<(bool, Seq<char>)>)
    ensures
        listener_trace(rt, ListenerState::Start, events).is_prefix_of(
            listener_action_order(rt),
        ),
{
    lemma_trace_prefix_from(rt, ListenerState::Start, events);
}

/// A run that binds the socket removed the stale socket first and created
/// the parent directory second: binding to a path whose parent did not yet
/// exist, or with a stale socket file left behind, is preceded by exactly
/// the actions that clear both.
pub proof fn lemma_bind_is_prepared(
    rt: RuntimeModel,
    events: Seq<(bool, Seq<char>)>,
    k: int,
)
    requires
        0 <= k < listener_trace(rt, ListenerState::Start, events).len(),
        listener_trace(rt, ListenerState::Start, events)[k] matches
            ListenerActionModel::Bind(_),
    ensures
        k == 6,
        listener_trace(rt, ListenerState::Start, events)[0] == ListenerActionModel::RemoveStale(
            rt.socket,
        ),
        listener_trace(rt, ListenerState::Start, events)[1] == ListenerActionModel::CreateDir(
            parent_dir(rt.socket)->0,
        ),
{
    lemma_listener_actions_in_order(rt, events);
    let t = listener_trace(rt, ListenerState::Start, events);
    let full = listener_action_order(rt);
    assert(t[k] == full[k]);
    assert(t[0] == full[0]);
    assert(t[1] == full[1]);
}

/// Loading a malformed certificate fails the listener fast: when the
/// certificate load reports failure, the run never binds the socket — no
/// socket is left bound.
pub proof fn lemma_cert_failure_never_binds(rt: RuntimeModel, events: Seq<(bool, Seq<char>)>)
    requires
        3 < events.len(),
        !events[3].0,
    ensures
        forall|k: int|
            0 <= k < listener_trace(rt, ListenerState::Start, events).len() ==> !(
            #[trigger] listener_trace(rt, ListenerState::Start, events)[k] matches
                ListenerActionModel::Bind(_)),
{
    lemma_listener_actions_in_order(rt, events);
    let t = listener_trace(rt, ListenerState::Start, events);
    let full = listener_action_order(rt);
    let e1 = events.drop_first();
    let e2 = e1.drop_first();
    let e3 = e2.drop_first();
    assert(e3[0] == events[3]);
    assert(t == seq![full[0]] + listener_trace(rt, ListenerState::SocketRemoved, e1));
    match parent_dir(rt.socket) {
        None => {
            assert(listener_trace(rt, ListenerState::SocketRemoved, e1)
                =~= Seq::<ListenerActionModel>::empty());
            assert(t.len() == 1);
        },
        Some(p) => {
            assert(listener_trace(rt, ListenerState::SocketRemoved, e1) == seq![full[1]]
                + listener_trace(rt, ListenerState::ParentCreating, e2));
            if e2[0].0 {
                assert(listener_trace(rt, ListenerState::ParentCreating, e2) == seq![full[2]]
                    + listener_trace(rt, ListenerState::CertLoading, e3));
                assert(listener_trace(rt, ListenerState::CertLoading, e3)
                    =~= Seq::<ListenerActionModel>::empty());
                assert(t.len() == 3);
            } else {
                assert(listener_trace(rt, ListenerState::ParentCreating, e2)
                    =~= Seq::<ListenerActionModel>::empty());
                assert(t.len() == 2);
            }
        },
    }
    assert forall|k: int| 0 <= k < t.len() implies !(#[trigger] t[k] matches
        ListenerActionModel::Bind(_)) by {
        assert(t[k] == full[k]);
    }
}

} // verus!
