//! The Zellij engine's lifecycle (its attached client and phase) and the
//! command lines it hands the Zellij binary.
use vstd::prelude::*;

use crate::text::{into_string, push_str_chars, str_eq, strings_view};
use crate::zellij::{redact_spec, redact_zellij_error, ZellijEnginePhase, ZellijPaneId, ZellijPaneInfo};
use crate::zellij_panes::{listed_id, managed_title};

verus! {

/// The engine's phase and the runtime generation of its attached client.
#[derive(Debug, Clone, Copy, PartialEq, Eq)]
pub struct ZellijEngineState {
    pub phase: ZellijEnginePhase,
    pub attached: Option<u64>,
}

/// What starting the attached client does first.
#[derive(Debug, Clone, Copy, PartialEq, Eq, Structural)]
pub enum StartStep {
    /// The attached client is alive: reuse its runtime generation.
    Reuse(u64),
    /// Start a client (the phase is now `Starting`).
    Launch,
}

/// The engine after a start begins, and what the start does.
pub open spec fn begin_start_spec(s: ZellijEngineState, attached_alive: bool) -> (ZellijEngineState, StartStep) {
    if s.attached is Some && attached_alive {
        (s, StartStep::Reuse(s.attached->0))
    } else {
        (ZellijEngineState { phase: ZellijEnginePhase::Starting, attached: None }, StartStep::Launch)
    }
}

/// The engine after the client of `runtime_generation` exits.
pub open spec fn client_exited_spec(s: ZellijEngineState, runtime_generation: u64) -> ZellijEngineState {
    if s.attached == Some(runtime_generation) {
        ZellijEngineState { phase: ZellijEnginePhase::Reattaching, attached: None }
    } else {
        s
    }
}

impl ZellijEngineState {
    /// A stopped engine with no client.
    pub fn new() -> (r: Self)
        ensures
            r.phase == ZellijEnginePhase::Stopped,
            r.attached is None,
    {
        ZellijEngineState { phase: ZellijEnginePhase::Stopped, attached: None }
    }

    /// Begins a start: a live client is reused as it is; a dead one is
    /// dropped, and a start is launched.
    pub fn begin_start(&mut self, attached_alive: bool) -> (r: StartStep)
        ensures
            (*final(self), r) == begin_start_spec(*old(self), attached_alive),
    {
        if let Some(generation) = self.attached {
            if attached_alive {
                return StartStep::Reuse(generation);
            }
            self.attached = None;
            self.phase = ZellijEnginePhase::Reattaching;
        }
        self.phase = ZellijEnginePhase::Starting;
        StartStep::Launch
    }

    /// A start failed.
    pub fn start_failed(&mut self)
        ensures
            final(self).phase == ZellijEnginePhase::Failed,
            final(self).attached == old(self).attached,
    {
        self.phase = ZellijEnginePhase::Failed;
    }

    /// A client attached with this runtime generation: the engine runs.
    pub fn attached_client(&mut self, runtime_generation: u64)
        ensures
            final(self).phase == ZellijEnginePhase::Running,
            final(self).attached == Some(runtime_generation),
    {
        self.attached = Some(runtime_generation);
        self.phase = ZellijEnginePhase::Running;
    }

    /// The client of this runtime generation exited: the engine reattaches.
    /// An exit reported for any other generation changes nothing.
    pub fn client_exited(&mut self, runtime_generation: u64)
        ensures
            *final(self) == client_exited_spec(*old(self), runtime_generation),
    {
        if self.attached == Some(runtime_generation) {
            self.attached = None;
            self.phase = ZellijEnginePhase::Reattaching;
        }
    }
}

/// A client that exited is never reused: once its exit is reported, the
/// next start launches a new client, whatever liveness is then observed.
pub proof fn law_an_exited_client_is_not_reused(s: ZellijEngineState, generation: u64, alive: bool)
    requires
        s.attached == Some(generation),
    ensures
        begin_start_spec(client_exited_spec(s, generation), alive).1 == StartStep::Launch,
        client_exited_spec(s, generation).phase == ZellijEnginePhase::Reattaching,
{
}

/// A stale exit report, for a client that is no longer attached, leaves the
/// engine as it is.
pub proof fn law_a_stale_exit_changes_nothing(s: ZellijEngineState, generation: u64)
    requires
        s.attached != Some(generation),
    ensures
        client_exited_spec(s, generation) == s,
{
}

// ---------------------------------------------------------------------------
// Starting the attached client

/// Where a start that launches a client stands.
#[derive(Debug, Clone, Copy, PartialEq, Eq, Structural)]
pub enum StartStage {
    /// The runtime directories are being prepared.
    PreparingDirectories,
    /// The session is listed, to see whether it already runs.
    ProbingSession,
    /// The background session is being created.
    Bootstrapping,
    /// The new background session is listed until it answers.
    AwaitingReady,
    /// Managed panes no agent owns any more are being closed.
    ClosingUnregistered,
    /// The attached client is being spawned.
    SpawningClient,
    /// The start has answered.
    Finished,
}

/// What the outside work of a start reports.
#[derive(Debug, PartialEq, Eq)]
pub enum StartEvent {
    /// Preparing the runtime directories succeeded or failed.
    DirectoriesPrepared(Result<(), String>),
    /// Whether listing the session's panes succeeded.
    SessionListed(bool),
    /// The bootstrap command could not be run at all.
    BootstrapUnrunnable(String),
    /// The bootstrap command ran; whether it exited successfully.
    BootstrapExited(bool),
    /// A readiness probe: whether the listing succeeded, and, when it did
    /// not, whether the deadline for readiness has passed.
    ReadyProbed { listed: bool, deadline_passed: bool },
    /// Closing the unregistered panes succeeded or failed.
    UnregisteredClosed(Result<(), String>),
    /// The client's terminal or process could not start.
    ClientFailed(String),
    /// The client started but its output cannot be drained.
    ClientReaderUnavailable(String),
    /// The client is attached under this runtime generation.
    ClientAttached(u64),
}

/// What a start does next.
#[derive(Debug, PartialEq, Eq)]
pub enum StartAction {
    ListPanes,
    Bootstrap,
    /// List the panes again, after a short pause.
    ProbeReady,
    CloseUnregistered,
    SpawnClient,
    /// Answer the start with the client's runtime generation or an error.
    Finish(Result<u64, String>),
    /// The report does not belong to this stage: nothing changes.
    Ignore,
}

/// The start goes on to `next` doing `a`, the engine unchanged.
pub open spec fn start_moves(e: ZellijEngineState, next_stage: StartStage, e2: ZellijEngineState, a: StartAction, to: StartStage, act: StartAction) -> bool {
    next_stage == to && e2 == e && a == act
}

/// The start answers with the error `m` and the engine has failed.
pub open spec fn start_fails(e: ZellijEngineState, next_stage: StartStage, e2: ZellijEngineState, a: StartAction, m: Seq<char>) -> bool {
    &&& next_stage == StartStage::Finished
    &&& e2 == ZellijEngineState { phase: ZellijEnginePhase::Failed, attached: e.attached }
    &&& a matches StartAction::Finish(Err(x)) && x@ == m
}

/// One step of a start: from `stage`, with the engine `e`, the report `ev`
/// leads to `next_stage`, the engine `e2` and the action `a`. A session
/// that cannot be listed is bootstrapped and awaited until it answers or
/// the deadline passes; unregistered panes are closed before the client
/// spawns; each failure fails the engine, but for a bootstrap or a client
/// reader that could not be had at all, which answer the error alone.
pub open spec fn start_step_spec(stage: StartStage, e: ZellijEngineState, ev: StartEvent, next_stage: StartStage, e2: ZellijEngineState, a: StartAction) -> bool {
    match (stage, ev) {
        (StartStage::PreparingDirectories, StartEvent::DirectoriesPrepared(Err(m))) => start_fails(e, next_stage, e2, a, m@),
        (StartStage::PreparingDirectories, StartEvent::DirectoriesPrepared(Ok(()))) =>
            start_moves(e, next_stage, e2, a, StartStage::ProbingSession, StartAction::ListPanes),
        (StartStage::ProbingSession, StartEvent::SessionListed(listed)) => if listed {
            start_moves(e, next_stage, e2, a, StartStage::ClosingUnregistered, StartAction::CloseUnregistered)
        } else {
            start_moves(e, next_stage, e2, a, StartStage::Bootstrapping, StartAction::Bootstrap)
        },
        (StartStage::Bootstrapping, StartEvent::BootstrapUnrunnable(m)) =>
            next_stage == StartStage::Finished && e2 == e && (a matches StartAction::Finish(Err(x)) && x@ == m@),
        (StartStage::Bootstrapping, StartEvent::BootstrapExited(success)) => if success {
            start_moves(e, next_stage, e2, a, StartStage::AwaitingReady, StartAction::ProbeReady)
        } else {
            start_fails(e, next_stage, e2, a, "Zellij background session could not start"@)
        },
        (StartStage::AwaitingReady, StartEvent::ReadyProbed { listed, deadline_passed }) => if listed {
            start_moves(e, next_stage, e2, a, StartStage::ClosingUnregistered, StartAction::CloseUnregistered)
        } else if deadline_passed {
            start_fails(e, next_stage, e2, a, "Zellij background session did not become ready"@)
        } else {
            start_moves(e, next_stage, e2, a, StartStage::AwaitingReady, StartAction::ProbeReady)
        },
        (StartStage::ClosingUnregistered, StartEvent::UnregisteredClosed(Err(m))) => start_fails(e, next_stage, e2, a, m@),
        (StartStage::ClosingUnregistered, StartEvent::UnregisteredClosed(Ok(()))) =>
            start_moves(e, next_stage, e2, a, StartStage::SpawningClient, StartAction::SpawnClient),
        (StartStage::SpawningClient, StartEvent::ClientFailed(m)) => start_fails(e, next_stage, e2, a, m@),
        (StartStage::SpawningClient, StartEvent::ClientReaderUnavailable(m)) =>
            next_stage == StartStage::Finished && e2 == e && (a matches StartAction::Finish(Err(x)) && x@ == m@),
        (StartStage::SpawningClient, StartEvent::ClientAttached(g)) => {
            &&& next_stage == StartStage::Finished
            &&& e2 == ZellijEngineState { phase: ZellijEnginePhase::Running, attached: Some(g) }
            &&& a == StartAction::Finish(Ok(g))
        },
        _ => start_moves(e, next_stage, e2, a, stage, StartAction::Ignore),
    }
}

fn finish_failed(engine: &mut ZellijEngineState, message: String) -> (r: (StartStage, StartAction))
    ensures
        start_fails(*old(engine), r.0, *final(engine), r.1, message@),
{
    engine.start_failed();
    (StartStage::Finished, StartAction::Finish(Err(message)))
}

/// Advances a start that launches a client by one report of its outside
/// work, returning the next stage and what to do.
pub fn start_step(stage: StartStage, engine: &mut ZellijEngineState, event: StartEvent) -> (r: (StartStage, StartAction))
    ensures
        start_step_spec(stage, *old(engine), event, r.0, *final(engine), r.1),
{
    match stage {
        StartStage::PreparingDirectories => match event {
            StartEvent::DirectoriesPrepared(Err(m)) => finish_failed(engine, m),
            StartEvent::DirectoriesPrepared(Ok(())) => (StartStage::ProbingSession, StartAction::ListPanes),
            _ => (stage, StartAction::Ignore),
        },
        StartStage::ProbingSession => match event {
            StartEvent::SessionListed(listed) => if listed {
                (StartStage::ClosingUnregistered, StartAction::CloseUnregistered)
            } else {
                (StartStage::Bootstrapping, StartAction::Bootstrap)
            },
            _ => (stage, StartAction::Ignore),
        },
        StartStage::Bootstrapping => match event {
            StartEvent::BootstrapUnrunnable(m) => (StartStage::Finished, StartAction::Finish(Err(m))),
            StartEvent::BootstrapExited(success) => if success {
                (StartStage::AwaitingReady, StartAction::ProbeReady)
            } else {
                finish_failed(engine, owned("Zellij background session could not start"))
            },
            _ => (stage, StartAction::Ignore),
        },
        StartStage::AwaitingReady => match event {
            StartEvent::ReadyProbed { listed, deadline_passed } => if listed {
                (StartStage::ClosingUnregistered, StartAction::CloseUnregistered)
            } else if deadline_passed {
                finish_failed(engine, owned("Zellij background session did not become ready"))
            } else {
                (StartStage::AwaitingReady, StartAction::ProbeReady)
            },
            _ => (stage, StartAction::Ignore),
        },
        StartStage::ClosingUnregistered => match event {
            StartEvent::UnregisteredClosed(Err(m)) => finish_failed(engine, m),
            StartEvent::UnregisteredClosed(Ok(())) => (StartStage::SpawningClient, StartAction::SpawnClient),
            _ => (stage, StartAction::Ignore),
        },
        StartStage::SpawningClient => match event {
            StartEvent::ClientFailed(m) => finish_failed(engine, m),
            StartEvent::ClientReaderUnavailable(m) => (StartStage::Finished, StartAction::Finish(Err(m))),
            StartEvent::ClientAttached(g) => {
                engine.attached_client(g);
                (StartStage::Finished, StartAction::Finish(Ok(g)))
            },
            _ => (stage, StartAction::Ignore),
        },
        StartStage::Finished => (stage, StartAction::Ignore),
    }
}

/// A start that succeeds leaves the engine running the client it answers
/// with, and succeeds only once that client has attached.
pub proof fn law_a_started_engine_runs_its_client(
    stage: StartStage, e: ZellijEngineState, ev: StartEvent, next_stage: StartStage, e2: ZellijEngineState, a: StartAction, g: u64,
)
    requires
        start_step_spec(stage, e, ev, next_stage, e2, a),
        a == StartAction::Finish(Ok(g)),
    ensures
        e2.phase == ZellijEnginePhase::Running,
        e2.attached == Some(g),
        stage == StartStage::SpawningClient,
        ev == StartEvent::ClientAttached(g),
        next_stage == StartStage::Finished,
{
}

/// A start that answers with an error leaves the engine failed, its client
/// untouched, except where the bootstrap or the client's reader could not be
/// had at all, which leave the engine as it was.
pub proof fn law_a_failed_start_fails_the_engine(
    stage: StartStage, e: ZellijEngineState, ev: StartEvent, next_stage: StartStage, e2: ZellijEngineState, a: StartAction,
)
    requires
        start_step_spec(stage, e, ev, next_stage, e2, a),
        a matches StartAction::Finish(Err(_)),
    ensures
        next_stage == StartStage::Finished,
        !(ev is BootstrapUnrunnable) && !(ev is ClientReaderUnavailable) ==> e2.phase == ZellijEnginePhase::Failed,
        (ev is BootstrapUnrunnable) || (ev is ClientReaderUnavailable) ==> e2 == e,
        e2.attached == e.attached,
{
}

/// The background session is bootstrapped only when it could not be
/// listed, and the client spawns only once the unregistered panes are
/// closed.
pub proof fn law_the_start_keeps_its_order(
    stage: StartStage, e: ZellijEngineState, ev: StartEvent, next_stage: StartStage, e2: ZellijEngineState, a: StartAction,
)
    requires
        start_step_spec(stage, e, ev, next_stage, e2, a),
    ensures
        a == StartAction::Bootstrap ==> stage == StartStage::ProbingSession && ev == StartEvent::SessionListed(false),
        a == StartAction::SpawnClient ==> stage == StartStage::ClosingUnregistered && (ev matches StartEvent::UnregisteredClosed(r) && r is Ok),
        a == StartAction::CloseUnregistered ==> ev == StartEvent::SessionListed(true) || (ev matches StartEvent::ReadyProbed { listed, .. } && listed),
{
}

/// Once a start has answered, no report changes it or the engine.
pub proof fn law_a_finished_start_stays_finished(
    e: ZellijEngineState, ev: StartEvent, next_stage: StartStage, e2: ZellijEngineState, a: StartAction,
)
    requires
        start_step_spec(StartStage::Finished, e, ev, next_stage, e2, a),
    ensures
        next_stage == StartStage::Finished,
        e2 == e,
        a == StartAction::Ignore,
{
}

// ---------------------------------------------------------------------------
// Command lines

fn owned(s: &str) -> (r: String)
    ensures
        r@ == s@,
{
    s.to_owned()
}

fn concat(a: &str, b: &str) -> (r: String)
    ensures
        r@ == a@ + b@,
{
    let mut out: Vec<char> = Vec::new();
    push_str_chars(&mut out, a);
    push_str_chars(&mut out, b);
    into_string(out)
}

/// A command's arguments, addressed to the engine's session.
pub fn session_command_args(session_name: &str, action: Vec<String>) -> (r: Vec<String>)
    ensures
        strings_view(r@) == seq!["--session"@, session_name@] + strings_view(action@),
{
    let mut out: Vec<String> = Vec::new();
    out.push(owned("--session"));
    out.push(owned(session_name));
    let ghost head = strings_view(out@);
    let mut action = action;
    let ghost tail = strings_view(action@);
    out.append(&mut action);
    assert(strings_view(out@) =~= head + tail);
    assert(head =~= seq!["--session"@, session_name@]);
    out
}

/// The `new-pane` action for an agent: a pane titled for the session,
/// unfocused, running the prepared pane command.
pub fn new_pane_action(session_id: &str, pane_command: Vec<String>) -> (r: Vec<String>)
    ensures
        strings_view(r@) == seq!["action"@, "new-pane"@, "--name"@, managed_title(session_id@), "--no-focus"@, "--"@]
            + strings_view(pane_command@),
{
    let mut out: Vec<String> = Vec::new();
    out.push(owned("action"));
    out.push(owned("new-pane"));
    out.push(owned("--name"));
    out.push(concat("wardian:", session_id));
    out.push(owned("--no-focus"));
    out.push(owned("--"));
    let ghost head = strings_view(out@);
    let mut pane_command = pane_command;
    let ghost tail = strings_view(pane_command@);
    out.append(&mut pane_command);
    assert(strings_view(out@) =~= head + tail);
    assert(head =~= seq!["action"@, "new-pane"@, "--name"@, managed_title(session_id@), "--no-focus"@, "--"@]);
    out
}

/// The `dump-screen` action for a pane, with ANSI styling when asked.
pub fn dump_pane_action(pane: &ZellijPaneId, ansi: bool) -> (r: Vec<String>)
    ensures
        strings_view(r@) == if ansi {
            seq!["action"@, "dump-screen"@, "--full"@, "--pane-id"@, pane.id_view(), "--ansi"@]
        } else {
            seq!["action"@, "dump-screen"@, "--full"@, "--pane-id"@, pane.id_view()]
        },
{
    let mut out: Vec<String> = Vec::new();
    out.push(owned("action"));
    out.push(owned("dump-screen"));
    out.push(owned("--full"));
    out.push(owned("--pane-id"));
    out.push(owned(pane.as_str()));
    if ansi {
        out.push(owned("--ansi"));
        assert(strings_view(out@) =~= seq!["action"@, "dump-screen"@, "--full"@, "--pane-id"@, pane.id_view(), "--ansi"@]);
    } else {
        assert(strings_view(out@) =~= seq!["action"@, "dump-screen"@, "--full"@, "--pane-id"@, pane.id_view()]);
    }
    out
}

/// The arguments that subscribe to a pane's rendered updates: a thousand
/// lines of scrollback, as JSON with ANSI styling.
pub fn subscribe_args(session_name: &str, pane: &ZellijPaneId) -> (r: Vec<String>)
    ensures
        strings_view(r@) == seq![
            "--session"@, session_name@, "subscribe"@, "--pane-id"@, pane.id_view(), "--scrollback"@, "1000"@,
            "--format"@, "json"@, "--ansi"@,
        ],
{
    let mut out: Vec<String> = Vec::new();
    out.push(owned("--session"));
    out.push(owned(session_name));
    out.push(owned("subscribe"));
    out.push(owned("--pane-id"));
    out.push(owned(pane.as_str()));
    out.push(owned("--scrollback"));
    out.push(owned("1000"));
    out.push(owned("--format"));
    out.push(owned("json"));
    out.push(owned("--ansi"));
    assert(strings_view(out@) =~= seq![
        "--session"@, session_name@, "subscribe"@, "--pane-id"@, pane.id_view(), "--scrollback"@, "1000"@,
        "--format"@, "json"@, "--ansi"@,
    ]);
    out
}

/// How a failed Zellij command is reported: its redacted standard error.
pub fn command_failure(stderr_lines: &[String]) -> (r: String)
    ensures
        r@ == "Zellij command failed: "@ + redact_spec(strings_view(stderr_lines@)),
{
    let detail = redact_zellij_error(stderr_lines);
    assert(crate::text::strings_view(stderr_lines@) =~= strings_view(stderr_lines@));
    concat("Zellij command failed: ", detail.as_str())
}

/// The pane a `new-pane` created, found by listing when Zellij did not print
/// its identity: the first terminal pane titled for the session that was not
/// there before.
pub fn created_pane_from_listing(panes: &[ZellijPaneInfo], session_id: &str, known: &[ZellijPaneId]) -> (r: Option<ZellijPaneId>)
    ensures
        r is Some ==> exists|i: int| 0 <= i < panes@.len() && is_new_session_pane(#[trigger] panes@[i], session_id@, known@)
            && r->0.id_view() == listed_id(panes@[i])
            && forall|j: int| 0 <= j < i ==> !is_new_session_pane(#[trigger] panes@[j], session_id@, known@),
        r is None ==> forall|i: int| 0 <= i < panes@.len() ==> !is_new_session_pane(#[trigger] panes@[i], session_id@, known@),
{
    let title = concat("wardian:", session_id);
    let mut i: usize = 0;
    while i < panes.len()
        invariant
            i <= panes@.len(),
            title@ == managed_title(session_id@),
            forall|j: int| 0 <= j < i ==> !is_new_session_pane(#[trigger] panes@[j], session_id@, known@),
        decreases panes@.len() - i,
    {
        let pane = &panes[i];
        if !pane.is_plugin && str_eq(pane.title.as_str(), title.as_str()) {
            let id = ZellijPaneId::terminal(pane.id);
            let mut seen = false;
            let mut k: usize = 0;
            while k < known.len()
                invariant
                    k <= known@.len(),
                    id.id_view() == listed_id(panes@[i as int]),
                    seen == exists|m: int| 0 <= m < k && (#[trigger] known@[m]).id_view() == id.id_view(),
                decreases known@.len() - k,
            {
                if str_eq(known[k].as_str(), id.as_str()) {
                    seen = true;
                }
                k = k + 1;
            }
            if !seen {
                assert(is_new_session_pane(panes@[i as int], session_id@, known@));
                return Some(id);
            }
        }
        i = i + 1;
    }
    None
}

/// A terminal pane titled for the session whose identity is not among `known`.
pub open spec fn is_new_session_pane(p: ZellijPaneInfo, session: Seq<char>, known: Seq<ZellijPaneId>) -> bool {
    &&& !p.is_plugin
    &&& p.title@ == managed_title(session)
    &&& forall|m: int| 0 <= m < known.len() ==> (#[trigger] known[m]).id_view() != listed_id(p)
}

} // verus!
