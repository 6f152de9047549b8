use vstd::prelude::*;

use crossbeam_channel::{Receiver, Sender, TrySendError};

use crate::ident::fresh_id;
pub use crate::size::PtySizeDef;

verus! {

#[verifier::external_type_specification]
#[verifier::external_body]
#[verifier::reject_recursive_types(T)]
pub struct ExSender<T>(crossbeam_channel::Sender<T>);

#[verifier::external_type_specification]
#[verifier::external_body]
#[verifier::reject_recursive_types(T)]
pub struct ExReceiver<T>(crossbeam_channel::Receiver<T>);

#[verifier::external_type_specification]
#[verifier::external_body]
#[verifier::reject_recursive_types(T)]
pub struct ExTrySendError<T>(crossbeam_channel::TrySendError<T>);

/// `crossbeam_channel::unbounded`: a connected sender and receiver of a new
/// unbounded FIFO channel.
pub assume_specification<T>[ crossbeam_channel::unbounded::<T> ]() -> (Sender<T>, Receiver<T>);

/// `Sender::clone`: another handle to the same channel.
pub assume_specification<T>[ <crossbeam_channel::Sender<T> as Clone>::clone ](
    s: &crossbeam_channel::Sender<T>,
) -> crossbeam_channel::Sender<T>;

/// `Receiver::clone`: another handle to the same channel.
pub assume_specification<T>[ <crossbeam_channel::Receiver<T> as Clone>::clone ](
    r: &crossbeam_channel::Receiver<T>,
) -> crossbeam_channel::Receiver<T>;

/// `Sender::try_send`: enqueues without blocking; whether it succeeds depends on
/// the receivers still being alive, so nothing is promised of the outcome.
pub assume_specification<T>[ crossbeam_channel::Sender::<T>::try_send ](
    s: &crossbeam_channel::Sender<T>,
    msg: T,
) -> Result<(), crossbeam_channel::TrySendError<T>>;

/// Relies on `Receiver::try_recv`: the oldest queued message, if any, without
/// blocking. Which message that is depends on the other threads.
#[verifier::external_body]
fn take_queued(r: &Receiver<TerminalMessage>) -> (m: Option<TerminalMessage>) {
    r.try_recv().ok()
}

/// Relies on `Receiver::try_iter`: every message queued right now, oldest
/// first, without blocking.
#[verifier::external_body]
fn take_all_queued(r: &Receiver<TerminalMessage>) -> (ms: Vec<TerminalMessage>) {
    r.try_iter().collect()
}

/// Messages exchanged with a session's worker: control commands inbound,
/// results and notifications outbound.
#[derive(Clone, Debug)]
pub enum TerminalCommand {
    Kill,
    TerminalFailure { id: u128, reason: String },
    Write(String),
    Read(String),
    Error { scope: String, reason: String },
    Resize { size: PtySizeDef },
}

/// A command tagged with the correlation identifier that its result carries.
#[derive(Clone, Debug)]
pub struct TerminalMessage {
    pub id: u128,
    pub command: TerminalCommand,
}

impl TerminalMessage {
    /// A message with a newly drawn correlation identifier.
    pub fn new(command: TerminalCommand) -> (r: Self)
        ensures
            r.command == command,
    {
        TerminalMessage { id: fresh_id(), command }
    }

    /// The answer to this message: same correlation identifier, new content.
    pub fn result(&self, command: TerminalCommand) -> (r: Self)
        ensures
            r.id == self.id,
            r.command == command,
    {
        TerminalMessage { id: self.id, command }
    }
}

/// Descriptor of a session: identity, launch command and current geometry.
#[derive(Clone, Debug)]
pub struct TerminalInfo {
    pub id: u128,
    pub command: String,
    pub args: Option<Vec<String>>,
    pub title: Option<String>,
    pub size: PtySizeDef,
}

/// The value of a descriptor, with the argument list as a sequence.
pub struct InfoView {
    pub id: u128,
    pub command: String,
    pub args: Option<Seq<String>>,
    pub title: Option<String>,
    pub size: PtySizeDef,
}

pub open spec fn args_view(a: Option<Vec<String>>) -> Option<Seq<String>> {
    match a {
        Some(v) => Some(v@),
        None => None,
    }
}

impl View for TerminalInfo {
    type V = InfoView;

    open spec fn view(&self) -> InfoView {
        InfoView {
            id: self.id,
            command: self.command,
            args: args_view(self.args),
            title: self.title,
            size: self.size,
        }
    }
}

pub fn copy_args(a: &Option<Vec<String>>) -> (r: Option<Vec<String>>)
    ensures
        args_view(r) == args_view(*a),
{
    match a {
        Some(v) => {
            let c = v.clone();
            assert(c@ =~= v@);
            Some(c)
        },
        None => None,
    }
}

/// The values of a list of descriptors.
pub open spec fn views_of(s: Seq<TerminalInfo>) -> Seq<InfoView> {
    s.map_values(|t: TerminalInfo| t@)
}

impl TerminalInfo {
    /// A copy with the same value.
    pub fn duplicate(&self) -> (r: Self)
        ensures
            r@ == self@,
    {
        TerminalInfo {
            id: self.id,
            command: self.command.clone(),
            args: copy_args(&self.args),
            title: self.title.clone(),
            size: self.size,
        }
    }
}

/// What a worker does for one inbound command.
#[derive(Clone, Debug)]
pub enum WorkerAction {
    /// Write these bytes verbatim to the terminal.
    Write(String),
    /// Resize the pseudo-terminal.
    Resize(PtySizeDef),
    /// Terminate the child and stop the worker.
    Kill,
    /// Nothing to do: the message is not a control command.
    Ignore,
}

pub open spec fn action_of(c: TerminalCommand) -> WorkerAction {
    match c {
        TerminalCommand::Kill => WorkerAction::Kill,
        TerminalCommand::Write(data) => WorkerAction::Write(data),
        TerminalCommand::Resize { size } => WorkerAction::Resize(size),
        _ => WorkerAction::Ignore,
    }
}

/// The actions for a batch of queued messages, in queue order, up to and
/// including the first kill: nothing after a kill is acted on.
pub open spec fn plan_seq(s: Seq<TerminalMessage>) -> Seq<WorkerAction>
    decreases s.len(),
{
    if s.len() == 0 {
        Seq::empty()
    } else if s[0].command is Kill {
        seq![WorkerAction::Kill]
    } else {
        seq![action_of(s[0].command)] + plan_seq(s.drop_first())
    }
}

/// The failure report that goes back to the sender when an action fails:
/// `Some((scope, reason))` for writes and resizes, `None` otherwise.
pub open spec fn failure_of(a: WorkerAction) -> Option<(Seq<char>, Seq<char>)> {
    match a {
        WorkerAction::Write(_) => Some(("pty"@, "write_failure"@)),
        WorkerAction::Resize(_) => Some(("pty"@, "resize_failure"@)),
        _ => None,
    }
}

pub open spec fn reports(c: Option<TerminalCommand>, f: Option<(Seq<char>, Seq<char>)>) -> bool {
    match (c, f) {
        (None, None) => true,
        (Some(TerminalCommand::Error { scope, reason }), Some((s, r))) => scope@ == s && reason@
            == r,
        _ => false,
    }
}

/// Where a session's worker stands in its life.
#[derive(Clone, Copy, Debug, PartialEq, Eq, Structural)]
pub enum WorkerPhase {
    /// Opening the pseudo-terminal, spawning the child, attaching its streams.
    Starting,
    /// Serving queued commands and forwarding output.
    Running,
    /// Making sure the child is gone.
    Draining,
    /// Finished; the worker's thread can be joined.
    Terminated,
}

/// What the worker observed since its last decision.
#[derive(Clone, Copy, Debug, PartialEq, Eq, Structural)]
pub enum WorkerEvent {
    /// The terminal, the child and both streams are in place.
    Opened,
    /// One of the start-up steps failed.
    OpenFailed,
    /// A kill command was taken from the queue.
    Killed,
    /// The child exited on its own.
    ChildExited,
    /// A round of commands and output went by without either of the above.
    Idle,
    /// The final kill was attempted, whatever its outcome.
    KillAttempted,
}

pub open spec fn phase_after(p: WorkerPhase, e: WorkerEvent) -> WorkerPhase {
    match (p, e) {
        (WorkerPhase::Starting, WorkerEvent::Opened) => WorkerPhase::Running,
        (WorkerPhase::Starting, WorkerEvent::OpenFailed) => WorkerPhase::Terminated,
        (WorkerPhase::Running, WorkerEvent::Killed) => WorkerPhase::Draining,
        (WorkerPhase::Running, WorkerEvent::ChildExited) => WorkerPhase::Draining,
        (WorkerPhase::Draining, WorkerEvent::KillAttempted) => WorkerPhase::Terminated,
        _ => p,
    }
}

impl WorkerPhase {
    /// The phase after `event`. A failed start ends the worker without it
    /// ever running; a kill or the child's own exit leads through draining to
    /// the end, which is final.
    pub fn next(self, event: WorkerEvent) -> (r: WorkerPhase)
        ensures
            r == phase_after(self, event),
            self == WorkerPhase::Terminated ==> r == WorkerPhase::Terminated,
            r == WorkerPhase::Running ==> self != WorkerPhase::Terminated && self
                != WorkerPhase::Draining,
    {
        match (self, event) {
            (WorkerPhase::Starting, WorkerEvent::Opened) => WorkerPhase::Running,
            (WorkerPhase::Starting, WorkerEvent::OpenFailed) => WorkerPhase::Terminated,
            (WorkerPhase::Running, WorkerEvent::Killed) => WorkerPhase::Draining,
            (WorkerPhase::Running, WorkerEvent::ChildExited) => WorkerPhase::Draining,
            (WorkerPhase::Draining, WorkerEvent::KillAttempted) => WorkerPhase::Terminated,
            _ => self,
        }
    }
}

/// What a finished worker still has to do.
#[derive(Clone, Copy, Debug, PartialEq, Eq, Structural)]
pub struct WorkerEnd {
    /// Report that the final kill failed.
    pub report_kill_failure: bool,
    /// Report the exit status and ask for the session's removal from the
    /// registry.
    pub self_remove: bool,
}

/// The event a round of the worker amounts to: a kill among the planned
/// actions wins; otherwise a closed output stream or a known exit status
/// means the child is gone.
pub open spec fn round_event_of(plan: Seq<WorkerAction>, output_closed: bool, status: Option<u32>) -> WorkerEvent {
    if exists|k: int| 0 <= k < plan.len() && #[trigger] plan[k] is Kill {
        WorkerEvent::Killed
    } else if output_closed || status is Some {
        WorkerEvent::ChildExited
    } else {
        WorkerEvent::Idle
    }
}

/// Sums up one round of the worker.
pub fn round_event(plan: &Vec<WorkerAction>, output_closed: bool, status: Option<u32>) -> (r: WorkerEvent)
    ensures
        r == round_event_of(plan@, output_closed, status),
{
    let mut i: usize = 0;
    while i < plan.len()
        invariant
            0 <= i <= plan.len(),
            forall|k: int| 0 <= k < i ==> !(#[trigger] plan@[k] is Kill),
        decreases plan.len() - i,
    {
        if let WorkerAction::Kill = plan[i] {
            assert(plan@[i as int] is Kill);
            return WorkerEvent::Killed;
        }
        i = i + 1;
    }
    if output_closed || status.is_some() {
        WorkerEvent::ChildExited
    } else {
        WorkerEvent::Idle
    }
}

/// The last duties of a worker: a child that ended on its own is reported
/// and its session removed; a failed final kill is reported only when the
/// worker was told to kill a child still running.
pub fn worker_end(exited_on_its_own: bool, kill_failed: bool) -> (r: WorkerEnd)
    ensures
        r == (WorkerEnd {
            report_kill_failure: kill_failed && !exited_on_its_own,
            self_remove: exited_on_its_own,
        }),
{
    WorkerEnd { report_kill_failure: kill_failed && !exited_on_its_own, self_remove: exited_on_its_own }
}

/// A session as the manager sees it: its descriptor and the two ends of its
/// inbound and outbound queues.
pub struct Terminal {
    _info: TerminalInfo,
    pub commands: (Sender<TerminalMessage>, Receiver<TerminalMessage>),
    pub results: (Sender<TerminalMessage>, Receiver<TerminalMessage>),
}

impl View for Terminal {
    type V = InfoView;

    closed spec fn view(&self) -> InfoView {
        self._info@
    }
}

impl Terminal {
    /// A session with a newly drawn identifier and the default geometry.
    pub fn new(
        commands: (Sender<TerminalMessage>, Receiver<TerminalMessage>),
        results: (Sender<TerminalMessage>, Receiver<TerminalMessage>),
        command: String,
        args: Option<Vec<String>>,
        title: Option<String>,
    ) -> (r: Self)
        ensures
            r@.command == command,
            r@.args == args_view(args),
            r@.title == title,
            r@.size == PtySizeDef::spec_default(),
    {
        Terminal {
            _info: TerminalInfo {
                id: fresh_id(),
                command,
                args,
                title,
                size: PtySizeDef::default_size(),
            },
            commands,
            results,
        }
    }

    pub fn id(&self) -> (r: u128)
        ensures
            r == self@.id,
    {
        self._info.id
    }

    pub fn info(&self) -> (r: TerminalInfo)
        ensures
            r@ == self@,
    {
        self._info.duplicate()
    }

    /// Records a new geometry in the descriptor.
    pub fn set_size(&mut self, size: PtySizeDef)
        ensures
            final(self)@ == (InfoView { size, ..old(self)@ }),
    {
        self._info.size = size;
    }

    /// Another handle to the same session.
    pub fn duplicate(&self) -> (r: Self)
        ensures
            r@ == self@,
    {
        Terminal {
            _info: self._info.duplicate(),
            commands: (self.commands.0.clone(), self.commands.1.clone()),
            results: (self.results.0.clone(), self.results.1.clone()),
        }
    }

    /// Publishes an unsolicited notification on the outbound queue.
    pub fn send_event(&self, command: TerminalCommand) -> Result<(), TrySendError<TerminalMessage>> {
        self.results.0.try_send(TerminalMessage::new(command))
    }

    /// Answers `message` on the outbound queue under its correlation identifier.
    pub fn send_result(&self, message: TerminalMessage, command: TerminalCommand) -> Result<
        (),
        TrySendError<TerminalMessage>,
    > {
        self.results.0.try_send(message.result(command))
    }

    /// Enqueues a control command for this session's worker.
    pub fn send_command(&self, command: TerminalCommand) -> Result<(), TrySendError<TerminalMessage>> {
        self.commands.0.try_send(TerminalMessage::new(command))
    }

    /// The oldest queued inbound command, if any, without blocking.
    pub fn recv_command(&self) -> Option<TerminalMessage> {
        take_queued(&self.commands.1)
    }

    /// Every inbound command queued right now, oldest first, without blocking.
    pub fn pending_commands(&self) -> Vec<TerminalMessage> {
        take_all_queued(&self.commands.1)
    }

    /// What the worker does for one inbound command.
    pub fn plan(command: &TerminalCommand) -> (r: WorkerAction)
        ensures
            r == action_of(*command),
    {
        match command {
            TerminalCommand::Kill => WorkerAction::Kill,
            TerminalCommand::Write(data) => WorkerAction::Write(data.clone()),
            TerminalCommand::Resize { size } => WorkerAction::Resize(*size),
            _ => WorkerAction::Ignore,
        }
    }

    /// The actions for a batch of queued messages, one per message in queue
    /// order, ending at the first kill.
    pub fn plan_batch(batch: &Vec<TerminalMessage>) -> (r: Vec<WorkerAction>)
        ensures
            r@ == plan_seq(batch@),
    {
        let mut out: Vec<WorkerAction> = Vec::new();
        let mut i: usize = 0;
        assert(batch@.subrange(0, batch@.len() as int) =~= batch@);
        assert(out@ + plan_seq(batch@) =~= plan_seq(batch@));
        while i < batch.len()
            invariant
                0 <= i <= batch.len(),
                plan_seq(batch@) == out@ + plan_seq(batch@.subrange(i as int, batch@.len() as int)),
            decreases batch.len() - i,
        {
            let ghost rest = batch@.subrange(i as int, batch@.len() as int);
            assert(rest.drop_first() =~= batch@.subrange(i + 1, batch@.len() as int));
            let a = Self::plan(&batch[i].command);
            if let WorkerAction::Kill = a {
                out.push(a);
                return out;
            }
            out.push(a);
            assert(out@ + plan_seq(rest.drop_first()) =~= out@.drop_last() + plan_seq(rest));
            i = i + 1;
        }
        assert(batch@.subrange(i as int, batch@.len() as int) =~= Seq::<TerminalMessage>::empty());
        assert(out@ + Seq::<WorkerAction>::empty() =~= out@);
        out
    }

    /// The error reported back when `action` fails against the terminal.
    pub fn failure_report(action: &WorkerAction) -> (r: Option<TerminalCommand>)
        ensures
            reports(r, failure_of(*action)),
    {
        proof {
            reveal_strlit("pty");
            reveal_strlit("write_failure");
            reveal_strlit("resize_failure");
        }
        match action {
            WorkerAction::Write(_) => Some(
                TerminalCommand::Error {
                    scope: "pty".to_string(),
                    reason: "write_failure".to_string(),
                },
            ),
            WorkerAction::Resize(_) => Some(
                TerminalCommand::Error {
                    scope: "pty".to_string(),
                    reason: "resize_failure".to_string(),
                },
            ),
            _ => None,
        }
    }
}

/// Why the registry refused an operation.
#[derive(Clone, Copy, Debug, PartialEq, Eq, Structural)]
pub enum SessionError {
    /// No session is registered under the identifier: never created, or
    /// already removed.
    UnknownSession,
    /// The identifier drawn for a new session was handed out before.
    IdInUse,
    /// Opening the pseudo-terminal, spawning the child or attaching its
    /// streams failed; nothing was registered.
    SpawnFailure,
    /// The session's inbound queue did not take the message.
    DispatchFailure,
}

/// `after` is `before` with one more session, `info`, registered last: its
/// identifier was never handed out before and its fields are those asked for.
pub open spec fn created(
    before: TerminalManager,
    after: TerminalManager,
    info: InfoView,
    command: String,
    args: Option<Seq<String>>,
    title: Option<String>,
    size: Option<PtySizeDef>,
) -> bool {
    &&& !before.issued().contains(info.id)
    &&& info == InfoView {
        id: info.id,
        command,
        args,
        title,
        size: match size {
            Some(s) => s,
            None => PtySizeDef::spec_default(),
        },
    }
    &&& registered(before, after, info)
}

/// `after` is `before` with `info` registered last under an identifier
/// never handed out before.
pub open spec fn registered(before: TerminalManager, after: TerminalManager, info: InfoView) -> bool {
    &&& !before.issued().contains(info.id)
    &&& after.sessions() == before.sessions().push(info)
    &&& after.issued() == before.issued().insert(info.id)
}

/// `after` is `before` without the live session `id`; the identifier stays
/// issued.
pub open spec fn removed(before: TerminalManager, after: TerminalManager, id: u128) -> bool {
    &&& exists|i: int|
        0 <= i < before.sessions().len() && before.sessions()[i].id == id && after.sessions()
            == before.sessions().remove(i)
    &&& after.issued() == before.issued()
}

/// `after` is `before` with the geometry of the live session `id` replaced by
/// `size`; nothing else changes.
pub open spec fn resized(before: TerminalManager, after: TerminalManager, id: u128, size: PtySizeDef) -> bool {
    &&& exists|i: int|
        0 <= i < before.sessions().len() && before.sessions()[i].id == id && after.sessions()
            == before.sessions().update(i, InfoView { size, ..before.sessions()[i] })
    &&& after.issued() == before.issued()
}

/// The registry holds the same sessions before and after.
pub open spec fn unchanged(before: TerminalManager, after: TerminalManager) -> bool {
    &&& after.sessions() == before.sessions()
    &&& after.issued() == before.issued()
}

/// The registry of live sessions, keyed by identifier.
///
/// Identifiers of removed sessions are remembered so that none is handed out
/// twice.
pub struct TerminalManager {
    terminals: Vec<Terminal>,
    retired: Vec<u128>,
}

impl TerminalManager {
    /// The descriptors of the live sessions, in order of registration.
    pub closed spec fn sessions(&self) -> Seq<InfoView> {
        self.terminals@.map_values(|t: Terminal| t@)
    }

    /// Identifiers of sessions that were registered and have been removed.
    pub closed spec fn retired_ids(&self) -> Set<u128> {
        self.retired@.to_set()
    }

    pub open spec fn contains(&self, id: u128) -> bool {
        exists|i: int| 0 <= i < self.sessions().len() && #[trigger] self.sessions()[i].id == id
    }

    /// Every identifier the registry has ever accepted.
    pub open spec fn issued(&self) -> Set<u128> {
        Set::new(|id: u128| self.contains(id)).union(self.retired_ids())
    }

    /// Live identifiers are pairwise distinct.
    pub open spec fn wf(&self) -> bool {
        forall|i: int, j: int|
            0 <= i < j < self.sessions().len() ==> #[trigger] self.sessions()[i].id
                != #[trigger] self.sessions()[j].id
    }

    pub fn new() -> (r: Self)
        ensures
            r.wf(),
            r.sessions() == Seq::<InfoView>::empty(),
            r.issued() == Set::<u128>::empty(),
    {
        let r = TerminalManager { terminals: Vec::new(), retired: Vec::new() };
        assert(r.sessions() =~= Seq::<InfoView>::empty());
        assert(r.issued() =~= Set::<u128>::empty());
        r
    }

    /// The position of the live session `id`, if any.
    fn position(&self, id: u128) -> (r: Option<usize>)
        ensures
            match r {
                Some(i) => i < self.sessions().len() && self.sessions()[i as int].id == id,
                None => !self.contains(id),
            },
    {
        let mut i: usize = 0;
        while i < self.terminals.len()
            invariant
                0 <= i <= self.terminals.len(),
                forall|k: int| 0 <= k < i ==> #[trigger] self.sessions()[k].id != id,
            decreases self.terminals.len() - i,
        {
            if self.terminals[i].id() == id {
                return Some(i);
            }
            i = i + 1;
        }
        None
    }

    /// Whether `id` was handed out before, to a live or a removed session.
    fn was_issued(&self, id: u128) -> (r: bool)
        ensures
            r == self.issued().contains(id),
    {
        if self.position(id).is_some() {
            return true;
        }
        let mut i: usize = 0;
        while i < self.retired.len()
            invariant
                0 <= i <= self.retired.len(),
                forall|k: int| 0 <= k < i ==> self.retired@[k] != id,
            decreases self.retired.len() - i,
        {
            if self.retired[i] == id {
                assert(self.retired_ids().contains(id));
                return true;
            }
            i = i + 1;
        }
        false
    }

    /// Adds `term` to the registry unless its identifier was handed out
    /// before; the caller keeps a handle to the registered session.
    pub fn register(&mut self, term: Terminal) -> (r: Result<Terminal, SessionError>)
        requires
            old(self).wf(),
        ensures
            final(self).wf(),
            r is Ok <==> !old(self).issued().contains(term@.id),
            match r {
                Ok(t) => {
                    &&& t@ == term@
                    &&& final(self).sessions() == old(self).sessions().push(term@)
                    &&& final(self).issued() == old(self).issued().insert(term@.id)
                },
                Err(e) => e == SessionError::IdInUse && unchanged(*old(self), *final(self)),
            },
    {
        if self.was_issued(term.id()) {
            return Err(SessionError::IdInUse);
        }
        let handle = term.duplicate();
        let ghost before = self.sessions();
        self.terminals.push(term);
        assert(self.sessions() =~= before.push(handle@));
        assert(self.issued() =~= old(self).issued().insert(handle@.id)) by {
            assert(self.sessions()[before.len() as int].id == handle@.id);
            assert forall|id: u128| old(self).contains(id) implies self.contains(id) by {
                let k = choose|k: int| 0 <= k < before.len() && #[trigger] before[k].id == id;
                assert(self.sessions()[k].id == id);
            }
        }
        Ok(handle)
    }

    /// Registers a new session with a fresh identifier, once its
    /// pseudo-terminal and child are in place (`opened`). A failed start is
    /// reported and leaves the registry as it was. `size` defaults to 24 rows
    /// by 80 columns.
    pub fn create_terminal(
        &mut self,
        command: String,
        args: Option<Vec<String>>,
        title: Option<String>,
        size: Option<PtySizeDef>,
        opened: bool,
    ) -> (r: Result<Terminal, SessionError>)
        requires
            old(self).wf(),
        ensures
            final(self).wf(),
            !opened ==> r == Err::<Terminal, SessionError>(SessionError::SpawnFailure),
            opened && r is Err ==> r == Err::<Terminal, SessionError>(SessionError::IdInUse)
                && exists|x: u128| #[trigger] old(self).issued().contains(x),
            match r {
                Ok(t) => created(*old(self), *final(self), t@, command, args_view(args), title, size),
                Err(e) => unchanged(*old(self), *final(self)),
            },
    {
        if !opened {
            return Err(SessionError::SpawnFailure);
        }
        let commands = crossbeam_channel::unbounded::<TerminalMessage>();
        let results = crossbeam_channel::unbounded::<TerminalMessage>();
        let mut term = Terminal::new(commands, results, command, args, title);
        if let Some(s) = size {
            term.set_size(s);
        }
        let ghost id = term@.id;
        let r = self.register(term);
        proof {
            if r is Err {
                assert(old(self).issued().contains(id));
            }
        }
        r
    }

    /// Stops and forgets the session `id`: a kill command goes to its worker,
    /// then the entry leaves the registry. Unknown identifiers are reported.
    pub fn remove_terminal(&mut self, id: u128) -> (r: Result<(), SessionError>)
        requires
            old(self).wf(),
        ensures
            final(self).wf(),
            r is Ok <==> old(self).contains(id),
            !final(self).contains(id),
            final(self).issued() == old(self).issued(),
            match r {
                Ok(_) => removed(*old(self), *final(self), id),
                Err(e) => e == SessionError::UnknownSession && unchanged(*old(self), *final(self)),
            },
    {
        match self.position(id) {
            None => Err(SessionError::UnknownSession),
            Some(i) => {
                let _ = self.terminals[i].send_command(TerminalCommand::Kill);
                let ghost before = self.sessions();
                let _gone = self.terminals.remove(i);
                self.retired.push(id);
                assert(self.sessions() =~= before.remove(i as int));
                assert(self.retired@.to_set() =~= old(self).retired@.to_set().insert(id)) by {
                    assert(self.retired@ =~= old(self).retired@.push(id));
                    assert forall|x: u128|
                        self.retired@.contains(x) <==> old(self).retired@.contains(x) || x
                            == id by {
                        if self.retired@.contains(x) {
                            let k = choose|k: int| 0 <= k < self.retired@.len() && self.retired@[k] == x;
                            if k < old(self).retired@.len() {
                                assert(old(self).retired@[k] == x);
                            }
                        }
                        if old(self).retired@.contains(x) {
                            let k = choose|k: int| 0 <= k < old(self).retired@.len() && old(self).retired@[k] == x;
                            assert(self.retired@[k] == x);
                        }
                        if x == id {
                            assert(self.retired@[old(self).retired@.len() as int] == x);
                        }
                    }
                }
                assert(!self.contains(id)) by {
                    if self.contains(id) {
                        let k = choose|k: int| 0 <= k < self.sessions().len() && #[trigger] self.sessions()[k].id == id;
                        if k < i {
                            assert(before[k].id == id);
                        } else {
                            assert(before[k + 1].id == id);
                        }
                    }
                }
                assert(self.issued() =~= old(self).issued()) by {
                    assert forall|x: u128| old(self).contains(x) && x != id implies self.contains(x) by {
                        let k = choose|k: int| 0 <= k < before.len() && #[trigger] before[k].id == x;
                        if k < i {
                            assert(self.sessions()[k].id == x);
                        } else {
                            assert(k != i);
                            assert(self.sessions()[k - 1].id == x);
                        }
                    }
                    assert forall|x: u128| self.contains(x) implies old(self).contains(x) by {
                        let k = choose|k: int| 0 <= k < self.sessions().len() && #[trigger] self.sessions()[k].id == x;
                        if k < i {
                            assert(before[k].id == x);
                        } else {
                            assert(before[k + 1].id == x);
                        }
                    }
                }
                Ok(())
            },
        }
    }

    /// The descriptor of the live session `id`.
    pub fn terminal(&self, id: u128) -> (r: Option<TerminalInfo>)
        ensures
            r is Some <==> self.contains(id),
            match r {
                Some(info) => exists|i: int|
                    0 <= i < self.sessions().len() && self.sessions()[i] == info@ && info@.id == id,
                None => true,
            },
    {
        match self.position(id) {
            Some(i) => Some(self.terminals[i].info()),
            None => None,
        }
    }

    /// A snapshot of every live session's descriptor.
    pub fn list_terminals(&self) -> (r: Vec<TerminalInfo>)
        ensures
            views_of(r@) == self.sessions(),
    {
        let mut out: Vec<TerminalInfo> = Vec::new();
        let mut i: usize = 0;
        while i < self.terminals.len()
            invariant
                0 <= i <= self.terminals.len(),
                out@.len() == i,
                views_of(out@) == self.sessions().subrange(0, i as int),
            decreases self.terminals.len() - i,
        {
            let info = self.terminals[i].info();
            let ghost prev = out@;
            assert(self.sessions()[i as int] == info@);
            out.push(info);
            assert(out@ == prev.push(info));
            assert forall|k: int| 0 <= k < i + 1 implies #[trigger] views_of(out@)[k] == self.sessions()[k] by {
                assert(views_of(out@)[k] == out@[k]@);
                if k < i {
                    assert(out@[k] == prev[k]);
                    assert(views_of(prev)[k] == prev[k]@);
                    assert(views_of(prev)[k] == self.sessions().subrange(0, i as int)[k]);
                }
            }
            assert(views_of(out@) =~= self.sessions().subrange(
                0,
                i + 1,
            ));
            i = i + 1;
        }
        assert(self.sessions().subrange(0, i as int) =~= self.sessions());
        out
    }

    /// A handle to the inbound queue of the live session `id`.
    pub fn sender(&self, id: u128) -> (r: Option<Sender<TerminalMessage>>)
        ensures
            r is Some <==> self.contains(id),
    {
        match self.position(id) {
            Some(i) => Some(self.terminals[i].commands.0.clone()),
            None => None,
        }
    }

    /// A handle to the outbound queue of the live session `id`.
    pub fn receiver(&self, id: u128) -> (r: Option<Receiver<TerminalMessage>>)
        ensures
            r is Some <==> self.contains(id),
    {
        match self.position(id) {
            Some(i) => Some(self.terminals[i].results.1.clone()),
            None => None,
        }
    }

    /// Sends `command` to the worker of the live session `id`. An unknown
    /// session and a queue that refuses the message are told apart.
    pub fn send_to(&self, id: u128, command: TerminalCommand) -> (r: Result<(), SessionError>)
        ensures
            !self.contains(id) <==> r == Err::<(), SessionError>(SessionError::UnknownSession),
            r is Err ==> r == Err::<(), SessionError>(SessionError::UnknownSession) || r == Err::<
                (),
                SessionError,
            >(SessionError::DispatchFailure),
    {
        match self.position(id) {
            Some(i) => {
                if self.terminals[i].send_command(command).is_ok() {
                    Ok(())
                } else {
                    Err(SessionError::DispatchFailure)
                }
            },
            None => Err(SessionError::UnknownSession),
        }
    }

    /// Records the new geometry of the live session `id`.
    pub fn update_size(&mut self, id: u128, size: PtySizeDef) -> (r: Result<(), SessionError>)
        requires
            old(self).wf(),
        ensures
            final(self).wf(),
            r is Ok <==> old(self).contains(id),
            match r {
                Ok(_) => resized(*old(self), *final(self), id, size),
                Err(e) => e == SessionError::UnknownSession && unchanged(*old(self), *final(self)),
            },
    {
        match self.position(id) {
            None => Err(SessionError::UnknownSession),
            Some(i) => {
                let ghost before = self.sessions();
                let mut t = self.terminals.remove(i);
                t.set_size(size);
                self.terminals.insert(i, t);
                assert(self.sessions() =~= before.update(
                    i as int,
                    InfoView { size, ..before[i as int] },
                ));
                assert(self.retired_ids() == old(self).retired_ids());
                assert(forall|x: u128| self.contains(x) <==> old(self).contains(x)) by {
                    assert forall|x: u128| self.contains(x) implies old(self).contains(x) by {
                        let k = choose|k: int| 0 <= k < self.sessions().len() && #[trigger] self.sessions()[k].id == x;
                        assert(before[k].id == x);
                    }
                    assert forall|x: u128| old(self).contains(x) implies self.contains(x) by {
                        let k = choose|k: int| 0 <= k < before.len() && #[trigger] before[k].id == x;
                        assert(self.sessions()[k].id == x);
                    }
                }
                assert(self.issued() =~= old(self).issued());
                Ok(())
            },
        }
    }
}

/// A session created on a valid registry and then listed shows up in the
/// listing exactly once, with the command, arguments, title and geometry it
/// was created with, under an identifier that no earlier session ever held.
pub proof fn lemma_created_session_is_listed(
    before: TerminalManager,
    after: TerminalManager,
    info: InfoView,
    command: String,
    args: Option<Seq<String>>,
    title: Option<String>,
    size: Option<PtySizeDef>,
    listing: Seq<InfoView>,
)
    requires
        before.wf(),
        created(before, after, info, command, args, title, size),
        listing == after.sessions(),
    ensures
        after.wf(),
        !before.contains(info.id),
        listing.last() == info,
        info.command == command && info.args == args && info.title == title,
        info.size == (match size {
            Some(s) => s,
            None => PtySizeDef::spec_default(),
        }),
        forall|k: int| 0 <= k < listing.len() && #[trigger] listing[k].id == info.id ==> k == listing.len() - 1,
{
    let n = before.sessions().len() as int;
    assert(listing[n] == info);
    assert(!before.contains(info.id));
    assert forall|k: int| 0 <= k < listing.len() && #[trigger] listing[k].id == info.id implies k == listing.len() - 1 by {
        if k < n {
            assert(before.sessions()[k].id == info.id);
        }
    }
    assert forall|i: int, j: int| 0 <= i < j < after.sessions().len() implies #[trigger] after.sessions()[i].id != #[trigger] after.sessions()[j].id by {
        if j < n {
            assert(before.sessions()[i] == after.sessions()[i]);
            assert(before.sessions()[j] == after.sessions()[j]);
        } else {
            assert(before.sessions()[i].id == after.sessions()[i].id);
        }
    }
}

/// Once a session is removed, its identifier is absent from the registry (so
/// no queue handle or descriptor is found for it and no listing shows it), and
/// it can never be registered again.
pub proof fn lemma_removed_session_is_gone(
    before: TerminalManager,
    after: TerminalManager,
    id: u128,
    listing: Seq<InfoView>,
)
    requires
        before.wf(),
        removed(before, after, id),
        listing == after.sessions(),
    ensures
        !after.contains(id),
        forall|k: int| 0 <= k < listing.len() ==> #[trigger] listing[k].id != id,
        after.issued().contains(id),
{
    let i = choose|i: int|
        0 <= i < before.sessions().len() && before.sessions()[i].id == id && after.sessions()
            == before.sessions().remove(i);
    assert(before.contains(id));
    assert forall|k: int| 0 <= k < listing.len() implies #[trigger] listing[k].id != id by {
        if k < i {
            assert(listing[k] == before.sessions()[k]);
        } else {
            assert(listing[k] == before.sessions()[k + 1]);
        }
    }
}

/// Commands are acted on in the order they were queued: as long as no kill
/// comes first, the actions for a queue that holds `first` and then `second`
/// are those for `first` followed by those for `second`.
pub proof fn lemma_plan_keeps_queue_order(first: Seq<TerminalMessage>, second: Seq<TerminalMessage>)
    requires
        forall|k: int| 0 <= k < first.len() ==> !(#[trigger] first[k].command is Kill),
    ensures
        plan_seq(first + second) == plan_seq(first) + plan_seq(second),
    decreases first.len(),
{
    if first.len() == 0 {
        assert(first + second =~= second);
        assert(plan_seq(first) + plan_seq(second) =~= plan_seq(second));
    } else {
        assert((first + second).drop_first() =~= first.drop_first() + second);
        assert(!(first[0].command is Kill));
        assert forall|k: int| 0 <= k < first.drop_first().len() implies !(#[trigger] first.drop_first()[k].command is Kill) by {
            assert(first.drop_first()[k] == first[k + 1]);
        }
        lemma_plan_keeps_queue_order(first.drop_first(), second);
        assert(seq![action_of(first[0].command)] + (plan_seq(first.drop_first()) + plan_seq(second))
            =~= (seq![action_of(first[0].command)] + plan_seq(first.drop_first())) + plan_seq(second));
    }
}

/// Two commands queued as `a` then `b` are acted on as `a` then `b`; a kill
/// in first place ends the worker before `b`.
pub proof fn lemma_two_commands_in_order(a: TerminalMessage, b: TerminalMessage)
    ensures
        plan_seq(seq![a, b]) == (if a.command is Kill {
            seq![WorkerAction::Kill]
        } else {
            seq![action_of(a.command), action_of(b.command)]
        }),
{
    let s = seq![a, b];
    assert(s.drop_first() =~= seq![b]);
    assert(seq![b].drop_first() =~= Seq::<TerminalMessage>::empty());
    assert(plan_seq(Seq::<TerminalMessage>::empty()) == Seq::<WorkerAction>::empty());
    assert(seq![action_of(b.command)] + Seq::<WorkerAction>::empty() =~= seq![action_of(b.command)]);
    assert(plan_seq(seq![b]) =~= seq![action_of(b.command)]);
    if !(a.command is Kill) {
        assert(seq![action_of(a.command)] + seq![action_of(b.command)] =~= seq![
            action_of(a.command),
            action_of(b.command),
        ]);
    }
}

/// Registering a session under a never-issued identifier keeps the live
/// identifiers distinct.
pub proof fn lemma_registration_keeps_ids_distinct(
    before: TerminalManager,
    after: TerminalManager,
    info: InfoView,
)
    requires
        before.wf(),
        registered(before, after, info),
    ensures
        after.wf(),
{
    let n = before.sessions().len() as int;
    assert forall|i: int, j: int| 0 <= i < j < after.sessions().len() implies #[trigger] after.sessions()[i].id != #[trigger] after.sessions()[j].id by {
        assert(after.sessions()[i] == before.sessions()[i]);
        if j == n {
            assert(before.contains(after.sessions()[i].id));
        } else {
            assert(after.sessions()[j] == before.sessions()[j]);
        }
    }
}

/// Any number of creations, one after another on a valid registry, all
/// land: the registry ends with every earlier entry followed by one entry per
/// creation, the new identifiers are pairwise distinct and none was issued
/// before, and the live identifiers stay distinct.
pub proof fn lemma_successive_creations_accumulate(
    states: Seq<TerminalManager>,
    infos: Seq<InfoView>,
)
    requires
        states.len() == infos.len() + 1,
        states[0].wf(),
        forall|k: int|
            0 <= k < infos.len() ==> #[trigger] registered(states[k], states[k + 1], infos[k]),
    ensures
        states.last().wf(),
        states.last().sessions() == states[0].sessions() + infos,
        states.last().sessions().len() == states[0].sessions().len() + infos.len(),
        forall|a: int, b: int|
            0 <= a < b < infos.len() ==> #[trigger] infos[a].id != #[trigger] infos[b].id,
        forall|a: int| 0 <= a < infos.len() ==> !states[0].issued().contains(#[trigger] infos[a].id),
        forall|a: int| 0 <= a < infos.len() ==> states.last().issued().contains(#[trigger] infos[a].id),
        states[0].issued().subset_of(states.last().issued()),
    decreases infos.len(),
{
    let n = infos.len() as int;
    if n == 0 {
        assert(states[0].sessions() + infos =~= states[0].sessions());
    } else {
        let ps = states.subrange(0, n);
        let pi = infos.subrange(0, n - 1);
        assert forall|k: int| 0 <= k < pi.len() implies #[trigger] registered(ps[k], ps[k + 1], pi[k]) by {
            assert(registered(states[k], states[k + 1], infos[k]));
        }
        lemma_successive_creations_accumulate(ps, pi);
        let prev = states[n - 1];
        let last = states[n];
        let info = infos[n - 1];
        assert(ps.last() == prev);
        assert(registered(prev, last, info));
        lemma_registration_keeps_ids_distinct(prev, last, info);
        assert(last.sessions() =~= states[0].sessions() + infos);
        assert forall|a: int| 0 <= a < n implies last.issued().contains(#[trigger] infos[a].id) by {
            if a < n - 1 {
                assert(pi[a] == infos[a]);
                assert(prev.issued().contains(pi[a].id));
            }
        }
        assert forall|a: int| 0 <= a < n implies !states[0].issued().contains(#[trigger] infos[a].id) by {
            if a < n - 1 {
                assert(pi[a] == infos[a]);
            } else {
                assert(!prev.issued().contains(info.id));
            }
        }
        assert forall|a: int, b: int| 0 <= a < b < n implies #[trigger] infos[a].id != #[trigger] infos[b].id by {
            if b < n - 1 {
                assert(pi[a] == infos[a] && pi[b] == infos[b]);
            } else {
                assert(pi[a] == infos[a]);
                assert(prev.issued().contains(pi[a].id));
                assert(!prev.issued().contains(info.id));
            }
        }
    }
}

} // verus!
