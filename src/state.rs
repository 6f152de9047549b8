use vstd::prelude::*;

use crate::ident::fresh_id;
use crate::size::PtySizeDef;
use crate::term::{
    args_view, copy_args, created, removed, resized, unchanged, views_of, InfoView, SessionError,
    Terminal, TerminalCommand, TerminalInfo, TerminalManager,
};

verus! {

/// A request from the user interface, addressed to the registry or to one
/// session.
#[derive(Clone, Debug)]
pub enum AppCommand {
    CreateTerminal { command: String, args: Option<Vec<String>>, title: Option<String> },
    RemoveTerminal { id: u128 },
    WriteData { id: u128, data: String },
    GetTerminals {},
    Resize { id: u128, size: PtySizeDef },
}

/// A request tagged with the correlation identifier that its result carries.
#[derive(Clone, Debug)]
pub struct AppCommandWrapper {
    pub id: u128,
    pub command: AppCommand,
}

/// Notifications for the user interface; not tied to any request.
#[derive(Clone, Debug)]
pub enum FrontendEvent {
    TerminalRead { id: u128, data: String },
    TerminalCreated { id: u128 },
    TerminalRemoved { id: u128 },
    TerminalResized { id: u128, size: PtySizeDef },
}

/// Notifications from session workers to the coordinating side.
#[derive(Clone, Debug)]
pub enum BackendEvent {
    TerminalRead { id: u128, data: String },
}

/// The value carried by a result, before it is serialised.
#[derive(Clone, Debug)]
pub enum Payload {
    Text(String),
    Info(TerminalInfo),
    Infos(Vec<TerminalInfo>),
}

/// The outcome of one request, under the request's correlation identifier.
#[derive(Debug)]
pub struct CommandResult {
    pub id: u128,
    pub command: AppCommand,
    pub result: Result<Payload, Payload>,
}

/// What handling one request produced: its result, the notification to
/// publish once the registry has been updated, and the session whose worker
/// must now be started.
pub struct Dispatched {
    pub result: CommandResult,
    pub event: Option<FrontendEvent>,
    pub started: Option<Terminal>,
    /// For a request forwarded to a live session's worker: whether its
    /// inbound queue took the message.
    pub sent: Option<bool>,
}

pub open spec fn is_text(p: Payload, text: Seq<char>) -> bool {
    match p {
        Payload::Text(s) => s@ == text,
        _ => false,
    }
}

pub open spec fn ok_text(r: Result<Payload, Payload>, text: Seq<char>) -> bool {
    match r {
        Ok(p) => is_text(p, text),
        Err(_) => false,
    }
}

pub open spec fn err_text(r: Result<Payload, Payload>, text: Seq<char>) -> bool {
    match r {
        Ok(_) => false,
        Err(p) => is_text(p, text),
    }
}

/// Two requests with the same content.
pub open spec fn same_command(a: AppCommand, b: AppCommand) -> bool {
    match (a, b) {
        (
            AppCommand::CreateTerminal { command: c1, args: a1, title: t1 },
            AppCommand::CreateTerminal { command: c2, args: a2, title: t2 },
        ) => c1 == c2 && args_view(a1) == args_view(a2) && t1 == t2,
        _ => a == b,
    }
}

/// How the registry and the outputs of a request relate, for each kind of
/// request. `opened` tells, for a creation, whether the session's
/// pseudo-terminal and child were put in place; `d.sent` records, for a
/// request forwarded to a worker, whether the worker's queue took it.
pub open spec fn handled(
    command: AppCommand,
    opened: bool,
    before: TerminalManager,
    after: TerminalManager,
    d: Dispatched,
) -> bool {
    match command {
        AppCommand::CreateTerminal { command, args, title } => {
            &&& d.sent is None
            &&& match d.result.result {
                Ok(Payload::Info(info)) => {
                    &&& opened
                    &&& created(before, after, info@, command, args_view(args), title, None)
                    &&& d.event == Some(FrontendEvent::TerminalCreated { id: info.id })
                    &&& d.started matches Some(t) && t@ == info@
                },
                Err(p) => {
                    &&& if !opened {
                        is_text(p, "Failed to spawn terminal"@)
                    } else {
                        is_text(p, "Terminal ID already in use"@) && exists|x: u128|
                            #[trigger] before.issued().contains(x)
                    }
                    &&& unchanged(before, after)
                    &&& d.event is None
                    &&& d.started is None
                },
                _ => false,
            }
        },
        AppCommand::RemoveTerminal { id } => {
            &&& d.sent is None
            &&& d.started is None
            &&& if before.contains(id) {
                &&& removed(before, after, id)
                &&& ok_text(d.result.result, "Removed terminal"@)
                &&& d.event == Some(FrontendEvent::TerminalRemoved { id })
            } else {
                &&& unchanged(before, after)
                &&& err_text(d.result.result, "Unknown terminal ID"@)
                &&& d.event is None
            }
        },
        AppCommand::WriteData { id, data } => {
            &&& unchanged(before, after)
            &&& d.event is None
            &&& d.started is None
            &&& if before.contains(id) {
                &&& d.sent is Some
                &&& d.sent == Some(true) ==> ok_text(d.result.result, "Wrote data"@)
                &&& d.sent == Some(false) ==> err_text(
                    d.result.result,
                    "Failed to send data to terminal instance"@,
                )
            } else {
                &&& d.sent is None
                &&& err_text(d.result.result, "Unknown terminal ID"@)
            }
        },
        AppCommand::GetTerminals {  } => {
            &&& unchanged(before, after)
            &&& d.event is None
            &&& d.started is None
            &&& d.sent is None
            &&& d.result.result matches Ok(Payload::Infos(v)) && views_of(v@) == before.sessions()
        },
        AppCommand::Resize { id, size } => {
            &&& d.started is None
            &&& if !before.contains(id) {
                &&& d.sent is None
                &&& unchanged(before, after)
                &&& err_text(d.result.result, "Unknown terminal ID"@)
                &&& d.event is None
            } else if d.sent == Some(true) {
                &&& resized(before, after, id, size)
                &&& ok_text(d.result.result, "Resized terminal"@)
                &&& d.event == Some(FrontendEvent::TerminalResized { id, size })
            } else {
                &&& d.sent == Some(false)
                &&& unchanged(before, after)
                &&& err_text(d.result.result, "Failed to send terminal resize command"@)
                &&& d.event is None
            }
        },
    }
}

fn text(s: &str) -> (r: Payload)
    ensures
        is_text(r, s@),
{
    Payload::Text(s.to_string())
}

impl AppCommand {
    /// A copy with the same content.
    pub fn duplicate(&self) -> (r: Self)
        ensures
            same_command(r, *self),
    {
        match self {
            AppCommand::CreateTerminal { command, args, title } => AppCommand::CreateTerminal {
                command: command.clone(),
                args: copy_args(args),
                title: title.clone(),
            },
            AppCommand::RemoveTerminal { id } => AppCommand::RemoveTerminal { id: *id },
            AppCommand::WriteData { id, data } => AppCommand::WriteData {
                id: *id,
                data: data.clone(),
            },
            AppCommand::GetTerminals {  } => AppCommand::GetTerminals {  },
            AppCommand::Resize { id, size } => AppCommand::Resize { id: *id, size: *size },
        }
    }

    /// Tags the request with a newly drawn correlation identifier.
    pub fn wrap(&self) -> (r: AppCommandWrapper)
        ensures
            same_command(r.command, *self),
    {
        AppCommandWrapper { id: fresh_id(), command: self.duplicate() }
    }
}

impl BackendEvent {
    /// The notification that relays this one to the user interface.
    pub fn to_frontend(self) -> (r: FrontendEvent)
        ensures
            r == (match self {
                BackendEvent::TerminalRead { id, data } => FrontendEvent::TerminalRead { id, data },
            }),
    {
        match self {
            BackendEvent::TerminalRead { id, data } => FrontendEvent::TerminalRead { id, data },
        }
    }
}

impl CommandResult {
    /// Whether this result answers `request`: correlation identifiers are
    /// compared as values.
    pub fn answers(&self, request: &AppCommandWrapper) -> (r: bool)
        ensures
            r == (self.id == request.id),
    {
        self.id == request.id
    }
}

impl AppCommandWrapper {
    /// The failed result given to a caller whose request could not be
    /// delivered, or whose answer never came.
    pub fn undelivered(self, reason: &str) -> (r: CommandResult)
        ensures
            r.id == self.id,
            r.command == self.command,
            err_text(r.result, reason@),
    {
        CommandResult { id: self.id, command: self.command, result: Err(text(reason)) }
    }

    /// Carries out the request against the registry.
    ///
    /// Registry-level requests change the registry directly; session-level
    /// ones are forwarded to the session's worker through its inbound queue.
    /// A removed session's worker is sent a kill; the caller then waits for
    /// that worker to finish. For a creation, `opened` tells whether the
    /// session's pseudo-terminal and child were put in place beforehand.
    pub fn execute(self, terminals: &mut TerminalManager, opened: bool) -> (r: Dispatched)
        requires
            old(terminals).wf(),
        ensures
            final(terminals).wf(),
            r.result.id == self.id,
            r.result.command == self.command,
            handled(self.command, opened, *old(terminals), *final(terminals), r),
    {
        proof {
            reveal_strlit("Terminal ID already in use");
            reveal_strlit("Failed to spawn terminal");
            reveal_strlit("Removed terminal");
            reveal_strlit("Unknown terminal ID");
            reveal_strlit("Wrote data");
            reveal_strlit("Failed to send data to terminal instance");
            reveal_strlit("Resized terminal");
            reveal_strlit("Failed to send terminal resize command");
        }
        let (result, event, started, sent) = match &self.command {
            AppCommand::CreateTerminal { command, args, title } => {
                match terminals.create_terminal(
                    command.clone(),
                    copy_args(args),
                    title.clone(),
                    None,
                    opened,
                ) {
                    Ok(t) => {
                        let info = t.info();
                        let id = t.id();
                        (
                            Ok(Payload::Info(info)),
                            Some(FrontendEvent::TerminalCreated { id }),
                            Some(t),
                            None,
                        )
                    },
                    Err(SessionError::SpawnFailure) => (
                        Err(text("Failed to spawn terminal")),
                        None,
                        None,
                        None,
                    ),
                    Err(_) => (Err(text("Terminal ID already in use")), None, None, None),
                }
            },
            AppCommand::RemoveTerminal { id } => match terminals.remove_terminal(*id) {
                Ok(()) => (
                    Ok(text("Removed terminal")),
                    Some(FrontendEvent::TerminalRemoved { id: *id }),
                    None,
                    None,
                ),
                Err(_) => (Err(text("Unknown terminal ID")), None, None, None),
            },
            AppCommand::WriteData { id, data } => {
                match terminals.send_to(*id, TerminalCommand::Write(data.clone())) {
                    Ok(()) => (Ok(text("Wrote data")), None, None, Some(true)),
                    Err(SessionError::UnknownSession) => (
                        Err(text("Unknown terminal ID")),
                        None,
                        None,
                        None,
                    ),
                    Err(_) => (
                        Err(text("Failed to send data to terminal instance")),
                        None,
                        None,
                        Some(false),
                    ),
                }
            },
            AppCommand::GetTerminals {  } => (
                Ok(Payload::Infos(terminals.list_terminals())),
                None,
                None,
                None,
            ),
            AppCommand::Resize { id, size } => {
                match terminals.send_to(*id, TerminalCommand::Resize { size: *size }) {
                    Ok(()) => {
                        let _ = terminals.update_size(*id, *size);
                        (
                            Ok(text("Resized terminal")),
                            Some(FrontendEvent::TerminalResized { id: *id, size: *size }),
                            None,
                            Some(true),
                        )
                    },
                    Err(SessionError::UnknownSession) => (
                        Err(text("Unknown terminal ID")),
                        None,
                        None,
                        None,
                    ),
                    Err(_) => (
                        Err(text("Failed to send terminal resize command")),
                        None,
                        None,
                        Some(false),
                    ),
                }
            },
        };
        Dispatched { result: CommandResult { id: self.id, command: self.command, result }, event, started, sent }
    }
}

} // verus!
