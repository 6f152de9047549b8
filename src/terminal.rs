use vstd::prelude::*;

use crate::ident::fresh_id;
pub use crate::size::PtySizeDef;

verus! {

/// Descriptor of a session that owns its pseudo-terminal directly.
#[derive(Clone, Debug)]
pub struct TermInfo {
    pub id: u128,
    pub title: Option<String>,
    pub command: String,
    pub args: Option<Vec<String>>,
    pub size: PtySizeDef,
}

/// What can go wrong while operating a pseudo-terminal and its child process.
#[derive(Clone, Debug, PartialEq, Eq)]
pub enum TerminalError {
    Open,
    CommandSpawn,
    ReaderAttach,
    WriterAttach,
    ResizeWindow,
    Read,
    Write,
    ChildOperation { op: String },
    ClosedPty,
}

/// The text that describes each error.
pub open spec fn error_text(e: TerminalError) -> Seq<char> {
    match e {
        TerminalError::Open => "Failed to open PTY"@,
        TerminalError::CommandSpawn => "Failed to spawn command"@,
        TerminalError::ReaderAttach => "Failed to attach reader"@,
        TerminalError::WriterAttach => "Failed to attach writer"@,
        TerminalError::ResizeWindow => "Failed to resize window"@,
        TerminalError::Read => "Failed to read from PTY"@,
        TerminalError::Write => "Failed to write to PTY"@,
        TerminalError::ChildOperation { op } => "Failed to execute child operation "@ + op@,
        TerminalError::ClosedPty => "PTY already closed"@,
    }
}

impl TerminalError {
    /// The human-readable description of the error.
    pub fn message(&self) -> (r: String)
        ensures
            r@ == error_text(*self),
    {
        let r = match self {
            TerminalError::Open => "Failed to open PTY".to_string(),
            TerminalError::CommandSpawn => "Failed to spawn command".to_string(),
            TerminalError::ReaderAttach => "Failed to attach reader".to_string(),
            TerminalError::WriterAttach => "Failed to attach writer".to_string(),
            TerminalError::ResizeWindow => "Failed to resize window".to_string(),
            TerminalError::Read => "Failed to read from PTY".to_string(),
            TerminalError::Write => "Failed to write to PTY".to_string(),
            TerminalError::ChildOperation { op } => {
                let mut text = "Failed to execute child operation ".to_string();
                text.append(op.as_str());
                text
            },
            TerminalError::ClosedPty => "PTY already closed".to_string(),
        };
        proof {
            reveal_strlit("Failed to open PTY");
            reveal_strlit("Failed to spawn command");
            reveal_strlit("Failed to attach reader");
            reveal_strlit("Failed to attach writer");
            reveal_strlit("Failed to resize window");
            reveal_strlit("Failed to read from PTY");
            reveal_strlit("Failed to write to PTY");
            reveal_strlit("Failed to execute child operation ");
            reveal_strlit("PTY already closed");
        }
        r
    }
}

impl TermInfo {
    /// A descriptor with a newly drawn identifier and a `rows` by `cols`
    /// geometry without pixel extent.
    pub fn new(
        rows: u16,
        cols: u16,
        command: String,
        title: Option<String>,
        args: Option<Vec<String>>,
    ) -> (r: Self)
        ensures
            r.command == command,
            r.title == title,
            r.args == args,
            r.size == PtySizeDef::new_spec(rows, cols),
    {
        TermInfo { id: fresh_id(), title, command, args, size: PtySizeDef::new(rows, cols) }
    }
}

/// The exit code that a non-blocking wait on the child reports, if it has
/// exited: `Ok(Some(code))` gives `Some(code)`, anything else `None`.
pub fn exit_status(wait: Result<Option<u32>, ()>) -> (r: Option<u32>)
    ensures
        r == (match wait {
            Ok(Some(code)) => Some(code),
            _ => None,
        }),
{
    match wait {
        Ok(Some(code)) => Some(code),
        _ => None,
    }
}

/// Operations on a pseudo-terminal are refused once its child has exited.
pub fn ensure_running(status: Option<u32>) -> (r: Result<(), TerminalError>)
    ensures
        r == (if status.is_some() {
            Err::<(), TerminalError>(TerminalError::ClosedPty)
        } else {
            Ok(())
        }),
{
    if status.is_some() {
        Err(TerminalError::ClosedPty)
    } else {
        Ok(())
    }
}

} // verus!
