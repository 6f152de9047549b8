use tart_sessions::size::PtySizeDef;
use tart_sessions::term::{
    round_event, worker_end, WorkerEnd,
    Terminal, TerminalCommand, TerminalManager, TerminalMessage, WorkerAction, WorkerEvent,
    WorkerPhase,
};
use tart_sessions::terminal::{ensure_running, exit_status, TermInfo, TerminalError};

fn write(s: &str) -> TerminalMessage {
    TerminalMessage::new(TerminalCommand::Write(s.to_string()))
}

#[test]
fn commands_are_planned_in_queue_order() {
    let batch = vec![
        write("a"),
        TerminalMessage::new(TerminalCommand::Resize { size: PtySizeDef::new(40, 120) }),
        write("b"),
    ];
    let plan = Terminal::plan_batch(&batch);
    assert_eq!(plan.len(), 3);
    assert!(matches!(plan[0], WorkerAction::Write(ref d) if d == "a"));
    assert!(matches!(plan[1], WorkerAction::Resize(s) if s == PtySizeDef::new(40, 120)));
    assert!(matches!(plan[2], WorkerAction::Write(ref d) if d == "b"));
}

#[test]
fn nothing_after_kill_is_planned() {
    let batch = vec![write("a"), TerminalMessage::new(TerminalCommand::Kill), write("b")];
    let plan = Terminal::plan_batch(&batch);
    assert_eq!(plan.len(), 2);
    assert!(matches!(plan[1], WorkerAction::Kill));
}

#[test]
fn notifications_are_not_acted_on() {
    let batch = vec![TerminalMessage::new(TerminalCommand::Read("out".to_string()))];
    let plan = Terminal::plan_batch(&batch);
    assert!(matches!(plan[0], WorkerAction::Ignore));
    assert!(Terminal::plan_batch(&Vec::new()).is_empty());
}

#[test]
fn queued_commands_come_out_in_order() {
    let mut m = TerminalManager::new();
    let t = m.create_terminal("cat".to_string(), None, None, None, true).unwrap();
    let sender = m.sender(t.id()).unwrap();
    sender.send(write("first")).unwrap();
    sender.send(write("second")).unwrap();
    let queued = t.pending_commands();
    let plan = Terminal::plan_batch(&queued);
    assert_eq!(plan.len(), 2);
    assert!(matches!(plan[0], WorkerAction::Write(ref d) if d == "first"));
    assert!(matches!(plan[1], WorkerAction::Write(ref d) if d == "second"));
}

#[test]
fn failures_are_reported_per_action() {
    match Terminal::failure_report(&WorkerAction::Write("x".to_string())) {
        Some(TerminalCommand::Error { scope, reason }) => {
            assert_eq!(scope, "pty");
            assert_eq!(reason, "write_failure");
        }
        other => panic!("unexpected {:?}", other),
    }
    match Terminal::failure_report(&WorkerAction::Resize(PtySizeDef::new(1, 1))) {
        Some(TerminalCommand::Error { scope, reason }) => {
            assert_eq!(scope, "pty");
            assert_eq!(reason, "resize_failure");
        }
        other => panic!("unexpected {:?}", other),
    }
    assert!(Terminal::failure_report(&WorkerAction::Kill).is_none());
}

#[test]
fn results_keep_the_correlation_identifier() {
    let m = write("a");
    let r = m.result(TerminalCommand::Error { scope: "pty".to_string(), reason: "write_failure".to_string() });
    assert_eq!(r.id, m.id);
    assert_ne!(write("a").id, write("a").id);
}

#[test]
fn results_reach_the_outbound_queue() {
    let mut mgr = TerminalManager::new();
    let t = mgr.create_terminal("cat".to_string(), None, None, None, true).unwrap();
    let m = write("a");
    t.send_result(m.clone(), TerminalCommand::Read("done".to_string())).unwrap();
    t.send_event(TerminalCommand::Kill).unwrap();
    let rx = mgr.receiver(t.id()).unwrap();
    let first = rx.try_recv().unwrap();
    assert_eq!(first.id, m.id);
    assert!(matches!(first.command, TerminalCommand::Read(ref d) if d == "done"));
    assert!(matches!(rx.try_recv().unwrap().command, TerminalCommand::Kill));
}

#[test]
fn worker_phases() {
    assert_eq!(WorkerPhase::Starting.next(WorkerEvent::Opened), WorkerPhase::Running);
    assert_eq!(WorkerPhase::Starting.next(WorkerEvent::OpenFailed), WorkerPhase::Terminated);
    assert_eq!(WorkerPhase::Running.next(WorkerEvent::Idle), WorkerPhase::Running);
    assert_eq!(WorkerPhase::Running.next(WorkerEvent::Killed), WorkerPhase::Draining);
    assert_eq!(WorkerPhase::Running.next(WorkerEvent::ChildExited), WorkerPhase::Draining);
    assert_eq!(WorkerPhase::Draining.next(WorkerEvent::KillAttempted), WorkerPhase::Terminated);
    assert_eq!(WorkerPhase::Terminated.next(WorkerEvent::Opened), WorkerPhase::Terminated);
}

#[test]
fn error_messages() {
    assert_eq!(TerminalError::Open.message(), "Failed to open PTY");
    assert_eq!(TerminalError::ClosedPty.message(), "PTY already closed");
    assert_eq!(
        TerminalError::ChildOperation { op: "Kill process".to_string() }.message(),
        "Failed to execute child operation Kill process"
    );
}

#[test]
fn exited_child_closes_the_terminal() {
    assert_eq!(exit_status(Ok(Some(3))), Some(3));
    assert_eq!(exit_status(Ok(None)), None);
    assert_eq!(exit_status(Err(())), None);
    assert_eq!(ensure_running(Some(0)), Err(TerminalError::ClosedPty));
    assert_eq!(ensure_running(None), Ok(()));
}

#[test]
fn term_info_geometry() {
    let a = TermInfo::new(10, 20, "sh".to_string(), None, None);
    let b = TermInfo::new(10, 20, "sh".to_string(), None, None);
    assert_eq!(a.size, PtySizeDef { rows: 10, cols: 20, pixel_width: 0, pixel_height: 0 });
    assert_ne!(a.id, b.id);
}

#[test]
fn round_events() {
    let kill = vec![WorkerAction::Write("a".to_string()), WorkerAction::Kill];
    assert_eq!(round_event(&kill, true, Some(0)), WorkerEvent::Killed);
    assert_eq!(round_event(&Vec::new(), true, None), WorkerEvent::ChildExited);
    assert_eq!(round_event(&Vec::new(), false, Some(2)), WorkerEvent::ChildExited);
    assert_eq!(round_event(&vec![WorkerAction::Ignore], false, None), WorkerEvent::Idle);
}

#[test]
fn worker_end_duties() {
    assert_eq!(worker_end(true, true), WorkerEnd { report_kill_failure: false, self_remove: true });
    assert_eq!(worker_end(false, true), WorkerEnd { report_kill_failure: true, self_remove: false });
    assert_eq!(worker_end(false, false), WorkerEnd { report_kill_failure: false, self_remove: false });
}
