use tart_sessions::size::PtySizeDef;
use tart_sessions::state::{AppCommand, AppCommandWrapper, BackendEvent, FrontendEvent, Payload};
use tart_sessions::term::{TerminalCommand, TerminalManager};

fn run(m: &mut TerminalManager, c: AppCommand) -> tart_sessions::state::Dispatched {
    c.wrap().execute(m, true)
}

fn text_of(p: &Payload) -> &str {
    match p {
        Payload::Text(s) => s.as_str(),
        other => panic!("not text: {:?}", other),
    }
}

fn create(m: &mut TerminalManager) -> u128 {
    let d = run(m, AppCommand::CreateTerminal { command: "cat".to_string(), args: None, title: None });
    match d.result.result {
        Ok(Payload::Info(info)) => info.id,
        other => panic!("create failed: {:?}", other),
    }
}

#[test]
fn create_reports_descriptor_event_and_worker() {
    let mut m = TerminalManager::new();
    let d = run(
        &mut m,
        AppCommand::CreateTerminal {
            command: "echo".to_string(),
            args: Some(vec!["hi".to_string()]),
            title: None,
        },
    );
    let info = match &d.result.result {
        Ok(Payload::Info(info)) => info.clone(),
        other => panic!("unexpected {:?}", other),
    };
    assert_eq!(info.command, "echo");
    assert_eq!(info.args, Some(vec!["hi".to_string()]));
    assert_eq!(info.size, PtySizeDef::new(24, 80));
    assert!(matches!(d.event, Some(FrontendEvent::TerminalCreated { id }) if id == info.id));
    assert_eq!(d.started.unwrap().id(), info.id);
    assert!(m.terminal(info.id).is_some());
}

#[test]
fn resize_live_session() {
    let mut m = TerminalManager::new();
    let id = create(&mut m);
    let size = PtySizeDef { rows: 40, cols: 120, pixel_width: 0, pixel_height: 0 };
    let d = run(&mut m, AppCommand::Resize { id, size });
    assert_eq!(text_of(d.result.result.as_ref().unwrap()), "Resized terminal");
    assert_eq!(d.sent, Some(true));
    assert!(matches!(d.event, Some(FrontendEvent::TerminalResized { id: i, size: s }) if i == id && s == size));
    assert_eq!(m.terminal(id).unwrap().size, size);
}

#[test]
fn resize_unknown_session() {
    let mut m = TerminalManager::new();
    let id = create(&mut m);
    let d = run(&mut m, AppCommand::Resize { id: id.wrapping_add(1), size: PtySizeDef::new(40, 120) });
    assert_eq!(text_of(d.result.result.as_ref().unwrap_err()), "Unknown terminal ID");
    assert!(d.event.is_none());
    assert_eq!(m.terminal(id).unwrap().size, PtySizeDef::new(24, 80));
}

#[test]
fn write_goes_to_the_worker_queue() {
    let mut m = TerminalManager::new();
    let d = run(&mut m, AppCommand::CreateTerminal { command: "cat".to_string(), args: None, title: None });
    let t = d.started.unwrap();
    let d = run(&mut m, AppCommand::WriteData { id: t.id(), data: "ls\n".to_string() });
    assert_eq!(text_of(d.result.result.as_ref().unwrap()), "Wrote data");
    let got = t.recv_command().unwrap();
    assert!(matches!(got.command, TerminalCommand::Write(ref s) if s == "ls\n"));
}

#[test]
fn write_to_unknown_session() {
    let mut m = TerminalManager::new();
    let d = run(&mut m, AppCommand::WriteData { id: 5, data: "x".to_string() });
    assert_eq!(text_of(d.result.result.as_ref().unwrap_err()), "Unknown terminal ID");
}

#[test]
fn remove_then_remove_again() {
    let mut m = TerminalManager::new();
    let id = create(&mut m);
    let d = run(&mut m, AppCommand::RemoveTerminal { id });
    assert_eq!(text_of(d.result.result.as_ref().unwrap()), "Removed terminal");
    assert!(matches!(d.event, Some(FrontendEvent::TerminalRemoved { id: i }) if i == id));
    let d = run(&mut m, AppCommand::RemoveTerminal { id });
    assert_eq!(text_of(d.result.result.as_ref().unwrap_err()), "Unknown terminal ID");
    assert!(d.event.is_none());
}

#[test]
fn listing_shows_every_session() {
    let mut m = TerminalManager::new();
    let a = create(&mut m);
    let b = create(&mut m);
    let d = run(&mut m, AppCommand::GetTerminals {});
    match d.result.result {
        Ok(Payload::Infos(v)) => {
            let ids: Vec<u128> = v.iter().map(|i| i.id).collect();
            assert_eq!(ids, vec![a, b]);
        }
        other => panic!("unexpected {:?}", other),
    }
}

#[test]
fn results_answer_their_own_request() {
    let mut m = TerminalManager::new();
    let w = AppCommand::GetTerminals {}.wrap();
    let other = AppCommand::GetTerminals {}.wrap();
    assert_ne!(w.id, other.id);
    let id = w.id;
    let r = w.clone().execute(&mut m, true).result;
    assert_eq!(r.id, id);
    assert!(r.answers(&w));
    assert!(!r.answers(&other));
}

#[test]
fn undelivered_request_fails() {
    let w = AppCommandWrapper { id: 9, command: AppCommand::RemoveTerminal { id: 1 } };
    let r = w.undelivered("Failed to emit event.");
    assert_eq!(r.id, 9);
    assert_eq!(text_of(r.result.as_ref().unwrap_err()), "Failed to emit event.");
}

#[test]
fn wrap_keeps_the_command() {
    let c = AppCommand::WriteData { id: 3, data: "abc".to_string() };
    match c.wrap().command {
        AppCommand::WriteData { id, data } => {
            assert_eq!(id, 3);
            assert_eq!(data, "abc");
        }
        other => panic!("unexpected {:?}", other),
    }
}

#[test]
fn backend_output_is_relayed() {
    let e = BackendEvent::TerminalRead { id: 4, data: "hi\n".to_string() };
    assert!(matches!(e.to_frontend(), FrontendEvent::TerminalRead { id: 4, ref data } if data == "hi\n"));
}

#[test]
fn failed_spawn_is_reported_and_nothing_registered() {
    let mut m = TerminalManager::new();
    let c = AppCommand::CreateTerminal { command: "nope".to_string(), args: None, title: None };
    let d = c.wrap().execute(&mut m, false);
    assert_eq!(text_of(d.result.result.as_ref().unwrap_err()), "Failed to spawn terminal");
    assert!(d.event.is_none());
    assert!(d.started.is_none());
    assert!(m.list_terminals().is_empty());
}
