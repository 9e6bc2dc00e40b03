use numpty::grid::Cell;
use numpty::pump::{launch_outcome, ExecError};
use numpty::session::{Phase, Session, SessionError};

fn session() -> Session {
    Session::new(vec!["bash".to_string()], 80, 24)
}

#[test]
fn calls_before_start_are_refused() {
    let mut s = session();
    assert!(matches!(s.check_settle(), Err(SessionError::NotStarted)));
    assert!(matches!(s.check_started(), Err(SessionError::NotStarted)));
    assert!(matches!(s.stop(), Err(SessionError::NotStarted)));
    assert_eq!(SessionError::NotStarted.message(), "not started");
    assert_eq!(s.text(), "");
}

#[test]
fn start_only_once() {
    let mut s = session();
    assert!(s.check_start().is_ok());
    assert!(s.launched(Ok(())).is_ok());
    assert!(matches!(s.phase, Phase::Running));
    assert!(matches!(s.check_start(), Err(SessionError::AlreadyStarted)));
    assert_eq!(SessionError::AlreadyStarted.message(), "already started");
}

#[test]
fn failed_launch_forbids_snapshots() {
    let mut s = session();
    let outcome = launch_outcome("No such file or directory".to_string());
    match s.launched(outcome) {
        Err(SessionError::Launch(e)) => assert_eq!(e.message(), "No such file or directory"),
        _ => panic!("expected a launch error"),
    }
    match s.check_settle() {
        Err(e) => assert_eq!(e.message(), "No such file or directory"),
        Ok(()) => panic!("a failed session cannot settle"),
    }
    assert!(s.stop().is_ok());
    assert!(s.check_settle().is_err());
    let _ = ExecError::new(String::new());
}

#[test]
fn stop_is_idempotent_and_keeps_the_snapshot() {
    let mut s = session();
    s.launched(Ok(())).unwrap();
    s.set_lines(vec![vec![Cell { ch: 'x', fg: None, bg: None }]]);
    assert!(s.stop().is_ok());
    assert!(matches!(s.phase, Phase::Stopped));
    assert!(s.stop().is_ok());
    assert!(matches!(s.phase, Phase::Stopped));
    assert_eq!(s.text(), "x");
}
