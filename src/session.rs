//! The lifecycle of a session: which calls are allowed in which state, the
//! launch outcome, and the last captured screen.
use crate::grid::{joined_rows, text_from_lines, Cell};
use crate::pump::ExecError;
use vstd::prelude::*;

verus! {

/// Where a session stands.
#[derive(Clone, Debug)]
pub enum Phase {
    NotStarted,
    Running,
    /// The command could not be launched; the diagnostic is kept.
    Failed(ExecError),
    Stopped,
}

/// Why a call on a session was refused.
#[derive(Clone, Debug)]
pub enum SessionError {
    /// `start` on a session that was started before.
    AlreadyStarted,
    /// A call that needs a started session, on one that was never started.
    NotStarted,
    /// The command could not be launched.
    Launch(ExecError),
}

/// The text of a refusal for a misuse of the session.
pub open spec fn usage_text(e: SessionError) -> Seq<char> {
    match e {
        SessionError::AlreadyStarted => seq![
            'a',
            'l',
            'r',
            'e',
            'a',
            'd',
            'y',
            ' ',
            's',
            't',
            'a',
            'r',
            't',
            'e',
            'd',
        ],
        SessionError::NotStarted => seq!['n', 'o', 't', ' ', 's', 't', 'a', 'r', 't', 'e', 'd'],
        SessionError::Launch(x) => x.message@,
    }
}

impl SessionError {
    /// `already started`, `not started`, or the launch diagnostic.
    pub fn message(&self) -> (r: String)
        ensures
            r@ == usage_text(*self),
    {
        match self {
            SessionError::AlreadyStarted => {
                proof {
                    reveal_strlit("already started");
                }
                String::from_str("already started")
            },
            SessionError::NotStarted => {
                proof {
                    reveal_strlit("not started");
                }
                String::from_str("not started")
            },
            SessionError::Launch(x) => x.message.clone(),
        }
    }
}

/// A command to run in a pty of `cols` by `rows`, its phase, and the last
/// screen captured by a settle.
pub struct Session {
    pub command: Vec<String>,
    pub cols: usize,
    pub rows: usize,
    pub phase: Phase,
    pub lines: Option<Vec<Vec<Cell>>>,
}

impl Session {
    /// A session that has not started yet.
    pub fn new(command: Vec<String>, cols: usize, rows: usize) -> (r: Self)
        ensures
            r.command@ == command@,
            r.cols == cols,
            r.rows == rows,
            r.phase is NotStarted,
            r.lines is None,
    {
        Session { command, cols, rows, phase: Phase::NotStarted, lines: None }
    }

    /// Whether `start` may launch the command: only once per session.
    pub fn check_start(&self) -> (r: Result<(), SessionError>)
        ensures
            r is Ok <==> self.phase is NotStarted,
            r is Err ==> r->Err_0 is AlreadyStarted,
    {
        match self.phase {
            Phase::NotStarted => Ok(()),
            _ => Err(SessionError::AlreadyStarted),
        }
    }

    /// Records the launch outcome: the session runs, or keeps the failure.
    pub fn launched(&mut self, outcome: Result<(), ExecError>) -> (r: Result<(), SessionError>)
        requires
            old(self).phase is NotStarted,
        ensures
            outcome is Ok ==> final(self).phase is Running && r is Ok,
            outcome is Err ==> final(self).phase == Phase::Failed(outcome->Err_0) && r is Err
                && r->Err_0 is Launch && r->Err_0->Launch_0.message@ == outcome->Err_0.message@,
            final(self).command == old(self).command,
            final(self).lines == old(self).lines,
    {
        match outcome {
            Ok(()) => {
                self.phase = Phase::Running;
                Ok(())
            },
            Err(e) => {
                let kept = ExecError { message: e.message.clone() };
                self.phase = Phase::Failed(e);
                Err(SessionError::Launch(kept))
            },
        }
    }

    /// Whether a settle may be asked for: not before a start, and not after a
    /// failed launch, which is reported instead.
    pub fn check_settle(&self) -> (r: Result<(), SessionError>)
        ensures
            r is Ok <==> (self.phase is Running || self.phase is Stopped),
            self.phase is NotStarted ==> r == Err::<(), SessionError>(SessionError::NotStarted),
            self.phase is Failed ==> r is Err && r->Err_0 is Launch && r->Err_0->Launch_0.message@
                == self.phase->Failed_0.message@,
    {
        match &self.phase {
            Phase::NotStarted => Err(SessionError::NotStarted),
            Phase::Failed(e) => Err(SessionError::Launch(ExecError { message: e.message.clone() })),
            _ => Ok(()),
        }
    }

    /// Whether input may be sent, or the session stopped: not before a start.
    pub fn check_started(&self) -> (r: Result<(), SessionError>)
        ensures
            r is Ok <==> !(self.phase is NotStarted),
            r is Err ==> r->Err_0 is NotStarted,
    {
        match self.phase {
            Phase::NotStarted => Err(SessionError::NotStarted),
            _ => Ok(()),
        }
    }

    /// Stops a started session; stopping again changes nothing.
    pub fn stop(&mut self) -> (r: Result<(), SessionError>)
        ensures
            r is Ok <==> !(old(self).phase is NotStarted),
            r is Err ==> r->Err_0 is NotStarted && final(self).phase == old(self).phase,
            old(self).phase is Running ==> final(self).phase is Stopped,
            !(old(self).phase is Running) ==> final(self).phase == old(self).phase,
            final(self).lines == old(self).lines,
    {
        match self.phase {
            Phase::NotStarted => Err(SessionError::NotStarted),
            Phase::Running => {
                self.phase = Phase::Stopped;
                Ok(())
            },
            _ => Ok(()),
        }
    }

    /// Keeps a captured screen, replacing the one before.
    pub fn set_lines(&mut self, lines: Vec<Vec<Cell>>)
        ensures
            final(self).lines == Some(lines),
            final(self).phase == old(self).phase,
    {
        self.lines = Some(lines);
    }

    /// The text of the last captured screen, or nothing before the first.
    pub fn text(&self) -> (r: String)
        ensures
            self.lines is None ==> r@.len() == 0,
            self.lines is Some ==> r@ == joined_rows(
                self.lines->0@,
                self.lines->0@.len() as int,
            ),
    {
        match &self.lines {
            Some(lines) => text_from_lines(lines),
            None => String::new(),
        }
    }
}

} // verus!
