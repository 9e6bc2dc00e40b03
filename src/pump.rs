//! The decisions of the byte pump between the pty master and the queues:
//! whether a launch succeeded, what a read or a write result means, and the
//! buffer of input still to be written.
use vstd::prelude::*;

verus! {

/// The text before the message of a launch error.
pub open spec fn exec_error_prefix() -> Seq<char> {
    seq!['E', 'x', 'e', 'c', 'E', 'r', 'r', 'o', 'r', ':', ' ']
}

/// A failure to launch the command, with the child's diagnostic.
#[derive(Clone, Debug)]
pub struct ExecError {
    pub message: String,
}

impl ExecError {
    pub fn new(message: String) -> (r: Self)
        ensures
            r.message@ == message@,
    {
        ExecError { message }
    }

    /// The diagnostic as the child reported it.
    pub fn message(&self) -> (r: &String)
        ensures
            r@ == self.message@,
    {
        &self.message
    }

    /// `ExecError: ` followed by the diagnostic.
    pub fn to_string(&self) -> (r: String)
        ensures
            r@ == exec_error_prefix() + self.message@,
    {
        let mut s = String::from_str("ExecError: ");
        proof {
            reveal_strlit("ExecError: ");
        }
        s.append(self.message.as_str());
        s
    }
}

/// Decides a launch from what the child wrote into the error pipe before
/// `exec` closed it: nothing means the command runs; any text is the
/// diagnostic of a failed launch.
pub fn launch_outcome(report: String) -> (r: Result<(), ExecError>)
    ensures
        r is Ok <==> report@.len() == 0,
        r is Err ==> r->Err_0.message@ == report@ && r->Err_0.message@.len() > 0,
{
    if report.as_str().is_empty() {
        Ok(())
    } else {
        Err(ExecError { message: report })
    }
}

/// The size of a pty window in character cells.
#[derive(PartialEq, Eq, Structural, Clone, Copy, Debug)]
pub struct WinSize {
    pub cols: u16,
    pub rows: u16,
}

/// The pty window size for `cols` by `rows`, or `None` where either does not
/// fit in 16 bits.
pub fn window_size(cols: usize, rows: usize) -> (r: Option<WinSize>)
    ensures
        r is Some <==> cols <= u16::MAX && rows <= u16::MAX,
        r is Some ==> r->0.cols == cols && r->0.rows == rows,
{
    if cols <= u16::MAX as usize && rows <= u16::MAX as usize {
        Some(WinSize { cols: cols as u16, rows: rows as u16 })
    } else {
        None
    }
}

/// What one non-blocking read of the pty master says.
#[derive(PartialEq, Eq, Structural, Clone, Copy, Debug)]
pub enum ReadStep {
    /// End of file: the pump ends.
    End,
    /// Forward this many bytes to the output queue, then read again.
    Forward(usize),
    /// Nothing more to read until the master is readable again.
    Drained,
}

/// What one non-blocking write to the pty master leaves to do.
#[derive(PartialEq, Eq, Structural, Clone, Copy, Debug)]
pub enum WriteStep {
    /// Nothing was written: the pump ends.
    End,
    /// The buffer is empty: stop writing.
    Done,
    /// Bytes remain: write again.
    Again,
    /// The write would block: wait until the master is writable again.
    Blocked,
}

/// A read result: `Some(n)` bytes, or `None` where the read would block.
pub fn read_step(r: Option<usize>) -> (s: ReadStep)
    ensures
        r == Some(0usize) ==> s == ReadStep::End,
        r is Some && r->0 > 0 ==> s == ReadStep::Forward(r->0),
        r is None ==> s == ReadStep::Drained,
{
    match r {
        Some(0) => ReadStep::End,
        Some(n) => ReadStep::Forward(n),
        None => ReadStep::Drained,
    }
}

/// Input received from the input queue and not yet written to the pty.
pub struct WriteBuffer {
    pub pending: Vec<u8>,
}

impl WriteBuffer {
    pub fn new() -> (r: Self)
        ensures
            r.pending@.len() == 0,
    {
        WriteBuffer { pending: Vec::new() }
    }

    /// Whether there is input waiting to be written.
    pub fn wants_write(&self) -> (r: bool)
        ensures
            r == (self.pending@.len() > 0),
    {
        self.pending.len() > 0
    }

    /// Appends a chunk from the input queue.
    pub fn push(&mut self, chunk: Vec<u8>)
        ensures
            final(self).pending@ == old(self).pending@ + chunk@,
    {
        let mut chunk = chunk;
        self.pending.append(&mut chunk);
    }

    /// Takes in the result of writing the pending bytes: `Some(n)` bytes
    /// written (at most as many as were pending), or `None` where the write
    /// would block. Written bytes leave the buffer; the rest is kept for the
    /// next write.
    pub fn written(&mut self, r: Option<usize>) -> (s: WriteStep)
        requires
            r is Some ==> r->0 <= old(self).pending@.len(),
        ensures
            r == Some(0usize) ==> s == WriteStep::End && final(self).pending@ == old(
                self,
            ).pending@,
            r is None ==> s == WriteStep::Blocked && final(self).pending@ == old(self).pending@,
            r is Some && r->0 > 0 ==> final(self).pending@ == old(self).pending@.subrange(
                r->0 as int,
                old(self).pending@.len() as int,
            ) && (s == WriteStep::Done <==> final(self).pending@.len() == 0) && (s
                == WriteStep::Done || s == WriteStep::Again),
    {
        match r {
            Some(0) => WriteStep::End,
            Some(n) => {
                let len = self.pending.len();
                let mut rest: Vec<u8> = Vec::new();
                let mut i: usize = n;
                while i < len
                    invariant
                        n <= i <= len,
                        len == self.pending@.len(),
                        self.pending@ == old(self).pending@,
                        rest@ == old(self).pending@.subrange(n as int, i as int),
                    decreases len - i,
                {
                    rest.push(self.pending[i]);
                    i = i + 1;
                    proof {
                        assert(rest@ =~= old(self).pending@.subrange(n as int, i as int));
                    }
                }
                self.pending = rest;
                if self.pending.len() == 0 {
                    WriteStep::Done
                } else {
                    WriteStep::Again
                }
            },
            None => WriteStep::Blocked,
        }
    }
}

} // verus!
