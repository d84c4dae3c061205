use crate::codec::{encode, frame_of};
use crate::command::Command;
use vstd::prelude::*;

verus! {

/// Speed of the serial line, in bits per second.
pub const BAUD_RATE: u32 = 115200;

/// How long one read waits for device output, in milliseconds.
pub const READ_TIMEOUT_MS: u64 = 100;

/// Where the sending side of a session stands.
#[derive(Debug, Clone, Copy, PartialEq, Eq, Structural)]
pub enum LinkState {
    /// Frames can be written.
    Open,
    /// A write failed; the caller decides whether to keep sending.
    Faulted,
    /// The channel was released; nothing more is written.
    Closed,
}

/// Why a command was not sent.
#[derive(Debug, Clone, Copy, PartialEq, Eq, Structural)]
pub enum SendError {
    /// The session was closed before the send.
    Closed,
    /// Writing the frame to the channel failed.
    Io,
}

/// What one read of device output gave.
#[derive(Debug)]
pub enum ReadOutcome {
    /// Text arrived (possibly none).
    Text(String),
    /// The read timed out after this text (possibly none) arrived.
    TimedOut(String),
    /// Any other input/output error.
    Failed,
}

/// What the reader does after a read.
#[derive(Debug)]
pub enum ReaderAction {
    /// Hand this text to the observer, then read again.
    Surface(String),
    /// Nothing to show: read again.
    Wait,
    /// End the reader; the writer is not affected.
    Stop,
}

/// The sending side of a session.
#[derive(Debug, Clone, Copy, PartialEq, Eq, Structural)]
pub struct LinkWriter {
    pub state: LinkState,
}

/// The receiving side of a session, driven by its own task.
#[derive(Debug, Clone, Copy, PartialEq, Eq, Structural)]
pub struct LinkReader {
    pub running: bool,
}

/// What sending `c` through `w` gives: its frame, unless the session is closed.
pub open spec fn send_spec(w: LinkWriter, c: Command) -> Result<Seq<u8>, SendError> {
    if w.state == LinkState::Closed {
        Err(SendError::Closed)
    } else {
        Ok(frame_of(c))
    }
}

/// The text that a read collected, `None` where it failed.
pub open spec fn arrived_text(outcome: ReadOutcome) -> Option<Seq<char>> {
    match outcome {
        ReadOutcome::Text(t) => Some(t@),
        ReadOutcome::TimedOut(t) => Some(t@),
        ReadOutcome::Failed => None,
    }
}

/// Whether a reader still runs after a read with this outcome.
pub open spec fn reader_runs_after(running: bool, outcome: ReadOutcome) -> bool {
    running && !(outcome is Failed)
}

/// The two sides of a freshly opened session.
pub fn open_link() -> (r: (LinkWriter, LinkReader))
    ensures
        r.0.state == LinkState::Open,
        r.1.running,
{
    (LinkWriter { state: LinkState::Open }, LinkReader { running: true })
}

impl LinkWriter {
    /// The bytes to write for `cmd`, in one write.
    pub fn frame(&self, cmd: &Command) -> (r: Result<Vec<u8>, SendError>)
        ensures
            match r {
                Ok(f) => send_spec(*self, *cmd) == Ok::<Seq<u8>, SendError>(f@),
                Err(e) => send_spec(*self, *cmd) == Err::<Seq<u8>, SendError>(e),
            },
    {
        if self.state == LinkState::Closed {
            Err(SendError::Closed)
        } else {
            Ok(encode(cmd))
        }
    }

    /// Records whether the write of a frame went through.
    pub fn record_write(&mut self, written: bool) -> (r: Result<(), SendError>)
        ensures
            old(self).state == LinkState::Closed ==> r == Err::<(), SendError>(SendError::Closed)
                && final(self).state == LinkState::Closed,
            old(self).state != LinkState::Closed && written ==> r is Ok && final(self).state
                == old(self).state,
            old(self).state != LinkState::Closed && !written ==> r == Err::<(), SendError>(
                SendError::Io,
            ) && final(self).state == LinkState::Faulted,
    {
        if self.state == LinkState::Closed {
            Err(SendError::Closed)
        } else if written {
            Ok(())
        } else {
            self.state = LinkState::Faulted;
            Err(SendError::Io)
        }
    }

    /// Releases the sending side.
    pub fn close(&mut self)
        ensures
            final(self).state == LinkState::Closed,
    {
        self.state = LinkState::Closed;
    }
}

impl LinkReader {
    /// Decides what follows a read: surface the text that arrived, with or
    /// without a timeout; wait when none did; stop on any other error or once
    /// stopped.
    pub fn on_read(&mut self, outcome: ReadOutcome) -> (r: ReaderAction)
        ensures
            final(self).running == reader_runs_after(old(self).running, outcome),
            match r {
                ReaderAction::Surface(s) => old(self).running && s@.len() > 0 && arrived_text(
                    outcome,
                ) == Some(s@),
                ReaderAction::Wait => old(self).running && arrived_text(outcome) == Some(
                    Seq::<char>::empty(),
                ),
                ReaderAction::Stop => !old(self).running || outcome is Failed,
            },
    {
        if !self.running {
            return ReaderAction::Stop;
        }
        match outcome {
            ReadOutcome::Text(t) | ReadOutcome::TimedOut(t) => {
                if t.as_str().is_empty() {
                    ReaderAction::Wait
                } else {
                    ReaderAction::Surface(t)
                }
            },
            ReadOutcome::Failed => {
                self.running = false;
                ReaderAction::Stop
            },
        }
    }
}

/// A failed read ends the reader and leaves the writer as it was: a command
/// sent after it still goes out as its frame.
pub proof fn lemma_reader_fault_isolated(w: LinkWriter, r: LinkReader, c: Command)
    requires
        w.state != LinkState::Closed,
    ensures
        !reader_runs_after(r.running, ReadOutcome::Failed),
        send_spec(w, c) == Ok::<Seq<u8>, SendError>(frame_of(c)),
{
}

} // verus!
