use vstd::prelude::*;

use crate::events::{b64_encode_of, stderr_chunk_event, stdout_chunk_event, RawStreamEvent};

verus! {

/// Which output stream of the child a reader event belongs to.
#[derive(Debug, Clone, Copy)]
pub enum OutputStreamKind {
    Stdout,
    Stderr,
}

pub open spec fn stream_kind_text(k: OutputStreamKind) -> Seq<char> {
    match k {
        OutputStreamKind::Stdout => "stdout"@,
        OutputStreamKind::Stderr => "stderr"@,
    }
}

impl OutputStreamKind {
    /// The stream's name, as error messages spell it.
    pub fn as_str(&self) -> (r: &'static str)
        ensures
            r@ == stream_kind_text(*self),
    {
        match self {
            OutputStreamKind::Stdout => "stdout",
            OutputStreamKind::Stderr => "stderr",
        }
    }
}

/// What a per-stream reader task reports.
pub enum ReaderEvent {
    /// One chunk read from the stream, in stream order.
    Chunk { stream: OutputStreamKind, data: Vec<u8> },
    /// The stream reached end of file.
    Done { stream: OutputStreamKind },
    /// Reading the stream failed.
    ReadError { stream: OutputStreamKind, message: String },
    /// Both reader tasks are gone; nothing more will arrive.
    Closed,
}

/// One thing that can happen while a raw stream is served.
pub enum SessionEvent {
    /// The child was waited: its exit code, or nothing if signaled.
    WaitDone { exit_code: Option<i32> },
    /// Waiting for the child failed.
    WaitFailed { details: String },
    /// A reader task reported.
    Reader(ReaderEvent),
}

/// What the serving loop must do next.
pub enum SessionStep {
    /// Nothing to send; keep serving.
    Continue,
    /// Send this payload event, then keep serving.
    Emit(RawStreamEvent),
    /// Send this exit event; the stream is complete.
    EmitExit(RawStreamEvent),
    /// Send this error event, kill the child, and stop.
    FailWith(RawStreamEvent),
}

/// The state of one raw-stream session. The `start` event strictly precedes
/// all payload events, and an `exit` or `error` event strictly terminates
/// the session: `step` refuses to run before `begin` or after the end.
pub struct StreamSession {
    pub started: bool,
    pub stdout_done: bool,
    pub stderr_done: bool,
    pub exit_code: Option<Option<i32>>,
    pub ended: bool,
}

/// The exit event fires exactly when the child has been waited and both
/// streams are drained.
pub open spec fn session_complete(s: StreamSession) -> bool {
    s.exit_code is Some && s.stdout_done && s.stderr_done
}

impl StreamSession {
    pub fn new() -> (r: StreamSession)
        ensures
            !r.started,
            !r.stdout_done,
            !r.stderr_done,
            (r.exit_code is None),
            !r.ended,
    {
        StreamSession {
            started: false,
            stdout_done: false,
            stderr_done: false,
            exit_code: None,
            ended: false,
        }
    }

    /// Opens the session: the event returned is sent before any other.
    pub fn begin(&mut self) -> (r: RawStreamEvent)
        requires
            !old(self).started,
        ensures
            r == RawStreamEvent::Start,
            final(self).started,
            (*final(self) == StreamSession { started: true, ..*old(self) }),
    {
        self.started = true;
        RawStreamEvent::Start
    }

    /// Advances the session by one event and says what to send.
    ///
    /// A chunk is forwarded as its stream's payload event, in arrival order,
    /// with the chunk's exact bytes in the payload; nothing else changes, so
    /// per-stream order is preserved end to end. End of file marks the
    /// stream drained; the child's wait records the exit code. Once the code
    /// is recorded and both streams are drained — and not before — the exit
    /// event is emitted and the session ends. A wait or read failure ends
    /// the session with an error event instead, and an exit event never
    /// follows one.
    pub fn step(&mut self, event: SessionEvent) -> (r: SessionStep)
        requires
            old(self).started,
            !old(self).ended,
        ensures
            final(self).started,
            match event {
                SessionEvent::WaitDone { exit_code } => {
                    &&& final(self).exit_code == Some(exit_code)
                    &&& final(self).stdout_done == old(self).stdout_done
                    &&& final(self).stderr_done == old(self).stderr_done
                    &&& (session_complete(*final(self)) ==> r == SessionStep::EmitExit(
                        RawStreamEvent::Exit { exit_code },
                    ) && final(self).ended)
                    &&& (!session_complete(*final(self)) ==> r == SessionStep::Continue
                        && !final(self).ended)
                },
                SessionEvent::WaitFailed { details } => {
                    &&& (r matches SessionStep::FailWith(e) && e matches RawStreamEvent::Error {
                        message,
                    } && message@ == "Runtime wait failure: "@ + details@)
                    &&& final(self).ended
                },
                SessionEvent::Reader(re) => match re {
                    ReaderEvent::Chunk { stream, data } => {
                        &&& *final(self) == *old(self)
                        &&& !final(self).ended
                        &&& (stream is Stdout ==> (r matches SessionStep::Emit(e) && e matches
                            RawStreamEvent::Stdout { data_b64 } && data_b64@ == b64_encode_of(
                            data@,
                        )))
                        &&& (stream is Stderr ==> (r matches SessionStep::Emit(e) && e matches
                            RawStreamEvent::Stderr { data_b64 } && data_b64@ == b64_encode_of(
                            data@,
                        )))
                    },
                    ReaderEvent::Done { stream } => {
                        &&& final(self).stdout_done == (old(self).stdout_done || stream is Stdout)
                        &&& final(self).stderr_done == (old(self).stderr_done || stream is Stderr)
                        &&& final(self).exit_code == old(self).exit_code
                        &&& (session_complete(*final(self)) ==> r == SessionStep::EmitExit(
                            RawStreamEvent::Exit { exit_code: old(self).exit_code.unwrap() },
                        ) && final(self).ended)
                        &&& (!session_complete(*final(self)) ==> r == SessionStep::Continue
                            && !final(self).ended)
                    },
                    ReaderEvent::ReadError { stream, message } => {
                        &&& (r matches SessionStep::FailWith(e) && e matches
                            RawStreamEvent::Error { message: m } && m@ == "Failed reading "@
                            + stream_kind_text(stream) + ": "@ + message@)
                        &&& final(self).ended
                    },
                    ReaderEvent::Closed => {
                        &&& final(self).stdout_done && final(self).stderr_done
                        &&& final(self).exit_code == old(self).exit_code
                        &&& (session_complete(*final(self)) ==> r == SessionStep::EmitExit(
                            RawStreamEvent::Exit { exit_code: old(self).exit_code.unwrap() },
                        ) && final(self).ended)
                        &&& (!session_complete(*final(self)) ==> r == SessionStep::Continue
                            && !final(self).ended)
                    },
                },
            },
    {
        match event {
            SessionEvent::WaitDone { exit_code } => {
                self.exit_code = Some(exit_code);
                self.finish_if_complete()
            }
            SessionEvent::WaitFailed { details } => {
                proof {
                    reveal_strlit("Runtime wait failure: ");
                }
                let mut message = String::new();
                message.append("Runtime wait failure: ");
                message.append(details.as_str());
                self.ended = true;
                SessionStep::FailWith(RawStreamEvent::Error { message })
            }
            SessionEvent::Reader(re) => match re {
                ReaderEvent::Chunk { stream, data } => match stream {
                    OutputStreamKind::Stdout => SessionStep::Emit(
                        stdout_chunk_event(data.as_slice()),
                    ),
                    OutputStreamKind::Stderr => SessionStep::Emit(
                        stderr_chunk_event(data.as_slice()),
                    ),
                },
                ReaderEvent::Done { stream } => {
                    match stream {
                        OutputStreamKind::Stdout => {
                            self.stdout_done = true;
                        }
                        OutputStreamKind::Stderr => {
                            self.stderr_done = true;
                        }
                    }
                    self.finish_if_complete()
                }
                ReaderEvent::ReadError { stream, message } => {
                    proof {
                        reveal_strlit("Failed reading ");
                        reveal_strlit(": ");
                    }
                    let mut m = String::new();
                    m.append("Failed reading ");
                    m.append(stream.as_str());
                    m.append(": ");
                    m.append(message.as_str());
                    self.ended = true;
                    SessionStep::FailWith(RawStreamEvent::Error { message: m })
                }
                ReaderEvent::Closed => {
                    self.stdout_done = true;
                    self.stderr_done = true;
                    self.finish_if_complete()
                }
            },
        }
    }

    fn finish_if_complete(&mut self) -> (r: SessionStep)
        requires
            !old(self).ended,
        ensures
            (*final(self) == StreamSession { ended: final(self).ended, ..*old(self) }),
            (session_complete(*old(self)) ==> r == SessionStep::EmitExit(
                RawStreamEvent::Exit { exit_code: old(self).exit_code.unwrap() },
            ) && final(self).ended),
            (!session_complete(*old(self)) ==> r == SessionStep::Continue && !final(self).ended),
    {
        if self.stdout_done && self.stderr_done {
            match self.exit_code {
                Some(code) => {
                    self.ended = true;
                    return SessionStep::EmitExit(RawStreamEvent::Exit { exit_code: code });
                }
                None => {}
            }
        }
        SessionStep::Continue
    }
}

} // verus!
