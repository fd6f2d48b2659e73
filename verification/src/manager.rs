//! The session manager: the registry of live sessions and the decisions of
//! its five operations.
//!
//! The manager never touches a PTY itself. `H` is whatever the caller uses to
//! own one (the pair, the child and the writer); the manager keeps it from
//! creation until `kill`, and lends it out for a write or a resize. The
//! caller performs each operating-system call and asks `after_io` what
//! follows it.

use vstd::prelude::*;
use crate::error::{IoFailure, IoStage, ManagerError, SpawnFailure};
use crate::model::{
    created,
    killed,
    polled,
    produced,
    read_reply,
    resize_reply,
    write_reply,
    Model,
    SessionView,
};
use crate::output_buffer::OutputBuffer;
use crate::registry::Registry;
use crate::session::{PtySize, Spawned};

verus! {

/// One live session.
struct Session<H> {
    pid: u32,
    output: OutputBuffer,
    handle: H,
}

impl<H> View for Session<H> {
    type V = SessionView<H>;

    closed spec fn view(&self) -> SessionView<H> {
        SessionView { pid: self.pid, output: self.output@, handle: self.handle }
    }
}

/// How many bytes the reader task asks the PTY master for at a time.
pub const READ_CHUNK: usize = 4096;

/// What the reader task got from one blocking read of the PTY master.
pub enum ReadEvent<'a> {
    /// The bytes that the read returned; none at the end of the stream.
    Chunk(&'a [u8]),
    /// The read failed.
    Failed,
}

/// The registry of live sessions.
///
/// The view is the map from identifier to session.
pub struct TerminalManager<H> {
    sessions: Registry<Session<H>>,
}

impl<H> View for TerminalManager<H> {
    type V = Model<H>;

    closed spec fn view(&self) -> Model<H> {
        Map::new(
            |id: Seq<char>| self.sessions@.contains_key(id),
            |id: Seq<char>| self.sessions@[id]@,
        )
    }
}

/// The text of a session identifier: 36 characters, lower-case hexadecimal
/// digits in groups of 8, 4, 4, 4 and 12 with hyphens between, the third
/// group starting with the version digit 4 and the fourth with the variant
/// digit.
pub open spec fn is_session_id(id: Seq<char>) -> bool {
    &&& id.len() == 36
    &&& forall|i: int|
        0 <= i < 36 ==> if i == 8 || i == 13 || i == 18 || i == 23 {
            #[trigger] id[i] == '-'
        } else {
            ('0' <= id[i] <= '9') || ('a' <= id[i] <= 'f')
        }
    &&& id[14] == '4'
    &&& (id[19] == '8' || id[19] == '9' || id[19] == 'a' || id[19] == 'b')
}

/// A new random identifier.
///
/// Calls `uuid::Uuid::new_v4` and `to_string` on the result. The contract
/// claims only the shape of the text, which holds of every version-4 UUID in
/// its hyphenated lower-case form; which identifier comes out is left open.
#[verifier::external_body]
fn fresh_session_id() -> (id: String)
    ensures
        is_session_id(id@),
{
    uuid::Uuid::new_v4().to_string()
}

/// What follows one PTY call of a write or a resize.
#[derive(Debug, PartialEq, Eq)]
pub enum IoStep {
    /// The operation goes on with this call.
    Perform(IoStage),
    /// The operation is over, with this reply to its caller.
    Reply(Result<(), ManagerError>),
}

/// An `IoStep` as the contracts see it.
pub enum IoStepView {
    /// The operation goes on with this call.
    Perform(IoStage),
    /// The operation is over and went through.
    Done,
    /// The operation is over and failed, with this message.
    Failed(Seq<char>),
}

/// The step that follows the PTY call `stage` with the given outcome, the
/// error being the operating system's account. A failed call ends the
/// operation with its prefix and the account; a write that went through is
/// followed by the flush; a flush or a resize that went through ends the
/// operation with success.
pub open spec fn next_io_step(stage: IoStage, outcome: Result<(), String>) -> IoStepView {
    match outcome {
        Err(detail) => IoStepView::Failed(stage.prefix() + detail@),
        Ok(_) => match stage {
            IoStage::Write => IoStepView::Perform(IoStage::Flush),
            IoStage::Flush => IoStepView::Done,
            IoStage::Resize => IoStepView::Done,
        },
    }
}

impl View for IoStep {
    type V = IoStepView;

    open spec fn view(&self) -> IoStepView {
        match self {
            IoStep::Perform(stage) => IoStepView::Perform(*stage),
            IoStep::Reply(Ok(_)) => IoStepView::Done,
            IoStep::Reply(Err(error)) => IoStepView::Failed(error.text()),
        }
    }
}

/// Decides what follows a PTY call that the caller has carried out for a
/// write or a resize. A write starts with the call `IoStage::Write`, a
/// resize with `IoStage::Resize`; the caller goes on as long as the result is
/// `Perform`. A failure is replied as `IoError`.
pub fn after_io(stage: IoStage, outcome: Result<(), String>) -> (step: IoStep)
    ensures
        step@ == next_io_step(stage, outcome),
        step matches IoStep::Reply(Err(error)) ==> error is IoError,
{
    match outcome {
        Err(detail) => {
            let failure = IoFailure { stage, detail };
            IoStep::Reply(Err(ManagerError::from_io_failure(&failure)))
        },
        Ok(_) => match stage {
            IoStage::Write => IoStep::Perform(IoStage::Flush),
            IoStage::Flush => IoStep::Reply(Ok(())),
            IoStage::Resize => IoStep::Reply(Ok(())),
        },
    }
}

impl<H> TerminalManager<H> {
    /// The representation invariant.
    pub closed spec fn wf(&self) -> bool {
        self.sessions.wf()
    }

    /// The view is a finite map.
    pub proof fn lemma_finite(&self)
        requires
            self.wf(),
        ensures
            self@.dom().finite(),
    {
        self.sessions.lemma_order();
        assert(self@.dom() =~= self.sessions@.dom());
    }

    /// A manager without sessions.
    pub fn new() -> (manager: Self)
        ensures
            manager.wf(),
            manager@ == Map::<Seq<char>, SessionView<H>>::empty(),
    {
        let manager = TerminalManager { sessions: Registry::new() };
        assert(manager@ =~= Map::<Seq<char>, SessionView<H>>::empty());
        manager
    }

    /// Number of live sessions.
    pub fn len(&self) -> (n: usize)
        requires
            self.wf(),
        ensures
            n == self@.len(),
    {
        proof {
            assert(self@.dom() =~= self.sessions@.dom());
        }
        self.sessions.len()
    }

    /// Whether a session with this identifier is live.
    pub fn contains(&self, id: &str) -> (live: bool)
        requires
            self.wf(),
        ensures
            live == self@.contains_key(id@),
    {
        self.sessions.contains_key(id)
    }

    /// The process id recorded for a session.
    pub fn pid(&self, id: &str) -> (pid: Option<u32>)
        requires
            self.wf(),
        ensures
            pid == if self@.contains_key(id@) {
                Some(self@[id@].pid)
            } else {
                None
            },
    {
        match self.sessions.get(id) {
            Some(session) => Some(session.pid),
            None => None,
        }
    }

    /// Ends the creation of a session under a given identifier.
    ///
    /// `spawned` is what opening the PTY and starting the command came to.
    /// Where that failed, the registry stays as it is and the failure is
    /// returned as `SpawnError`. Where it succeeded, the session is
    /// registered under `id` with no output pending, and `id` comes back with
    /// the child's process id, 0 where none is known. A session already
    /// registered under `id` is replaced.
    pub fn register(&mut self, id: String, spawned: Result<Spawned<H>, SpawnFailure>) -> (reply:
        Result<(String, u32), ManagerError>)
        requires
            old(self).wf(),
        ensures
            final(self).wf(),
            match spawned {
                Ok(s) => {
                    &&& reply matches Ok((name, pid))
                    &&& name@ == id@
                    &&& pid == (match s.pid {
                        Some(p) => p,
                        None => 0,
                    })
                    &&& final(self)@ == created(old(self)@, id@, pid, s.handle)
                },
                Err(failure) => {
                    &&& reply matches Err(ManagerError::SpawnError(message))
                    &&& message@ == failure.text()
                    &&& final(self)@ == old(self)@
                },
            },
    {
        match spawned {
            Ok(s) => {
                let pid: u32 = match s.pid {
                    Some(p) => p,
                    None => 0,
                };
                let session = Session { pid, output: OutputBuffer::new(), handle: s.handle };
                self.sessions.insert(id.clone(), session);
                assert(self@ =~= created(old(self)@, id@, pid, s.handle));
                Ok((id, pid))
            },
            Err(failure) => Err(ManagerError::from_spawn_failure(&failure)),
        }
    }

    /// Ends the creation of a session under a fresh random identifier.
    ///
    /// As `register`, with an identifier that is drawn here. Which one
    /// is not determined; it has the shape of `is_session_id`.
    pub fn create_session(&mut self, spawned: Result<Spawned<H>, SpawnFailure>) -> (reply: Result<
        (String, u32),
        ManagerError,
    >)
        requires
            old(self).wf(),
        ensures
            final(self).wf(),
            match spawned {
                Ok(s) => {
                    &&& reply matches Ok((name, pid))
                    &&& is_session_id(name@)
                    &&& pid == (match s.pid {
                        Some(p) => p,
                        None => 0,
                    })
                    &&& final(self)@ == created(old(self)@, name@, pid, s.handle)
                },
                Err(failure) => {
                    &&& reply matches Err(ManagerError::SpawnError(message))
                    &&& message@ == failure.text()
                    &&& final(self)@ == old(self)@
                },
            },
    {
        let id = fresh_session_id();
        self.register(id, spawned)
    }

    /// Finds the session that a write addresses.
    ///
    /// Returns the handle to write the bytes to, or `NotFound`. The caller
    /// writes all the bytes to it and lets `after_io` lead on from there, to
    /// the flush and to the reply.
    pub fn write(&self, id: &str) -> (reply: Result<&H, ManagerError>)
        requires
            self.wf(),
        ensures
            match reply {
                Ok(handle) => write_reply(self@, id@) == Ok::<H, ManagerError>(*handle),
                Err(error) => write_reply(self@, id@) == Err::<H, ManagerError>(error),
            },
    {
        match self.sessions.get(id) {
            Some(session) => Ok(&session.handle),
            None => Err(ManagerError::NotFound),
        }
    }

    /// Finds the session that a resize addresses.
    ///
    /// Returns the handle to resize and the dimensions to give it, `cols` by
    /// `rows` cells with no pixel dimensions, or `NotFound`. The caller
    /// carries the resize out and has the reply from `after_io`.
    pub fn resize(&self, id: &str, cols: u16, rows: u16) -> (reply: Result<
        (&H, PtySize),
        ManagerError,
    >)
        requires
            self.wf(),
        ensures
            match reply {
                Ok((handle, size)) => resize_reply(self@, id@, cols, rows) == Ok::<
                    (H, PtySize),
                    ManagerError,
                >((*handle, size)),
                Err(error) => resize_reply(self@, id@, cols, rows) == Err::<
                    (H, PtySize),
                    ManagerError,
                >(error),
            },
    {
        match self.sessions.get(id) {
            Some(session) => Ok((&session.handle, PtySize::of_cells(cols, rows))),
            None => Err(ManagerError::NotFound),
        }
    }

    /// Removes and returns all output pending for a session; none pending is
    /// an empty result, not an error. Fails with `NotFound` for an unknown
    /// identifier.
    pub fn read(&mut self, id: &str) -> (reply: Result<Vec<u8>, ManagerError>)
        requires
            old(self).wf(),
        ensures
            final(self).wf(),
            final(self)@ == polled(old(self)@, id@),
            match reply {
                Ok(bytes) => read_reply(old(self)@, id@) == Ok::<Seq<u8>, ManagerError>(bytes@),
                Err(error) => read_reply(old(self)@, id@) == Err::<Seq<u8>, ManagerError>(error),
            },
    {
        match self.sessions.get_mut(id) {
            Some(session) => {
                let bytes = session.output.drain();
                assert(self@ =~= polled(old(self)@, id@));
                Ok(bytes)
            },
            None => {
                assert(self@ =~= polled(old(self)@, id@));
                Err(ManagerError::NotFound)
            },
        }
    }

    /// Removes a session, releasing its handle. Removing an identifier that
    /// is not registered changes nothing and is no error.
    pub fn kill(&mut self, id: &str)
        requires
            old(self).wf(),
        ensures
            final(self).wf(),
            final(self)@ == killed(old(self)@, id@),
    {
        let _ = self.sessions.remove(id);
        assert(self@ =~= killed(old(self)@, id@));
    }

    /// One turn of a session's reader task: takes what a blocking read of
    /// the PTY master returned and says whether to read again.
    ///
    /// A non-empty chunk is added behind the session's pending output, and
    /// reading goes on. An empty chunk is the end of the stream, and a
    /// failed read ends the task as well; neither changes anything. A chunk
    /// for a session that has been killed is dropped.
    pub fn reader_step(&mut self, id: &str, event: ReadEvent<'_>) -> (again: bool)
        requires
            old(self).wf(),
        ensures
            final(self).wf(),
            again == (event matches ReadEvent::Chunk(chunk) && chunk@.len() > 0),
            final(self)@ == (match event {
                ReadEvent::Chunk(chunk) => produced(old(self)@, id@, chunk@),
                ReadEvent::Failed => old(self)@,
            }),
    {
        match event {
            ReadEvent::Chunk(chunk) => {
                if chunk.len() == 0 {
                    assert(chunk@ =~= Seq::<u8>::empty());
                    assert(self@ =~= produced(old(self)@, id@, chunk@)) by {
                        if self@.contains_key(id@) {
                            assert(self@[id@].output + chunk@ =~= self@[id@].output);
                        }
                    }
                    false
                } else {
                    match self.sessions.get_mut(id) {
                        Some(session) => {
                            session.output.append(chunk);
                        },
                        None => {},
                    }
                    assert(self@ =~= produced(old(self)@, id@, chunk@));
                    true
                }
            },
            ReadEvent::Failed => false,
        }
    }
}

} // verus!
