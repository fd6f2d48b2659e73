//! The session manager as mathematics: a map from identifiers to sessions,
//! and what each operation makes of it.

use vstd::prelude::*;
use crate::error::ManagerError;
use crate::session::PtySize;

verus! {

/// One session, as the contracts see it.
pub struct SessionView<H> {
    /// Process id of the child, 0 where the platform told none.
    pub pid: u32,
    /// Output read from the PTY and not yet polled, oldest byte first.
    pub output: Seq<u8>,
    /// The owner of the PTY pair, the child and the writer.
    pub handle: H,
}

/// The registry: the live sessions by identifier.
pub type Model<H> = Map<Seq<char>, SessionView<H>>;

/// The registry after a session was created under `id`.
pub open spec fn created<H>(m: Model<H>, id: Seq<char>, pid: u32, handle: H) -> Model<H> {
    m.insert(id, SessionView { pid, output: Seq::empty(), handle })
}

/// The registry after `id` was killed.
pub open spec fn killed<H>(m: Model<H>, id: Seq<char>) -> Model<H> {
    m.remove(id)
}

/// The registry after the reader task of `id` delivered `chunk`.
pub open spec fn produced<H>(m: Model<H>, id: Seq<char>, chunk: Seq<u8>) -> Model<H> {
    if m.contains_key(id) {
        m.insert(id, SessionView { output: m[id].output + chunk, ..m[id] })
    } else {
        m
    }
}

/// The registry after the output of `id` was polled.
pub open spec fn polled<H>(m: Model<H>, id: Seq<char>) -> Model<H> {
    if m.contains_key(id) {
        m.insert(id, SessionView { output: Seq::empty(), ..m[id] })
    } else {
        m
    }
}

/// What polling the output of `id` returns.
pub open spec fn read_reply<H>(m: Model<H>, id: Seq<char>) -> Result<Seq<u8>, ManagerError> {
    if m.contains_key(id) {
        Ok(m[id].output)
    } else {
        Err(ManagerError::NotFound)
    }
}

/// Where a write to `id` goes.
pub open spec fn write_reply<H>(m: Model<H>, id: Seq<char>) -> Result<H, ManagerError> {
    if m.contains_key(id) {
        Ok(m[id].handle)
    } else {
        Err(ManagerError::NotFound)
    }
}

/// Where a resize of `id` goes, and the dimensions it sets.
pub open spec fn resize_reply<H>(m: Model<H>, id: Seq<char>, cols: u16, rows: u16) -> Result<
    (H, PtySize),
    ManagerError,
> {
    if m.contains_key(id) {
        Ok((m[id].handle, PtySize::cells(cols, rows)))
    } else {
        Err(ManagerError::NotFound)
    }
}

/// Something that happens to one session's output: its reader task
/// delivers a chunk, or a caller polls.
pub enum OutputEvent {
    /// The reader task delivered these bytes.
    Produced(Seq<u8>),
    /// A caller polled the output.
    Polled,
}

/// The registry after `events` happened, in order, to the output of `id`.
pub open spec fn replayed<H>(m: Model<H>, id: Seq<char>, events: Seq<OutputEvent>) -> Model<H>
    decreases events.len(),
{
    if events.len() == 0 {
        m
    } else {
        let before = replayed(m, id, events.drop_last());
        match events.last() {
            OutputEvent::Produced(chunk) => produced(before, id, chunk),
            OutputEvent::Polled => polled(before, id),
        }
    }
}

/// Everything that the polls among `events` returned, one result after the
/// other.
pub open spec fn delivered<H>(m: Model<H>, id: Seq<char>, events: Seq<OutputEvent>) -> Seq<u8>
    decreases events.len(),
{
    if events.len() == 0 {
        Seq::empty()
    } else {
        let before = replayed(m, id, events.drop_last());
        delivered(m, id, events.drop_last()) + (match events.last() {
            OutputEvent::Produced(_) => Seq::empty(),
            OutputEvent::Polled => match read_reply(before, id) {
                Ok(bytes) => bytes,
                Err(_) => Seq::empty(),
            },
        })
    }
}

/// Everything that the reader task delivered among `events`, one chunk after
/// the other.
pub open spec fn fed(events: Seq<OutputEvent>) -> Seq<u8>
    decreases events.len(),
{
    if events.len() == 0 {
        Seq::empty()
    } else {
        fed(events.drop_last()) + (match events.last() {
            OutputEvent::Produced(chunk) => chunk,
            OutputEvent::Polled => Seq::empty(),
        })
    }
}

} // verus!
