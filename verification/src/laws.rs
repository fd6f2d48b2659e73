//! What holds of the session manager whatever the sessions and whatever the
//! order of the calls.

use vstd::prelude::*;
use crate::error::ManagerError;
use crate::model::{
    created,
    delivered,
    fed,
    killed,
    polled,
    produced,
    read_reply,
    replayed,
    resize_reply,
    write_reply,
    Model,
    OutputEvent,
};
use crate::session::PtySize;

verus! {

/// Creating a session and killing it at once leaves no session under that
/// identifier; if none was there before, the registry is as it was.
pub proof fn law_create_then_kill<H>(m: Model<H>, id: Seq<char>, pid: u32, handle: H)
    ensures
        !killed(created(m, id, pid, handle), id).contains_key(id),
        !m.contains_key(id) ==> killed(created(m, id, pid, handle), id) == m,
        killed(created(m, id, pid, handle), id) == killed(m, id),
{
    assert(killed(created(m, id, pid, handle), id) =~= killed(m, id));
    if !m.contains_key(id) {
        assert(killed(m, id) =~= m);
    }
}

/// A session is live from its creation on: until it is killed, a write, a
/// resize and a poll find it, and a poll right after creation is empty.
pub proof fn law_created_is_found<H>(
    m: Model<H>,
    id: Seq<char>,
    pid: u32,
    handle: H,
    cols: u16,
    rows: u16,
)
    ensures
        write_reply(created(m, id, pid, handle), id) is Ok,
        resize_reply(created(m, id, pid, handle), id, cols, rows) is Ok,
        read_reply(created(m, id, pid, handle), id) == Ok::<Seq<u8>, ManagerError>(Seq::empty()),
{
}

/// Polling a session that has no output pending returns the empty result
/// and changes nothing, however often it is done.
pub proof fn law_empty_read<H>(m: Model<H>, id: Seq<char>)
    requires
        m.contains_key(id),
        m[id].output == Seq::<u8>::empty(),
    ensures
        read_reply(m, id) == Ok::<Seq<u8>, ManagerError>(Seq::empty()),
        polled(m, id) == m,
{
    assert(polled(m, id) =~= m);
}

/// After a poll nothing is pending: a second poll right behind it returns
/// the empty result and leaves the registry as the first one left it.
pub proof fn law_read_drains<H>(m: Model<H>, id: Seq<char>)
    requires
        m.contains_key(id),
    ensures
        read_reply(polled(m, id), id) == Ok::<Seq<u8>, ManagerError>(Seq::empty()),
        polled(polled(m, id), id) == polled(m, id),
{
    assert(polled(polled(m, id), id) =~= polled(m, id));
}

/// On an identifier that is not registered, a write, a resize and a poll
/// fail with `NotFound` and with nothing else, and change nothing.
pub proof fn law_unknown_id<H>(m: Model<H>, id: Seq<char>, cols: u16, rows: u16, chunk: Seq<u8>)
    requires
        !m.contains_key(id),
    ensures
        write_reply(m, id) == Err::<H, ManagerError>(ManagerError::NotFound),
        resize_reply(m, id, cols, rows) == Err::<(H, PtySize), ManagerError>(
            ManagerError::NotFound,
        ),
        read_reply(m, id) == Err::<Seq<u8>, ManagerError>(ManagerError::NotFound),
        polled(m, id) == m,
        produced(m, id, chunk) == m,
{
}

/// Killing an identifier that is not registered changes nothing.
pub proof fn law_kill_unknown<H>(m: Model<H>, id: Seq<char>)
    requires
        !m.contains_key(id),
    ensures
        killed(m, id) == m,
{
    assert(killed(m, id) =~= m);
}

/// Killing twice is killing once.
pub proof fn law_kill_idempotent<H>(m: Model<H>, id: Seq<char>)
    ensures
        killed(killed(m, id), id) == killed(m, id),
{
    assert(killed(killed(m, id), id) =~= killed(m, id));
}

/// After a kill the identifier is gone: a write, a resize and a poll on it
/// fail with `NotFound`. Every other session is as it was.
pub proof fn law_killed_is_not_found<H>(m: Model<H>, id: Seq<char>, cols: u16, rows: u16)
    ensures
        !killed(m, id).contains_key(id),
        write_reply(killed(m, id), id) == Err::<H, ManagerError>(ManagerError::NotFound),
        resize_reply(killed(m, id), id, cols, rows) == Err::<
            (H, PtySize),
            ManagerError,
        >(ManagerError::NotFound),
        read_reply(killed(m, id), id) == Err::<Seq<u8>, ManagerError>(ManagerError::NotFound),
        forall|other: Seq<char>|
            other != id ==> (#[trigger] killed(m, id).contains_key(other) == m.contains_key(other))
                && (m.contains_key(other) ==> killed(m, id)[other] == m[other]),
{
}

/// Output comes out in the order in which it went in, each byte once:
/// whatever the interleaving of the reader task's chunks and the callers'
/// polls on a live session, the poll results one after the other, followed
/// by what is still pending, are what was pending at the start followed by
/// the chunks one after the other. The session stays live throughout, and no
/// other session is touched.
pub proof fn law_output_order<H>(m: Model<H>, id: Seq<char>, events: Seq<OutputEvent>)
    requires
        m.contains_key(id),
    ensures
        replayed(m, id, events).contains_key(id),
        delivered(m, id, events) + replayed(m, id, events)[id].output == m[id].output + fed(
            events,
        ),
        replayed(m, id, events)[id].pid == m[id].pid,
        replayed(m, id, events)[id].handle == m[id].handle,
        forall|other: Seq<char>|
            other != id ==> (#[trigger] replayed(m, id, events).contains_key(other)
                == m.contains_key(other)) && (m.contains_key(other) ==> replayed(
                m,
                id,
                events,
            )[other] == m[other]),
    decreases events.len(),
{
    if events.len() == 0 {
        assert(delivered(m, id, events) + m[id].output =~= m[id].output + fed(events));
    } else {
        let earlier = events.drop_last();
        law_output_order(m, id, earlier);
        let before = replayed(m, id, earlier);
        let after = replayed(m, id, events);
        match events.last() {
            OutputEvent::Produced(chunk) => {
                assert(delivered(m, id, events) =~= delivered(m, id, earlier));
                assert(delivered(m, id, events) + after[id].output =~= (delivered(m, id, earlier)
                    + before[id].output) + chunk);
                assert(m[id].output + fed(events) =~= (m[id].output + fed(earlier)) + chunk);
            },
            OutputEvent::Polled => {
                assert(delivered(m, id, events) + after[id].output =~= delivered(m, id, earlier)
                    + before[id].output);
                assert(m[id].output + fed(events) =~= m[id].output + fed(earlier));
            },
        }
    }
}

/// What is polled from a session never depends on another session's output:
/// events on `other` leave the reply of a poll on `id` as it was.
pub proof fn law_sessions_independent<H>(
    m: Model<H>,
    id: Seq<char>,
    other: Seq<char>,
    events: Seq<OutputEvent>,
)
    requires
        other != id,
    ensures
        read_reply(replayed(m, other, events), id) == read_reply(m, id),
        write_reply(replayed(m, other, events), id) == write_reply(m, id),
    decreases events.len(),
{
    if events.len() > 0 {
        law_sessions_independent(m, id, other, events.drop_last());
    }
}

} // verus!
