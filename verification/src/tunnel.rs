//! The tunnel as a whole: what one side takes in, the other side puts out.
//!
//! Client and relay each answer events and upload numbered frames; each hands
//! its session the other side's frames one by one, in the order of their
//! numbers. The laws here put the two sides together.
use vstd::prelude::*;

use crate::connect;
use crate::drive_client;
use crate::drive_client::{ClientSession, InboundView, PumpCommandView, PumpEvent, PumpPhase};
use crate::frame::{FrameKind, SessionId};
use crate::poll;
use crate::poll::EventView;
use crate::session;
use crate::session::{CommandView, Phase, RelaySession, Sent, SessionEvent};

verus! {

/// A side that has half-closed sends no more data.
pub open spec fn half_close_respected(frames: Seq<Sent>) -> bool {
    forall|i: int, j: int|
        0 <= i < j < frames.len() && (#[trigger] frames[i]).kind == FrameKind::Eof ==> (
        #[trigger] frames[j]).kind != FrameKind::Data
}

/// There is an Eof among the frames.
pub open spec fn has_eof(frames: Seq<Sent>) -> bool {
    exists|i: int| 0 <= i < frames.len() && (#[trigger] frames[i]).kind == FrameKind::Eof
}

/// What the relay's session was handed, in order.
pub open spec fn relay_inbound(events: Seq<SessionEvent>) -> Seq<EventView>
    decreases events.len(),
{
    if events.len() == 0 {
        Seq::empty()
    } else {
        let before = relay_inbound(events.drop_last());
        match events.last() {
            SessionEvent::Inbound(i) => before.push(i@),
            _ => before,
        }
    }
}

/// The bytes that the relay wrote to the destination, in order.
pub open spec fn relay_written(
    s: RelaySession,
    allow: Seq<Seq<char>>,
    events: Seq<SessionEvent>,
) -> Seq<u8>
    decreases events.len(),
{
    if events.len() == 0 {
        Seq::empty()
    } else {
        let before = events.drop_last();
        let bytes = relay_written(s, allow, before);
        match session::respond(session::after(s, allow, before), allow, events.last()).1.command {
            CommandView::Write(b) => bytes + b,
            _ => bytes,
        }
    }
}

/// What the client's session was handed, in order.
pub open spec fn client_inbound(events: Seq<PumpEvent>) -> Seq<InboundView>
    decreases events.len(),
{
    if events.len() == 0 {
        Seq::empty()
    } else {
        let before = client_inbound(events.drop_last());
        match events.last() {
            PumpEvent::Inbound(i) => before.push(i@),
            _ => before,
        }
    }
}

/// The bytes that the client wrote to the local socket, in order.
pub open spec fn client_written(s: ClientSession, events: Seq<PumpEvent>) -> Seq<u8>
    decreases events.len(),
{
    if events.len() == 0 {
        Seq::empty()
    } else {
        let before = events.drop_last();
        let bytes = client_written(s, before);
        match drive_client::respond(drive_client::after(s, before), events.last()).1.command {
            PumpCommandView::Write(b) => bytes + b,
            _ => bytes,
        }
    }
}

/// The relay was handed the first of these frames, one after the other.
pub open spec fn relay_reads(frames: Seq<Sent>, events: Seq<SessionEvent>) -> bool {
    let got = relay_inbound(events);
    got.len() <= frames.len() && forall|i: int|
        0 <= i < got.len() ==> poll::relay_event(frames[i].kind, frames[i].payload) == Some(
            #[trigger] got[i],
        )
}

/// The client was handed the first of these frames, one after the other.
pub open spec fn client_reads(frames: Seq<Sent>, events: Seq<PumpEvent>) -> bool {
    let got = client_inbound(events);
    got.len() <= frames.len() && forall|i: int|
        0 <= i < got.len() ==> drive_client::client_event(frames[i].kind, frames[i].payload)
            == Some(#[trigger] got[i])
}

proof fn lemma_data_of_next(frames: Seq<Sent>, n: int)
    requires
        0 <= n < frames.len(),
    ensures
        session::data_of(frames.take(n + 1)) == (if frames[n].kind == FrameKind::Data {
            session::data_of(frames.take(n)) + frames[n].payload
        } else {
            session::data_of(frames.take(n))
        }),
{
    assert(frames.take(n + 1).drop_last() =~= frames.take(n));
}

proof fn lemma_has_eof_next(frames: Seq<Sent>, n: int)
    requires
        0 <= n < frames.len(),
    ensures
        has_eof(frames.take(n)) ==> has_eof(frames.take(n + 1)),
        frames[n].kind == FrameKind::Eof ==> has_eof(frames.take(n + 1)),
        has_eof(frames.take(n)) && half_close_respected(frames) ==> frames[n].kind != FrameKind::Data,
{
    if has_eof(frames.take(n)) {
        let i = choose|i: int|
            0 <= i < frames.take(n).len() && (#[trigger] frames.take(n)[i]).kind == FrameKind::Eof;
        assert(frames.take(n + 1)[i].kind == FrameKind::Eof);
        assert(frames[i].kind == FrameKind::Eof);
    }
    if frames[n].kind == FrameKind::Eof {
        assert(frames.take(n + 1)[n].kind == FrameKind::Eof);
    }
}

proof fn lemma_relay_reads_prefix(frames: Seq<Sent>, events: Seq<SessionEvent>)
    requires
        events.len() > 0,
        relay_reads(frames, events),
    ensures
        relay_reads(frames, events.drop_last()),
{
    let got = relay_inbound(events);
    let before = relay_inbound(events.drop_last());
    assert forall|i: int| 0 <= i < before.len() implies poll::relay_event(
        frames[i].kind,
        frames[i].payload,
    ) == Some(#[trigger] before[i]) by {
        assert(got[i] == before[i]);
    }
}

proof fn lemma_relay_writes(
    sid: SessionId,
    allow: Seq<Seq<char>>,
    frames: Seq<Sent>,
    events: Seq<SessionEvent>,
)
    requires
        session::possible(session::fresh(sid), allow, events),
        relay_reads(frames, events),
        frames.len() > 0 ==> frames[0].kind == FrameKind::Connect,
        half_close_respected(frames),
    ensures
        ({
            let n = relay_inbound(events).len() as int;
            let s = session::after(session::fresh(sid), allow, events);
            &&& relay_written(session::fresh(sid), allow, events) == session::data_of(
                frames.take(n),
            )
            &&& s.phase == Phase::AwaitConnect ==> n == 0
            &&& s.phase != Phase::AwaitConnect && s.phase != Phase::Done ==> n >= 1
            &&& !s.peer_writable ==> has_eof(frames.take(n))
            &&& s.phase == Phase::Shutting ==> has_eof(frames.take(n))
        }),
    decreases events.len(),
{
    let start = session::fresh(sid);
    if events.len() == 0 {
        assert(frames.take(0) =~= Seq::empty());
    } else {
        let before = events.drop_last();
        lemma_relay_reads_prefix(frames, events);
        lemma_relay_writes(sid, allow, frames, before);
        let s = session::after(start, allow, before);
        let n = relay_inbound(before).len() as int;
        let e = events.last();
        if let SessionEvent::Inbound(i) = e {
            let got = relay_inbound(events);
            assert(got[n] == i@);
            assert(poll::relay_event(frames[n].kind, frames[n].payload) == Some(i@));
            lemma_data_of_next(frames, n);
            lemma_has_eof_next(frames, n);
        }
    }
}

/// What the relay writes to the destination are the bytes of the frames that it
/// was handed, in order, whatever else happens in between.
pub proof fn law_relay_writes_what_it_reads(
    sid: SessionId,
    allow: Seq<Seq<char>>,
    frames: Seq<Sent>,
    events: Seq<SessionEvent>,
)
    requires
        session::possible(session::fresh(sid), allow, events),
        relay_reads(frames, events),
        frames.len() > 0 ==> frames[0].kind == FrameKind::Connect,
        half_close_respected(frames),
    ensures
        relay_written(session::fresh(sid), allow, events) == session::data_of(
            frames.take(relay_inbound(events).len() as int),
        ),
{
    lemma_relay_writes(sid, allow, frames, events);
}

proof fn lemma_client_writes(sid: SessionId, first: u64, frames: Seq<Sent>, events: Seq<PumpEvent>)
    requires
        drive_client::possible(drive_client::opened(sid, first), events),
        client_reads(frames, events),
        half_close_respected(frames),
    ensures
        ({
            let n = client_inbound(events).len() as int;
            let s = drive_client::after(drive_client::opened(sid, first), events);
            &&& client_written(drive_client::opened(sid, first), events) == session::data_of(
                frames.take(n),
            )
            &&& !s.local_writable ==> has_eof(frames.take(n))
            &&& s.phase == PumpPhase::Shutting ==> has_eof(frames.take(n))
        }),
    decreases events.len(),
{
    let start = drive_client::opened(sid, first);
    if events.len() == 0 {
        assert(frames.take(0) =~= Seq::empty());
    } else {
        let before = events.drop_last();
        let got = client_inbound(events);
        let got_before = client_inbound(before);
        assert forall|i: int| 0 <= i < got_before.len() implies drive_client::client_event(
            frames[i].kind,
            frames[i].payload,
        ) == Some(#[trigger] got_before[i]) by {
            assert(got[i] == got_before[i]);
        }
        lemma_client_writes(sid, first, frames, before);
        let n = got_before.len() as int;
        if let PumpEvent::Inbound(i) = events.last() {
            assert(got[n] == i@);
            assert(drive_client::client_event(frames[n].kind, frames[n].payload) == Some(i@));
            lemma_data_of_next(frames, n);
            lemma_has_eof_next(frames, n);
        }
    }
}

/// What the client writes to the local socket are the bytes of the frames that
/// it was handed, in order, whatever else happens in between.
pub proof fn law_client_writes_what_it_reads(
    sid: SessionId,
    first: u64,
    frames: Seq<Sent>,
    events: Seq<PumpEvent>,
)
    requires
        drive_client::possible(drive_client::opened(sid, first), events),
        client_reads(frames, events),
        half_close_respected(frames),
    ensures
        client_written(drive_client::opened(sid, first), events) == session::data_of(
            frames.take(client_inbound(events).len() as int),
        ),
{
    lemma_client_writes(sid, first, frames, events);
}

proof fn lemma_appended_respects(frames: Seq<Sent>, more: Seq<Sent>)
    requires
        half_close_respected(frames),
        half_close_respected(more),
        has_eof(frames) ==> forall|j: int|
            0 <= j < more.len() ==> (#[trigger] more[j]).kind != FrameKind::Data,
    ensures
        half_close_respected(frames + more),
        has_eof(frames + more) ==> has_eof(frames) || has_eof(more),
{
    let all = frames + more;
    let k = frames.len() as int;
    assert forall|i: int, j: int|
        0 <= i < j < all.len() && (#[trigger] all[i]).kind == FrameKind::Eof implies (
    #[trigger] all[j]).kind != FrameKind::Data by {
        if j < k {
            assert(frames[i].kind == FrameKind::Eof);
            assert(frames[j].kind != FrameKind::Data);
        } else if i < k {
            assert(frames[i].kind == FrameKind::Eof);
            assert(has_eof(frames));
            assert(more[j - k].kind != FrameKind::Data);
        } else {
            assert(more[i - k].kind == FrameKind::Eof);
            assert(more[j - k].kind != FrameKind::Data);
        }
    }
    if has_eof(all) {
        let i = choose|i: int| 0 <= i < all.len() && (#[trigger] all[i]).kind == FrameKind::Eof;
        if i < k {
            assert(frames[i].kind == FrameKind::Eof);
        } else {
            assert(more[i - k].kind == FrameKind::Eof);
        }
    }
}

proof fn lemma_client_half_close(sid: SessionId, first: u64, events: Seq<PumpEvent>)
    requires
        drive_client::possible(drive_client::opened(sid, first), events),
    ensures
        half_close_respected(drive_client::transcript(drive_client::opened(sid, first), events)),
        has_eof(drive_client::transcript(drive_client::opened(sid, first), events)) ==> ({
            let s = drive_client::after(drive_client::opened(sid, first), events);
            s.local_read_closed
        }),
    decreases events.len(),
{
    if events.len() > 0 {
        let before = events.drop_last();
        let start = drive_client::opened(sid, first);
        lemma_client_half_close(sid, first, before);
        let s = drive_client::after(start, before);
        let frames = drive_client::respond(s, events.last()).1.frames;
        lemma_appended_respects(drive_client::transcript(start, before), frames);
        if has_eof(frames) {
            let i = choose|i: int|
                0 <= i < frames.len() && (#[trigger] frames[i]).kind == FrameKind::Eof;
            assert(events.last() is ReceivedEof);
        }
    }
}

proof fn lemma_relay_half_close(sid: SessionId, allow: Seq<Seq<char>>, events: Seq<SessionEvent>)
    requires
        session::possible(session::fresh(sid), allow, events),
    ensures
        half_close_respected(session::transcript(session::fresh(sid), allow, events)),
        has_eof(session::transcript(session::fresh(sid), allow, events)) ==> ({
            let s = session::after(session::fresh(sid), allow, events);
            s.read_closed
        }),
    decreases events.len(),
{
    if events.len() > 0 {
        let before = events.drop_last();
        let start = session::fresh(sid);
        lemma_relay_half_close(sid, allow, before);
        let s = session::after(start, allow, before);
        let frames = session::respond(s, allow, events.last()).1.frames;
        lemma_appended_respects(session::transcript(start, allow, before), frames);
        if has_eof(frames) {
            let i = choose|i: int|
                0 <= i < frames.len() && (#[trigger] frames[i]).kind == FrameKind::Eof;
            assert(events.last() is ReceivedEof);
        }
    }
}

proof fn lemma_data_prefix(frames: Seq<Sent>, n: int)
    requires
        0 <= n <= frames.len(),
    ensures
        session::data_of(frames.take(n)).is_prefix_of(session::data_of(frames)),
        n == frames.len() ==> session::data_of(frames.take(n)) == session::data_of(frames),
{
    let a = frames.take(n);
    let b = frames.skip(n);
    assert(a + b =~= frames);
    session::lemma_data_of_concat(a, b);
    if n == frames.len() {
        assert(a =~= frames);
    }
}

/// From the local socket to the destination: the relay writes the bytes that the
/// client took in, in order, without loss or addition. At any point these are
/// the beginning of what the client sent, and when the relay was handed all of
/// the client's frames, all of it.
pub proof fn law_local_bytes_reach_destination(
    sid: SessionId,
    host: Seq<char>,
    port: u16,
    preface: Seq<u8>,
    client_events: Seq<PumpEvent>,
    allow: Seq<Seq<char>>,
    relay_events: Seq<SessionEvent>,
)
    requires
        drive_client::possible(
            drive_client::opened(sid, (1 + drive_client::chunk_count(preface.len())) as u64),
            client_events,
        ),
        session::possible(session::fresh(sid), allow, relay_events),
        relay_reads(
            drive_client::session_frames(sid, host, port, preface, client_events),
            relay_events,
        ),
    ensures
        relay_written(session::fresh(sid), allow, relay_events).is_prefix_of(
            preface + drive_client::received(client_events),
        ),
        relay_inbound(relay_events).len() == drive_client::session_frames(
            sid,
            host,
            port,
            preface,
            client_events,
        ).len() ==> relay_written(session::fresh(sid), allow, relay_events) == preface
            + drive_client::received(client_events),
{
    let first = (1 + drive_client::chunk_count(preface.len())) as u64;
    let opening = drive_client::opening(host, port, preface);
    let rest = drive_client::transcript(drive_client::opened(sid, first), client_events);
    let frames = drive_client::session_frames(sid, host, port, preface, client_events);
    lemma_client_half_close(sid, first, client_events);
    assert forall|i: int| 0 <= i < opening.len() implies (#[trigger] opening[i]).kind
        != FrameKind::Eof by {
        if i > 0 {
            assert(opening[i] == drive_client::preface_frame(preface, i - 1));
        }
    }
    assert(half_close_respected(opening));
    lemma_appended_respects(opening, rest);
    assert(frames[0] == opening[0]);
    lemma_relay_writes(sid, allow, frames, relay_events);
    drive_client::law_nothing_lost_from_local(sid, host, port, preface, client_events);
    lemma_data_prefix(frames, relay_inbound(relay_events).len() as int);
}

/// From the destination to the local socket: the client writes the bytes that
/// the relay took in, in order, without loss or addition. At any point these are
/// the beginning of what the destination sent, and when the client was handed
/// all of the relay's frames, all of it.
pub proof fn law_destination_bytes_reach_local(
    sid: SessionId,
    allow: Seq<Seq<char>>,
    relay_events: Seq<SessionEvent>,
    first: u64,
    client_events: Seq<PumpEvent>,
)
    requires
        session::possible(session::fresh(sid), allow, relay_events),
        drive_client::possible(drive_client::opened(sid, first), client_events),
        client_reads(
            session::transcript(session::fresh(sid), allow, relay_events),
            client_events,
        ),
    ensures
        client_written(drive_client::opened(sid, first), client_events).is_prefix_of(
            session::received(relay_events),
        ),
        client_inbound(client_events).len() == session::transcript(
            session::fresh(sid),
            allow,
            relay_events,
        ).len() ==> client_written(drive_client::opened(sid, first), client_events)
            == session::received(relay_events),
{
    let frames = session::transcript(session::fresh(sid), allow, relay_events);
    lemma_relay_half_close(sid, allow, relay_events);
    lemma_client_writes(sid, first, frames, client_events);
    session::law_nothing_lost_from_destination(sid, allow, relay_events);
    lemma_data_prefix(frames, client_inbound(client_events).len() as int);
}

/// The destination that the relay dials is the one that the client asked for.
pub proof fn law_relay_dials_what_was_asked(
    host: Seq<char>,
    port: u16,
    preface: Seq<u8>,
    frames: Seq<Sent>,
    events: Seq<SessionEvent>,
)
    requires
        relay_reads(drive_client::opening(host, port, preface) + frames, events),
        relay_inbound(events).len() > 0,
    ensures
        relay_inbound(events)[0] == (EventView::Connect { host, port }),
{
    connect::law_connect_reads_back(host, port);
    let all = drive_client::opening(host, port, preface) + frames;
    assert(all[0] == drive_client::opening(host, port, preface)[0]);
    assert(poll::relay_event(all[0].kind, all[0].payload) == Some(relay_inbound(events)[0]));
}

} // verus!
