//! The client's side of a Drive session: opening it, pumping it, and taking
//! the relay's frames.
use bytes::Bytes;
use vstd::prelude::*;
use vstd::slice::slice_subrange;
use vstd::utf8::encode_utf8;

use crate::connect;
use crate::filename::{Direction, DriveFilename, FilenameKind};
use crate::frame;
use crate::frame::{FrameKind, SessionId, WireFrame, WIRE_VERSION};
use crate::listing;
use crate::listing::{DriveFile, ListedFile, Sessions};
use crate::numeral;
use crate::poll;
use crate::poll::{Fetched, FrameAction};
use crate::replay::SessionTable;
use crate::session;
use crate::session::Sent;

verus! {

/// How much is read from the local socket at a time.
pub const LOCAL_SOCKET_READ_BUFFER: usize = 16384;

/// A frame of this version.
pub fn build_wire_frame(kind: FrameKind, sid: SessionId, seq: u64, payload: Bytes) -> (f: WireFrame)
    ensures
        f == (WireFrame { version: WIRE_VERSION, kind, sid, seq, payload }),
{
    WireFrame { version: WIRE_VERSION, kind, sid, seq, payload }
}

fn build_bare_frame(kind: FrameKind, sid: SessionId, seq: u64) -> (f: WireFrame)
    ensures
        f.version == WIRE_VERSION,
        f.sid == sid,
        session::sent(f) == session::bare(kind, seq as int),
{
    let empty: Vec<u8> = Vec::new();
    let payload = frame::bytes_from_slice(empty.as_slice());
    proof {
        assert(frame::content(payload) =~= Seq::empty());
    }
    build_wire_frame(kind, sid, seq, payload)
}

/// How many data frames bytes are cut into.
pub open spec fn chunk_count(len: nat) -> nat {
    (len + 16383) as nat / 16384
}

/// The `i`-th piece of bytes that are cut into data frames.
pub open spec fn chunk(preface: Seq<u8>, i: int) -> Seq<u8> {
    let start = i * 16384;
    let end = if start + 16384 < preface.len() {
        start + 16384
    } else {
        preface.len() as int
    };
    preface.subrange(start, end)
}

/// The `i`-th data frame of a session's opening.
pub open spec fn preface_frame(preface: Seq<u8>, i: int) -> Sent {
    Sent { kind: FrameKind::Data, seq: (1 + i) as u64, payload: chunk(preface, i) }
}

/// The frames that open a session: a Connect with the destination under
/// sequence number 0, then the bytes that are already there.
pub open spec fn opening(host: Seq<char>, port: u16, preface: Seq<u8>) -> Seq<Sent> {
    seq![
        Sent {
            kind: FrameKind::Connect,
            seq: 0,
            payload: encode_utf8(connect::address_text(host, port)),
        },
    ] + Seq::new(chunk_count(preface.len()), |i: int| preface_frame(preface, i))
}

/// The frames that open a session, to be uploaded in order after its opener.
pub fn opening_frames(sid: SessionId, host: &str, port: u16, preface: &[u8]) -> (frames: Vec<
    WireFrame,
>)
    ensures
        session::all_sent(frames@) == opening(host@, port, preface@),
        forall|i: int|
            0 <= i < frames@.len() ==> (#[trigger] frames@[i]).sid == sid && frames@[i].version
                == WIRE_VERSION,
{
    let address = connect::connect_address(host, port);
    let payload = frame::bytes_from_slice(address.as_str().as_bytes());
    let mut frames: Vec<WireFrame> = Vec::new();
    frames.push(build_wire_frame(FrameKind::Connect, sid, 0, payload));
    let ghost first = session::sent(frames@[0]);
    let len: usize = preface.len();
    let mut at: usize = 0;
    let mut seq: u64 = 1;
    while at < len
        invariant
            at <= len == preface@.len(),
            1 <= seq,
            at == len || at == (seq - 1) * 16384,
            at == len ==> seq - 1 == chunk_count(len as nat),
            at < len ==> seq <= at as u64 + 1,
            seq - 1 <= chunk_count(len as nat),
            frames@.len() == seq,
            session::sent(frames@[0]) == first,
            forall|i: int|
                0 <= i < frames@.len() ==> (#[trigger] frames@[i]).sid == sid && frames@[i].version
                    == WIRE_VERSION,
            forall|i: int|
                1 <= i < frames@.len() ==> session::sent(#[trigger] frames@[i]) == preface_frame(
                    preface@,
                    i - 1,
                ),
        decreases len - at,
    {
        let end: usize = if len - at > LOCAL_SOCKET_READ_BUFFER {
            at + LOCAL_SOCKET_READ_BUFFER
        } else {
            len
        };
        let payload = frame::bytes_from_slice(slice_subrange(preface, at, end));
        proof {
            assert(frame::content(payload) =~= chunk(preface@, seq - 1));
        }
        frames.push(build_wire_frame(FrameKind::Data, sid, seq, payload));
        at = end;
        seq = seq + 1;
    }
    proof {
        assert(session::all_sent(frames@) =~= opening(host@, port, preface@));
    }
    frames
}

/// The data frames of an opening carry exactly the bytes that were there, in
/// order, and none is empty or longer than a read.
pub proof fn law_opening_carries_preface(host: Seq<char>, port: u16, preface: Seq<u8>)
    ensures
        session::data_of(opening(host, port, preface)) == preface,
        forall|i: int|
            0 <= i < chunk_count(preface.len()) ==> 0 < (#[trigger] chunk(preface, i)).len()
                <= LOCAL_SOCKET_READ_BUFFER,
{
    let all = opening(host, port, preface);
    let n = chunk_count(preface.len());
    reveal_with_fuel(session::data_of, 2);
    assert(all.take(1).drop_last() =~= Seq::empty());
    lemma_opening_prefix(host, port, preface, n);
    assert(all.take(1 + n as int) =~= all);
    if n > 0 {
        assert(preface.take(preface.len() as int) =~= preface);
    } else {
        assert(preface =~= Seq::empty());
    }
}

/// How many of the bytes the first `n` pieces cover.
pub open spec fn covered(len: nat, n: nat) -> int {
    if n * 16384 < len {
        n as int * 16384
    } else {
        len as int
    }
}

proof fn lemma_opening_prefix(host: Seq<char>, port: u16, preface: Seq<u8>, n: nat)
    requires
        n <= chunk_count(preface.len()),
    ensures
        session::data_of(opening(host, port, preface).take(1 + n as int)) == preface.take(
            covered(preface.len(), n),
        ),
    decreases n,
{
    let all = opening(host, port, preface);
    if n == 0 {
        reveal_with_fuel(session::data_of, 2);
        assert(all.take(1).drop_last() =~= Seq::empty());
        assert(preface.take(0) =~= Seq::empty());
    } else {
        lemma_opening_prefix(host, port, preface, (n - 1) as nat);
        let t = all.take(1 + n as int);
        assert(t.drop_last() =~= all.take(n as int));
        assert(t.last() == preface_frame(preface, n - 1));
        assert(preface.take(covered(preface.len(), (n - 1) as nat)) + chunk(preface, n - 1)
            =~= preface.take(covered(preface.len(), n)));
    }
}

/// A frame from the relay, opened and checked.
#[derive(Debug)]
pub enum InboundFrame {
    Data(Bytes),
    Eof,
    Close,
}

/// What happened to a session.
pub enum PumpEvent {
    Inbound(InboundFrame),
    /// The inbound mailbox is closed.
    InboundClosed,
    /// A write to the local socket completed, or failed.
    Written(bool),
    /// The write side of the local socket was shut down.
    ShutDown,
    /// The local socket gave bytes.
    Received(Bytes),
    /// The local socket half-closed.
    ReceivedEof,
    ReadFailed,
    /// The upload of a data frame completed, or failed.
    Uploaded(bool),
}

/// Where a session stands.
#[derive(Debug, Clone, Copy, PartialEq, Eq, Structural)]
pub enum PumpPhase {
    Open,
    Writing,
    Shutting,
    Uploading,
    Done,
}

/// How a session ended.
#[derive(Debug, Clone, Copy, PartialEq, Eq, Structural)]
pub enum PumpEnd {
    Closed,
    WriteFailed,
    ReadFailed,
    UploadFailed,
}

/// What the caller does after a step's uploads.
pub enum PumpCommand {
    /// Wait for an inbound frame, or for the local socket while it has not
    /// half-closed.
    Wait,
    Write(Bytes),
    ShutdownWrite,
    /// Report whether the upload of the step's frame succeeded.
    AwaitUpload,
    Finish(PumpEnd),
}

/// The answer to an event.
pub struct PumpStep {
    /// Frames to upload, in order.
    pub frames: Vec<WireFrame>,
    pub command: PumpCommand,
}

/// A session on the client's side.
pub struct ClientSession {
    pub sid: SessionId,
    pub phase: PumpPhase,
    /// The sequence number of the next outbound frame.
    pub next_seq: u64,
    /// The relay has not half-closed.
    pub local_writable: bool,
    /// The local socket has half-closed.
    pub local_read_closed: bool,
}

/// A command over views.
pub enum PumpCommandView {
    Wait,
    Write(Seq<u8>),
    ShutdownWrite,
    AwaitUpload,
    Finish(PumpEnd),
}

/// A step over views.
pub struct PumpStepView {
    pub frames: Seq<Sent>,
    pub command: PumpCommandView,
}

impl View for PumpCommand {
    type V = PumpCommandView;

    open spec fn view(&self) -> PumpCommandView {
        match self {
            PumpCommand::Wait => PumpCommandView::Wait,
            PumpCommand::Write(b) => PumpCommandView::Write(frame::content(*b)),
            PumpCommand::ShutdownWrite => PumpCommandView::ShutdownWrite,
            PumpCommand::AwaitUpload => PumpCommandView::AwaitUpload,
            PumpCommand::Finish(end) => PumpCommandView::Finish(*end),
        }
    }
}

impl View for PumpStep {
    type V = PumpStepView;

    open spec fn view(&self) -> PumpStepView {
        PumpStepView { frames: session::all_sent(self.frames@), command: self.command@ }
    }
}

/// The session in another phase.
pub open spec fn in_phase(s: ClientSession, phase: PumpPhase) -> ClientSession {
    ClientSession { phase, ..s }
}

/// A step that only commands.
pub open spec fn just(command: PumpCommandView) -> PumpStepView {
    PumpStepView { frames: Seq::empty(), command }
}

/// The end of a session with a Close under the next sequence number.
pub open spec fn closing(s: ClientSession, end: PumpEnd) -> (ClientSession, PumpStepView) {
    (
        in_phase(s, PumpPhase::Done),
        PumpStepView {
            frames: seq![session::bare(FrameKind::Close, s.next_seq as int)],
            command: PumpCommandView::Finish(end),
        },
    )
}

/// The events that can happen to a session where it stands. The local socket
/// is not read once it has half-closed, and a read is never empty.
pub open spec fn accepts(s: ClientSession, e: PumpEvent) -> bool {
    match s.phase {
        PumpPhase::Open => match e {
            PumpEvent::Inbound(_) => true,
            PumpEvent::InboundClosed => true,
            PumpEvent::Received(b) => !s.local_read_closed && frame::content(b).len() > 0,
            PumpEvent::ReceivedEof => !s.local_read_closed,
            PumpEvent::ReadFailed => !s.local_read_closed,
            _ => false,
        },
        PumpPhase::Writing => e is Written,
        PumpPhase::Shutting => e is ShutDown,
        PumpPhase::Uploading => e is Uploaded,
        PumpPhase::Done => false,
    }
}

/// What an event makes of a session.
pub open spec fn respond(s: ClientSession, e: PumpEvent) -> (ClientSession, PumpStepView) {
    let done = in_phase(s, PumpPhase::Done);
    match e {
        PumpEvent::Inbound(InboundFrame::Data(b)) => if s.local_writable {
            (
                in_phase(s, PumpPhase::Writing),
                just(PumpCommandView::Write(frame::content(b))),
            )
        } else {
            (s, just(PumpCommandView::Wait))
        },
        PumpEvent::Inbound(InboundFrame::Eof) => (
            in_phase(s, PumpPhase::Shutting),
            just(PumpCommandView::ShutdownWrite),
        ),
        PumpEvent::Inbound(InboundFrame::Close) => (
            done,
            just(PumpCommandView::Finish(PumpEnd::Closed)),
        ),
        PumpEvent::InboundClosed => (done, just(PumpCommandView::Finish(PumpEnd::Closed))),
        PumpEvent::Written(ok) => if ok {
            (in_phase(s, PumpPhase::Open), just(PumpCommandView::Wait))
        } else {
            closing(s, PumpEnd::WriteFailed)
        },
        PumpEvent::ShutDown => {
            let t = ClientSession { local_writable: false, ..s };
            if s.local_read_closed {
                closing(t, PumpEnd::Closed)
            } else {
                (in_phase(t, PumpPhase::Open), just(PumpCommandView::Wait))
            }
        },
        PumpEvent::Received(b) => (
            ClientSession { phase: PumpPhase::Uploading, next_seq: (s.next_seq + 1) as u64, ..s },
            PumpStepView {
                frames: seq![
                    Sent { kind: FrameKind::Data, seq: s.next_seq, payload: frame::content(b) },
                ],
                command: PumpCommandView::AwaitUpload,
            },
        ),
        PumpEvent::ReceivedEof => {
            let t = ClientSession {
                local_read_closed: true,
                next_seq: (s.next_seq + 1) as u64,
                ..s
            };
            let eof = session::bare(FrameKind::Eof, s.next_seq as int);
            if s.local_writable {
                (t, PumpStepView { frames: seq![eof], command: PumpCommandView::Wait })
            } else {
                (
                    in_phase(t, PumpPhase::Done),
                    PumpStepView {
                        frames: seq![eof, session::bare(FrameKind::Close, s.next_seq + 1)],
                        command: PumpCommandView::Finish(PumpEnd::Closed),
                    },
                )
            }
        },
        PumpEvent::ReadFailed => closing(s, PumpEnd::ReadFailed),
        PumpEvent::Uploaded(ok) => if ok {
            (in_phase(s, PumpPhase::Open), just(PumpCommandView::Wait))
        } else {
            (done, just(PumpCommandView::Finish(PumpEnd::UploadFailed)))
        },
    }
}

/// A session whose opening has been uploaded.
pub open spec fn opened(sid: SessionId, next_seq: u64) -> ClientSession {
    ClientSession {
        sid,
        phase: PumpPhase::Open,
        next_seq,
        local_writable: true,
        local_read_closed: false,
    }
}

fn command_only(command: PumpCommand) -> (r: PumpStep)
    ensures
        r@ == just(command@),
        r.frames@.len() == 0,
{
    let r = PumpStep { frames: Vec::new(), command };
    proof {
        assert(r@.frames =~= Seq::empty());
    }
    r
}

impl ClientSession {
    /// A session whose opening has been uploaded up to `next_seq`.
    pub fn new(sid: SessionId, next_seq: u64) -> (s: ClientSession)
        ensures
            s == opened(sid, next_seq),
    {
        ClientSession {
            sid,
            phase: PumpPhase::Open,
            next_seq,
            local_writable: true,
            local_read_closed: false,
        }
    }

    /// Whether the local socket is to be read while waiting.
    pub fn reads_local(&self) -> (r: bool)
        ensures
            r == (self.phase == PumpPhase::Open && !self.local_read_closed),
    {
        self.phase == PumpPhase::Open && !self.local_read_closed
    }

    fn finish_with_close(&mut self, end: PumpEnd) -> (r: PumpStep)
        ensures
            (*final(self), r@) == closing(*old(self), end),
            forall|i: int|
                0 <= i < r.frames@.len() ==> (#[trigger] r.frames@[i]).sid == old(self).sid
                    && r.frames@[i].version == WIRE_VERSION,
    {
        let close = build_bare_frame(FrameKind::Close, self.sid, self.next_seq);
        self.phase = PumpPhase::Done;
        let mut frames: Vec<WireFrame> = Vec::new();
        frames.push(close);
        let r = PumpStep { frames, command: PumpCommand::Finish(end) };
        proof {
            assert(r@.frames =~= seq![session::bare(FrameKind::Close, old(self).next_seq as int)]);
        }
        r
    }

    /// Answers an event.
    pub fn step(&mut self, event: PumpEvent) -> (r: PumpStep)
        requires
            accepts(*old(self), event),
            old(self).next_seq + 1 <= u64::MAX,
        ensures
            (*final(self), r@) == respond(*old(self), event),
            forall|i: int|
                0 <= i < r.frames@.len() ==> (#[trigger] r.frames@[i]).sid == old(self).sid
                    && r.frames@[i].version == WIRE_VERSION,
    {
        match event {
            PumpEvent::Inbound(InboundFrame::Data(b)) => {
                if self.local_writable {
                    self.phase = PumpPhase::Writing;
                    command_only(PumpCommand::Write(b))
                } else {
                    command_only(PumpCommand::Wait)
                }
            },
            PumpEvent::Inbound(InboundFrame::Eof) => {
                self.phase = PumpPhase::Shutting;
                command_only(PumpCommand::ShutdownWrite)
            },
            PumpEvent::Inbound(InboundFrame::Close) | PumpEvent::InboundClosed => {
                self.phase = PumpPhase::Done;
                command_only(PumpCommand::Finish(PumpEnd::Closed))
            },
            PumpEvent::Written(ok) => {
                if ok {
                    self.phase = PumpPhase::Open;
                    command_only(PumpCommand::Wait)
                } else {
                    self.finish_with_close(PumpEnd::WriteFailed)
                }
            },
            PumpEvent::ShutDown => {
                self.local_writable = false;
                if self.local_read_closed {
                    self.finish_with_close(PumpEnd::Closed)
                } else {
                    self.phase = PumpPhase::Open;
                    command_only(PumpCommand::Wait)
                }
            },
            PumpEvent::Received(b) => {
                let ghost payload = frame::content(b);
                let data = build_wire_frame(FrameKind::Data, self.sid, self.next_seq, b);
                self.next_seq = self.next_seq + 1;
                self.phase = PumpPhase::Uploading;
                let mut frames: Vec<WireFrame> = Vec::new();
                frames.push(data);
                proof {
                    assert(session::all_sent(frames@) =~= seq![
                        Sent { kind: FrameKind::Data, seq: old(self).next_seq, payload },
                    ]);
                }
                PumpStep { frames, command: PumpCommand::AwaitUpload }
            },
            PumpEvent::ReceivedEof => {
                let eof = build_bare_frame(FrameKind::Eof, self.sid, self.next_seq);
                self.next_seq = self.next_seq + 1;
                self.local_read_closed = true;
                let mut frames: Vec<WireFrame> = Vec::new();
                frames.push(eof);
                if self.local_writable {
                    proof {
                        assert(session::all_sent(frames@) =~= seq![
                            session::bare(FrameKind::Eof, old(self).next_seq as int),
                        ]);
                    }
                    PumpStep { frames, command: PumpCommand::Wait }
                } else {
                    let close = build_bare_frame(FrameKind::Close, self.sid, self.next_seq);
                    frames.push(close);
                    self.phase = PumpPhase::Done;
                    proof {
                        assert(session::all_sent(frames@) =~= seq![
                            session::bare(FrameKind::Eof, old(self).next_seq as int),
                            session::bare(FrameKind::Close, old(self).next_seq + 1),
                        ]);
                    }
                    PumpStep { frames, command: PumpCommand::Finish(PumpEnd::Closed) }
                }
            },
            PumpEvent::ReadFailed => self.finish_with_close(PumpEnd::ReadFailed),
            PumpEvent::Uploaded(ok) => {
                if ok {
                    self.phase = PumpPhase::Open;
                    command_only(PumpCommand::Wait)
                } else {
                    self.phase = PumpPhase::Done;
                    command_only(PumpCommand::Finish(PumpEnd::UploadFailed))
                }
            },
        }
    }
}

/// The state after events, one after the other.
pub open spec fn after(s: ClientSession, events: Seq<PumpEvent>) -> ClientSession
    decreases events.len(),
{
    if events.len() == 0 {
        s
    } else {
        respond(after(s, events.drop_last()), events.last()).0
    }
}

/// All frames that events send, in order.
pub open spec fn transcript(s: ClientSession, events: Seq<PumpEvent>) -> Seq<Sent>
    decreases events.len(),
{
    if events.len() == 0 {
        Seq::empty()
    } else {
        let before = events.drop_last();
        transcript(s, before) + respond(after(s, before), events.last()).1.frames
    }
}

/// Every event can happen when it does.
pub open spec fn possible(s: ClientSession, events: Seq<PumpEvent>) -> bool
    decreases events.len(),
{
    if events.len() == 0 {
        true
    } else {
        let before = events.drop_last();
        possible(s, before) && accepts(after(s, before), events.last())
    }
}

/// The bytes that the local socket gave, in order.
pub open spec fn received(events: Seq<PumpEvent>) -> Seq<u8>
    decreases events.len(),
{
    if events.len() == 0 {
        Seq::empty()
    } else {
        let before = received(events.drop_last());
        match events.last() {
            PumpEvent::Received(b) => before + frame::content(b),
            _ => before,
        }
    }
}

/// All frames of a session from its opening on.
pub open spec fn session_frames(
    sid: SessionId,
    host: Seq<char>,
    port: u16,
    preface: Seq<u8>,
    events: Seq<PumpEvent>,
) -> Seq<Sent> {
    let start = opened(sid, (1 + chunk_count(preface.len())) as u64);
    opening(host, port, preface) + transcript(start, events)
}

proof fn lemma_transcript_numbered(sid: SessionId, first: u64, events: Seq<PumpEvent>)
    requires
        possible(opened(sid, first), events),
        first + 2 * events.len() + 2 <= u64::MAX,
    ensures
        ({
            let all = transcript(opened(sid, first), events);
            let s = after(opened(sid, first), events);
            &&& forall|i: int| 0 <= i < all.len() ==> (#[trigger] all[i]).seq == first + i
            &&& s.phase != PumpPhase::Done ==> s.next_seq == first + all.len()
            &&& s.next_seq <= first + 2 * events.len()
        }),
    decreases events.len(),
{
    if events.len() > 0 {
        lemma_transcript_numbered(sid, first, events.drop_last());
    }
}

/// Over a whole session, from its opening on, the client's frames are numbered
/// 0, 1, 2, ... without gap or repetition.
pub proof fn law_frames_numbered(
    sid: SessionId,
    host: Seq<char>,
    port: u16,
    preface: Seq<u8>,
    events: Seq<PumpEvent>,
)
    requires
        possible(opened(sid, (1 + chunk_count(preface.len())) as u64), events),
        1 + chunk_count(preface.len()) + 2 * events.len() + 2 <= u64::MAX,
    ensures
        forall|i: int|
            0 <= i < session_frames(sid, host, port, preface, events).len() ==> (
            #[trigger] session_frames(sid, host, port, preface, events)[i]).seq == i,
{
    lemma_transcript_numbered(sid, (1 + chunk_count(preface.len())) as u64, events);
    let all = session_frames(sid, host, port, preface, events);
    let open = opening(host, port, preface);
    assert forall|i: int| 0 <= i < all.len() implies (#[trigger] all[i]).seq == i by {
        if i < open.len() {
            if i > 0 {
                assert(open[i] == preface_frame(preface, i - 1));
            }
        } else {
            let t = transcript(opened(sid, (1 + chunk_count(preface.len())) as u64), events);
            assert(all[i] == t[i - open.len()]);
        }
    }
}

proof fn lemma_transcript_data(s: ClientSession, events: Seq<PumpEvent>)
    ensures
        session::data_of(transcript(s, events)) == received(events),
    decreases events.len(),
{
    reveal_with_fuel(session::data_of, 3);
    if events.len() > 0 {
        let before = events.drop_last();
        lemma_transcript_data(s, before);
        let frames = respond(after(s, before), events.last()).1.frames;
        session::lemma_data_of_concat(transcript(s, before), frames);
        match events.last() {
            PumpEvent::Received(b) => {
                assert(session::data_of(frames) =~= frame::content(b)) by {
                    assert(frames.drop_last() =~= Seq::empty());
                }
            },
            _ => {
                session::lemma_no_data(frames);
                assert(session::data_of(transcript(s, events)) =~= received(events));
            },
        }
    }
}

/// The frames of a session carry exactly the bytes that were there at its
/// opening and the bytes that the local socket gave, in order.
pub proof fn law_nothing_lost_from_local(
    sid: SessionId,
    host: Seq<char>,
    port: u16,
    preface: Seq<u8>,
    events: Seq<PumpEvent>,
)
    ensures
        session::data_of(session_frames(sid, host, port, preface, events)) == preface + received(
            events,
        ),
{
    let start = opened(sid, (1 + chunk_count(preface.len())) as u64);
    law_opening_carries_preface(host, port, preface);
    lemma_transcript_data(start, events);
    session::lemma_data_of_concat(opening(host, port, preface), transcript(start, events));
}

/// Close is the last frame of a session, and is sent when both directions have
/// ended or the local socket failed.
pub proof fn law_close_is_last(s: ClientSession, e: PumpEvent, i: int)
    requires
        accepts(s, e),
        0 <= i < respond(s, e).1.frames.len(),
        respond(s, e).1.frames[i].kind == FrameKind::Close,
    ensures
        i == respond(s, e).1.frames.len() - 1,
        respond(s, e).0.phase == PumpPhase::Done,
        (respond(s, e).0.local_read_closed && !respond(s, e).0.local_writable) || e is ReadFailed
            || e == PumpEvent::Written(false),
{
}

/// A session that the relay closed, or whose mailbox is gone, sends nothing
/// more.
pub proof fn law_relay_close_is_final(s: ClientSession, e: PumpEvent)
    requires
        e is InboundClosed || e == PumpEvent::Inbound(InboundFrame::Close),
    ensures
        respond(s, e).1.frames.len() == 0,
        respond(s, e).0.phase == PumpPhase::Done,
        forall|next: PumpEvent| !accepts(respond(s, e).0, next),
{
}

/// A session ends in a step for one of these causes and for no other: the
/// relay's Close, the end of its frames, a failed write, read or upload, or the
/// second of the two directions ending. The command to finish comes in that
/// step and in no other, and names the failure that ended the session.
pub proof fn law_ends_only_for_cause(s: ClientSession, e: PumpEvent)
    requires
        accepts(s, e),
    ensures
        respond(s, e).0.phase == PumpPhase::Done <==> match e {
            PumpEvent::Inbound(f) => f is Close,
            PumpEvent::InboundClosed | PumpEvent::ReadFailed => true,
            PumpEvent::Written(ok) | PumpEvent::Uploaded(ok) => !ok,
            PumpEvent::ShutDown => s.local_read_closed,
            PumpEvent::ReceivedEof => !s.local_writable,
            PumpEvent::Received(_) => false,
        },
        respond(s, e).1.command is Finish <==> respond(s, e).0.phase == PumpPhase::Done,
        respond(s, e).1.command matches PumpCommandView::Finish(end) ==> {
            &&& end is WriteFailed <==> e == PumpEvent::Written(false)
            &&& end is UploadFailed <==> e == PumpEvent::Uploaded(false)
            &&& end is ReadFailed <==> e is ReadFailed
        },
{
}

/// Work that succeeds goes on: after a completed write or a completed upload
/// the session is open and waits, with nothing else changed and nothing sent.
/// It takes every inbound frame, and reads the local socket unless that has
/// half-closed.
pub proof fn law_success_goes_on(s: ClientSession, e: PumpEvent)
    requires
        accepts(s, e),
        e == PumpEvent::Written(true) || e == PumpEvent::Uploaded(true),
    ensures
        ({
            let (t, step) = respond(s, e);
            &&& t.phase == PumpPhase::Open
            &&& t.sid == s.sid && t.next_seq == s.next_seq
            &&& t.local_writable == s.local_writable
            &&& t.local_read_closed == s.local_read_closed
            &&& step.command is Wait
            &&& step.frames.len() == 0
            &&& forall|f: InboundFrame| accepts(t, PumpEvent::Inbound(f))
            &&& accepts(t, PumpEvent::InboundClosed)
            &&& accepts(t, PumpEvent::ReceivedEof) == !s.local_read_closed
            &&& accepts(t, PumpEvent::ReadFailed) == !s.local_read_closed
            &&& forall|b: Bytes|
                accepts(t, PumpEvent::Received(b)) == (!s.local_read_closed && frame::content(
                    b,
                ).len() > 0)
        }),
{
}

/// Each command leaves the session waiting for the report on that command: a
/// write for its outcome, a half-close for its end, an upload for its outcome,
/// a wait for the next event.
pub proof fn law_command_is_awaited(s: ClientSession, e: PumpEvent)
    requires
        accepts(s, e),
    ensures
        ({
            let (t, step) = respond(s, e);
            &&& step.command is Write ==> forall|ok: bool| accepts(t, PumpEvent::Written(ok))
            &&& step.command is ShutdownWrite ==> accepts(t, PumpEvent::ShutDown)
            &&& step.command is AwaitUpload ==> forall|ok: bool|
                accepts(t, PumpEvent::Uploaded(ok))
            &&& step.command is Wait ==> forall|f: InboundFrame|
                accepts(t, PumpEvent::Inbound(f))
            &&& step.command is Wait && !t.local_read_closed ==> accepts(
                t,
                PumpEvent::ReceivedEof,
            )
            &&& step.command is Finish ==> forall|n: PumpEvent| !accepts(t, n)
        }),
{
}

/// The two directions end separately. The local side is closed by its end of
/// stream alone, the relay's side by a completed half-close alone, and a
/// session keeps its identity.
pub proof fn law_directions_end_separately(s: ClientSession, e: PumpEvent)
    requires
        accepts(s, e),
    ensures
        respond(s, e).0.local_read_closed <==> s.local_read_closed || e is ReceivedEof,
        respond(s, e).0.local_writable <==> s.local_writable && !(e is ShutDown),
        respond(s, e).0.sid == s.sid,
{
}

/// What the relay sends reaches the local socket: the bytes of Data are
/// written as they are while the relay has not half-closed and are dropped
/// after that, and Eof half-closes the local socket.
pub proof fn law_relay_frames_are_carried_out(s: ClientSession, b: Bytes)
    requires
        s.phase == PumpPhase::Open,
    ensures
        ({
            let (t, step) = respond(s, PumpEvent::Inbound(InboundFrame::Data(b)));
            &&& step.frames.len() == 0
            &&& t.next_seq == s.next_seq
            &&& s.local_writable ==> step.command == PumpCommandView::Write(frame::content(b))
                && t.phase == PumpPhase::Writing
            &&& !s.local_writable ==> step.command is Wait && t == s
        }),
        ({
            let (t, step) = respond(s, PumpEvent::Inbound(InboundFrame::Eof));
            &&& step.command is ShutdownWrite
            &&& step.frames.len() == 0
            &&& t.phase == PumpPhase::Shutting && t.next_seq == s.next_seq
        }),
{
}

/// Which frames a step sends. Data carries the bytes that were read from the
/// local socket, all of them, and nothing but a read sends it; the local end of
/// stream sends Eof; Close is sent when the second direction ends and when a
/// write or a read fails; any other step sends nothing. Each frame has the next
/// sequence number.
pub proof fn law_frames_of_a_step(s: ClientSession, e: PumpEvent)
    requires
        accepts(s, e),
        s.next_seq + 2 <= u64::MAX,
    ensures
        ({
            let (t, step) = respond(s, e);
            let frames = step.frames;
            &&& forall|i: int|
                0 <= i < frames.len() ==> (#[trigger] frames[i]).seq == s.next_seq + i
            &&& t.phase != PumpPhase::Done ==> t.next_seq == s.next_seq + frames.len()
            &&& match e {
                PumpEvent::Received(b) => {
                    &&& frames.len() == 1
                    &&& frames[0].kind == FrameKind::Data
                    &&& frames[0].payload == frame::content(b)
                    &&& step.command is AwaitUpload
                },
                PumpEvent::ReceivedEof => {
                    &&& frames.len() == (if s.local_writable { 1int } else { 2int })
                    &&& frames[0].kind == FrameKind::Eof && frames[0].payload.len() == 0
                    &&& !s.local_writable ==> frames[1].kind == FrameKind::Close
                        && frames[1].payload.len() == 0
                },
                PumpEvent::ShutDown => {
                    &&& frames.len() == (if s.local_read_closed { 1int } else { 0int })
                    &&& s.local_read_closed ==> frames[0].kind == FrameKind::Close
                        && frames[0].payload.len() == 0
                },
                PumpEvent::ReadFailed | PumpEvent::Written(false) => {
                    &&& frames.len() == 1
                    &&& frames[0].kind == FrameKind::Close && frames[0].payload.len() == 0
                },
                _ => frames.len() == 0,
            }
        }),
{
}

/// What the client makes of a frame from the relay: an error report closes the
/// session; a session opener or a Connect only ever travels the other way.
pub open spec fn client_event(kind: FrameKind, payload: Seq<u8>) -> Option<InboundView> {
    match kind {
        FrameKind::Data => Some(InboundView::Data(payload)),
        FrameKind::Eof => Some(InboundView::Eof),
        FrameKind::Close => Some(InboundView::Close),
        FrameKind::Error => Some(InboundView::Close),
        FrameKind::Hello => None,
        FrameKind::Connect => None,
    }
}

/// An inbound frame over views.
pub enum InboundView {
    Data(Seq<u8>),
    Eof,
    Close,
}

impl View for InboundFrame {
    type V = InboundView;

    open spec fn view(&self) -> InboundView {
        match self {
            InboundFrame::Data(b) => InboundView::Data(frame::content(*b)),
            InboundFrame::Eof => InboundView::Eof,
            InboundFrame::Close => InboundView::Close,
        }
    }
}

/// Reads a frame from the relay.
pub fn wire_to_inbound(f: WireFrame) -> (r: Option<InboundFrame>)
    ensures
        match r {
            Some(e) => client_event(f.kind, frame::content(f.payload)) == Some(e@),
            None => client_event(f.kind, frame::content(f.payload)) is None,
        },
{
    match f.kind {
        FrameKind::Data => Some(InboundFrame::Data(f.payload)),
        FrameKind::Eof => Some(InboundFrame::Eof),
        FrameKind::Close => Some(InboundFrame::Close),
        FrameKind::Error => Some(InboundFrame::Close),
        FrameKind::Hello | FrameKind::Connect => None,
    }
}

/// The event that a plaintext stands for on the client's side.
pub open spec fn client_event_of(name: DriveFilename, plaintext: Seq<u8>) -> Option<InboundView> {
    if poll::carries(name, plaintext) {
        client_event(poll::kind_of(plaintext[1]), frame::payload_field(plaintext))
    } else {
        None
    }
}

/// An action over the view of its event.
pub open spec fn action_view(a: FrameAction<InboundFrame>) -> FrameAction<InboundView> {
    match a {
        FrameAction::Leave => FrameAction::Leave,
        FrameAction::Retry => FrameAction::Retry,
        FrameAction::Delete => FrameAction::Delete,
        FrameAction::Deliver(e) => FrameAction::Deliver(e@),
    }
}

/// Decides on a fetched frame of the relay: only a frame that opens, decodes,
/// is the one its name says and makes sense in this direction is delivered.
pub fn client_delivery(name: &DriveFilename, fetched: Fetched) -> (r: FrameAction<InboundFrame>)
    ensures
        match fetched {
            Fetched::TooLarge => r is Delete,
            Fetched::Failed => r is Retry,
            Fetched::Unopened => r is Leave,
            Fetched::Opened(plaintext) => match client_event_of(*name, plaintext@) {
                Some(e) => r matches FrameAction::Deliver(i) && i@ == e,
                None => r is Leave,
            },
        },
        action_view(r) == poll::settled(
            fetched,
            client_event_of(*name, poll::opened_text(fetched)),
        ),
{
    match fetched {
        Fetched::TooLarge => FrameAction::Delete,
        Fetched::Failed => FrameAction::Retry,
        Fetched::Unopened => FrameAction::Leave,
        Fetched::Opened(plaintext) => match poll::carried_frame(name, &plaintext) {
            Some(f) => {
                proof {
                    poll::lemma_kind_of(f.kind);
                }
                match wire_to_inbound(f) {
                    Some(e) => FrameAction::Deliver(e),
                    None => FrameAction::Leave,
                }
            },
            None => FrameAction::Leave,
        },
    }
}

/// What the relay frames, the client reads.
pub proof fn law_client_reads_relay_frame(kind: FrameKind, sid: SessionId, seq: u64, payload: Seq<u8>)
    requires
        payload.len() <= frame::MAX_PAYLOAD,
    ensures
        ({
            let name = DriveFilename {
                kind: FilenameKind::Frame(Direction::RelayToClient),
                sid,
                seq,
            };
            let plaintext = frame::encoded(WIRE_VERSION, kind, sid@, seq, payload);
            poll::carries(name, plaintext) && client_event_of(name, plaintext) == client_event(
                kind,
                payload,
            )
        }),
{
    frame::law_decode_reads_back_encode(kind, sid, seq, payload, Seq::empty());
    let e = frame::encoded(WIRE_VERSION, kind, sid@, seq, payload);
    assert(e + Seq::<u8>::empty() =~= e);
    poll::lemma_kind_of(kind);
}

/// The relay's frames for the open sessions in a listing.
pub open spec fn replies_of(files: Seq<DriveFile>, sessions: Set<SessionId>) -> Seq<ListedFile> {
    listing::selected(files, FilenameKind::Frame(Direction::RelayToClient), sessions)
}

/// Plans a cycle from the listing of the relay's frames: each open session's
/// frames in order. Files of other clients that share the folder are left
/// alone. `None` means that there is no work.
pub fn plan_cycle(files: &Vec<DriveFile>, table: &SessionTable) -> (r: Option<Vec<Vec<ListedFile>>>)
    ensures
        match r {
            Some(groups) => replies_of(files@, table@.dom()).len() > 0 && listing::is_grouping(
                listing::views(groups@),
                replies_of(files@, table@.dom()),
            ),
            None => replies_of(files@, table@.dom()).len() == 0,
        },
{
    let known = Sessions::Only(table.sids());
    proof {
        assert(known@ =~= table@.dom());
    }
    let replies = listing::select(
        files,
        FilenameKind::Frame(Direction::RelayToClient),
        &known,
    );
    if replies.len() == 0 {
        return None;
    }
    Some(listing::group_by_session(replies))
}

/// The cached access token.
pub struct TokenCache {
    cached: Option<String>,
}

impl View for TokenCache {
    type V = Option<Seq<char>>;

    closed spec fn view(&self) -> Option<Seq<char>> {
        match self.cached {
            Some(token) => Some(token@),
            None => None,
        }
    }
}

impl TokenCache {
    /// An empty cache.
    pub fn new() -> (c: TokenCache)
        ensures
            c@ is None,
    {
        TokenCache { cached: None }
    }

    /// The cached token, unless it is near its expiry; `None` asks for a fresh
    /// one.
    pub fn get(&self, near_expiry: bool) -> (r: Option<String>)
        ensures
            match r {
                Some(token) => !near_expiry && self@ == Some(token@),
                None => near_expiry || self@ is None,
            },
    {
        if near_expiry {
            return None;
        }
        match &self.cached {
            Some(token) => Some(token.clone()),
            None => None,
        }
    }

    /// Keeps a fresh token and hands it out.
    pub fn refresh(&mut self, access_token: String) -> (r: String)
        ensures
            r@ == access_token@,
            final(self)@ == Some(access_token@),
    {
        let r = access_token.clone();
        self.cached = Some(access_token);
        r
    }
}

/// A step in the opening of a session.
#[derive(Debug, Clone, Copy, PartialEq, Eq, Structural)]
pub enum OpeningStep {
    KeyAgreement,
    Hello,
    /// The upload of one of the opening frames.
    Frame(usize),
}

/// Tells why a session did not open: the first opening frame is the Connect, the
/// others carry bytes.
pub fn opening_failure(step: OpeningStep, why: &str) -> (r: String)
    ensures
        r@ == (match step {
            OpeningStep::KeyAgreement => "drive key agreement: "@,
            OpeningStep::Hello => "hello upload: "@,
            OpeningStep::Frame(i) => if i == 0 {
                "connect upload: "@
            } else {
                "initial c2r upload: "@
            },
        }) + why@,
{
    let what: &str = match step {
        OpeningStep::KeyAgreement => "drive key agreement: ",
        OpeningStep::Hello => "hello upload: ",
        OpeningStep::Frame(i) => if i == 0 {
            "connect upload: "
        } else {
            "initial c2r upload: "
        },
    };
    what.to_owned().concat(why)
}

/// How many uploads run at a time: at least one.
pub fn upload_permits(max_concurrent_uploads: u8) -> (n: usize)
    ensures
        n == (if max_concurrent_uploads == 0 {
            1
        } else {
            max_concurrent_uploads as int
        }),
{
    if max_concurrent_uploads == 0 {
        1
    } else {
        max_concurrent_uploads as usize
    }
}

/// The address through which Drive is fronted, if one is configured.
pub fn front_ip(google_ip: &str) -> (r: Option<String>)
    ensures
        match r {
            Some(ip) => google_ip@.len() > 0 && ip@ == google_ip@,
            None => google_ip@.len() == 0,
        },
{
    if google_ip.is_empty() {
        None
    } else {
        Some(google_ip.to_owned())
    }
}

/// A cycle of the client takes up every frame that the relay sent to one of the
/// open sessions, and nothing else.
pub proof fn law_cycle_takes_relay_frames(
    files: Seq<DriveFile>,
    i: int,
    name: DriveFilename,
    sessions: Set<SessionId>,
)
    requires
        0 <= i < files.len(),
        files[i].name@ == name.text(),
    ensures
        replies_of(files, sessions).contains((ListedFile { file: files[i], name })) <==> name.kind
            == FilenameKind::Frame(Direction::RelayToClient) && sessions.contains(name.sid),
{
    listing::law_selected_exactly(
        files,
        i,
        name,
        FilenameKind::Frame(Direction::RelayToClient),
        sessions,
    );
}

/// What the client makes of a relay's frame: Data gives its payload as it is,
/// Eof and Close themselves, an error report closes, and a session opener or a
/// Connect is no event.
pub proof fn law_client_event_by_kind(payload: Seq<u8>)
    ensures
        client_event(FrameKind::Data, payload) == Some(InboundView::Data(payload)),
        client_event(FrameKind::Eof, payload) == Some(InboundView::Eof),
        client_event(FrameKind::Close, payload) == Some(InboundView::Close),
        client_event(FrameKind::Error, payload) == Some(InboundView::Close),
        client_event(FrameKind::Hello, payload) is None,
        client_event(FrameKind::Connect, payload) is None,
{
}

/// A session opens with a Connect that names the destination under sequence
/// number 0, followed by Data frames under the numbers from 1 on.
pub proof fn law_opening_frames(host: Seq<char>, port: u16, preface: Seq<u8>, i: int)
    requires
        0 < i < opening(host, port, preface).len(),
        opening(host, port, preface).len() <= u64::MAX,
    ensures
        ({
            let frames = opening(host, port, preface);
            &&& frames[0].kind == FrameKind::Connect
            &&& frames[0].seq == 0
            &&& frames[0].payload == encode_utf8(host + ":"@ + numeral::decimal(port as nat))
            &&& frames[i].kind == FrameKind::Data
            &&& frames[i].seq == i
        }),
{
    assert(opening(host, port, preface)[i] == preface_frame(preface, i - 1));
}

/// A session that has just been opened waits in both directions: it takes every
/// frame of the relay, reads the local socket, and goes on with the next number.
pub proof fn law_opened_session_waits(sid: SessionId, next_seq: u64, b: Bytes)
    ensures
        ({
            let s = opened(sid, next_seq);
            &&& s.sid == sid && s.next_seq == next_seq
            &&& s.local_writable && !s.local_read_closed
            &&& forall|f: InboundFrame| accepts(s, PumpEvent::Inbound(f))
            &&& accepts(s, PumpEvent::ReceivedEof)
            &&& frame::content(b).len() > 0 ==> accepts(s, PumpEvent::Received(b))
        }),
{
}

} // verus!
