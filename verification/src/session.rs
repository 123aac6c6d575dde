//! One relayed session on the relay's side, as a state machine.
//!
//! ```text
//! await Connect -> dial -> open -> done
//! ```
//!
//! While open, inbound frames go to the destination and what the destination
//! sends goes out as frames with consecutive sequence numbers. The caller
//! performs each step: it notes activity, uploads the step's frames in order,
//! carries out the command and reports the outcome as the next event.
use bytes::Bytes;
use vstd::prelude::*;
use vstd::utf8::encode_utf8;

use crate::destination;
use crate::frame;
use crate::frame::{FrameKind, SessionId, WireFrame, WIRE_VERSION};
use crate::text;

verus! {

/// A frame from the client, opened and checked.
pub enum InboundFrame {
    Connect { host: String, port: u16 },
    Data(Bytes),
    Eof,
    Close,
}

/// How dialing the destination went.
pub enum DialOutcome {
    Connected,
    /// The pool of dial permits is closed.
    NoPermit,
    Failed(String),
}

/// What happened to a session.
pub enum SessionEvent {
    Inbound(InboundFrame),
    /// The inbound mailbox is closed.
    InboundClosed,
    Dialed(DialOutcome),
    /// A write to the destination completed, or failed.
    Written(bool),
    /// The write side towards the destination was shut down.
    ShutDown,
    /// The destination sent bytes.
    Received(Bytes),
    /// The destination half-closed.
    ReceivedEof,
    ReadFailed,
    /// The upload of a data frame completed, or failed.
    Uploaded(bool),
}

/// Where a session stands.
#[derive(Debug, Clone, Copy, PartialEq, Eq, Structural)]
pub enum Phase {
    AwaitConnect,
    Dialing,
    Open,
    Writing,
    Shutting,
    Uploading,
    Done,
}

/// What the caller does after a step's uploads.
pub enum Command {
    /// Wait for an inbound frame, or for the destination while it has not
    /// half-closed.
    Wait,
    /// Take a dial permit and connect.
    Dial { host: String, port: u16 },
    Write(Bytes),
    ShutdownWrite,
    /// Report whether the upload of the step's frame succeeded.
    AwaitUpload,
    Exit,
}

/// The answer to an event.
pub struct Step {
    /// The session was active.
    pub touched: bool,
    /// Frames to upload, in order.
    pub frames: Vec<WireFrame>,
    pub command: Command,
}

/// A session on the relay's side.
pub struct RelaySession {
    pub sid: SessionId,
    pub phase: Phase,
    /// The sequence number of the next outbound frame.
    pub next_seq: u64,
    /// The client has not half-closed.
    pub peer_writable: bool,
    /// The destination has half-closed.
    pub read_closed: bool,
}

/// An outbound frame without the session it belongs to.
pub struct Sent {
    pub kind: FrameKind,
    pub seq: u64,
    pub payload: Seq<u8>,
}

/// A command over views.
pub enum CommandView {
    Wait,
    Dial { host: Seq<char>, port: u16 },
    Write(Seq<u8>),
    ShutdownWrite,
    AwaitUpload,
    Exit,
}

/// A step over views.
pub struct StepView {
    pub touched: bool,
    pub frames: Seq<Sent>,
    pub command: CommandView,
}

/// The frame without its session.
pub open spec fn sent(f: WireFrame) -> Sent {
    Sent { kind: f.kind, seq: f.seq, payload: frame::content(f.payload) }
}

/// The frames without their session.
pub open spec fn all_sent(frames: Seq<WireFrame>) -> Seq<Sent> {
    frames.map_values(|f: WireFrame| sent(f))
}

impl View for Command {
    type V = CommandView;

    open spec fn view(&self) -> CommandView {
        match self {
            Command::Wait => CommandView::Wait,
            Command::Dial { host, port } => CommandView::Dial { host: host@, port: *port },
            Command::Write(b) => CommandView::Write(frame::content(*b)),
            Command::ShutdownWrite => CommandView::ShutdownWrite,
            Command::AwaitUpload => CommandView::AwaitUpload,
            Command::Exit => CommandView::Exit,
        }
    }
}

impl View for Step {
    type V = StepView;

    open spec fn view(&self) -> StepView {
        StepView {
            touched: self.touched,
            frames: all_sent(self.frames@),
            command: self.command@,
        }
    }
}

/// The session in another phase.
pub open spec fn in_phase(s: RelaySession, phase: Phase) -> RelaySession {
    RelaySession { phase, ..s }
}

/// A step that only commands.
pub open spec fn just(touched: bool, command: CommandView) -> StepView {
    StepView { touched, frames: Seq::empty(), command }
}

/// The end of a session that could not be connected: one error frame with the
/// reason, under the next sequence number.
pub open spec fn refusal(s: RelaySession, touched: bool, reason: Seq<char>) -> (
    RelaySession,
    StepView,
) {
    (
        in_phase(s, Phase::Done),
        StepView {
            touched,
            frames: seq![
                Sent { kind: FrameKind::Error, seq: s.next_seq, payload: encode_utf8(reason) },
            ],
            command: CommandView::Exit,
        },
    )
}

/// A frame without payload.
pub open spec fn bare(kind: FrameKind, seq: int) -> Sent {
    Sent { kind, seq: seq as u64, payload: Seq::empty() }
}

/// The events that can happen to a session where it stands. The destination is
/// not read once it has half-closed, and a read is never empty.
pub open spec fn accepts(s: RelaySession, e: SessionEvent) -> bool {
    match s.phase {
        Phase::AwaitConnect => e is Inbound || e is InboundClosed,
        Phase::Dialing => e is Dialed,
        Phase::Open => match e {
            SessionEvent::Inbound(_) => true,
            SessionEvent::InboundClosed => true,
            SessionEvent::Received(b) => !s.read_closed && frame::content(b).len() > 0,
            SessionEvent::ReceivedEof => !s.read_closed,
            SessionEvent::ReadFailed => !s.read_closed,
            _ => false,
        },
        Phase::Writing => e is Written,
        Phase::Shutting => e is ShutDown,
        Phase::Uploading => e is Uploaded,
        Phase::Done => false,
    }
}

/// What an event makes of a session, under the allow list of destinations.
pub open spec fn respond(s: RelaySession, allow: Seq<Seq<char>>, e: SessionEvent) -> (
    RelaySession,
    StepView,
) {
    let done = in_phase(s, Phase::Done);
    match e {
        SessionEvent::Inbound(InboundFrame::Connect { host, port }) => if s.phase
            == Phase::AwaitConnect {
            if destination::allowed(allow, host@) {
                (
                    in_phase(s, Phase::Dialing),
                    just(true, CommandView::Dial { host: host@, port }),
                )
            } else {
                refusal(s, true, "destination not on allow list"@)
            }
        } else {
            (s, just(false, CommandView::Wait))
        },
        SessionEvent::Inbound(InboundFrame::Data(b)) => if s.phase == Phase::AwaitConnect {
            (done, just(false, CommandView::Exit))
        } else if s.peer_writable {
            (in_phase(s, Phase::Writing), just(true, CommandView::Write(frame::content(b))))
        } else {
            (s, just(true, CommandView::Wait))
        },
        SessionEvent::Inbound(InboundFrame::Eof) => if s.phase == Phase::AwaitConnect {
            (done, just(false, CommandView::Exit))
        } else {
            (in_phase(s, Phase::Shutting), just(true, CommandView::ShutdownWrite))
        },
        SessionEvent::Inbound(InboundFrame::Close) => (done, just(false, CommandView::Exit)),
        SessionEvent::InboundClosed => (done, just(false, CommandView::Exit)),
        SessionEvent::Dialed(DialOutcome::Connected) => (
            in_phase(s, Phase::Open),
            just(false, CommandView::Wait),
        ),
        SessionEvent::Dialed(DialOutcome::NoPermit) => refusal(s, false, "relay shutting down"@),
        SessionEvent::Dialed(DialOutcome::Failed(reason)) => refusal(
            s,
            false,
            "dial failed: "@ + reason@,
        ),
        SessionEvent::Written(ok) => if ok {
            (in_phase(s, Phase::Open), just(false, CommandView::Wait))
        } else {
            (done, just(false, CommandView::Exit))
        },
        SessionEvent::ShutDown => if s.read_closed {
            (
                RelaySession {
                    phase: Phase::Done,
                    peer_writable: false,
                    next_seq: (s.next_seq + 1) as u64,
                    ..s
                },
                StepView {
                    touched: false,
                    frames: seq![bare(FrameKind::Close, s.next_seq as int)],
                    command: CommandView::Exit,
                },
            )
        } else {
            (
                RelaySession { phase: Phase::Open, peer_writable: false, ..s },
                just(false, CommandView::Wait),
            )
        },
        SessionEvent::Received(b) => (
            RelaySession { phase: Phase::Uploading, next_seq: (s.next_seq + 1) as u64, ..s },
            StepView {
                touched: true,
                frames: seq![
                    Sent { kind: FrameKind::Data, seq: s.next_seq, payload: frame::content(b) },
                ],
                command: CommandView::AwaitUpload,
            },
        ),
        SessionEvent::ReceivedEof => if s.peer_writable {
            (
                RelaySession { read_closed: true, next_seq: (s.next_seq + 1) as u64, ..s },
                StepView {
                    touched: false,
                    frames: seq![bare(FrameKind::Eof, s.next_seq as int)],
                    command: CommandView::Wait,
                },
            )
        } else {
            (
                RelaySession {
                    phase: Phase::Done,
                    read_closed: true,
                    next_seq: (s.next_seq + 2) as u64,
                    ..s
                },
                StepView {
                    touched: false,
                    frames: seq![
                        bare(FrameKind::Eof, s.next_seq as int),
                        bare(FrameKind::Close, s.next_seq + 1),
                    ],
                    command: CommandView::Exit,
                },
            )
        },
        SessionEvent::ReadFailed => (done, just(false, CommandView::Exit)),
        SessionEvent::Uploaded(ok) => if ok {
            (in_phase(s, Phase::Open), just(false, CommandView::Wait))
        } else {
            (done, just(false, CommandView::Exit))
        },
    }
}

/// A session that waits for its Connect frame.
pub open spec fn fresh(sid: SessionId) -> RelaySession {
    RelaySession {
        sid,
        phase: Phase::AwaitConnect,
        next_seq: 0,
        peer_writable: true,
        read_closed: false,
    }
}

fn command_only(touched: bool, command: Command) -> (r: Step)
    ensures
        r@ == just(touched, command@),
        r.frames@.len() == 0,
{
    let r = Step { touched, frames: Vec::new(), command };
    proof {
        assert(r@.frames =~= Seq::empty());
    }
    r
}

impl RelaySession {
    /// Starts a session.
    pub fn new(sid: SessionId) -> (s: RelaySession)
        ensures
            s == fresh(sid),
    {
        RelaySession {
            sid,
            phase: Phase::AwaitConnect,
            next_seq: 0,
            peer_writable: true,
            read_closed: false,
        }
    }

    /// Whether the destination is to be read while waiting.
    pub fn reads_destination(&self) -> (r: bool)
        ensures
            r == (self.phase == Phase::Open && !self.read_closed),
    {
        self.phase == Phase::Open && !self.read_closed
    }

    fn outbound(&self, kind: FrameKind, seq: u64, payload: Bytes) -> (f: WireFrame)
        ensures
            f.version == WIRE_VERSION,
            f.sid == self.sid,
            sent(f) == (Sent { kind, seq, payload: frame::content(payload) }),
    {
        WireFrame { version: WIRE_VERSION, kind, sid: self.sid, seq, payload }
    }

    fn outbound_bare(&self, kind: FrameKind, seq: u64) -> (f: WireFrame)
        ensures
            f.version == WIRE_VERSION,
            f.sid == self.sid,
            sent(f) == bare(kind, seq as int),
    {
        let empty: Vec<u8> = Vec::new();
        let payload = frame::bytes_from_slice(empty.as_slice());
        proof {
            assert(frame::content(payload) =~= Seq::empty());
        }
        self.outbound(kind, seq, payload)
    }

    fn refuse(&mut self, touched: bool, reason: &str) -> (r: Step)
        ensures
            (*final(self), r@) == refusal(*old(self), touched, reason@),
            forall|i: int|
                0 <= i < r.frames@.len() ==> (#[trigger] r.frames@[i]).sid == old(self).sid
                    && r.frames@[i].version == WIRE_VERSION,
    {
        let payload = frame::bytes_from_slice(reason.as_bytes());
        let f = self.outbound(FrameKind::Error, self.next_seq, payload);
        self.phase = Phase::Done;
        let mut frames: Vec<WireFrame> = Vec::new();
        frames.push(f);
        let r = Step { touched, frames, command: Command::Exit };
        proof {
            assert(r@.frames =~= refusal(*old(self), touched, reason@).1.frames);
        }
        r
    }

    /// Answers an event.
    pub fn step(&mut self, allow_destinations: &Vec<String>, event: SessionEvent) -> (r: Step)
        requires
            accepts(*old(self), event),
            old(self).next_seq + 2 <= u64::MAX,
        ensures
            (*final(self), r@) == respond(*old(self), text::texts(allow_destinations@), event),
            forall|i: int|
                0 <= i < r.frames@.len() ==> (#[trigger] r.frames@[i]).sid == old(self).sid
                    && r.frames@[i].version == WIRE_VERSION,
    {
        match event {
            SessionEvent::Inbound(InboundFrame::Connect { host, port }) => {
                if self.phase == Phase::AwaitConnect {
                    if destination::destination_allowed(allow_destinations, host.as_str()) {
                        self.phase = Phase::Dialing;
                        command_only(true, Command::Dial { host, port })
                    } else {
                        self.refuse(true, "destination not on allow list")
                    }
                } else {
                    command_only(false, Command::Wait)
                }
            },
            SessionEvent::Inbound(InboundFrame::Data(b)) => {
                if self.phase == Phase::AwaitConnect {
                    self.phase = Phase::Done;
                    command_only(false, Command::Exit)
                } else if self.peer_writable {
                    self.phase = Phase::Writing;
                    command_only(true, Command::Write(b))
                } else {
                    command_only(true, Command::Wait)
                }
            },
            SessionEvent::Inbound(InboundFrame::Eof) => {
                if self.phase == Phase::AwaitConnect {
                    self.phase = Phase::Done;
                    command_only(false, Command::Exit)
                } else {
                    self.phase = Phase::Shutting;
                    command_only(true, Command::ShutdownWrite)
                }
            },
            SessionEvent::Inbound(InboundFrame::Close) | SessionEvent::InboundClosed
            | SessionEvent::ReadFailed => {
                self.phase = Phase::Done;
                command_only(false, Command::Exit)
            },
            SessionEvent::Dialed(DialOutcome::Connected) => {
                self.phase = Phase::Open;
                command_only(false, Command::Wait)
            },
            SessionEvent::Dialed(DialOutcome::NoPermit) => self.refuse(
                false,
                "relay shutting down",
            ),
            SessionEvent::Dialed(DialOutcome::Failed(reason)) => {
                let text = "dial failed: ".to_owned().concat(reason.as_str());
                self.refuse(false, text.as_str())
            },
            SessionEvent::Written(ok) | SessionEvent::Uploaded(ok) => {
                if ok {
                    self.phase = Phase::Open;
                    command_only(false, Command::Wait)
                } else {
                    self.phase = Phase::Done;
                    command_only(false, Command::Exit)
                }
            },
            SessionEvent::ShutDown => {
                self.peer_writable = false;
                if self.read_closed {
                    let f = self.outbound_bare(FrameKind::Close, self.next_seq);
                    self.next_seq = self.next_seq + 1;
                    self.phase = Phase::Done;
                    let mut frames: Vec<WireFrame> = Vec::new();
                    frames.push(f);
                    proof {
                        assert(all_sent(frames@) =~= seq![
                            bare(FrameKind::Close, old(self).next_seq as int),
                        ]);
                    }
                    Step { touched: false, frames, command: Command::Exit }
                } else {
                    self.phase = Phase::Open;
                    command_only(false, Command::Wait)
                }
            },
            SessionEvent::Received(b) => {
                let ghost payload = frame::content(b);
                let f = self.outbound(FrameKind::Data, self.next_seq, b);
                self.next_seq = self.next_seq + 1;
                self.phase = Phase::Uploading;
                let mut frames: Vec<WireFrame> = Vec::new();
                frames.push(f);
                proof {
                    assert(all_sent(frames@) =~= seq![
                        Sent { kind: FrameKind::Data, seq: old(self).next_seq, payload },
                    ]);
                }
                Step { touched: true, frames, command: Command::AwaitUpload }
            },
            SessionEvent::ReceivedEof => {
                let eof = self.outbound_bare(FrameKind::Eof, self.next_seq);
                let mut frames: Vec<WireFrame> = Vec::new();
                frames.push(eof);
                self.read_closed = true;
                if self.peer_writable {
                    self.next_seq = self.next_seq + 1;
                    proof {
                        assert(all_sent(frames@) =~= seq![
                            bare(FrameKind::Eof, old(self).next_seq as int),
                        ]);
                    }
                    Step { touched: false, frames, command: Command::Wait }
                } else {
                    let close = self.outbound_bare(FrameKind::Close, self.next_seq + 1);
                    frames.push(close);
                    self.next_seq = self.next_seq + 2;
                    self.phase = Phase::Done;
                    proof {
                        assert(all_sent(frames@) =~= seq![
                            bare(FrameKind::Eof, old(self).next_seq as int),
                            bare(FrameKind::Close, old(self).next_seq + 1),
                        ]);
                    }
                    Step { touched: false, frames, command: Command::Exit }
                }
            },
        }
    }
}

/// The state after events, one after the other.
pub open spec fn after(s: RelaySession, allow: Seq<Seq<char>>, events: Seq<SessionEvent>) -> RelaySession
    decreases events.len(),
{
    if events.len() == 0 {
        s
    } else {
        respond(after(s, allow, events.drop_last()), allow, events.last()).0
    }
}

/// All frames that events send, in order.
pub open spec fn transcript(s: RelaySession, allow: Seq<Seq<char>>, events: Seq<SessionEvent>) -> Seq<
    Sent,
>
    decreases events.len(),
{
    if events.len() == 0 {
        Seq::empty()
    } else {
        let before = events.drop_last();
        transcript(s, allow, before) + respond(
            after(s, allow, before),
            allow,
            events.last(),
        ).1.frames
    }
}

/// Every event can happen when it does.
pub open spec fn possible(s: RelaySession, allow: Seq<Seq<char>>, events: Seq<SessionEvent>) -> bool
    decreases events.len(),
{
    if events.len() == 0 {
        true
    } else {
        let before = events.drop_last();
        possible(s, allow, before) && accepts(after(s, allow, before), events.last())
    }
}

/// What holds of a session at every point: the phases in which a direction is
/// in use have that direction open, and a session with both directions closed
/// is done.
pub open spec fn consistent(s: RelaySession) -> bool {
    &&& s.phase == Phase::Writing ==> s.peer_writable
    &&& s.phase == Phase::Uploading ==> !s.read_closed
    &&& s.phase == Phase::Open ==> s.peer_writable || !s.read_closed
    &&& s.phase == Phase::AwaitConnect || s.phase == Phase::Dialing ==> s.peer_writable
        && !s.read_closed && s.next_seq == 0
}

/// Every step keeps the session consistent, and a fresh session is.
pub proof fn law_consistent(s: RelaySession, allow: Seq<Seq<char>>, e: SessionEvent)
    requires
        consistent(s),
        accepts(s, e),
        s.next_seq + 2 <= u64::MAX,
    ensures
        consistent(respond(s, allow, e).0),
        consistent(fresh(s.sid)),
{
}

/// The frames of one step carry consecutive sequence numbers from the next
/// free one; only a refusal, which ends the session, leaves the counter.
pub proof fn law_step_numbers(s: RelaySession, allow: Seq<Seq<char>>, e: SessionEvent)
    requires
        accepts(s, e),
        s.next_seq + 2 <= u64::MAX,
    ensures
        ({
            let (t, step) = respond(s, allow, e);
            &&& forall|i: int|
                0 <= i < step.frames.len() ==> (#[trigger] step.frames[i]).seq == s.next_seq + i
            &&& t.next_seq == s.next_seq + step.frames.len() || (t.phase == Phase::Done
                && step.frames.len() == 1 && step.frames[0].kind == FrameKind::Error)
            &&& step.frames.len() <= 2
        }),
{
}

/// Over a whole session the uploaded frames are numbered 0, 1, 2, ... without
/// gap or repetition.
pub proof fn law_transcript_numbered(sid: SessionId, allow: Seq<Seq<char>>, events: Seq<SessionEvent>)
    requires
        possible(fresh(sid), allow, events),
        2 * events.len() + 2 <= u64::MAX,
    ensures
        forall|i: int|
            0 <= i < transcript(fresh(sid), allow, events).len() ==> (#[trigger] transcript(
                fresh(sid),
                allow,
                events,
            )[i]).seq == i,
{
    lemma_transcript_numbered(sid, allow, events);
}

proof fn lemma_transcript_numbered(sid: SessionId, allow: Seq<Seq<char>>, events: Seq<SessionEvent>)
    requires
        possible(fresh(sid), allow, events),
        2 * events.len() + 2 <= u64::MAX,
    ensures
        ({
            let all = transcript(fresh(sid), allow, events);
            let s = after(fresh(sid), allow, events);
            &&& forall|i: int| 0 <= i < all.len() ==> (#[trigger] all[i]).seq == i
            &&& s.phase != Phase::Done ==> s.next_seq == all.len()
            &&& all.len() <= 2 * events.len()
            &&& s.next_seq <= 2 * events.len()
        }),
    decreases events.len(),
{
    if events.len() > 0 {
        let before = events.drop_last();
        lemma_transcript_numbered(sid, allow, before);
        let s = after(fresh(sid), allow, before);
        law_step_numbers(s, allow, events.last());
    }
}

/// The application bytes that frames carry, in order.
pub open spec fn data_of(frames: Seq<Sent>) -> Seq<u8>
    decreases frames.len(),
{
    if frames.len() == 0 {
        Seq::empty()
    } else {
        let before = data_of(frames.drop_last());
        if frames.last().kind == FrameKind::Data {
            before + frames.last().payload
        } else {
            before
        }
    }
}

/// The application bytes of frames in two runs are those of the first, then
/// those of the second.
pub proof fn lemma_data_of_concat(a: Seq<Sent>, b: Seq<Sent>)
    ensures
        data_of(a + b) == data_of(a) + data_of(b),
    decreases b.len(),
{
    if b.len() == 0 {
        assert(a + b =~= a);
        assert(data_of(a) + data_of(b) =~= data_of(a));
    } else {
        assert((a + b).drop_last() =~= a + b.drop_last());
        lemma_data_of_concat(a, b.drop_last());
        assert(data_of(a + b) =~= data_of(a) + data_of(b));
    }
}

/// The bytes that the destination sent, in order.
pub open spec fn received(events: Seq<SessionEvent>) -> Seq<u8>
    decreases events.len(),
{
    if events.len() == 0 {
        Seq::empty()
    } else {
        let before = received(events.drop_last());
        match events.last() {
            SessionEvent::Received(b) => before + frame::content(b),
            _ => before,
        }
    }
}

/// The frames of a session carry exactly the bytes that the destination sent,
/// in order.
pub proof fn law_nothing_lost_from_destination(
    sid: SessionId,
    allow: Seq<Seq<char>>,
    events: Seq<SessionEvent>,
)
    ensures
        data_of(transcript(fresh(sid), allow, events)) == received(events),
    decreases events.len(),
{
    reveal_with_fuel(data_of, 3);
    if events.len() > 0 {
        let before = events.drop_last();
        law_nothing_lost_from_destination(sid, allow, before);
        let s = after(fresh(sid), allow, before);
        let frames = respond(s, allow, events.last()).1.frames;
        lemma_data_of_concat(transcript(fresh(sid), allow, before), frames);
        match events.last() {
            SessionEvent::Received(b) => {
                assert(data_of(frames) =~= frame::content(b)) by {
                    assert(frames.drop_last() =~= Seq::empty());
                }
            },
            _ => {
                lemma_no_data(frames);
                assert(data_of(transcript(fresh(sid), allow, events)) =~= received(events));
            },
        }
    }
}

pub proof fn lemma_no_data(frames: Seq<Sent>)
    requires
        forall|i: int| 0 <= i < frames.len() ==> (#[trigger] frames[i]).kind != FrameKind::Data,
    ensures
        data_of(frames) == Seq::<u8>::empty(),
    decreases frames.len(),
{
    if frames.len() > 0 {
        assert(frames[frames.len() - 1].kind != FrameKind::Data);
        assert forall|i: int| 0 <= i < frames.drop_last().len() implies (
        #[trigger] frames.drop_last()[i]).kind != FrameKind::Data by {
            assert(frames[i].kind != FrameKind::Data);
        }
        lemma_no_data(frames.drop_last());
    }
}

/// What the destination sends ends with at most one Eof: once the destination
/// has half-closed, no data and no second Eof is sent.
pub proof fn law_nothing_after_eof(s: RelaySession, allow: Seq<Seq<char>>, e: SessionEvent)
    requires
        consistent(s),
        accepts(s, e),
        s.read_closed,
    ensures
        forall|i: int|
            #![trigger respond(s, allow, e).1.frames[i]]
            0 <= i < respond(s, allow, e).1.frames.len() ==> respond(s, allow, e).1.frames[i].kind
                == FrameKind::Close,
        respond(s, allow, e).0.read_closed,
{
}

/// Close is sent only when both directions have ended, and ends the session.
pub proof fn law_close_ends_both_directions(s: RelaySession, allow: Seq<Seq<char>>, e: SessionEvent, i: int)
    requires
        accepts(s, e),
        0 <= i < respond(s, allow, e).1.frames.len(),
        respond(s, allow, e).1.frames[i].kind == FrameKind::Close,
    ensures
        respond(s, allow, e).0.read_closed,
        !respond(s, allow, e).0.peer_writable,
        respond(s, allow, e).0.phase == Phase::Done,
{
}

/// A session is dialed only for a destination that is allowed, and an error is
/// reported only before the destination is connected.
pub proof fn law_dial_only_allowed(s: RelaySession, allow: Seq<Seq<char>>, e: SessionEvent)
    requires
        accepts(s, e),
    ensures
        respond(s, allow, e).1.command matches CommandView::Dial { host, port } ==> s.phase
            == Phase::AwaitConnect && destination::allowed(allow, host),
        forall|i: int|
            #![trigger respond(s, allow, e).1.frames[i]]
            0 <= i < respond(s, allow, e).1.frames.len() && respond(s, allow, e).1.frames[i].kind
                == FrameKind::Error ==> (s.phase == Phase::AwaitConnect || s.phase
                == Phase::Dialing),
{
}

/// After the client has half-closed nothing more is written to the
/// destination.
pub proof fn law_no_write_after_client_eof(s: RelaySession, allow: Seq<Seq<char>>, e: SessionEvent)
    requires
        consistent(s),
        accepts(s, e),
        !s.peer_writable,
    ensures
        !(respond(s, allow, e).1.command is Write),
        !respond(s, allow, e).0.peer_writable,
{
}

/// A session ends in a step for one of these causes and for no other: a
/// destination that is not allowed, a first frame that is not Connect, a dial
/// that did not connect, the client's Close, the end of its frames, a failed
/// write, read or upload, or the second of the two directions ending. The
/// command to exit comes in that step and in no other.
pub proof fn law_ends_only_for_cause(s: RelaySession, allow: Seq<Seq<char>>, e: SessionEvent)
    requires
        accepts(s, e),
    ensures
        respond(s, allow, e).0.phase == Phase::Done <==> match e {
            SessionEvent::Inbound(InboundFrame::Connect { host, .. }) => s.phase
                == Phase::AwaitConnect && !destination::allowed(allow, host@),
            SessionEvent::Inbound(InboundFrame::Close) => true,
            SessionEvent::Inbound(_) => s.phase == Phase::AwaitConnect,
            SessionEvent::Dialed(outcome) => !(outcome is Connected),
            SessionEvent::Written(ok) | SessionEvent::Uploaded(ok) => !ok,
            SessionEvent::InboundClosed | SessionEvent::ReadFailed => true,
            SessionEvent::ShutDown => s.read_closed,
            SessionEvent::ReceivedEof => !s.peer_writable,
            SessionEvent::Received(_) => false,
        },
        respond(s, allow, e).1.command is Exit <==> respond(s, allow, e).0.phase == Phase::Done,
{
}

/// Work that succeeds goes on: after a connected dial, a completed write or a
/// completed upload the session is open and waits, with nothing else changed
/// and nothing sent. It takes every inbound frame, and reads the destination
/// unless that has half-closed.
pub proof fn law_success_goes_on(s: RelaySession, allow: Seq<Seq<char>>, e: SessionEvent)
    requires
        accepts(s, e),
        e == SessionEvent::Written(true) || e == SessionEvent::Uploaded(true) || e
            == SessionEvent::Dialed(DialOutcome::Connected),
    ensures
        ({
            let (t, step) = respond(s, allow, e);
            &&& t.phase == Phase::Open
            &&& t.sid == s.sid && t.next_seq == s.next_seq
            &&& t.peer_writable == s.peer_writable && t.read_closed == s.read_closed
            &&& step.command is Wait
            &&& step.frames.len() == 0
            &&& forall|f: InboundFrame| accepts(t, SessionEvent::Inbound(f))
            &&& accepts(t, SessionEvent::InboundClosed)
            &&& accepts(t, SessionEvent::ReceivedEof) == !s.read_closed
            &&& accepts(t, SessionEvent::ReadFailed) == !s.read_closed
            &&& forall|b: Bytes|
                accepts(t, SessionEvent::Received(b)) == (!s.read_closed && frame::content(b).len()
                    > 0)
        }),
{
}

/// Each command leaves the session waiting for the report on that command:
/// a dial for its outcome, a write for its outcome, a half-close for its end,
/// an upload for its outcome, a wait for the next event.
pub proof fn law_command_is_awaited(s: RelaySession, allow: Seq<Seq<char>>, e: SessionEvent)
    requires
        accepts(s, e),
    ensures
        ({
            let (t, step) = respond(s, allow, e);
            &&& step.command is Dial ==> forall|o: DialOutcome| accepts(t, SessionEvent::Dialed(o))
            &&& step.command is Write ==> forall|ok: bool| accepts(t, SessionEvent::Written(ok))
            &&& step.command is ShutdownWrite ==> accepts(t, SessionEvent::ShutDown)
            &&& step.command is AwaitUpload ==> forall|ok: bool|
                accepts(t, SessionEvent::Uploaded(ok))
            &&& step.command is Wait ==> forall|f: InboundFrame|
                accepts(t, SessionEvent::Inbound(f))
            &&& step.command is Wait && !t.read_closed ==> accepts(t, SessionEvent::ReceivedEof)
            &&& step.command is Exit ==> forall|n: SessionEvent| !accepts(t, n)
        }),
{
}

/// The two directions end separately. The destination's side is closed by its
/// end of stream alone, the client's side by a completed half-close alone, and
/// a session keeps its identity.
pub proof fn law_directions_end_separately(s: RelaySession, allow: Seq<Seq<char>>, e: SessionEvent)
    requires
        accepts(s, e),
    ensures
        respond(s, allow, e).0.read_closed <==> s.read_closed || e is ReceivedEof,
        respond(s, allow, e).0.peer_writable <==> s.peer_writable && !(e is ShutDown),
        respond(s, allow, e).0.sid == s.sid,
{
}

/// What the client sends reaches the destination: an allowed Connect is dialed
/// to the host and port that it names, the bytes of Data are written as they
/// are while the client has not half-closed, and Eof half-closes the
/// destination. Each of these counts as activity.
pub proof fn law_client_frames_are_carried_out(
    s: RelaySession,
    allow: Seq<Seq<char>>,
    host: String,
    port: u16,
    b: Bytes,
)
    ensures
        s.phase == Phase::AwaitConnect && destination::allowed(allow, host@) ==> ({
            let (t, step) = respond(
                s,
                allow,
                SessionEvent::Inbound(InboundFrame::Connect { host, port }),
            );
            &&& step.command == (CommandView::Dial { host: host@, port })
            &&& step.frames.len() == 0 && step.touched
            &&& t.phase == Phase::Dialing && t.next_seq == s.next_seq
        }),
        s.phase == Phase::Open && s.peer_writable ==> ({
            let (t, step) = respond(s, allow, SessionEvent::Inbound(InboundFrame::Data(b)));
            &&& step.command == CommandView::Write(frame::content(b))
            &&& step.frames.len() == 0 && step.touched
            &&& t.phase == Phase::Writing && t.next_seq == s.next_seq
        }),
        s.phase == Phase::Open ==> ({
            let (t, step) = respond(s, allow, SessionEvent::Inbound(InboundFrame::Eof));
            &&& step.command is ShutdownWrite
            &&& step.frames.len() == 0 && step.touched
            &&& t.phase == Phase::Shutting && t.next_seq == s.next_seq
        }),
{
}

/// In an open session a second Connect changes nothing, and Data after the
/// client's Eof is dropped: the session stays as it is and waits.
pub proof fn law_stray_frames_change_nothing(
    s: RelaySession,
    allow: Seq<Seq<char>>,
    host: String,
    port: u16,
    b: Bytes,
)
    requires
        s.phase == Phase::Open,
    ensures
        ({
            let (t, step) = respond(
                s,
                allow,
                SessionEvent::Inbound(InboundFrame::Connect { host, port }),
            );
            t == s && step.command is Wait && step.frames.len() == 0 && !step.touched
        }),
        !s.peer_writable ==> ({
            let (t, step) = respond(s, allow, SessionEvent::Inbound(InboundFrame::Data(b)));
            t == s && step.command is Wait && step.frames.len() == 0
        }),
{
}

/// Which frames a step sends. Data carries the bytes that the destination
/// sent, all of them, and nothing but a read sends it; the destination's end
/// sends Eof; Close is sent when the second direction ends; an error is sent
/// for a refused destination and for a dial that did not connect; any other
/// step sends nothing.
pub proof fn law_frames_of_a_step(s: RelaySession, allow: Seq<Seq<char>>, e: SessionEvent)
    requires
        accepts(s, e),
        s.next_seq + 2 <= u64::MAX,
    ensures
        ({
            let frames = respond(s, allow, e).1.frames;
            match e {
                SessionEvent::Received(b) => {
                    &&& frames.len() == 1
                    &&& frames[0].kind == FrameKind::Data
                    &&& frames[0].payload == frame::content(b)
                    &&& frames[0].seq == s.next_seq
                },
                SessionEvent::ReceivedEof => {
                    &&& frames.len() == (if s.peer_writable { 1int } else { 2int })
                    &&& frames[0].kind == FrameKind::Eof
                    &&& frames[0].seq == s.next_seq
                    &&& frames[0].payload.len() == 0
                    &&& !s.peer_writable ==> frames[1].kind == FrameKind::Close && frames[1].seq
                        == s.next_seq + 1 && frames[1].payload.len() == 0
                },
                SessionEvent::ShutDown => {
                    &&& frames.len() == (if s.read_closed { 1int } else { 0int })
                    &&& s.read_closed ==> frames[0].kind == FrameKind::Close && frames[0].seq
                        == s.next_seq && frames[0].payload.len() == 0
                },
                SessionEvent::Dialed(outcome) => {
                    &&& outcome is Connected ==> frames.len() == 0
                    &&& !(outcome is Connected) ==> frames.len() == 1 && frames[0].kind
                        == FrameKind::Error
                },
                SessionEvent::Inbound(InboundFrame::Connect { host, .. }) => {
                    let refused = s.phase == Phase::AwaitConnect && !destination::allowed(
                        allow,
                        host@,
                    );
                    &&& frames.len() == (if refused { 1int } else { 0int })
                    &&& refused ==> frames[0].kind == FrameKind::Error
                },
                _ => frames.len() == 0,
            }
        }),
{
}

/// A refusal tells the client why: that the destination is not allowed, that
/// the relay is shutting down, or what the dial failed with.
pub proof fn law_refusal_says_why(
    s: RelaySession,
    allow: Seq<Seq<char>>,
    host: String,
    port: u16,
    why: String,
)
    ensures
        s.phase == Phase::AwaitConnect && !destination::allowed(allow, host@) ==> respond(
            s,
            allow,
            SessionEvent::Inbound(InboundFrame::Connect { host, port }),
        ).1.frames[0].payload == encode_utf8("destination not on allow list"@),
        s.phase == Phase::Dialing ==> respond(
            s,
            allow,
            SessionEvent::Dialed(DialOutcome::NoPermit),
        ).1.frames[0].payload == encode_utf8("relay shutting down"@),
        s.phase == Phase::Dialing ==> respond(
            s,
            allow,
            SessionEvent::Dialed(DialOutcome::Failed(why)),
        ).1.frames[0].payload == encode_utf8("dial failed: "@ + why@),
{
}

/// A session counts as active when the client asks for a destination, when it
/// sends Data or Eof into an open session, and when the destination sends
/// bytes; for no other event.
pub proof fn law_activity(s: RelaySession, allow: Seq<Seq<char>>, e: SessionEvent)
    requires
        accepts(s, e),
    ensures
        respond(s, allow, e).1.touched <==> match e {
            SessionEvent::Inbound(InboundFrame::Connect { .. }) => s.phase == Phase::AwaitConnect,
            SessionEvent::Inbound(InboundFrame::Data(_)) | SessionEvent::Inbound(
                InboundFrame::Eof,
            ) => s.phase == Phase::Open,
            SessionEvent::Received(_) => true,
            _ => false,
        },
{
}

/// A new session waits for its first frame, has sent nothing, and has both
/// directions open.
pub proof fn law_new_session_awaits_its_first_frame(sid: SessionId)
    ensures
        ({
            let s = fresh(sid);
            &&& s.sid == sid && s.next_seq == 0
            &&& s.peer_writable && !s.read_closed
            &&& forall|f: InboundFrame| accepts(s, SessionEvent::Inbound(f))
            &&& accepts(s, SessionEvent::InboundClosed)
            &&& !accepts(s, SessionEvent::ReceivedEof)
        }),
{
}

} // verus!
