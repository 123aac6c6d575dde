//! The relay's poll cycle: what a listing makes of the folder, and what
//! becomes of each file.
use vstd::prelude::*;
use vstd::utf8::encode_utf8;

use crate::connect;
use crate::filename;
use crate::filename::{Direction, DriveFilename, FilenameKind};
use crate::frame;
use crate::frame::{FrameKind, SessionId, WireFrame};
use crate::listing;
use crate::listing::{DriveFile, ListedFile, Sessions};
use crate::replay;
use crate::replay::{SeqCheck, SessionTable};
use crate::session::InboundFrame;

verus! {

/// The work of one cycle: all session openers first, then each session's
/// frames in order.
pub struct RelayCycle {
    pub hellos: Vec<ListedFile>,
    pub groups: Vec<Vec<ListedFile>>,
}

/// A listing that failed counts as empty.
pub open spec fn listed(files: Option<Vec<DriveFile>>) -> Seq<DriveFile> {
    match files {
        Some(files) => files@,
        None => Seq::empty(),
    }
}

/// The session openers of a listing.
pub open spec fn hellos_of(files: Option<Vec<DriveFile>>) -> Seq<ListedFile> {
    listing::selected(listed(files), FilenameKind::Hello, Set::full())
}

/// The client's frames of a listing.
pub open spec fn frames_of(files: Option<Vec<DriveFile>>) -> Seq<ListedFile> {
    listing::selected(
        listed(files),
        FilenameKind::Frame(Direction::ClientToRelay),
        Set::full(),
    )
}

fn select_all(files: &Option<Vec<DriveFile>>, kind: FilenameKind) -> (r: Vec<ListedFile>)
    ensures
        r@ == listing::selected(listed(*files), kind, Set::full()),
{
    match files {
        Some(files) => listing::select(files, kind, &Sessions::All),
        None => Vec::new(),
    }
}

/// Plans a cycle from the listings for session openers and for client frames,
/// each of which may have failed. `None` means that there is no work.
pub fn plan_cycle(hello_files: Option<Vec<DriveFile>>, frame_files: Option<Vec<DriveFile>>) -> (r:
    Option<RelayCycle>)
    ensures
        match r {
            Some(c) => {
                &&& hellos_of(hello_files).len() > 0 || frames_of(frame_files).len() > 0
                &&& c.hellos@ == hellos_of(hello_files)
                &&& listing::is_grouping(listing::views(c.groups@), frames_of(frame_files))
            },
            None => hellos_of(hello_files).len() == 0 && frames_of(frame_files).len() == 0,
        },
{
    let hellos = select_all(&hello_files, FilenameKind::Hello);
    let frames = select_all(&frame_files, FilenameKind::Frame(Direction::ClientToRelay));
    if hellos.len() == 0 && frames.len() == 0 {
        return None;
    }
    Some(RelayCycle { hellos, groups: listing::group_by_session(frames) })
}

/// What to do with a session opener before its body is fetched.
#[derive(Debug, Clone, Copy)]
pub enum HelloIntake {
    /// Not a session opener.
    Ignore,
    /// Too large to be one.
    Delete,
    Download { sid: SessionId },
}

/// The decision on a file that should open a session, by name and size.
pub open spec fn hello_decision(file: DriveFile, hello_body_len: u64) -> HelloIntake {
    match filename::parsed_name(file.name@) {
        Some(n) => if n.kind == FilenameKind::Hello && n.seq == 0 {
            if file.size is Some && file.size->0 > hello_body_len {
                HelloIntake::Delete
            } else {
                HelloIntake::Download { sid: n.sid }
            }
        } else {
            HelloIntake::Ignore
        },
        None => HelloIntake::Ignore,
    }
}

/// Decides on a file that should open a session. `hello_body_len` is the length
/// of a session opener's body.
pub fn hello_intake(file: &DriveFile, hello_body_len: u64) -> (r: HelloIntake)
    ensures
        r == hello_decision(*file, hello_body_len),
{
    match filename::parse_filename(file.name.as_str()) {
        Some(n) => {
            if n.kind == FilenameKind::Hello && n.seq == 0 {
                if let Some(size) = file.size {
                    if size > hello_body_len {
                        return HelloIntake::Delete;
                    }
                }
                HelloIntake::Download { sid: n.sid }
            } else {
                HelloIntake::Ignore
            }
        },
        None => HelloIntake::Ignore,
    }
}

/// What came of fetching a session opener and agreeing on keys.
#[derive(Debug, Clone, Copy, PartialEq, Eq, Structural)]
pub enum HelloOutcome {
    /// The body is longer than a session opener's.
    TooLarge,
    /// The download failed.
    Failed,
    /// The body is not a session opener's.
    Undecodable,
    /// The key agreement failed.
    NoAgreement,
    Agreed,
}

/// What to do with a fetched session opener.
#[derive(Debug, Clone, Copy, PartialEq, Eq, Structural)]
pub enum HelloAction {
    /// Report the failure and leave the file for a later cycle.
    Retry,
    Delete,
    /// Start the session's driver, then delete the file.
    SpawnThenDelete,
}

/// What to do with a session opener, by whether its session is open already.
pub open spec fn hello_action(known: bool, outcome: HelloOutcome) -> HelloAction {
    match outcome {
        HelloOutcome::Failed => HelloAction::Retry,
        HelloOutcome::Agreed => if known {
            HelloAction::Delete
        } else {
            HelloAction::SpawnThenDelete
        },
        _ => HelloAction::Delete,
    }
}

/// The open sessions after a session opener was acted on.
pub open spec fn sessions_after(
    sessions: Map<SessionId, u64>,
    sid: SessionId,
    outcome: HelloOutcome,
) -> Map<SessionId, u64> {
    if outcome == HelloOutcome::Agreed {
        replay::with_session(sessions, sid)
    } else {
        sessions
    }
}

/// Acts on a fetched session opener. A session that is already open is not
/// reset; its opener is only deleted.
pub fn admit_hello(table: &mut SessionTable, sid: SessionId, outcome: HelloOutcome) -> (r: HelloAction)
    ensures
        r == hello_action(old(table)@.contains_key(sid), outcome),
        final(table)@ == sessions_after(old(table)@, sid, outcome),
{
    match outcome {
        HelloOutcome::TooLarge | HelloOutcome::Undecodable | HelloOutcome::NoAgreement => {
            HelloAction::Delete
        },
        HelloOutcome::Failed => HelloAction::Retry,
        HelloOutcome::Agreed => if table.open(sid) {
            HelloAction::SpawnThenDelete
        } else {
            HelloAction::Delete
        },
    }
}

/// Which end of the protocol takes frames.
#[derive(Debug, Clone, Copy, PartialEq, Eq, Structural)]
pub enum Side {
    Relay,
    Client,
}

/// What to do with a frame file before its body is fetched.
#[derive(Debug, Clone, Copy, PartialEq, Eq, Structural)]
pub enum FrameIntake {
    Leave,
    Delete,
    Download,
}

/// The decision on a frame file by name and size. The relay leaves a frame
/// whose session is not open, since its opener may be listed later; the client
/// deletes it, since its session is over. A replayed frame is deleted, a frame
/// ahead of its turn is left.
pub open spec fn frame_decision(
    side: Side,
    sessions: Map<SessionId, u64>,
    name: DriveFilename,
    size: Option<u64>,
    max_sealed: u64,
) -> FrameIntake {
    if side == Side::Relay && name.kind != FilenameKind::Frame(Direction::ClientToRelay) {
        FrameIntake::Leave
    } else if !sessions.contains_key(name.sid) {
        match side {
            Side::Relay => FrameIntake::Leave,
            Side::Client => FrameIntake::Delete,
        }
    } else {
        match replay::check(sessions[name.sid], name.seq) {
            SeqCheck::Replay => FrameIntake::Delete,
            SeqCheck::Future { expected } => FrameIntake::Leave,
            SeqCheck::Next => if size is Some && size->0 > max_sealed {
                FrameIntake::Delete
            } else {
                FrameIntake::Download
            },
        }
    }
}

/// Decides on a frame file. `max_sealed` is the largest sealed body accepted.
pub fn frame_intake(
    side: Side,
    table: &SessionTable,
    name: &DriveFilename,
    size: Option<u64>,
    max_sealed: u64,
) -> (r: FrameIntake)
    ensures
        r == frame_decision(side, table@, *name, size, max_sealed),
{
    if side == Side::Relay && name.kind != FilenameKind::Frame(Direction::ClientToRelay) {
        return FrameIntake::Leave;
    }
    match table.check(&name.sid, name.seq) {
        None => match side {
            Side::Relay => FrameIntake::Leave,
            Side::Client => FrameIntake::Delete,
        },
        Some(SeqCheck::Replay) => FrameIntake::Delete,
        Some(SeqCheck::Future { .. }) => FrameIntake::Leave,
        Some(SeqCheck::Next) => {
            if let Some(size) = size {
                if size > max_sealed {
                    return FrameIntake::Delete;
                }
            }
            FrameIntake::Download
        },
    }
}

/// What came of fetching and unsealing a frame.
pub enum Fetched {
    /// The body is longer than a sealed frame may be.
    TooLarge,
    /// The download failed.
    Failed,
    /// The seal does not open.
    Unopened,
    /// The plaintext.
    Opened(Vec<u8>),
}

/// The plaintext is a frame, and the one that its file name says it is.
pub open spec fn carries(name: DriveFilename, plaintext: Seq<u8>) -> bool {
    &&& frame::defect(plaintext) is None
    &&& frame::sid_field(plaintext) == name.sid@
    &&& frame::seq_field(plaintext) == name.seq
}

/// The frame in a plaintext, if it is the one that the file name says.
pub fn carried_frame(name: &DriveFilename, plaintext: &Vec<u8>) -> (r: Option<WireFrame>)
    ensures
        match r {
            Some(f) => {
                &&& carries(*name, plaintext@)
                &&& frame::kind_byte(f.kind) == plaintext@[1]
                &&& f.sid == name.sid
                &&& f.seq == name.seq
                &&& frame::content(f.payload) == frame::payload_field(plaintext@)
            },
            None => !carries(*name, plaintext@),
        },
{
    match WireFrame::decode(plaintext.as_slice()) {
        Ok(f) => {
            if listing::same_sid(&f.sid, &name.sid) && f.seq == name.seq {
                Some(f)
            } else {
                proof {
                    if f.sid@ == name.sid@ {
                        assert(f.sid =~= name.sid);
                    }
                }
                None
            }
        },
        Err(_) => None,
    }
}

/// What the relay makes of a frame from the client: an error report closes the
/// session, a session opener or a Connect without a destination is refused.
pub open spec fn relay_event(kind: FrameKind, payload: Seq<u8>) -> Option<EventView> {
    match kind {
        FrameKind::Connect => match connect::payload_target(payload) {
            Some(t) => Some(EventView::Connect { host: t.0, port: t.1 }),
            None => None,
        },
        FrameKind::Data => Some(EventView::Data(payload)),
        FrameKind::Eof => Some(EventView::Eof),
        FrameKind::Close => Some(EventView::Close),
        FrameKind::Error => Some(EventView::Close),
        FrameKind::Hello => None,
    }
}

/// An inbound frame over views.
pub enum EventView {
    Connect { host: Seq<char>, port: u16 },
    Data(Seq<u8>),
    Eof,
    Close,
}

impl View for InboundFrame {
    type V = EventView;

    open spec fn view(&self) -> EventView {
        match self {
            InboundFrame::Connect { host, port } => EventView::Connect { host: host@, port: *port },
            InboundFrame::Data(b) => EventView::Data(frame::content(*b)),
            InboundFrame::Eof => EventView::Eof,
            InboundFrame::Close => EventView::Close,
        }
    }
}

/// Reads a frame from the client.
pub fn frame_to_inbound(f: WireFrame) -> (r: Option<InboundFrame>)
    ensures
        match r {
            Some(e) => relay_event(f.kind, frame::content(f.payload)) == Some(e@),
            None => relay_event(f.kind, frame::content(f.payload)) is None,
        },
{
    match f.kind {
        FrameKind::Connect => {
            match connect::parse_connect_addr(frame::bytes_as_slice(&f.payload)) {
                Some((host, port)) => Some(InboundFrame::Connect { host, port }),
                None => None,
            }
        },
        FrameKind::Data => Some(InboundFrame::Data(f.payload)),
        FrameKind::Eof => Some(InboundFrame::Eof),
        FrameKind::Close => Some(InboundFrame::Close),
        FrameKind::Error => Some(InboundFrame::Close),
        FrameKind::Hello => None,
    }
}

/// What to do with a fetched frame.
pub enum FrameAction<E> {
    /// Leave the file; the same sequence number is expected again.
    Leave,
    /// Report the failure and leave the file.
    Retry,
    Delete,
    /// Hand the event to the session, move the session past the frame and
    /// delete the file.
    Deliver(E),
}

/// The relay's decision on a fetched frame.
pub struct RelayDelivery {
    /// The session was active.
    pub touched: bool,
    pub action: FrameAction<InboundFrame>,
}

/// The kind with a given wire byte.
pub open spec fn kind_of(b: u8) -> FrameKind {
    choose|k: FrameKind| frame::kind_byte(k) == b
}

/// The event that a plaintext stands for on the relay's side.
pub open spec fn relay_event_of(name: DriveFilename, plaintext: Seq<u8>) -> Option<EventView> {
    if carries(name, plaintext) {
        relay_event(kind_of(plaintext[1]), frame::payload_field(plaintext))
    } else {
        None
    }
}

pub proof fn lemma_kind_of(k: FrameKind)
    ensures
        kind_of(frame::kind_byte(k)) == k,
{
    let b = frame::kind_byte(k);
    let c = kind_of(b);
    assert(frame::kind_byte(c) == b);
}

/// What becomes of a frame file that was fetched, by the event that its
/// plaintext is.
pub open spec fn settled<E>(fetched: Fetched, event: Option<E>) -> FrameAction<E> {
    match fetched {
        Fetched::TooLarge => FrameAction::Delete,
        Fetched::Failed => FrameAction::Retry,
        Fetched::Unopened => FrameAction::Leave,
        Fetched::Opened(_) => match event {
            Some(e) => FrameAction::Deliver(e),
            None => FrameAction::Leave,
        },
    }
}

/// The plaintext that was fetched.
pub open spec fn opened_text(fetched: Fetched) -> Seq<u8> {
    match fetched {
        Fetched::Opened(plaintext) => plaintext@,
        _ => Seq::empty(),
    }
}

/// An action over the view of its event.
pub open spec fn action_view(a: FrameAction<InboundFrame>) -> FrameAction<EventView> {
    match a {
        FrameAction::Leave => FrameAction::Leave,
        FrameAction::Retry => FrameAction::Retry,
        FrameAction::Delete => FrameAction::Delete,
        FrameAction::Deliver(e) => FrameAction::Deliver(e@),
    }
}

/// Decides on a fetched frame of the client: only a frame that opens, decodes,
/// is the one its name says and makes sense in this direction is delivered.
pub fn relay_delivery(name: &DriveFilename, fetched: Fetched) -> (r: RelayDelivery)
    ensures
        match fetched {
            Fetched::TooLarge => r.action is Delete && !r.touched,
            Fetched::Failed => r.action is Retry && !r.touched,
            Fetched::Unopened => r.action is Leave && !r.touched,
            Fetched::Opened(plaintext) => {
                &&& r.touched == carries(*name, plaintext@)
                &&& match relay_event_of(*name, plaintext@) {
                    Some(e) => r.action matches FrameAction::Deliver(i) && i@ == e,
                    None => r.action is Leave,
                }
            },
        },
        action_view(r.action) == settled(fetched, relay_event_of(*name, opened_text(fetched))),
{
    match fetched {
        Fetched::TooLarge => RelayDelivery { touched: false, action: FrameAction::Delete },
        Fetched::Failed => RelayDelivery { touched: false, action: FrameAction::Retry },
        Fetched::Unopened => RelayDelivery { touched: false, action: FrameAction::Leave },
        Fetched::Opened(plaintext) => match carried_frame(name, &plaintext) {
            Some(f) => {
                proof {
                    lemma_kind_of(f.kind);
                }
                match frame_to_inbound(f) {
                    Some(e) => RelayDelivery { touched: true, action: FrameAction::Deliver(e) },
                    None => RelayDelivery { touched: true, action: FrameAction::Leave },
                }
            },
            None => RelayDelivery { touched: false, action: FrameAction::Leave },
        },
    }
}

/// A file is only fetched, and so only delivered, for the sequence number that
/// its session expects next.
pub proof fn law_only_next_is_fetched(
    side: Side,
    sessions: Map<SessionId, u64>,
    name: DriveFilename,
    size: Option<u64>,
    max_sealed: u64,
)
    requires
        frame_decision(side, sessions, name, size, max_sealed) == FrameIntake::Download,
    ensures
        sessions.contains_key(name.sid),
        sessions[name.sid] == name.seq,
{
}

/// A frame that is not there in time costs nothing: ahead of its turn a file is
/// left untouched by both sides.
pub proof fn law_future_frame_is_left(
    side: Side,
    sessions: Map<SessionId, u64>,
    name: DriveFilename,
    size: Option<u64>,
    max_sealed: u64,
)
    requires
        sessions.contains_key(name.sid),
        name.seq > sessions[name.sid],
    ensures
        frame_decision(side, sessions, name, size, max_sealed) == FrameIntake::Leave,
{
}

/// What the client frames, the relay reads: the plaintext that carries a frame
/// of the client under its own file name stands for the event it was made for.
pub proof fn law_relay_reads_client_frame(
    kind: FrameKind,
    sid: SessionId,
    seq: u64,
    payload: Seq<u8>,
)
    requires
        payload.len() <= frame::MAX_PAYLOAD,
    ensures
        ({
            let name = DriveFilename {
                kind: FilenameKind::Frame(Direction::ClientToRelay),
                sid,
                seq,
            };
            let plaintext = frame::encoded(frame::WIRE_VERSION, kind, sid@, seq, payload);
            carries(name, plaintext) && relay_event_of(name, plaintext) == relay_event(kind, payload)
        }),
{
    frame::law_decode_reads_back_encode(kind, sid, seq, payload, Seq::empty());
    let e = frame::encoded(frame::WIRE_VERSION, kind, sid@, seq, payload);
    assert(e + Seq::<u8>::empty() =~= e);
    lemma_kind_of(kind);
}

/// On either side, a frame is fetched if and only if its session is open, its
/// sequence number is the one expected next and its size is unknown or at most
/// the limit; the relay moreover fetches frames of the client only.
pub proof fn law_next_frame_is_fetched(
    side: Side,
    sessions: Map<SessionId, u64>,
    name: DriveFilename,
    size: Option<u64>,
    max_sealed: u64,
)
    ensures
        frame_decision(side, sessions, name, size, max_sealed) == FrameIntake::Download <==> {
            &&& side == Side::Relay ==> name.kind == FilenameKind::Frame(Direction::ClientToRelay)
            &&& sessions.contains_key(name.sid)
            &&& sessions[name.sid] == name.seq
            &&& size matches Some(n) ==> n <= max_sealed
        },
{
}

/// A frame is deleted unread if and only if it was delivered before, or it is
/// next and known to be too large, or no session on the client's side awaits
/// it. A frame that is still to come is never deleted.
pub proof fn law_only_useless_frames_are_deleted(
    side: Side,
    sessions: Map<SessionId, u64>,
    name: DriveFilename,
    size: Option<u64>,
    max_sealed: u64,
)
    ensures
        frame_decision(side, sessions, name, size, max_sealed) == FrameIntake::Delete <==> {
            if sessions.contains_key(name.sid) {
                &&& side == Side::Relay ==> name.kind == FilenameKind::Frame(
                    Direction::ClientToRelay,
                )
                &&& name.seq < sessions[name.sid] || (name.seq == sessions[name.sid] && size
                    is Some && size->0 > max_sealed)
            } else {
                side == Side::Client
            }
        },
{
}

/// The relay leaves alone what is not a client's frame and what belongs to no
/// session that it serves.
pub proof fn law_relay_leaves_strangers(
    sessions: Map<SessionId, u64>,
    name: DriveFilename,
    size: Option<u64>,
    max_sealed: u64,
)
    requires
        name.kind != FilenameKind::Frame(Direction::ClientToRelay) || !sessions.contains_key(
            name.sid,
        ),
    ensures
        frame_decision(Side::Relay, sessions, name, size, max_sealed) == FrameIntake::Leave,
{
}

/// A frame is fetched once: when it has been delivered it is deleted on sight,
/// and the frame after it is fetched.
pub proof fn law_delivered_frame_is_not_fetched_again(
    side: Side,
    sessions: Map<SessionId, u64>,
    name: DriveFilename,
    size: Option<u64>,
    max_sealed: u64,
)
    requires
        frame_decision(side, sessions, name, size, max_sealed) == FrameIntake::Download,
        name.seq < u64::MAX,
    ensures
        ({
            let then = replay::committed(sessions, name.sid, name.seq);
            let following = DriveFilename { seq: (name.seq + 1) as u64, ..name };
            &&& frame_decision(side, then, name, size, max_sealed) == FrameIntake::Delete
            &&& frame_decision(side, then, following, None, max_sealed) == FrameIntake::Download
            &&& frame_decision(side, sessions, following, None, max_sealed) == FrameIntake::Leave
        }),
{
}

/// A file is fetched as the opener of a session if and only if it bears the
/// name of that session's opener, which has sequence number 0, and its size is
/// unknown or at most that of an opener. One that is larger is deleted, and any
/// other file is ignored.
pub proof fn law_opener_by_name_and_size(file: DriveFile, sid: SessionId, hello_body_len: u64)
    ensures
        hello_decision(file, hello_body_len) == (HelloIntake::Download { sid }) <==> {
            &&& file.name@ == filename::name_text(FilenameKind::Hello, sid@, 0)
            &&& file.size matches Some(n) ==> n <= hello_body_len
        },
        file.name@ == filename::name_text(FilenameKind::Hello, sid@, 0) ==> (hello_decision(
            file,
            hello_body_len,
        ) is Delete <==> file.size is Some && file.size->0 > hello_body_len),
        (forall|id: SessionId|
            file.name@ != #[trigger] filename::name_text(FilenameKind::Hello, id@, 0))
            ==> hello_decision(file, hello_body_len) is Ignore,
{
    let f = DriveFilename { kind: FilenameKind::Hello, sid, seq: 0 };
    filename::law_parsed_name(f);
    if let Some(n) = filename::parsed_name(file.name@) {
        assert(n.text() == file.name@);
        if n.kind == FilenameKind::Hello && n.seq == 0 {
            assert(file.name@ == filename::name_text(FilenameKind::Hello, n.sid@, 0));
        }
    }
}

/// A session is served from the opener that agreed on keys, once: it is started
/// if it is not open, and expects frame 0. A second opener of it changes
/// nothing. Without an agreement no session is opened. An opener is kept for
/// another try only if its download failed.
pub proof fn law_session_is_opened_once(
    sessions: Map<SessionId, u64>,
    sid: SessionId,
    outcome: HelloOutcome,
)
    ensures
        hello_action(sessions.contains_key(sid), outcome) == HelloAction::SpawnThenDelete <==>
            outcome == HelloOutcome::Agreed && !sessions.contains_key(sid),
        hello_action(sessions.contains_key(sid), outcome) == HelloAction::Retry <==> outcome
            == HelloOutcome::Failed,
        outcome == HelloOutcome::Agreed ==> sessions_after(sessions, sid, outcome).contains_key(
            sid,
        ),
        hello_action(sessions.contains_key(sid), outcome) == HelloAction::SpawnThenDelete
            ==> sessions_after(sessions, sid, outcome)[sid] == 0,
        hello_action(sessions.contains_key(sid), outcome) != HelloAction::SpawnThenDelete
            ==> sessions_after(sessions, sid, outcome) == sessions,
        forall|s: SessionId|
            s != sid && #[trigger] sessions.contains_key(s) ==> sessions_after(
                sessions,
                sid,
                outcome,
            ).contains_key(s) && sessions_after(sessions, sid, outcome)[s] == sessions[s],
{
}

/// What the relay makes of a client's frame: Data gives its payload as it is,
/// a Connect the host and port whose address it carries, Eof and Close
/// themselves, an error report closes, and a session opener is no event.
pub proof fn law_relay_event_by_kind(payload: Seq<u8>, host: Seq<char>, port: u16)
    ensures
        relay_event(FrameKind::Data, payload) == Some(EventView::Data(payload)),
        relay_event(FrameKind::Connect, encode_utf8(connect::address_text(host, port))) == Some(
            (EventView::Connect { host, port }),
        ),
        connect::payload_target(payload) is None ==> relay_event(FrameKind::Connect, payload) is None,
        relay_event(FrameKind::Eof, payload) == Some(EventView::Eof),
        relay_event(FrameKind::Close, payload) == Some(EventView::Close),
        relay_event(FrameKind::Error, payload) == Some(EventView::Close),
        relay_event(FrameKind::Hello, payload) is None,
{
    connect::law_connect_reads_back(host, port);
}

/// A plaintext is taken for the frame that a file name announces only if the
/// session and the sequence number inside it are those of the name: the frame
/// of another session or of another place is not delivered.
pub proof fn law_misplaced_frame_is_not_delivered(
    name: DriveFilename,
    kind: FrameKind,
    sid: SessionId,
    seq: u64,
    payload: Seq<u8>,
)
    requires
        payload.len() <= frame::MAX_PAYLOAD,
        sid@ != name.sid@ || seq != name.seq,
    ensures
        relay_event_of(name, frame::encoded(frame::WIRE_VERSION, kind, sid@, seq, payload)) is None,
{
    frame::law_decode_reads_back_encode(kind, sid, seq, payload, Seq::empty());
    let b = frame::encoded(frame::WIRE_VERSION, kind, sid@, seq, payload);
    assert(b + Seq::<u8>::empty() =~= b);
}

/// A cycle of the relay takes up every opener among the files that were listed
/// for openers and every client's frame among those listed for frames, and
/// nothing of another kind; a listing that failed gives nothing.
pub proof fn law_cycle_takes_openers_and_client_frames(
    files: Vec<DriveFile>,
    i: int,
    name: DriveFilename,
)
    requires
        0 <= i < files@.len(),
        files@[i].name@ == name.text(),
    ensures
        hellos_of(Some(files)).contains((ListedFile { file: files@[i], name })) <==> name.kind
            == FilenameKind::Hello,
        frames_of(Some(files)).contains((ListedFile { file: files@[i], name })) <==> name.kind
            == FilenameKind::Frame(Direction::ClientToRelay),
        hellos_of(None).len() == 0,
        frames_of(None).len() == 0,
{
    listing::law_selected_exactly(files@, i, name, FilenameKind::Hello, Set::full());
    listing::law_selected_exactly(
        files@,
        i,
        name,
        FilenameKind::Frame(Direction::ClientToRelay),
        Set::full(),
    );
}

/// A file that was fetched is deleted unread only if it is too large, is tried
/// again if and only if its download failed, and is delivered if and only if it
/// opened and holds the frame that its name announces; otherwise it is left.
pub proof fn law_fetched_file_is_settled<E>(fetched: Fetched, event: Option<E>)
    ensures
        settled(fetched, event) is Delete <==> fetched is TooLarge,
        settled(fetched, event) is Retry <==> fetched is Failed,
        settled(fetched, event) is Deliver <==> fetched is Opened && event is Some,
        settled(fetched, event) matches FrameAction::Deliver(e) ==> event == Some(e),
        settled(fetched, event) is Leave <==> fetched is Unopened || (fetched is Opened && event
            is None),
{
}

} // verus!
