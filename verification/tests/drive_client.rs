use bytes::Bytes;
use rahgozar::connect::parse_connect_addr;
use rahgozar::drive_client::{
    build_wire_frame, client_delivery, front_ip, opening_failure, opening_frames, plan_cycle, upload_permits,
    wire_to_inbound, ClientSession, InboundFrame, OpeningStep, PumpCommand, PumpEnd, PumpEvent, TokenCache,
};
use rahgozar::filename::{frame_filename, Direction, DriveFilename, FilenameKind};
use rahgozar::frame::{FrameKind, SessionId, WireFrame, WIRE_VERSION};
use rahgozar::listing::DriveFile;
use rahgozar::poll::{FrameAction, Fetched};
use rahgozar::replay::SessionTable;

fn fixed_sid() -> SessionId {
    [
        0xaa, 0xbb, 0xcc, 0xdd, 0xee, 0xff, 0x11, 0x22, 0x33, 0x44, 0x55, 0x66, 0x77, 0x88, 0x99,
        0x00,
    ]
}

fn frame(kind: FrameKind, payload: &[u8]) -> WireFrame {
    WireFrame {
        version: WIRE_VERSION,
        kind,
        sid: fixed_sid(),
        seq: 0,
        payload: Bytes::copy_from_slice(payload),
    }
}

#[test]
fn wire_to_inbound_data_preserves_bytes() {
    let payload = b"\x00\x01\x02hello\xff\xfe";
    let f = frame(FrameKind::Data, payload);
    match wire_to_inbound(f).unwrap() {
        InboundFrame::Data(b) => assert_eq!(&b[..], payload),
        other => panic!("expected Data, got {other:?}"),
    }
}

#[test]
fn wire_to_inbound_eof_and_close() {
    assert!(matches!(
        wire_to_inbound(frame(FrameKind::Eof, b"")).unwrap(),
        InboundFrame::Eof
    ));
    assert!(matches!(
        wire_to_inbound(frame(FrameKind::Close, b"")).unwrap(),
        InboundFrame::Close
    ));
}

#[test]
fn wire_to_inbound_error_maps_to_close() {
    assert!(matches!(
        wire_to_inbound(frame(FrameKind::Error, b"dial failed: connection refused")).unwrap(),
        InboundFrame::Close
    ));
}

#[test]
fn wire_to_inbound_rejects_client_only_frame_kinds() {
    assert!(wire_to_inbound(frame(FrameKind::Hello, b"")).is_none());
    assert!(wire_to_inbound(frame(FrameKind::Connect, b"x.com:80")).is_none());
}

#[test]
fn build_wire_frame_fields_preserved() {
    let f = build_wire_frame(
        FrameKind::Data,
        fixed_sid(),
        42,
        Bytes::from_static(b"payload"),
    );
    assert_eq!(f.version, WIRE_VERSION);
    assert_eq!(f.kind, FrameKind::Data);
    assert_eq!(f.sid, fixed_sid());
    assert_eq!(f.seq, 42);
    assert_eq!(&f.payload[..], b"payload");
}

#[test]
fn frame_filename_uses_correct_prefix_per_direction() {
    let c2r = frame_filename(Direction::ClientToRelay, fixed_sid(), 7);
    assert!(c2r.starts_with("c2r_"));
    let r2c = frame_filename(Direction::RelayToClient, fixed_sid(), 7);
    assert!(r2c.starts_with("r2c_"));
    assert!(c2r.ends_with("_7"));
    assert!(r2c.ends_with("_7"));
}

#[test]
fn outbound_data_frame_round_trips_through_relay_simulation() {
    let sid = fixed_sid();
    let payload = Bytes::from_static(b"GET / HTTP/1.1\r\n");
    let f = build_wire_frame(FrameKind::Data, sid, 1, payload.clone());
    let opened = f.encode();
    let opened_frame = WireFrame::decode(&opened).expect("wire decode");
    assert_eq!(opened_frame.kind, FrameKind::Data);
    assert_eq!(opened_frame.sid, sid);
    assert_eq!(opened_frame.seq, 1);
    assert_eq!(&opened_frame.payload[..], &payload[..]);
}

#[test]
fn outbound_connect_frame_payload_round_trips() {
    let sid = fixed_sid();
    let host = "example.com";
    let port = 443u16;
    let payload = Bytes::from(format!("{host}:{port}").into_bytes());
    let f = build_wire_frame(FrameKind::Connect, sid, 0, payload.clone());
    let opened_frame = WireFrame::decode(&f.encode()).unwrap();
    assert_eq!(opened_frame.kind, FrameKind::Connect);
    let (got_host, got_port) = parse_connect_addr(&opened_frame.payload).unwrap();
    assert_eq!(got_host, host);
    assert_eq!(got_port, port);
}

#[test]
fn r2c_response_round_trips_to_client() {
    let sid = fixed_sid();
    let payload = Bytes::from_static(b"HTTP/1.1 200 OK\r\n");
    let f = build_wire_frame(FrameKind::Data, sid, 0, payload.clone());
    let opened_frame = WireFrame::decode(&f.encode()).unwrap();
    assert_eq!(opened_frame.kind, FrameKind::Data);
    assert_eq!(&opened_frame.payload[..], &payload[..]);
}

#[test]
fn token_cache_returns_cached_when_fresh() {
    let mut cache = TokenCache::new();
    assert_eq!(cache.get(false), None);
    cache.refresh("ya29.fresh".into());
    let token = cache.get(false).expect("cache hit");
    assert_eq!(token, "ya29.fresh");
    assert_eq!(cache.get(true), None, "a token near its end is not used");
}

#[test]
fn opening_carries_connect_and_preface() {
    let preface = vec![7u8; 10];
    let frames = opening_frames(fixed_sid(), "example.com", 443, &preface);
    assert_eq!(frames[0].kind, FrameKind::Connect);
    assert_eq!(frames[0].seq, 0);
    assert_eq!(&frames[0].payload[..], b"example.com:443");
    assert_eq!(frames[1].kind, FrameKind::Data);
    assert_eq!(frames[1].seq, 1);
    assert_eq!(&frames[1].payload[..], &preface[..]);
    assert_eq!(frames.len(), 2);
    assert_eq!(opening_frames(fixed_sid(), "example.com", 443, b"").len(), 1);
}

#[test]
fn pump_sends_what_the_local_side_sends() {
    let mut s = ClientSession::new(fixed_sid(), 2);
    assert!(s.reads_local());
    let step = s.step(PumpEvent::Received(Bytes::from_static(b"up")));
    assert_eq!(step.frames.len(), 1);
    assert_eq!(step.frames[0].kind, FrameKind::Data);
    assert_eq!(step.frames[0].seq, 2);
    assert_eq!(&step.frames[0].payload[..], b"up");
    assert!(matches!(step.command, PumpCommand::AwaitUpload));
    let step = s.step(PumpEvent::Uploaded(true));
    assert!(matches!(step.command, PumpCommand::Wait));
    let step = s.step(PumpEvent::ReceivedEof);
    assert_eq!(step.frames[0].kind, FrameKind::Eof);
    assert_eq!(step.frames[0].seq, 3);
}

#[test]
fn pump_ends_on_close() {
    let mut s = ClientSession::new(fixed_sid(), 1);
    let step = s.step(PumpEvent::Inbound(InboundFrame::Data(Bytes::from_static(b"down"))));
    match step.command {
        PumpCommand::Write(b) => assert_eq!(&b[..], b"down"),
        _ => panic!("expected a write"),
    }
    let _ = s.step(PumpEvent::Written(true));
    let step = s.step(PumpEvent::Inbound(InboundFrame::Close));
    assert!(matches!(step.command, PumpCommand::Finish(PumpEnd::Closed)));
}

#[test]
fn client_takes_only_frames_that_match_their_name() {
    let name = DriveFilename {
        kind: FilenameKind::Frame(Direction::RelayToClient),
        sid: fixed_sid(),
        seq: 0,
    };
    let good = frame(FrameKind::Data, b"x").encode().to_vec();
    match client_delivery(&name, Fetched::Opened(good)) {
        FrameAction::Deliver(InboundFrame::Data(b)) => assert_eq!(&b[..], b"x"),
        _ => panic!("expected delivery"),
    }
    let mut other = frame(FrameKind::Data, b"x");
    other.seq = 5;
    assert!(matches!(
        client_delivery(&name, Fetched::Opened(other.encode().to_vec())),
        FrameAction::Leave
    ));
    assert!(matches!(client_delivery(&name, Fetched::Unopened), FrameAction::Leave));
    assert!(matches!(client_delivery(&name, Fetched::TooLarge), FrameAction::Delete));
    assert!(matches!(client_delivery(&name, Fetched::Failed), FrameAction::Retry));
}

#[test]
fn client_plans_only_its_own_sessions() {
    let mut table = SessionTable::new();
    let file = |n: &str| DriveFile {
        id: n.to_string(),
        name: n.to_string(),
        size: None,
    };
    let mine = frame_filename(Direction::RelayToClient, fixed_sid(), 0);
    let theirs = frame_filename(Direction::RelayToClient, [1; 16], 0);
    let files = vec![file(&mine), file(&theirs), file("junk")];
    assert!(plan_cycle(&files, &table).map_or(true, |g| g.is_empty()));
    table.open(fixed_sid());
    let groups = plan_cycle(&files, &table).expect("own frames are planned");
    assert_eq!(groups.len(), 1);
    assert_eq!(groups[0].len(), 1);
    assert_eq!(groups[0][0].file.id, mine);
}

#[test]
fn uploads_have_at_least_one_permit() {
    assert_eq!(upload_permits(0), 1);
    assert_eq!(upload_permits(9), 9);
    assert_eq!(front_ip(""), None);
    assert_eq!(front_ip("216.239.38.120"), Some("216.239.38.120".to_string()));
}

#[test]
fn a_failed_opening_names_its_step() {
    assert_eq!(opening_failure(OpeningStep::KeyAgreement, "x"), "drive key agreement: x");
    assert_eq!(opening_failure(OpeningStep::Hello, "x"), "hello upload: x");
    assert_eq!(opening_failure(OpeningStep::Frame(0), "x"), "connect upload: x");
    assert_eq!(opening_failure(OpeningStep::Frame(1), "x"), "initial c2r upload: x");
}
