use bytes::Bytes;
use rahgozar::filename::{
    frame_filename, parse_filename, write_sid, Direction, DriveFilename, FilenameKind,
};
use rahgozar::frame::{FrameKind, WireFrame, WIRE_VERSION};
use rahgozar::listing::{group_by_session, select, DriveFile, Sessions};
use rahgozar::poll::{
    admit_hello, frame_intake, frame_to_inbound, hello_intake, plan_cycle, relay_delivery,
    Fetched, FrameAction, FrameIntake, HelloAction, HelloIntake, HelloOutcome, Side,
};
use rahgozar::replay::{SeqCheck, SessionTable};
use rahgozar::session::InboundFrame;

fn file(name: &str) -> DriveFile {
    DriveFile {
        id: format!("id-{name}"),
        name: name.to_string(),
        size: None,
    }
}

fn c2r(sid: [u8; 16], seq: u64) -> DriveFilename {
    DriveFilename {
        kind: FilenameKind::Frame(Direction::ClientToRelay),
        sid,
        seq,
    }
}

#[test]
fn process_frame_without_session_leaves_file_for_later_poll() {
    let table = SessionTable::new();
    let sid = [0x42u8; 16];
    let parsed = c2r(sid, 0);
    assert_eq!(
        frame_intake(Side::Relay, &table, &parsed, None, 1000),
        FrameIntake::Leave
    );
}

#[test]
fn spawn_session_ignores_duplicate_sid() {
    let mut table = SessionTable::new();
    let sid = [0x24u8; 16];
    assert!(table.open(sid));
    assert!(!table.open(sid));
    assert_eq!(table.sids(), vec![sid]);
    assert_eq!(
        admit_hello(&mut table, sid, HelloOutcome::Agreed),
        HelloAction::Delete,
        "a second opener is dropped"
    );
}

#[test]
fn frames_are_taken_once_and_in_order() {
    let mut table = SessionTable::new();
    let sid = [3; 16];
    table.open(sid);
    assert_eq!(table.check(&sid, 0), Some(SeqCheck::Next));
    assert_eq!(table.check(&sid, 2), Some(SeqCheck::Future { expected: 0 }));
    assert_eq!(
        frame_intake(Side::Relay, &table, &c2r(sid, 0), None, 1000),
        FrameIntake::Download
    );
    assert_eq!(
        frame_intake(Side::Relay, &table, &c2r(sid, 1), None, 1000),
        FrameIntake::Leave
    );
    assert_eq!(
        frame_intake(Side::Relay, &table, &c2r(sid, 0), Some(1001), 1000),
        FrameIntake::Delete
    );
    table.commit(&sid, 0);
    assert_eq!(table.check(&sid, 0), Some(SeqCheck::Replay));
    assert_eq!(
        frame_intake(Side::Relay, &table, &c2r(sid, 0), None, 1000),
        FrameIntake::Delete
    );
    assert_eq!(
        frame_intake(Side::Relay, &table, &c2r(sid, 1), None, 1000),
        FrameIntake::Download
    );
    table.close(&sid);
    assert_eq!(table.check(&sid, 1), None);
}

#[test]
fn client_deletes_frames_of_sessions_that_are_gone() {
    let table = SessionTable::new();
    let name = DriveFilename {
        kind: FilenameKind::Frame(Direction::RelayToClient),
        sid: [1; 16],
        seq: 0,
    };
    assert_eq!(
        frame_intake(Side::Client, &table, &name, None, 1000),
        FrameIntake::Delete
    );
}

#[test]
fn names_read_back() {
    for name in [
        c2r([0xab; 16], 0),
        c2r([0; 16], u64::MAX),
        DriveFilename {
            kind: FilenameKind::Frame(Direction::RelayToClient),
            sid: [0xff; 16],
            seq: 12,
        },
        DriveFilename {
            kind: FilenameKind::Hello,
            sid: [5; 16],
            seq: 0,
        },
    ] {
        assert_eq!(parse_filename(&name.format()), Some(name));
    }
    assert_eq!(write_sid(&[0; 16]), "a".repeat(26));
    assert!(parse_filename("junk").is_none());
    assert!(parse_filename("").is_none());
}

#[test]
fn listing_groups_and_sorts() {
    let a = [1u8; 16];
    let b = [2u8; 16];
    let names = [
        frame_filename(Direction::ClientToRelay, a, 10),
        frame_filename(Direction::ClientToRelay, b, 1),
        frame_filename(Direction::ClientToRelay, a, 2),
        frame_filename(Direction::RelayToClient, a, 0),
        "notes.txt".to_string(),
    ];
    let files: Vec<DriveFile> = names.iter().map(|n| file(n)).collect();
    let kind = FilenameKind::Frame(Direction::ClientToRelay);
    let listed = select(&files, kind, &Sessions::All);
    assert_eq!(listed.len(), 3);
    let only = select(&files, kind, &Sessions::Only(vec![b]));
    assert_eq!(only.len(), 1);
    assert_eq!(only[0].name.sid, b);
    let groups = group_by_session(listed);
    assert_eq!(groups.len(), 2);
    for g in &groups {
        let seqs: Vec<u64> = g.iter().map(|l| l.name.seq).collect();
        if g[0].name.sid == a {
            assert_eq!(seqs, vec![2, 10]);
        } else {
            assert_eq!(seqs, vec![1]);
        }
    }
}

#[test]
fn a_cycle_needs_something_to_do() {
    let hello = DriveFilename {
        kind: FilenameKind::Hello,
        sid: [7; 16],
        seq: 0,
    };
    assert!(plan_cycle(None, None).is_none());
    assert!(plan_cycle(Some(vec![]), Some(vec![file("junk")])).is_none());
    let cycle = plan_cycle(Some(vec![file(&hello.format())]), None).expect("a hello is work");
    assert_eq!(cycle.hellos.len(), 1);
    assert!(cycle.groups.is_empty());
}

#[test]
fn openers_are_checked_before_they_are_fetched() {
    let sid = [7; 16];
    let hello = DriveFilename {
        kind: FilenameKind::Hello,
        sid,
        seq: 0,
    };
    match hello_intake(&file(&hello.format()), 64) {
        HelloIntake::Download { sid: s } => assert_eq!(s, sid),
        _ => panic!("expected a download"),
    }
    let mut large = file(&hello.format());
    large.size = Some(65);
    assert!(matches!(hello_intake(&large, 64), HelloIntake::Delete));
    assert!(matches!(hello_intake(&file("junk"), 64), HelloIntake::Ignore));
    let mut table = SessionTable::new();
    assert_eq!(admit_hello(&mut table, sid, HelloOutcome::Failed), HelloAction::Retry);
    assert_eq!(admit_hello(&mut table, sid, HelloOutcome::TooLarge), HelloAction::Delete);
    assert_eq!(admit_hello(&mut table, sid, HelloOutcome::Undecodable), HelloAction::Delete);
    assert_eq!(admit_hello(&mut table, sid, HelloOutcome::NoAgreement), HelloAction::Delete);
    assert_eq!(admit_hello(&mut table, sid, HelloOutcome::Agreed), HelloAction::SpawnThenDelete);
}

#[test]
fn relay_delivers_only_what_the_name_says() {
    let sid = [4; 16];
    let f = WireFrame {
        version: WIRE_VERSION,
        kind: FrameKind::Connect,
        sid,
        seq: 3,
        payload: Bytes::from_static(b"example.com:443"),
    };
    let plain = f.encode().to_vec();
    let r = relay_delivery(&c2r(sid, 3), Fetched::Opened(plain.clone()));
    assert!(r.touched);
    match r.action {
        FrameAction::Deliver(InboundFrame::Connect { host, port }) => {
            assert_eq!(host, "example.com");
            assert_eq!(port, 443);
        }
        _ => panic!("expected delivery"),
    }
    let r = relay_delivery(&c2r(sid, 4), Fetched::Opened(plain));
    assert!(!r.touched);
    assert!(matches!(r.action, FrameAction::Leave));
    assert!(matches!(
        relay_delivery(&c2r(sid, 3), Fetched::Failed).action,
        FrameAction::Retry
    ));
    assert!(matches!(
        relay_delivery(&c2r(sid, 3), Fetched::TooLarge).action,
        FrameAction::Delete
    ));
}

#[test]
fn relay_reads_frames_as_events() {
    let make = |kind: FrameKind, payload: &[u8]| WireFrame {
        version: WIRE_VERSION,
        kind,
        sid: [0; 16],
        seq: 0,
        payload: Bytes::copy_from_slice(payload),
    };
    assert!(matches!(
        frame_to_inbound(make(FrameKind::Eof, b"")),
        Some(InboundFrame::Eof)
    ));
    assert!(frame_to_inbound(make(FrameKind::Hello, b"")).is_none());
    assert!(frame_to_inbound(make(FrameKind::Connect, b"nonsense")).is_none());
    match frame_to_inbound(make(FrameKind::Data, b"abc")) {
        Some(InboundFrame::Data(b)) => assert_eq!(&b[..], b"abc"),
        _ => panic!("expected data"),
    }
}
