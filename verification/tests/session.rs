use bytes::Bytes;
use rahgozar::frame::FrameKind;
use rahgozar::session::{
    Command, DialOutcome, InboundFrame, Phase, RelaySession, SessionEvent, Step,
};

fn open_session() -> RelaySession {
    let none: Vec<String> = Vec::new();
    let mut s = RelaySession::new([9; 16]);
    let step = s.step(
        &none,
        SessionEvent::Inbound(InboundFrame::Connect {
            host: "example.com".into(),
            port: 80,
        }),
    );
    match step.command {
        Command::Dial { host, port } => {
            assert_eq!(host, "example.com");
            assert_eq!(port, 80);
        }
        _ => panic!("expected a dial"),
    }
    let step = s.step(&none, SessionEvent::Dialed(DialOutcome::Connected));
    assert!(matches!(step.command, Command::Wait));
    s
}

fn kinds(step: &Step) -> Vec<FrameKind> {
    step.frames.iter().map(|f| f.kind).collect()
}

#[test]
fn data_is_uploaded_under_rising_numbers() {
    let none: Vec<String> = Vec::new();
    let mut s = open_session();
    for n in 0..3u64 {
        let step = s.step(&none, SessionEvent::Received(Bytes::from_static(b"abc")));
        assert!(step.touched);
        assert_eq!(kinds(&step), vec![FrameKind::Data]);
        assert_eq!(step.frames[0].seq, n);
        assert_eq!(&step.frames[0].payload[..], b"abc");
        let _ = s.step(&none, SessionEvent::Uploaded(true));
    }
}

#[test]
fn both_half_closes_end_the_session_with_close() {
    let none: Vec<String> = Vec::new();
    let mut s = open_session();
    let step = s.step(&none, SessionEvent::ReceivedEof);
    assert_eq!(kinds(&step), vec![FrameKind::Eof]);
    assert!(!s.reads_destination());
    let step = s.step(&none, SessionEvent::Inbound(InboundFrame::Eof));
    assert!(matches!(step.command, Command::ShutdownWrite));
    let step = s.step(&none, SessionEvent::ShutDown);
    assert_eq!(kinds(&step), vec![FrameKind::Close]);
    assert_eq!(step.frames[0].seq, 1);
    assert!(matches!(step.command, Command::Exit));
    assert_eq!(s.phase, Phase::Done);
}

#[test]
fn client_eof_first_then_destination_eof() {
    let none: Vec<String> = Vec::new();
    let mut s = open_session();
    let _ = s.step(&none, SessionEvent::Inbound(InboundFrame::Eof));
    let _ = s.step(&none, SessionEvent::ShutDown);
    let step = s.step(&none, SessionEvent::Inbound(InboundFrame::Data(Bytes::from_static(b"x"))));
    assert!(matches!(step.command, Command::Wait), "nothing is written after Eof");
    let step = s.step(&none, SessionEvent::ReceivedEof);
    assert_eq!(kinds(&step), vec![FrameKind::Eof, FrameKind::Close]);
    assert!(matches!(step.command, Command::Exit));
}

#[test]
fn refused_destination_is_answered_with_an_error() {
    let allow = vec!["example.com".to_string()];
    let mut s = RelaySession::new([9; 16]);
    let step = s.step(
        &allow,
        SessionEvent::Inbound(InboundFrame::Connect {
            host: "evil.com".into(),
            port: 80,
        }),
    );
    assert_eq!(kinds(&step), vec![FrameKind::Error]);
    assert_eq!(&step.frames[0].payload[..], b"destination not on allow list");
    assert!(matches!(step.command, Command::Exit));
}

#[test]
fn failed_dial_is_answered_with_its_reason() {
    let none: Vec<String> = Vec::new();
    let mut s = RelaySession::new([9; 16]);
    let _ = s.step(
        &none,
        SessionEvent::Inbound(InboundFrame::Connect {
            host: "example.com".into(),
            port: 80,
        }),
    );
    let step = s.step(&none, SessionEvent::Dialed(DialOutcome::Failed("refused".into())));
    assert_eq!(kinds(&step), vec![FrameKind::Error]);
    assert_eq!(&step.frames[0].payload[..], b"dial failed: refused");
}

#[test]
fn a_session_must_begin_with_connect() {
    let none: Vec<String> = Vec::new();
    let mut s = RelaySession::new([9; 16]);
    let step = s.step(&none, SessionEvent::Inbound(InboundFrame::Data(Bytes::from_static(b"x"))));
    assert!(matches!(step.command, Command::Exit));
    assert!(step.frames.is_empty());
}

#[test]
fn data_from_the_client_is_written_in_order() {
    let none: Vec<String> = Vec::new();
    let mut s = open_session();
    for chunk in [b"one".as_slice(), b"two".as_slice()] {
        let step = s.step(
            &none,
            SessionEvent::Inbound(InboundFrame::Data(Bytes::copy_from_slice(chunk))),
        );
        match step.command {
            Command::Write(b) => assert_eq!(&b[..], chunk),
            _ => panic!("expected a write"),
        }
        let _ = s.step(&none, SessionEvent::Written(true));
    }
    let _ = s.step(
        &none,
        SessionEvent::Inbound(InboundFrame::Data(Bytes::from_static(b"x"))),
    );
    let step = s.step(&none, SessionEvent::Written(false));
    assert!(matches!(step.command, Command::Exit));
}
