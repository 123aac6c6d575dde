use bytes::Bytes;
use rahgozar::drive_client::{
    opening_frames, wire_to_inbound, ClientSession, PumpCommand, PumpEvent,
};
use rahgozar::frame::WireFrame;
use rahgozar::poll::frame_to_inbound;
use rahgozar::session::{Command, DialOutcome, RelaySession, SessionEvent};

const SID: [u8; 16] = [7; 16];

/// Hands the relay's session a frame as it comes out of storage and collects
/// what it writes to the destination.
fn relay_takes(s: &mut RelaySession, f: &WireFrame, written: &mut Vec<u8>) {
    let none: Vec<String> = Vec::new();
    let f = WireFrame::decode(&f.encode()).unwrap();
    let step = s.step(&none, SessionEvent::Inbound(frame_to_inbound(f).unwrap()));
    match step.command {
        Command::Dial { host, port } => {
            assert_eq!((host.as_str(), port), ("example.com", 443));
            s.step(&none, SessionEvent::Dialed(DialOutcome::Connected));
        }
        Command::Write(b) => {
            written.extend_from_slice(&b);
            s.step(&none, SessionEvent::Written(true));
        }
        Command::ShutdownWrite => {
            s.step(&none, SessionEvent::ShutDown);
        }
        _ => {}
    }
}

#[test]
fn local_bytes_reach_the_destination() {
    let mut frames = opening_frames(SID, "example.com", 443, b"GET / ");
    let mut client = ClientSession::new(SID, frames.len() as u64);
    for event in [
        PumpEvent::Received(Bytes::from_static(b"HTTP/1.1\r\n")),
        PumpEvent::Received(Bytes::from_static(b"\r\n")),
        PumpEvent::ReceivedEof,
    ] {
        frames.append(&mut client.step(event).frames);
        client.step(PumpEvent::Uploaded(true));
    }
    let mut relay = RelaySession::new(SID);
    let mut written = Vec::new();
    for (i, f) in frames.iter().enumerate() {
        assert_eq!(f.seq, i as u64);
        relay_takes(&mut relay, f, &mut written);
    }
    assert_eq!(written, b"GET / HTTP/1.1\r\n\r\n");
}

#[test]
fn destination_bytes_reach_the_local_socket() {
    let none: Vec<String> = Vec::new();
    let mut relay = RelaySession::new(SID);
    let mut ignored = Vec::new();
    for f in opening_frames(SID, "example.com", 443, b"") {
        relay_takes(&mut relay, &f, &mut ignored);
    }
    let mut frames = Vec::new();
    for event in [
        SessionEvent::Received(Bytes::from_static(b"HTTP/1.1 200 OK\r\n")),
        SessionEvent::Received(Bytes::from_static(b"\r\nhi")),
        SessionEvent::ReceivedEof,
    ] {
        frames.append(&mut relay.step(&none, event).frames);
        relay.step(&none, SessionEvent::Uploaded(true));
    }
    let mut client = ClientSession::new(SID, 1);
    let mut written = Vec::new();
    for f in &frames {
        let f = WireFrame::decode(&f.encode()).unwrap();
        match client.step(PumpEvent::Inbound(wire_to_inbound(f).unwrap())).command {
            PumpCommand::Write(b) => {
                written.extend_from_slice(&b);
                client.step(PumpEvent::Written(true));
            }
            PumpCommand::ShutdownWrite => {
                client.step(PumpEvent::ShutDown);
            }
            _ => {}
        }
    }
    assert_eq!(written, b"HTTP/1.1 200 OK\r\n\r\nhi");
}
