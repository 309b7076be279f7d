use std::sync::{Arc, Mutex};

use neora_protocol::client::{Client, ClientError, EventHandler, SyncState};
use neora_protocol::protocol::{Event, EventKind, Interface, ProtocolObject};
use neora_protocol::registry::ResolutionError;
use neora_protocol::transport::READ_CAPACITY;
use neora_protocol::wire::{encode_frame, FramingError};

struct Recorder {
    tag: u32,
    seen: Arc<Mutex<Vec<(u32, EventKind)>>>,
}

impl EventHandler for Recorder {
    fn handle(&mut self, event: &Event) {
        self.seen.lock().unwrap().push((self.tag, event.kind));
    }
}

fn frame(sender: u32, opcode: u16, body: &[u8]) -> Vec<u8> {
    encode_frame(sender, opcode, body).unwrap()
}

fn read_of(bytes: &[u8]) -> (Vec<u8>, usize) {
    let mut buf = vec![0u8; READ_CAPACITY];
    buf[..bytes.len()].copy_from_slice(bytes);
    (buf, bytes.len())
}

#[test]
fn scenario_delete_id_removes_object() {
    let mut c: Client<Recorder> = Client::connect();
    for expected in 2..=5u32 {
        assert_eq!(c.new_object(Interface::Surface), Ok(expected));
    }
    assert!(c.get_object(5).is_ok());
    let (buf, n) = read_of(&frame(1, 1, &[5, 0, 0, 0]));
    let report = c.start_event_loop(&buf, n, vec![]).unwrap();
    assert_eq!(report.outcomes.len(), 1);
    assert_eq!(report.outcomes[0].as_ref().unwrap().kind, EventKind::DisplayDeleteId);
    assert_eq!(c.get_object(5), Err(ResolutionError::UnknownObject));
    assert!(c.get_object(4).is_ok());
}

#[test]
fn scenario_two_creations_get_ids_two_and_three() {
    let mut c: Client<Recorder> = Client::connect();
    let a = c.new_object(Interface::Surface).unwrap();
    let b = c.new_object(Interface::Surface).unwrap();
    assert_eq!((a, b), (2, 3));
}

#[test]
fn scenario_saturated_read_is_flagged() {
    let mut two = frame(2, 0, &[]);
    two.extend(frame(3, 0, &[]));
    let mut c: Client<Recorder> = Client::connect();
    let (buf, n) = read_of(&two);
    let report = c.start_event_loop(&buf, n, vec![]).unwrap();
    assert_eq!(report.outcomes.len(), 2);
    assert!(!report.saturated);

    let mut c: Client<Recorder> = Client::connect();
    let (buf, _) = read_of(&two);
    let report = c.start_event_loop(&buf, READ_CAPACITY, vec![]).unwrap();
    assert!(report.saturated);
}

#[test]
fn get_display_is_object_one() {
    let c: Client<Recorder> = Client::connect();
    assert_eq!(c.get_display(), ProtocolObject { id: 1, interface: Interface::Display });
    assert!(c.is_connected());
}

#[test]
fn sync_encodes_display_sync_request() {
    let mut c: Client<Recorder> = Client::connect();
    let (id, m) = c.sync().unwrap();
    assert_eq!(id, 2);
    assert_eq!(m.bytes, vec![1, 0, 0, 0, 0, 0, 4, 0, 2, 0, 0, 0]);
    assert!(m.fds.is_empty());
    assert_eq!(c.get_object(2), Ok(ProtocolObject { id: 2, interface: Interface::Callback }));
    assert_eq!(c.sync_state(2), Some(SyncState::Waiting));
}

#[test]
fn concurrent_syncs_release_independently() {
    let mut c: Client<Recorder> = Client::connect();
    let (first, _) = c.sync().unwrap();
    let (second, _) = c.sync().unwrap();
    let (buf, n) = read_of(&frame(second, 0, &[1, 0, 0, 0]));
    c.start_event_loop(&buf, n, vec![]).unwrap();
    assert_eq!(c.sync_state(second), Some(SyncState::Done));
    assert_eq!(c.sync_state(first), Some(SyncState::Waiting));
    let (buf, n) = read_of(&frame(first, 0, &[2, 0, 0, 0]));
    c.start_event_loop(&buf, n, vec![]).unwrap();
    assert_eq!(c.sync_state(first), Some(SyncState::Done));
    assert_eq!(c.finish_sync(first), Some(SyncState::Done));
    assert_eq!(c.sync_state(first), None);
}

#[test]
fn unrelated_done_event_leaves_sync_waiting() {
    let mut c: Client<Recorder> = Client::connect();
    let other = c.new_object(Interface::Callback).unwrap();
    let (id, _) = c.sync().unwrap();
    let (buf, n) = read_of(&frame(other, 0, &[0, 0, 0, 0]));
    let report = c.start_event_loop(&buf, n, vec![]).unwrap();
    assert!(report.outcomes[0].is_ok());
    assert_eq!(c.sync_state(id), Some(SyncState::Waiting));
}

#[test]
fn disconnect_aborts_waiting_sync() {
    let mut c: Client<Recorder> = Client::connect();
    let (id, _) = c.sync().unwrap();
    c.disconnect();
    c.disconnect();
    assert_eq!(c.sync_state(id), Some(SyncState::Aborted));
    assert!(matches!(c.sync(), Err(ClientError::Disconnected)));
    let (buf, n) = read_of(&frame(id, 0, &[0, 0, 0, 0]));
    assert!(matches!(c.start_event_loop(&buf, n, vec![]), Err(ClientError::Disconnected)));
}

#[test]
fn framing_error_takes_connection_down() {
    let mut c: Client<Recorder> = Client::connect();
    let (id, _) = c.sync().unwrap();
    let (buf, _) = read_of(&frame(1, 1, &[5, 0, 0, 0]));
    let r = c.start_event_loop(&buf, 10, vec![]);
    assert!(matches!(r, Err(ClientError::Framing(FramingError::TruncatedBody))));
    assert!(!c.is_connected());
    assert_eq!(c.sync_state(id), Some(SyncState::Aborted));
}

#[test]
fn unknown_sender_is_reported_and_dropped() {
    let mut c: Client<Recorder> = Client::connect();
    let mut bytes = frame(42, 0, &[0, 0, 0, 0]);
    bytes.extend(frame(1, 1, &[42, 0, 0, 0]));
    let (buf, n) = read_of(&bytes);
    let report = c.start_event_loop(&buf, n, vec![7]).unwrap();
    assert!(matches!(
        report.outcomes[0],
        Err(ClientError::Resolution(ResolutionError::UnknownObject))
    ));
    assert!(report.outcomes[1].is_ok());
    assert_eq!(report.fds, vec![7]);
}

#[test]
fn undecodable_event_is_reported() {
    let mut c: Client<Recorder> = Client::connect();
    let (buf, n) = read_of(&frame(1, 9, &[]));
    let report = c.start_event_loop(&buf, n, vec![]).unwrap();
    assert!(matches!(
        report.outcomes[0],
        Err(ClientError::Protocol(neora_protocol::protocol::ProtocolError::InvalidOpcode))
    ));
}

#[test]
fn listeners_hear_events_in_registration_order() {
    let seen = Arc::new(Mutex::new(Vec::new()));
    let mut c: Client<Recorder> = Client::connect();
    c.add_event_listener(Recorder { tag: 1, seen: seen.clone() });
    c.add_event_listener(Recorder { tag: 2, seen: seen.clone() });
    let cb = c.new_object(Interface::Callback).unwrap();
    let mut bytes = frame(cb, 0, &[0, 0, 0, 0]);
    bytes.extend(frame(1, 1, &[cb as u8, 0, 0, 0]));
    let (buf, n) = read_of(&bytes);
    c.start_event_loop(&buf, n, vec![]).unwrap();
    assert_eq!(
        *seen.lock().unwrap(),
        vec![
            (1, EventKind::CallbackDone),
            (2, EventKind::CallbackDone),
            (1, EventKind::DisplayDeleteId),
            (2, EventKind::DisplayDeleteId),
        ]
    );
}

#[test]
fn bind_object_rejects_reserved_ids() {
    let mut c: Client<Recorder> = Client::connect();
    assert_eq!(c.bind_object(0, Interface::Registry), Err(ClientError::ReservedId));
    assert_eq!(c.bind_object(1, Interface::Registry), Err(ClientError::ReservedId));
    assert_eq!(c.bind_object(2, Interface::Registry), Ok(()));
    assert_eq!(c.new_object(Interface::Surface), Ok(3));
}

#[test]
fn display_survives_delete() {
    let mut c: Client<Recorder> = Client::connect();
    c.delete_obj(1);
    assert!(c.get_object(1).is_ok());
    c.delete_obj(77);
    assert_eq!(c.get_object(77), Err(ResolutionError::UnknownObject));
}

#[test]
fn ids_run_out_at_the_top() {
    let mut c: Client<Recorder> = Client::connect();
    c.bind_object(u32::MAX, Interface::Surface).unwrap();
    assert_eq!(c.new_object(Interface::Surface), Err(ClientError::IdsExhausted));
    assert!(matches!(c.sync(), Err(ClientError::IdsExhausted)));
}
