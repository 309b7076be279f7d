use neora_protocol::protocol::{
    Arg, EventKind, Interface, ProtocolError, ProtocolObject, RequestKind,
};

fn obj(id: u32, interface: Interface) -> ProtocolObject {
    ProtocolObject { id, interface }
}

#[test]
fn opcode_outside_table_is_invalid() {
    let cb = obj(4, Interface::Callback);
    assert_eq!(cb.decode_event(1, &[0, 0, 0, 0]).unwrap_err(), ProtocolError::InvalidOpcode);
    let comp = obj(5, Interface::Compositor);
    assert_eq!(comp.decode_event(0, &[]).unwrap_err(), ProtocolError::InvalidOpcode);
}

#[test]
fn defined_opcode_yields_tagged_event() {
    let cb = obj(4, Interface::Callback);
    let e = cb.decode_event(0, &[0x10, 0x27, 0, 0]).unwrap();
    assert_eq!(e.kind, EventKind::CallbackDone);
    assert_eq!(e.sender_id, 4);
    assert!(matches!(e.args[..], [Arg::Uint(10000)]));
}

#[test]
fn delete_id_event_decodes() {
    let d = obj(1, Interface::Display);
    let e = d.decode_event(1, &[5, 0, 0, 0]).unwrap();
    assert_eq!(e.kind, EventKind::DisplayDeleteId);
    assert!(matches!(e.args[..], [Arg::Uint(5)]));
}

#[test]
fn registry_global_decodes_string() {
    let reg = obj(2, Interface::Registry);
    let mut body = vec![7u8, 0, 0, 0, 7, 0, 0, 0];
    body.extend(b"wl_shm\0\0");
    body.extend([1u8, 0, 0, 0]);
    let e = reg.decode_event(0, &body).unwrap();
    assert_eq!(e.kind, EventKind::RegistryGlobal);
    match &e.args[..] {
        [Arg::Uint(7), Arg::Str(name), Arg::Uint(1)] => assert_eq!(name.as_slice(), b"wl_shm"),
        other => panic!("unexpected arguments {:?}", other),
    }
}

#[test]
fn configure_decodes_signed_values() {
    let ss = obj(9, Interface::ShellSurface);
    let body = [0u8, 0, 0, 0, 0xff, 0xff, 0xff, 0xff, 0x68, 0x01, 0, 0];
    let e = ss.decode_event(1, &body).unwrap();
    assert!(matches!(e.args[..], [Arg::Uint(0), Arg::Int(-1), Arg::Int(360)]));
}

#[test]
fn short_or_long_body_is_invalid_arguments() {
    let cb = obj(4, Interface::Callback);
    assert_eq!(cb.decode_event(0, &[1, 0, 0]).unwrap_err(), ProtocolError::InvalidArguments);
    assert_eq!(
        cb.decode_event(0, &[1, 0, 0, 0, 0]).unwrap_err(),
        ProtocolError::InvalidArguments
    );
}

#[test]
fn request_on_wrong_interface_is_invalid_operation() {
    let surface = obj(3, Interface::Surface);
    let r = surface.encode_request(RequestKind::DisplaySync, &vec![Arg::NewId(4)]);
    assert_eq!(r.unwrap_err(), ProtocolError::InvalidOperation);
}

#[test]
fn request_with_wrong_arguments_is_refused() {
    let surface = obj(3, Interface::Surface);
    let r = surface.encode_request(RequestKind::SurfaceFrame, &vec![Arg::Uint(4)]);
    assert_eq!(r.unwrap_err(), ProtocolError::InvalidArguments);
    let r = surface.encode_request(RequestKind::SurfaceCommit, &vec![Arg::Uint(4)]);
    assert_eq!(r.unwrap_err(), ProtocolError::InvalidArguments);
}

#[test]
fn overlong_string_is_message_too_large() {
    let reg = obj(2, Interface::Registry);
    let args = vec![Arg::Uint(1), Arg::Str(vec![b'a'; 0xffff]), Arg::Uint(1), Arg::NewId(3)];
    assert_eq!(
        reg.encode_request(RequestKind::RegistryBind, &args).unwrap_err(),
        ProtocolError::MessageTooLarge
    );
}

#[test]
fn commit_encodes_empty_body() {
    let surface = obj(3, Interface::Surface);
    let m = surface.encode_request(RequestKind::SurfaceCommit, &vec![]).unwrap();
    assert_eq!(m.bytes, vec![3, 0, 0, 0, 6, 0, 0, 0]);
    assert!(m.fds.is_empty());
}

#[test]
fn bind_encodes_padded_string() {
    let reg = obj(2, Interface::Registry);
    let args = vec![
        Arg::Uint(1),
        Arg::Str(b"wl_compositor".to_vec()),
        Arg::Uint(4),
        Arg::NewId(3),
    ];
    let m = reg.encode_request(RequestKind::RegistryBind, &args).unwrap();
    let mut expected = vec![2u8, 0, 0, 0, 0, 0, 32, 0, 1, 0, 0, 0, 14, 0, 0, 0];
    expected.extend(b"wl_compositor\0\0\0");
    expected.extend([4u8, 0, 0, 0, 3, 0, 0, 0]);
    assert_eq!(m.bytes, expected);
}

#[test]
fn create_pool_passes_descriptor_beside_body() {
    let shm = obj(6, Interface::Shm);
    let args = vec![Arg::NewId(8), Arg::Fd(11), Arg::Int(691200)];
    let m = shm.encode_request(RequestKind::ShmCreatePool, &args).unwrap();
    assert_eq!(m.bytes, vec![6, 0, 0, 0, 0, 0, 8, 0, 8, 0, 0, 0, 0x00, 0x8c, 0x0a, 0x00]);
    assert_eq!(m.fds, vec![11]);
}

#[test]
fn negative_int_encodes_twos_complement() {
    let surface = obj(3, Interface::Surface);
    let args = vec![Arg::Object(5), Arg::Int(-2), Arg::Int(0)];
    let m = surface.encode_request(RequestKind::SurfaceAttach, &args).unwrap();
    assert_eq!(&m.bytes[8..], &[5, 0, 0, 0, 0xfe, 0xff, 0xff, 0xff, 0, 0, 0, 0]);
    assert_eq!(&m.bytes[4..8], &[1, 0, 12, 0]);
}

#[test]
fn interface_names() {
    assert_eq!(Interface::Display.name(), "wl_display");
    assert_eq!(Interface::ShellSurface.name(), "wl_shell_surface");
}
