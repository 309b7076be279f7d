use neora_protocol::protocol::{Interface, ProtocolObject};
use neora_protocol::registry::{ObjectRegistry, ResolutionError};

#[test]
fn allocations_strictly_increase() {
    let mut r = ObjectRegistry::new();
    let mut last = 0u32;
    for _ in 0..10 {
        let id = r.allocate_id();
        assert!(id > last);
        last = id;
    }
    assert_eq!(last, 10);
    assert_eq!(r.max_id(), 10);
}

#[test]
fn creations_and_removals_never_reuse_ids() {
    let mut r = ObjectRegistry::new();
    let a = r.create(Interface::Surface);
    r.remove(a);
    let b = r.create(Interface::Buffer);
    let c = r.allocate_id();
    assert_eq!((a, b, c), (1, 2, 3));
}

#[test]
fn bind_raises_the_watermark() {
    let mut r = ObjectRegistry::new();
    r.bind(40, Interface::Registry);
    assert!(r.allocate_id() > 40);
    r.bind(7, Interface::Shm);
    assert_eq!(r.allocate_id(), 42);
}

#[test]
fn lookup_after_remove_fails() {
    let mut r = ObjectRegistry::new();
    let id = r.create(Interface::Surface);
    assert_eq!(r.lookup(id), Ok(ProtocolObject { id, interface: Interface::Surface }));
    r.remove(id);
    assert_eq!(r.lookup(id), Err(ResolutionError::UnknownObject));
}

#[test]
fn removing_an_unknown_id_is_a_no_op() {
    let mut r = ObjectRegistry::new();
    let id = r.create(Interface::Shell);
    r.remove(99);
    assert_eq!(r.lookup(id), Ok(ProtocolObject { id, interface: Interface::Shell }));
    assert_eq!(r.max_id(), 1);
}
