use vstd::prelude::*;
use std::collections::HashMap;
use crate::protocol::{Interface, ProtocolObject};

verus! {

broadcast use vstd::std_specs::hash::group_hash_axioms;

/// Looking up an id that no live object has.
#[derive(Clone, Copy, Debug, PartialEq, Eq, Structural)]
pub enum ResolutionError {
    UnknownObject,
}

/// The registry as a mathematical value: the live objects by id, and the
/// highest id ever issued or bound.
pub ghost struct RegistryView {
    pub objects: Map<u32, ProtocolObject>,
    pub max_id: u32,
}

impl RegistryView {
    /// Live ids are nonzero, at most the watermark, and name objects with that id.
    pub open spec fn wf(self) -> bool {
        forall|id: u32| #[trigger]
            self.objects.contains_key(id) ==> id != 0 && id <= self.max_id
                && self.objects[id].id == id
    }

    /// Issuing a fresh id: one above the watermark, which moves up to it.
    pub open spec fn allocate(self) -> (RegistryView, u32) {
        let id = (self.max_id + 1) as u32;
        (RegistryView { objects: self.objects, max_id: id }, id)
    }

    /// Placing an object at an id that the host or the protocol dictates.
    pub open spec fn bind(self, id: u32, iface: Interface) -> RegistryView {
        RegistryView {
            objects: self.objects.insert(id, ProtocolObject { id, interface: iface }),
            max_id: if id > self.max_id {
                id
            } else {
                self.max_id
            },
        }
    }

    /// Issuing a fresh id and placing a new object of `iface` there.
    pub open spec fn create(self, iface: Interface) -> (RegistryView, u32) {
        let (v, id) = self.allocate();
        (
            RegistryView {
                objects: v.objects.insert(id, ProtocolObject { id, interface: iface }),
                max_id: v.max_id,
            },
            id,
        )
    }

    /// Forgetting the object at `id`, if any.
    pub open spec fn remove(self, id: u32) -> RegistryView {
        RegistryView { objects: self.objects.remove(id), max_id: self.max_id }
    }

    /// The live object at `id`.
    pub open spec fn lookup(self, id: u32) -> Result<ProtocolObject, ResolutionError> {
        if self.objects.contains_key(id) {
            Ok(self.objects[id])
        } else {
            Err(ResolutionError::UnknownObject)
        }
    }
}

/// A registry operation other than binding at a dictated id.
pub ghost enum RegistryOp {
    Allocate,
    Create(Interface),
    Remove(u32),
}

/// The registry after `ops`, and the ids that they issued, in order.
pub open spec fn run_ops(v: RegistryView, ops: Seq<RegistryOp>) -> (RegistryView, Seq<u32>)
    decreases ops.len(),
{
    if ops.len() == 0 {
        (v, Seq::empty())
    } else {
        let rest = ops.drop_first();
        match ops[0] {
            RegistryOp::Allocate => {
                let (w, id) = v.allocate();
                let (u, ids) = run_ops(w, rest);
                (u, seq![id] + ids)
            },
            RegistryOp::Create(iface) => {
                let (w, id) = v.create(iface);
                let (u, ids) = run_ops(w, rest);
                (u, seq![id] + ids)
            },
            RegistryOp::Remove(id) => run_ops(v.remove(id), rest),
        }
    }
}

/// Ids issued by allocations and creations with no bind between them are
/// strictly increasing, hence pairwise distinct, and all above the starting
/// watermark.
pub proof fn lemma_issued_ids_increase(v: RegistryView, ops: Seq<RegistryOp>)
    requires
        v.max_id + ops.len() <= u32::MAX,
    ensures
        ({
            let ids = run_ops(v, ops).1;
            &&& forall|i: int, j: int| 0 <= i < j < ids.len() ==> ids[i] < ids[j]
            &&& forall|i: int, j: int| 0 <= i < ids.len() && 0 <= j < ids.len() && i != j ==> ids[i] != ids[j]
            &&& forall|i: int| 0 <= i < ids.len() ==> v.max_id < #[trigger] ids[i]
            &&& v.max_id <= run_ops(v, ops).0.max_id <= v.max_id + ops.len()
            &&& forall|i: int| 0 <= i < ids.len() ==> #[trigger] ids[i] <= run_ops(v, ops).0.max_id
        }),
    decreases ops.len(),
{
    if ops.len() > 0 {
        let rest = ops.drop_first();
        let w = match ops[0] {
            RegistryOp::Allocate => v.allocate().0,
            RegistryOp::Create(iface) => v.create(iface).0,
            RegistryOp::Remove(id) => v.remove(id),
        };
        lemma_issued_ids_increase(w, rest);
        let ids = run_ops(v, ops).1;
        let tail = run_ops(w, rest).1;
        match ops[0] {
            RegistryOp::Remove(_) => {},
            _ => {
                assert(ids == seq![w.max_id] + tail);
                assert forall|i: int| 0 <= i < ids.len() implies v.max_id < #[trigger] ids[i] by {
                    if i > 0 {
                        assert(ids[i] == tail[i - 1]);
                    }
                }
                assert forall|i: int, j: int| 0 <= i < j < ids.len() implies ids[i] < ids[j] by {
                    assert(ids[j] == tail[j - 1]);
                    if i > 0 {
                        assert(ids[i] == tail[i - 1]);
                    }
                }
                assert forall|i: int| 0 <= i < ids.len() implies #[trigger] ids[i] <= run_ops(
                    v,
                    ops,
                ).0.max_id by {
                    if i > 0 {
                        assert(ids[i] == tail[i - 1]);
                    }
                }
            },
        }
        let ids = run_ops(v, ops).1;
        assert forall|i: int, j: int|
            0 <= i < ids.len() && 0 <= j < ids.len() && i != j implies ids[i] != ids[j] by {
            if i < j {
                assert(ids[i] < ids[j]);
            } else {
                assert(ids[j] < ids[i]);
            }
        }
    }
}

/// After binding at `id`, the next issued id is above `id`.
pub proof fn lemma_bind_then_allocate(v: RegistryView, id: u32, iface: Interface)
    requires
        v.bind(id, iface).max_id < u32::MAX,
    ensures
        v.bind(id, iface).allocate().1 > id,
{
}

/// Once an id is removed, looking it up fails; removing an id that is not
/// live leaves the registry as it was.
pub proof fn lemma_remove_then_lookup(v: RegistryView, id: u32)
    ensures
        v.remove(id).lookup(id) == Err::<ProtocolObject, ResolutionError>(
            ResolutionError::UnknownObject,
        ),
        !v.objects.contains_key(id) ==> v.remove(id) == v,
{
    if !v.objects.contains_key(id) {
        assert(v.objects.remove(id) =~= v.objects);
    }
}

/// The live objects of a connection, keyed by id, and the id watermark.
/// Ids are issued in increasing order and never reused.
pub struct ObjectRegistry {
    objects: HashMap<u32, ProtocolObject>,
    max_id: u32,
}

impl View for ObjectRegistry {
    type V = RegistryView;

    closed spec fn view(&self) -> RegistryView {
        RegistryView { objects: self.objects@, max_id: self.max_id }
    }
}

impl ObjectRegistry {
    /// An empty registry that has issued no id.
    pub fn new() -> (r: ObjectRegistry)
        ensures
            r@.wf(),
            r@.objects == Map::<u32, ProtocolObject>::empty(),
            r@.max_id == 0,
    {
        ObjectRegistry { objects: HashMap::new(), max_id: 0 }
    }

    /// The highest id issued or bound so far.
    pub fn max_id(&self) -> (r: u32)
        ensures
            r == self@.max_id,
    {
        self.max_id
    }

    /// Issues the id one above the watermark.
    pub fn allocate_id(&mut self) -> (r: u32)
        requires
            old(self)@.wf(),
            old(self)@.max_id < u32::MAX,
        ensures
            (final(self)@, r) == old(self)@.allocate(),
            final(self)@.wf(),
            !old(self)@.objects.contains_key(r),
    {
        self.max_id = self.max_id + 1;
        self.max_id
    }

    /// Places an object of `iface` at `id`, replacing any object there, and
    /// raises the watermark to at least `id`.
    pub fn bind(&mut self, id: u32, iface: Interface)
        requires
            old(self)@.wf(),
            id != 0,
        ensures
            final(self)@ == old(self)@.bind(id, iface),
            final(self)@.wf(),
    {
        self.objects.insert(id, ProtocolObject { id, interface: iface });
        if id > self.max_id {
            self.max_id = id;
        }
        assert(self@ =~= old(self)@.bind(id, iface));
    }

    /// Issues a fresh id and places a new object of `iface` there.
    pub fn create(&mut self, iface: Interface) -> (r: u32)
        requires
            old(self)@.wf(),
            old(self)@.max_id < u32::MAX,
        ensures
            (final(self)@, r) == old(self)@.create(iface),
            final(self)@.wf(),
            !old(self)@.objects.contains_key(r),
    {
        let id = self.allocate_id();
        self.objects.insert(id, ProtocolObject { id, interface: iface });
        id
    }

    /// The live object with `id`.
    pub fn lookup(&self, id: u32) -> (r: Result<ProtocolObject, ResolutionError>)
        ensures
            r == self@.lookup(id),
    {
        match self.objects.get(&id) {
            Some(o) => Ok(*o),
            None => Err(ResolutionError::UnknownObject),
        }
    }

    /// Forgets the object with `id`; nothing happens if there is none.
    pub fn remove(&mut self, id: u32)
        requires
            old(self)@.wf(),
        ensures
            final(self)@ == old(self)@.remove(id),
            final(self)@.wf(),
    {
        self.objects.remove(&id);
    }
}

} // verus!
