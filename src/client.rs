use vstd::prelude::*;
use std::collections::HashMap;
use crate::protocol::{
    decode_result, parse_args, spec_event_kind, spec_event_sig, Arg, ArgValue, Event, EventKind,
    Interface, OutgoingMessage, ProtocolError, ProtocolObject, RequestKind, args_view,
};
use crate::registry::{ObjectRegistry, RegistryView, ResolutionError};
use crate::protocol::parse_args_from;
use crate::wire::{
    frame_bytes, le_bytes, messages_view, parse_frames, framing_error, split_frames,
    FramingError, Message, WireHeader,
};

verus! {

broadcast use vstd::std_specs::hash::group_hash_axioms;

/// Id of the root display object, bound for the whole life of a connection.
pub const DISPLAY_ID: u32 = 1;

/// Receives every decoded event, in wire order.
pub trait EventHandler {
    fn handle(&mut self, event: &Event);
}

/// Where a sync barrier stands.
#[derive(Clone, Copy, Debug, PartialEq, Eq, Structural)]
pub enum SyncState {
    /// Its completion event has not arrived yet.
    Waiting,
    /// Its completion event arrived: every earlier request was processed.
    Done,
    /// The connection went down before its completion event arrived.
    Aborted,
}

/// Failures of client operations.
#[derive(Clone, Copy, Debug, PartialEq, Eq, Structural)]
pub enum ClientError {
    /// The connection is down.
    Disconnected,
    /// Every 32-bit id has been issued.
    IdsExhausted,
    /// Id 0 is invalid and id 1 belongs to the display.
    ReservedId,
    /// A read could not be split into whole messages.
    Framing(FramingError),
    /// A message came from an id with no live object.
    Resolution(ResolutionError),
    /// A message could not be decoded or encoded.
    Protocol(ProtocolError),
}

/// The client as a mathematical value. `syncs` maps the callback id of each
/// sync barrier to whether its completion event has arrived.
pub ghost struct ClientView {
    pub registry: RegistryView,
    pub syncs: Map<u32, bool>,
    pub connected: bool,
    pub listener_count: nat,
}

impl ClientView {
    /// The registry is well formed and holds the display at its reserved id.
    pub open spec fn wf(self) -> bool {
        &&& self.registry.wf()
        &&& self.registry.objects.contains_key(DISPLAY_ID)
        &&& self.registry.objects[DISPLAY_ID].interface == Interface::Display
    }

    /// Where the sync barrier of `callback_id` stands, if there is one.
    pub open spec fn sync_state(self, callback_id: u32) -> Option<SyncState> {
        if !self.syncs.contains_key(callback_id) {
            None
        } else if self.syncs[callback_id] {
            Some(SyncState::Done)
        } else if self.connected {
            Some(SyncState::Waiting)
        } else {
            Some(SyncState::Aborted)
        }
    }

    /// Deleting an object; the display cannot be deleted.
    pub open spec fn delete(self, id: u32) -> ClientView {
        if id == DISPLAY_ID {
            self
        } else {
            ClientView { registry: self.registry.remove(id), ..self }
        }
    }

    /// What a decoded event does to the client: a delete-id deletes the
    /// object it names, and a done event completes the sync barrier of its
    /// sender, if there is one.
    pub open spec fn apply(self, sender: u32, k: EventKind, args: Seq<ArgValue>) -> ClientView {
        match k {
            EventKind::DisplayDeleteId => if args.len() > 0 {
                match args[0] {
                    ArgValue::Uint(id) => self.delete(id),
                    _ => self,
                }
            } else {
                self
            },
            EventKind::CallbackDone => if self.syncs.contains_key(sender) {
                ClientView { syncs: self.syncs.insert(sender, true), ..self }
            } else {
                self
            },
            _ => self,
        }
    }

    /// The client after dispatching one message; one whose sender is not
    /// live, or that does not decode, changes nothing.
    pub open spec fn dispatch(self, h: WireHeader, body: Seq<u8>) -> ClientView {
        match self.registry.lookup(h.sender_id) {
            Err(_) => self,
            Ok(obj) => match spec_event_kind(obj.interface, h.opcode) {
                None => self,
                Some(k) => match parse_args(spec_event_sig(k), body) {
                    None => self,
                    Some(args) => self.apply(h.sender_id, k, args),
                },
            },
        }
    }

    /// The client after dispatching `msgs` in order.
    pub open spec fn dispatch_all(self, msgs: Seq<(WireHeader, Seq<u8>)>) -> ClientView
        decreases msgs.len(),
    {
        if msgs.len() == 0 {
            self
        } else {
            self.dispatch_all(msgs.drop_last()).dispatch(msgs.last().0, msgs.last().1)
        }
    }

    /// The connection goes down; barriers still waiting are aborted.
    pub open spec fn disconnect(self) -> ClientView {
        ClientView { connected: false, ..self }
    }
}

/// What dispatching one message returns.
pub open spec fn dispatch_result(v: ClientView, h: WireHeader, body: Seq<u8>, r: Result<
    Event,
    ClientError,
>) -> bool {
    match v.registry.lookup(h.sender_id) {
        Err(e) => r == Err::<Event, ClientError>(ClientError::Resolution(e)),
        Ok(obj) => match r {
            Ok(e) => decode_result(obj, h.opcode, body, Ok(e)),
            Err(ClientError::Protocol(pe)) => decode_result(obj, h.opcode, body, Err(pe)),
            Err(_) => false,
        },
    }
}

/// The outcome of one turn of the event loop: one result per message read,
/// in wire order, the descriptors that rode with the read, and whether the
/// read filled the buffer, in which case its last message may have been cut.
pub struct BatchReport {
    pub outcomes: Vec<Result<Event, ClientError>>,
    pub fds: Vec<i32>,
    pub saturated: bool,
}

/// A client connection: the registry of live objects, the event listeners,
/// and the sync barriers. The transport stays with the caller, which sends
/// the messages this client encodes and hands it the bytes it reads.
pub struct Client<H> {
    registry: ObjectRegistry,
    listeners: Vec<H>,
    syncs: HashMap<u32, bool>,
    connected: bool,
}

impl<H: EventHandler> View for Client<H> {
    type V = ClientView;

    closed spec fn view(&self) -> ClientView {
        ClientView {
            registry: self.registry@,
            syncs: self.syncs@,
            connected: self.connected,
            listener_count: self.listeners@.len(),
        }
    }
}

impl<H: EventHandler> Client<H> {
    /// A connected client whose registry holds the display at id 1.
    pub fn connect() -> (r: Client<H>)
        ensures
            r@.wf(),
            r@.registry.objects == Map::<u32, ProtocolObject>::empty().insert(
                DISPLAY_ID,
                ProtocolObject { id: DISPLAY_ID, interface: Interface::Display },
            ),
            r@.registry.max_id == DISPLAY_ID,
            r@.syncs == Map::<u32, bool>::empty(),
            r@.connected,
            r@.listener_count == 0,
    {
        let mut registry = ObjectRegistry::new();
        registry.bind(DISPLAY_ID, Interface::Display);
        Client { registry, listeners: Vec::new(), syncs: HashMap::new(), connected: true }
    }

    /// Whether the connection is up.
    pub fn is_connected(&self) -> (r: bool)
        ensures
            r == self@.connected,
    {
        self.connected
    }

    /// The display object.
    pub fn get_display(&self) -> (r: ProtocolObject)
        requires
            self@.wf(),
        ensures
            r == (ProtocolObject { id: DISPLAY_ID, interface: Interface::Display }),
    {
        match self.registry.lookup(DISPLAY_ID) {
            Ok(o) => o,
            Err(_) => ProtocolObject { id: DISPLAY_ID, interface: Interface::Display },
        }
    }

    /// The live object with `id`.
    pub fn get_object(&self, id: u32) -> (r: Result<ProtocolObject, ResolutionError>)
        ensures
            r == self@.registry.lookup(id),
    {
        self.registry.lookup(id)
    }

    /// Creates an object of `iface` at a fresh id, one above every id issued
    /// or bound so far.
    pub fn new_object(&mut self, iface: Interface) -> (r: Result<u32, ClientError>)
        requires
            old(self)@.wf(),
        ensures
            final(self)@.wf(),
            old(self)@.registry.max_id < u32::MAX ==> r == Ok::<u32, ClientError>(
                old(self)@.registry.create(iface).1,
            ) && final(self)@ == (ClientView {
                registry: old(self)@.registry.create(iface).0,
                ..old(self)@
            }),
            old(self)@.registry.max_id == u32::MAX ==> r == Err::<u32, ClientError>(
                ClientError::IdsExhausted,
            ) && final(self)@ == old(self)@,
    {
        if self.registry.max_id() == u32::MAX {
            return Err(ClientError::IdsExhausted);
        }
        let id = self.registry.create(iface);
        Ok(id)
    }

    /// Places an object of `iface` at `id`, an id the host or the protocol
    /// dictates. Id 0 is invalid and id 1 is the display's.
    pub fn bind_object(&mut self, id: u32, iface: Interface) -> (r: Result<(), ClientError>)
        requires
            old(self)@.wf(),
        ensures
            final(self)@.wf(),
            id > DISPLAY_ID ==> r == Ok::<(), ClientError>(()) && final(self)@ == (ClientView {
                registry: old(self)@.registry.bind(id, iface),
                ..old(self)@
            }),
            id <= DISPLAY_ID ==> r == Err::<(), ClientError>(ClientError::ReservedId)
                && final(self)@ == old(self)@,
    {
        if id <= DISPLAY_ID {
            return Err(ClientError::ReservedId);
        }
        self.registry.bind(id, iface);
        Ok(())
    }

    /// Deletes the object with `id`; an id with no live object, or the
    /// display's, is left alone.
    pub fn delete_obj(&mut self, id: u32)
        requires
            old(self)@.wf(),
        ensures
            final(self)@ == old(self)@.delete(id),
            final(self)@.wf(),
    {
        if id != DISPLAY_ID {
            self.registry.remove(id);
        }
    }

    /// Appends a listener; listeners hear every event in the order they were added.
    pub fn add_event_listener(&mut self, handler: H)
        ensures
            final(self).listeners() == old(self).listeners().push(handler),
            final(self)@ == (ClientView {
                listener_count: old(self)@.listener_count + 1,
                ..old(self)@
            }),
    {
        self.listeners.push(handler);
    }

    /// The listeners, in the order they were added.
    pub closed spec fn listeners(&self) -> Seq<H> {
        self.listeners@
    }

    /// Takes the connection down; barriers still waiting are aborted.
    pub fn disconnect(&mut self)
        ensures
            final(self)@ == old(self)@.disconnect(),
    {
        self.connected = false;
    }
}

impl<H: EventHandler> Client<H> {
    /// Starts a sync barrier: creates a callback object and encodes the
    /// display's sync request for it. The barrier is done once the host
    /// answers with the callback's completion event, after it has processed
    /// every request sent before this one.
    pub fn sync(&mut self) -> (r: Result<(u32, OutgoingMessage), ClientError>)
        requires
            old(self)@.wf(),
        ensures
            final(self)@.wf(),
            !old(self)@.connected ==> r == Err::<(u32, OutgoingMessage), ClientError>(
                ClientError::Disconnected,
            ) && final(self)@ == old(self)@,
            old(self)@.connected && old(self)@.registry.max_id == u32::MAX ==> r == Err::<
                (u32, OutgoingMessage),
                ClientError,
            >(ClientError::IdsExhausted) && final(self)@ == old(self)@,
            old(self)@.connected && old(self)@.registry.max_id < u32::MAX ==> match r {
                Ok((id, m)) => {
                    &&& (final(self)@.registry, id) == old(self)@.registry.create(
                        Interface::Callback,
                    )
                    &&& final(self)@ == (ClientView {
                        registry: final(self)@.registry,
                        syncs: old(self)@.syncs.insert(id, false),
                        ..old(self)@
                    })
                    &&& m.bytes@ == frame_bytes(
                        WireHeader { sender_id: DISPLAY_ID, opcode: 0, body_size: 4 },
                        le_bytes(id),
                    )
                    &&& m.fds@ == Seq::<i32>::empty()
                },
                Err(_) => false,
            },
    {
        if !self.connected {
            return Err(ClientError::Disconnected);
        }
        let id = match self.new_object(Interface::Callback) {
            Ok(id) => id,
            Err(e) => {
                return Err(e);
            },
        };
        let args = vec![Arg::NewId(id)];
        let ghost a = args_view(args@);
        assert(a =~= seq![ArgValue::NewId(id)]);
        assert(a.drop_last() =~= Seq::<ArgValue>::empty());
        proof {
            reveal_with_fuel(crate::protocol::args_bytes, 2);
            reveal_with_fuel(crate::protocol::args_fds, 2);
        }
        assert(crate::protocol::args_bytes(a) =~= le_bytes(id));
        assert(crate::protocol::args_fds(a) =~= Seq::<i32>::empty());
        let display = self.get_display();
        match display.encode_request(RequestKind::DisplaySync, &args) {
            Ok(m) => {
                self.syncs.insert(id, false);
                Ok((id, m))
            },
            Err(e) => Err(ClientError::Protocol(e)),
        }
    }

    /// Where the sync barrier of `callback_id` stands, if there is one.
    pub fn sync_state(&self, callback_id: u32) -> (r: Option<SyncState>)
        ensures
            r == self@.sync_state(callback_id),
    {
        match self.syncs.get(&callback_id) {
            None => None,
            Some(done) => if *done {
                Some(SyncState::Done)
            } else if self.connected {
                Some(SyncState::Waiting)
            } else {
                Some(SyncState::Aborted)
            },
        }
    }

    /// Forgets the sync barrier of `callback_id`, returning where it stood.
    pub fn finish_sync(&mut self, callback_id: u32) -> (r: Option<SyncState>)
        ensures
            r == old(self)@.sync_state(callback_id),
            final(self)@ == (ClientView { syncs: old(self)@.syncs.remove(callback_id), ..old(self)@ }),
    {
        let r = self.sync_state(callback_id);
        self.syncs.remove(&callback_id);
        r
    }

    fn apply(&mut self, e: &Event)
        requires
            old(self)@.wf(),
        ensures
            final(self)@ == old(self)@.apply(e.sender_id, e.kind, args_view(e.args@)),
            final(self)@.wf(),
    {
        match e.kind {
            EventKind::DisplayDeleteId => {
                if e.args.len() > 0 {
                    match &e.args[0] {
                        Arg::Uint(id) => self.delete_obj(*id),
                        _ => {},
                    }
                }
            },
            EventKind::CallbackDone => {
                if self.syncs.contains_key(&e.sender_id) {
                    self.syncs.insert(e.sender_id, true);
                }
            },
            _ => {},
        }
    }

    /// Hands `e` to every listener, in the order they were added.
    fn deliver(&mut self, e: &Event)
        ensures
            final(self)@ == old(self)@,
    {
        let mut i: usize = 0;
        while i < self.listeners.len()
            invariant
                self.registry == old(self).registry,
                self.syncs == old(self).syncs,
                self.connected == old(self).connected,
                self.listeners@.len() == old(self).listeners@.len(),
            decreases self.listeners@.len() - i,
        {
            self.listeners[i].handle(e);
            i = i + 1;
        }
    }

    /// Dispatches one message: resolves its sender, decodes it, applies it,
    /// and hands it to every listener. A message from an id with no live
    /// object, or one that does not decode, is reported and changes nothing.
    pub fn dispatch(&mut self, msg: &Message) -> (r: Result<Event, ClientError>)
        requires
            old(self)@.wf(),
        ensures
            final(self)@.wf(),
            final(self)@ == old(self)@.dispatch(msg.header, msg.body@),
            dispatch_result(old(self)@, msg.header, msg.body@, r),
    {
        let obj = match self.registry.lookup(msg.header.sender_id) {
            Ok(o) => o,
            Err(e) => {
                return Err(ClientError::Resolution(e));
            },
        };
        match obj.decode_event(msg.header.opcode, &msg.body) {
            Ok(e) => {
                self.apply(&e);
                self.deliver(&e);
                Ok(e)
            },
            Err(pe) => Err(ClientError::Protocol(pe)),
        }
    }
}

impl<H: EventHandler> Client<H> {
    /// One turn of the event loop, on the bytes of one read: splits the first
    /// `filled` bytes of `buf` into messages and dispatches them in wire
    /// order. A read that does not split into whole messages takes the
    /// connection down, since the stream offers no point to resume from.
    pub fn start_event_loop(&mut self, buf: &[u8], filled: usize, fds: Vec<i32>) -> (r: Result<
        BatchReport,
        ClientError,
    >)
        requires
            old(self)@.wf(),
            filled <= buf@.len(),
        ensures
            final(self)@.wf(),
            !old(self)@.connected ==> r == Err::<BatchReport, ClientError>(
                ClientError::Disconnected,
            ) && final(self)@ == old(self)@,
            old(self)@.connected ==> match parse_frames(buf@.take(filled as int)) {
                None => r == Err::<BatchReport, ClientError>(
                    ClientError::Framing(framing_error(buf@.take(filled as int))),
                ) && final(self)@ == old(self)@.disconnect(),
                Some(msgs) => match r {
                    Ok(report) => {
                        &&& final(self)@ == old(self)@.dispatch_all(msgs)
                        &&& report.outcomes@.len() == msgs.len()
                        &&& forall|i: int|
                            0 <= i < msgs.len() ==> dispatch_result(
                                old(self)@.dispatch_all(msgs.take(i)),
                                #[trigger] msgs[i].0,
                                msgs[i].1,
                                report.outcomes@[i],
                            )
                        &&& report.fds@ == fds@
                        &&& report.saturated == (filled == buf@.len())
                    },
                    Err(_) => false,
                },
            },
    {
        if !self.connected {
            return Err(ClientError::Disconnected);
        }
        let msgs = match split_frames(buf, filled) {
            Ok(m) => m,
            Err(e) => {
                self.disconnect();
                return Err(ClientError::Framing(e));
            },
        };
        let ghost ms = messages_view(msgs@);
        let ghost start = self@;
        let mut outcomes: Vec<Result<Event, ClientError>> = Vec::new();
        let mut i: usize = 0;
        assert(ms.take(0) =~= Seq::<(WireHeader, Seq<u8>)>::empty());
        while i < msgs.len()
            invariant
                i <= msgs@.len(),
                ms == messages_view(msgs@),
                self@.wf(),
                self@ == start.dispatch_all(ms.take(i as int)),
                outcomes@.len() == i,
                forall|j: int|
                    0 <= j < i ==> dispatch_result(
                        start.dispatch_all(ms.take(j)),
                        #[trigger] ms[j].0,
                        ms[j].1,
                        outcomes@[j],
                    ),
            decreases msgs@.len() - i,
        {
            let o = self.dispatch(&msgs[i]);
            outcomes.push(o);
            assert(ms.take(i as int + 1).drop_last() =~= ms.take(i as int));
            assert(ms.take(i as int + 1).last() == ms[i as int]);
            i = i + 1;
        }
        assert(ms.take(i as int) =~= ms);
        Ok(BatchReport { outcomes, fds, saturated: filled == buf.len() })
    }
}

/// A sync barrier is released only by its own completion event: a message
/// from any other sender leaves a waiting barrier waiting, and the callback's
/// done event completes it.
pub proof fn lemma_sync_released_only_by_own_event(
    v: ClientView,
    h: WireHeader,
    body: Seq<u8>,
    callback_id: u32,
)
    requires
        v.wf(),
        v.sync_state(callback_id) == Some(SyncState::Waiting),
    ensures
        h.sender_id != callback_id ==> v.dispatch(h, body).sync_state(callback_id) == Some(
            SyncState::Waiting,
        ),
        h.sender_id == callback_id && h.opcode == 0 && body.len() == 4 && v.registry.lookup(
            callback_id,
        ) == Ok::<ProtocolObject, ResolutionError>(
            ProtocolObject { id: callback_id, interface: Interface::Callback },
        ) ==> v.dispatch(h, body).sync_state(callback_id) == Some(SyncState::Done),
{
    if h.sender_id == callback_id && h.opcode == 0 && body.len() == 4 {
        reveal_with_fuel(parse_args_from, 2);
    }
}

/// Messages none of which comes from a barrier's callback leave that
/// barrier waiting, whatever order they arrive in.
pub proof fn lemma_sync_waits_for_own_event(
    v: ClientView,
    msgs: Seq<(WireHeader, Seq<u8>)>,
    callback_id: u32,
)
    requires
        v.wf(),
        v.sync_state(callback_id) == Some(SyncState::Waiting),
        forall|i: int| 0 <= i < msgs.len() ==> (#[trigger] msgs[i]).0.sender_id != callback_id,
    ensures
        v.dispatch_all(msgs).sync_state(callback_id) == Some(SyncState::Waiting),
        v.dispatch_all(msgs).wf(),
    decreases msgs.len(),
{
    if msgs.len() > 0 {
        let init = msgs.drop_last();
        assert forall|i: int| 0 <= i < init.len() implies (#[trigger] init[i]).0.sender_id
            != callback_id by {
            assert(init[i] == msgs[i]);
        }
        lemma_sync_waits_for_own_event(v, init, callback_id);
        let w = v.dispatch_all(init);
        assert(msgs.last() == msgs[msgs.len() - 1]);
        lemma_sync_released_only_by_own_event(w, msgs.last().0, msgs.last().1, callback_id);
        lemma_dispatch_keeps_wf(w, msgs.last().0, msgs.last().1);
    }
}

/// Dispatching a message keeps the client well formed.
pub proof fn lemma_dispatch_keeps_wf(v: ClientView, h: WireHeader, body: Seq<u8>)
    requires
        v.wf(),
    ensures
        v.dispatch(h, body).wf(),
{
}

} // verus!
