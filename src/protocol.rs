use vstd::prelude::*;
use crate::wire::{
    copy_range, encode_frame, frame_bytes, le_bytes, le_u32, push_u32, read_u32, WireHeader,
};

verus! {

/// The interfaces this client speaks: a closed union, one variant each.
#[derive(Clone, Copy, Debug, PartialEq, Eq, Structural)]
pub enum Interface {
    Display,
    Registry,
    Callback,
    Compositor,
    ShmPool,
    Shm,
    Buffer,
    Surface,
    Shell,
    ShellSurface,
}

/// A live protocol object: its id and the interface it implements.
#[derive(Clone, Copy, Debug, PartialEq, Eq, Structural)]
pub struct ProtocolObject {
    pub id: u32,
    pub interface: Interface,
}

/// Failures of encoding a request or decoding an event.
#[derive(Clone, Copy, Debug, PartialEq, Eq, Structural)]
pub enum ProtocolError {
    /// The opcode is not in the interface's event table.
    InvalidOpcode,
    /// The request does not belong to the object's interface.
    InvalidOperation,
    /// The arguments do not match the message's argument layout.
    InvalidArguments,
    /// The encoded message does not fit in one frame.
    MessageTooLarge,
}

/// The wire type of one argument.
#[derive(Clone, Copy, Debug, PartialEq, Eq, Structural)]
pub enum ArgKind {
    Uint,
    Int,
    Object,
    NewId,
    Str,
    Fd,
}

/// One argument value. A string holds its bytes without the closing NUL.
#[derive(Clone, Debug)]
pub enum Arg {
    Uint(u32),
    Int(i32),
    Object(u32),
    NewId(u32),
    Str(Vec<u8>),
    Fd(i32),
}

/// The mathematical value of an argument.
pub ghost enum ArgValue {
    Uint(u32),
    Int(i32),
    Object(u32),
    NewId(u32),
    Str(Seq<u8>),
    Fd(i32),
}

impl View for Arg {
    type V = ArgValue;

    open spec fn view(&self) -> ArgValue {
        match self {
            Arg::Uint(x) => ArgValue::Uint(*x),
            Arg::Int(x) => ArgValue::Int(*x),
            Arg::Object(x) => ArgValue::Object(*x),
            Arg::NewId(x) => ArgValue::NewId(*x),
            Arg::Str(b) => ArgValue::Str(b@),
            Arg::Fd(x) => ArgValue::Fd(*x),
        }
    }
}

/// The mathematical values of an argument list.
pub open spec fn args_view(v: Seq<Arg>) -> Seq<ArgValue> {
    v.map_values(|a: Arg| a@)
}

/// The wire type of an argument value.
pub open spec fn arg_kind(a: ArgValue) -> ArgKind {
    match a {
        ArgValue::Uint(_) => ArgKind::Uint,
        ArgValue::Int(_) => ArgKind::Int,
        ArgValue::Object(_) => ArgKind::Object,
        ArgValue::NewId(_) => ArgKind::NewId,
        ArgValue::Str(_) => ArgKind::Str,
        ArgValue::Fd(_) => ArgKind::Fd,
    }
}

/// The arguments have the kinds that `sig` lists, in order.
pub open spec fn args_match(sig: Seq<ArgKind>, args: Seq<ArgValue>) -> bool {
    &&& sig.len() == args.len()
    &&& forall|i: int| 0 <= i < sig.len() ==> arg_kind(#[trigger] args[i]) == sig[i]
}

/// Zero bytes that pad a string of `n` bytes (its NUL included) to a multiple of four.
pub open spec fn padding(n: nat) -> Seq<u8> {
    Seq::new(((4 - n % 4) % 4) as nat, |i: int| 0u8)
}

/// The body bytes of one argument; a descriptor travels beside the body.
pub open spec fn arg_bytes(a: ArgValue) -> Seq<u8> {
    match a {
        ArgValue::Uint(x) => le_bytes(x),
        ArgValue::Int(x) => le_bytes(x as u32),
        ArgValue::Object(x) => le_bytes(x),
        ArgValue::NewId(x) => le_bytes(x),
        ArgValue::Str(b) => le_bytes((b.len() + 1) as u32) + b + seq![0u8] + padding(b.len() + 1),
        ArgValue::Fd(_) => Seq::empty(),
    }
}

/// The body bytes of an argument list.
pub open spec fn args_bytes(args: Seq<ArgValue>) -> Seq<u8>
    decreases args.len(),
{
    if args.len() == 0 {
        Seq::empty()
    } else {
        args_bytes(args.drop_last()) + arg_bytes(args.last())
    }
}

/// The descriptors of an argument list, in order.
pub open spec fn args_fds(args: Seq<ArgValue>) -> Seq<i32>
    decreases args.len(),
{
    if args.len() == 0 {
        Seq::empty()
    } else {
        args_fds(args.drop_last()) + match args.last() {
            ArgValue::Fd(fd) => seq![fd],
            _ => Seq::empty(),
        }
    }
}

/// The value of kind `k` read from `s` at `pos`, and where the next one starts.
/// A string of declared length zero is read as the empty string.
pub open spec fn arg_at(k: ArgKind, s: Seq<u8>, pos: int) -> Option<(ArgValue, int)> {
    if pos + 4 > s.len() || k == ArgKind::Fd {
        None
    } else {
        let w = le_u32(s, pos);
        match k {
            ArgKind::Uint => Some((ArgValue::Uint(w), pos + 4)),
            ArgKind::Int => Some((ArgValue::Int(w as i32), pos + 4)),
            ArgKind::Object => Some((ArgValue::Object(w), pos + 4)),
            ArgKind::NewId => Some((ArgValue::NewId(w), pos + 4)),
            _ => {
                let end = pos + 4 + w + (4 - w % 4) % 4;
                if w == 0 {
                    Some((ArgValue::Str(Seq::empty()), pos + 4))
                } else if end > s.len() {
                    None
                } else {
                    Some((ArgValue::Str(s.subrange(pos + 4, pos + 3 + w)), end))
                }
            },
        }
    }
}

/// The values of the kinds `sig[k..]` read from `s` starting at `pos`; the
/// last one must end exactly where `s` does.
pub open spec fn parse_args_from(sig: Seq<ArgKind>, k: int, s: Seq<u8>, pos: int) -> Option<
    Seq<ArgValue>,
>
    decreases sig.len() - k,
{
    if k >= sig.len() {
        if pos == s.len() {
            Some(Seq::empty())
        } else {
            None
        }
    } else {
        match arg_at(sig[k], s, pos) {
            Some((v, next)) => match parse_args_from(sig, k + 1, s, next) {
                Some(rest) => Some(seq![v] + rest),
                None => None,
            },
            None => None,
        }
    }
}

/// The values of the kinds `sig` read from `s`, which they must fill exactly.
pub open spec fn parse_args(sig: Seq<ArgKind>, s: Seq<u8>) -> Option<Seq<ArgValue>> {
    parse_args_from(sig, 0, s, 0)
}

/// Reads one argument of kind `k` from `body` at `pos`.
pub fn read_arg(k: ArgKind, body: &[u8], pos: usize) -> (r: Option<(Arg, usize)>)
    requires
        pos <= body@.len(),
    ensures
        match r {
            Some((a, next)) => arg_at(k, body@, pos as int) == Some((a@, next as int)) && next
                <= body@.len(),
            None => arg_at(k, body@, pos as int) is None,
        },
{
    if body.len() - pos < 4 {
        return None;
    }
    let w = read_u32(body, pos);
    match k {
        ArgKind::Uint => Some((Arg::Uint(w), pos + 4)),
        ArgKind::Int => Some((Arg::Int(#[verifier::truncate] (w as i32)), pos + 4)),
        ArgKind::Object => Some((Arg::Object(w), pos + 4)),
        ArgKind::NewId => Some((Arg::NewId(w), pos + 4)),
        ArgKind::Fd => None,
        ArgKind::Str => {
            if w == 0 {
                return Some((Arg::Str(Vec::new()), pos + 4));
            }
            let pad: u32 = (4 - w % 4) % 4;
            let avail: usize = body.len() - pos - 4;
            if w as usize > avail || pad as usize > avail - w as usize {
                return None;
            }
            let b = copy_range(body, pos + 4, pos + 3 + w as usize);
            Some((Arg::Str(b), pos + 4 + w as usize + pad as usize))
        },
    }
}

/// Reads the arguments that `sig` lists from `body`, which they must fill exactly.
pub fn decode_args(sig: &Vec<ArgKind>, body: &[u8]) -> (r: Option<Vec<Arg>>)
    ensures
        match r {
            Some(v) => parse_args(sig@, body@) == Some(args_view(v@)),
            None => parse_args(sig@, body@) is None,
        },
{
    let mut out: Vec<Arg> = Vec::new();
    let mut pos: usize = 0;
    let mut k: usize = 0;
    proof {
        match parse_args(sig@, body@) {
            Some(rest) => {
                assert(args_view(out@) + rest =~= rest);
            },
            None => {},
        }
    }
    while k < sig.len()
        invariant
            pos <= body@.len(),
            k <= sig@.len(),
            parse_args(sig@, body@) == match parse_args_from(sig@, k as int, body@, pos as int) {
                Some(rest) => Some(args_view(out@) + rest),
                None => None::<Seq<ArgValue>>,
            },
        decreases sig@.len() - k,
    {
        match read_arg(sig[k], body, pos) {
            None => {
                return None;
            },
            Some((a, next)) => {
                let ghost before = args_view(out@);
                let ghost v = a@;
                out.push(a);
                assert(args_view(out@) =~= before.push(v));
                proof {
                    match parse_args_from(sig@, k + 1, body@, next as int) {
                        Some(rest) => {
                            assert(before + (seq![v] + rest) =~= before.push(v) + rest);
                        },
                        None => {},
                    }
                }
                pos = next;
                k = k + 1;
            },
        }
    }
    if pos != body.len() {
        return None;
    }
    assert(args_view(out@) + Seq::<ArgValue>::empty() =~= args_view(out@));
    Some(out)
}

/// A string argument is short enough for its length word and a frame.
pub open spec fn arg_fits(a: ArgValue) -> bool {
    match a {
        ArgValue::Str(b) => b.len() < 0xffff,
        _ => true,
    }
}

/// Every string argument fits.
pub open spec fn args_fit(args: Seq<ArgValue>) -> bool {
    forall|i: int| 0 <= i < args.len() ==> arg_fits(#[trigger] args[i])
}

/// Appends the body bytes of `a`, and its descriptor, if it is one.
fn push_arg(out: &mut Vec<u8>, fds: &mut Vec<i32>, a: &Arg)
    requires
        arg_fits(a@),
    ensures
        final(out)@ == old(out)@ + arg_bytes(a@),
        final(fds)@ == old(fds)@ + match a@ {
            ArgValue::Fd(fd) => seq![fd],
            _ => Seq::<i32>::empty(),
        },
{
    match a {
        Arg::Uint(x) => push_u32(out, *x),
        Arg::Int(x) => push_u32(out, #[verifier::truncate] (*x as u32)),
        Arg::Object(x) => push_u32(out, *x),
        Arg::NewId(x) => push_u32(out, *x),
        Arg::Fd(fd) => {
            fds.push(*fd);
            assert(final(out)@ =~= old(out)@ + arg_bytes(a@));
        },
        Arg::Str(b) => {
            let n: u32 = b.len() as u32 + 1;
            push_u32(out, n);
            let ghost start = out@;
            let mut i: usize = 0;
            while i < b.len()
                invariant
                    i <= b@.len(),
                    out@ == start + b@.take(i as int),
                decreases b@.len() - i,
            {
                out.push(b[i]);
                i = i + 1;
                assert(out@ =~= start + b@.take(i as int));
            }
            out.push(0u8);
            let pad: u32 = (4 - n % 4) % 4;
            let ghost padded = out@;
            let mut j: u32 = 0;
            while j < pad
                invariant
                    j <= pad,
                    out@ == padded + Seq::new(j as nat, |i: int| 0u8),
                decreases pad - j,
            {
                out.push(0u8);
                j = j + 1;
                assert(out@ =~= padded + Seq::new(j as nat, |i: int| 0u8));
            }
            assert(b@.take(b@.len() as int) =~= b@);
            assert(out@ =~= old(out)@ + arg_bytes(a@));
        },
    }
}

/// Encodes an argument list: its body bytes and its descriptors.
pub fn encode_args(args: &Vec<Arg>) -> (r: (Vec<u8>, Vec<i32>))
    requires
        args_fit(args_view(args@)),
    ensures
        r.0@ == args_bytes(args_view(args@)),
        r.1@ == args_fds(args_view(args@)),
{
    let mut out: Vec<u8> = Vec::new();
    let mut fds: Vec<i32> = Vec::new();
    let mut i: usize = 0;
    while i < args.len()
        invariant
            i <= args@.len(),
            args_fit(args_view(args@)),
            out@ == args_bytes(args_view(args@.take(i as int))),
            fds@ == args_fds(args_view(args@.take(i as int))),
        decreases args@.len() - i,
    {
        assert(arg_fits(args_view(args@)[i as int]));
        push_arg(&mut out, &mut fds, &args[i]);
        let ghost prefix = args_view(args@.take(i as int + 1));
        assert(prefix.drop_last() =~= args_view(args@.take(i as int)));
        assert(prefix.last() == args@[i as int]@);
        i = i + 1;
    }
    assert(args@.take(i as int) =~= args@);
    (out, fds)
}

/// The events of the catalog, tagged by interface.
#[derive(Clone, Copy, Debug, PartialEq, Eq, Structural)]
pub enum EventKind {
    DisplayError,
    DisplayDeleteId,
    RegistryGlobal,
    RegistryGlobalRemove,
    CallbackDone,
    ShmFormat,
    BufferRelease,
    SurfaceEnter,
    SurfaceLeave,
    ShellSurfacePing,
    ShellSurfaceConfigure,
    ShellSurfacePopupDone,
}

/// The requests of the catalog, tagged by interface.
#[derive(Clone, Copy, Debug, PartialEq, Eq, Structural)]
pub enum RequestKind {
    DisplaySync,
    DisplayGetRegistry,
    RegistryBind,
    CompositorCreateSurface,
    CompositorCreateRegion,
    ShmPoolCreateBuffer,
    ShmPoolDestroy,
    ShmPoolResize,
    ShmCreatePool,
    BufferDestroy,
    SurfaceDestroy,
    SurfaceAttach,
    SurfaceDamage,
    SurfaceFrame,
    SurfaceCommit,
    ShellGetShellSurface,
    ShellSurfacePong,
    ShellSurfaceSetToplevel,
}

/// The event that `opcode` names in the event table of `iface`.
pub open spec fn spec_event_kind(iface: Interface, opcode: u16) -> Option<EventKind> {
    match (iface, opcode) {
        (Interface::Display, 0) => Some(EventKind::DisplayError),
        (Interface::Display, 1) => Some(EventKind::DisplayDeleteId),
        (Interface::Registry, 0) => Some(EventKind::RegistryGlobal),
        (Interface::Registry, 1) => Some(EventKind::RegistryGlobalRemove),
        (Interface::Callback, 0) => Some(EventKind::CallbackDone),
        (Interface::Shm, 0) => Some(EventKind::ShmFormat),
        (Interface::Buffer, 0) => Some(EventKind::BufferRelease),
        (Interface::Surface, 0) => Some(EventKind::SurfaceEnter),
        (Interface::Surface, 1) => Some(EventKind::SurfaceLeave),
        (Interface::ShellSurface, 0) => Some(EventKind::ShellSurfacePing),
        (Interface::ShellSurface, 1) => Some(EventKind::ShellSurfaceConfigure),
        (Interface::ShellSurface, 2) => Some(EventKind::ShellSurfacePopupDone),
        _ => None,
    }
}

/// The argument layout of an event.
pub open spec fn spec_event_sig(k: EventKind) -> Seq<ArgKind> {
    match k {
        EventKind::DisplayError => seq![ArgKind::Object, ArgKind::Uint, ArgKind::Str],
        EventKind::DisplayDeleteId => seq![ArgKind::Uint],
        EventKind::RegistryGlobal => seq![ArgKind::Uint, ArgKind::Str, ArgKind::Uint],
        EventKind::RegistryGlobalRemove => seq![ArgKind::Uint],
        EventKind::CallbackDone => seq![ArgKind::Uint],
        EventKind::ShmFormat => seq![ArgKind::Uint],
        EventKind::BufferRelease => seq![],
        EventKind::SurfaceEnter => seq![ArgKind::Object],
        EventKind::SurfaceLeave => seq![ArgKind::Object],
        EventKind::ShellSurfacePing => seq![ArgKind::Uint],
        EventKind::ShellSurfaceConfigure => seq![ArgKind::Uint, ArgKind::Int, ArgKind::Int],
        EventKind::ShellSurfacePopupDone => seq![],
    }
}

/// The interface a request belongs to, and its opcode there.
pub open spec fn spec_request_target(k: RequestKind) -> (Interface, u16) {
    match k {
        RequestKind::DisplaySync => (Interface::Display, 0),
        RequestKind::DisplayGetRegistry => (Interface::Display, 1),
        RequestKind::RegistryBind => (Interface::Registry, 0),
        RequestKind::CompositorCreateSurface => (Interface::Compositor, 0),
        RequestKind::CompositorCreateRegion => (Interface::Compositor, 1),
        RequestKind::ShmPoolCreateBuffer => (Interface::ShmPool, 0),
        RequestKind::ShmPoolDestroy => (Interface::ShmPool, 1),
        RequestKind::ShmPoolResize => (Interface::ShmPool, 2),
        RequestKind::ShmCreatePool => (Interface::Shm, 0),
        RequestKind::BufferDestroy => (Interface::Buffer, 0),
        RequestKind::SurfaceDestroy => (Interface::Surface, 0),
        RequestKind::SurfaceAttach => (Interface::Surface, 1),
        RequestKind::SurfaceDamage => (Interface::Surface, 2),
        RequestKind::SurfaceFrame => (Interface::Surface, 3),
        RequestKind::SurfaceCommit => (Interface::Surface, 6),
        RequestKind::ShellGetShellSurface => (Interface::Shell, 0),
        RequestKind::ShellSurfacePong => (Interface::ShellSurface, 0),
        RequestKind::ShellSurfaceSetToplevel => (Interface::ShellSurface, 3),
    }
}

/// The argument layout of a request. Binding a global names the interface
/// and version beside the new id.
pub open spec fn spec_request_sig(k: RequestKind) -> Seq<ArgKind> {
    match k {
        RequestKind::DisplaySync => seq![ArgKind::NewId],
        RequestKind::DisplayGetRegistry => seq![ArgKind::NewId],
        RequestKind::RegistryBind => seq![ArgKind::Uint, ArgKind::Str, ArgKind::Uint, ArgKind::NewId],
        RequestKind::CompositorCreateSurface => seq![ArgKind::NewId],
        RequestKind::CompositorCreateRegion => seq![ArgKind::NewId],
        RequestKind::ShmPoolCreateBuffer => seq![
            ArgKind::NewId,
            ArgKind::Int,
            ArgKind::Int,
            ArgKind::Int,
            ArgKind::Int,
            ArgKind::Uint,
        ],
        RequestKind::ShmPoolDestroy => seq![],
        RequestKind::ShmPoolResize => seq![ArgKind::Int],
        RequestKind::ShmCreatePool => seq![ArgKind::NewId, ArgKind::Fd, ArgKind::Int],
        RequestKind::BufferDestroy => seq![],
        RequestKind::SurfaceDestroy => seq![],
        RequestKind::SurfaceAttach => seq![ArgKind::Object, ArgKind::Int, ArgKind::Int],
        RequestKind::SurfaceDamage => seq![ArgKind::Int, ArgKind::Int, ArgKind::Int, ArgKind::Int],
        RequestKind::SurfaceFrame => seq![ArgKind::NewId],
        RequestKind::SurfaceCommit => seq![],
        RequestKind::ShellGetShellSurface => seq![ArgKind::NewId, ArgKind::Object],
        RequestKind::ShellSurfacePong => seq![ArgKind::Uint],
        RequestKind::ShellSurfaceSetToplevel => seq![],
    }
}

/// Looks up `opcode` in the event table of `iface`.
pub fn event_kind(iface: Interface, opcode: u16) -> (r: Option<EventKind>)
    ensures
        r == spec_event_kind(iface, opcode),
{
    match (iface, opcode) {
        (Interface::Display, 0) => Some(EventKind::DisplayError),
        (Interface::Display, 1) => Some(EventKind::DisplayDeleteId),
        (Interface::Registry, 0) => Some(EventKind::RegistryGlobal),
        (Interface::Registry, 1) => Some(EventKind::RegistryGlobalRemove),
        (Interface::Callback, 0) => Some(EventKind::CallbackDone),
        (Interface::Shm, 0) => Some(EventKind::ShmFormat),
        (Interface::Buffer, 0) => Some(EventKind::BufferRelease),
        (Interface::Surface, 0) => Some(EventKind::SurfaceEnter),
        (Interface::Surface, 1) => Some(EventKind::SurfaceLeave),
        (Interface::ShellSurface, 0) => Some(EventKind::ShellSurfacePing),
        (Interface::ShellSurface, 1) => Some(EventKind::ShellSurfaceConfigure),
        (Interface::ShellSurface, 2) => Some(EventKind::ShellSurfacePopupDone),
        _ => None,
    }
}

/// The argument layout of an event.
pub fn event_sig(k: EventKind) -> (r: Vec<ArgKind>)
    ensures
        r@ == spec_event_sig(k),
{
    let r = match k {
        EventKind::DisplayError => vec![ArgKind::Object, ArgKind::Uint, ArgKind::Str],
        EventKind::DisplayDeleteId => vec![ArgKind::Uint],
        EventKind::RegistryGlobal => vec![ArgKind::Uint, ArgKind::Str, ArgKind::Uint],
        EventKind::RegistryGlobalRemove => vec![ArgKind::Uint],
        EventKind::CallbackDone => vec![ArgKind::Uint],
        EventKind::ShmFormat => vec![ArgKind::Uint],
        EventKind::BufferRelease => vec![],
        EventKind::SurfaceEnter => vec![ArgKind::Object],
        EventKind::SurfaceLeave => vec![ArgKind::Object],
        EventKind::ShellSurfacePing => vec![ArgKind::Uint],
        EventKind::ShellSurfaceConfigure => vec![ArgKind::Uint, ArgKind::Int, ArgKind::Int],
        EventKind::ShellSurfacePopupDone => vec![],
    };
    assert(r@ =~= spec_event_sig(k));
    r
}

/// The interface a request belongs to, and its opcode there.
pub fn request_target(k: RequestKind) -> (r: (Interface, u16))
    ensures
        r == spec_request_target(k),
{
    match k {
        RequestKind::DisplaySync => (Interface::Display, 0),
        RequestKind::DisplayGetRegistry => (Interface::Display, 1),
        RequestKind::RegistryBind => (Interface::Registry, 0),
        RequestKind::CompositorCreateSurface => (Interface::Compositor, 0),
        RequestKind::CompositorCreateRegion => (Interface::Compositor, 1),
        RequestKind::ShmPoolCreateBuffer => (Interface::ShmPool, 0),
        RequestKind::ShmPoolDestroy => (Interface::ShmPool, 1),
        RequestKind::ShmPoolResize => (Interface::ShmPool, 2),
        RequestKind::ShmCreatePool => (Interface::Shm, 0),
        RequestKind::BufferDestroy => (Interface::Buffer, 0),
        RequestKind::SurfaceDestroy => (Interface::Surface, 0),
        RequestKind::SurfaceAttach => (Interface::Surface, 1),
        RequestKind::SurfaceDamage => (Interface::Surface, 2),
        RequestKind::SurfaceFrame => (Interface::Surface, 3),
        RequestKind::SurfaceCommit => (Interface::Surface, 6),
        RequestKind::ShellGetShellSurface => (Interface::Shell, 0),
        RequestKind::ShellSurfacePong => (Interface::ShellSurface, 0),
        RequestKind::ShellSurfaceSetToplevel => (Interface::ShellSurface, 3),
    }
}

/// The argument layout of a request.
pub fn request_sig(k: RequestKind) -> (r: Vec<ArgKind>)
    ensures
        r@ == spec_request_sig(k),
{
    let r = match k {
        RequestKind::DisplaySync => vec![ArgKind::NewId],
        RequestKind::DisplayGetRegistry => vec![ArgKind::NewId],
        RequestKind::RegistryBind => vec![ArgKind::Uint, ArgKind::Str, ArgKind::Uint, ArgKind::NewId],
        RequestKind::CompositorCreateSurface => vec![ArgKind::NewId],
        RequestKind::CompositorCreateRegion => vec![ArgKind::NewId],
        RequestKind::ShmPoolCreateBuffer => vec![
            ArgKind::NewId,
            ArgKind::Int,
            ArgKind::Int,
            ArgKind::Int,
            ArgKind::Int,
            ArgKind::Uint,
        ],
        RequestKind::ShmPoolDestroy => vec![],
        RequestKind::ShmPoolResize => vec![ArgKind::Int],
        RequestKind::ShmCreatePool => vec![ArgKind::NewId, ArgKind::Fd, ArgKind::Int],
        RequestKind::BufferDestroy => vec![],
        RequestKind::SurfaceDestroy => vec![],
        RequestKind::SurfaceAttach => vec![ArgKind::Object, ArgKind::Int, ArgKind::Int],
        RequestKind::SurfaceDamage => vec![ArgKind::Int, ArgKind::Int, ArgKind::Int, ArgKind::Int],
        RequestKind::SurfaceFrame => vec![ArgKind::NewId],
        RequestKind::SurfaceCommit => vec![],
        RequestKind::ShellGetShellSurface => vec![ArgKind::NewId, ArgKind::Object],
        RequestKind::ShellSurfacePong => vec![ArgKind::Uint],
        RequestKind::ShellSurfaceSetToplevel => vec![],
    };
    assert(r@ =~= spec_request_sig(k));
    r
}

impl Arg {
    /// The wire type of this argument.
    pub fn kind(&self) -> (r: ArgKind)
        ensures
            r == arg_kind(self@),
    {
        match self {
            Arg::Uint(_) => ArgKind::Uint,
            Arg::Int(_) => ArgKind::Int,
            Arg::Object(_) => ArgKind::Object,
            Arg::NewId(_) => ArgKind::NewId,
            Arg::Str(_) => ArgKind::Str,
            Arg::Fd(_) => ArgKind::Fd,
        }
    }

    /// Whether this argument fits in a frame on its own.
    pub fn fits(&self) -> (r: bool)
        ensures
            r == arg_fits(self@),
    {
        match self {
            Arg::Str(b) => b.len() < 0xffff,
            _ => true,
        }
    }
}

/// Whether `args` have the kinds that `sig` lists.
pub fn check_args(sig: &Vec<ArgKind>, args: &Vec<Arg>) -> (r: bool)
    ensures
        r == args_match(sig@, args_view(args@)),
{
    if sig.len() != args.len() {
        return false;
    }
    let mut i: usize = 0;
    while i < args.len()
        invariant
            i <= args@.len(),
            sig@.len() == args@.len(),
            forall|j: int| 0 <= j < i ==> arg_kind(#[trigger] args_view(args@)[j]) == sig@[j],
        decreases args@.len() - i,
    {
        if args[i].kind() != sig[i] {
            assert(arg_kind(args_view(args@)[i as int]) != sig@[i as int]);
            return false;
        }
        i = i + 1;
    }
    true
}

/// Whether every argument of `args` fits in a frame on its own.
pub fn check_fit(args: &Vec<Arg>) -> (r: bool)
    ensures
        r == args_fit(args_view(args@)),
{
    let mut i: usize = 0;
    while i < args.len()
        invariant
            i <= args@.len(),
            forall|j: int| 0 <= j < i ==> arg_fits(#[trigger] args_view(args@)[j]),
        decreases args@.len() - i,
    {
        if !args[i].fits() {
            assert(!arg_fits(args_view(args@)[i as int]));
            return false;
        }
        i = i + 1;
    }
    true
}

/// A decoded event: the object that sent it, which event it is, and its arguments.
#[derive(Clone, Debug)]
pub struct Event {
    pub sender_id: u32,
    pub kind: EventKind,
    pub args: Vec<Arg>,
}

/// An encoded request: the framed bytes and the descriptors to pass beside them.
#[derive(Clone, Debug)]
pub struct OutgoingMessage {
    pub bytes: Vec<u8>,
    pub fds: Vec<i32>,
}

/// What decoding `body` as event `opcode` of `obj` yields.
pub open spec fn decode_result(obj: ProtocolObject, opcode: u16, body: Seq<u8>, r: Result<
    Event,
    ProtocolError,
>) -> bool {
    match spec_event_kind(obj.interface, opcode) {
        None => r == Err::<Event, ProtocolError>(ProtocolError::InvalidOpcode),
        Some(k) => match parse_args(spec_event_sig(k), body) {
            None => r == Err::<Event, ProtocolError>(ProtocolError::InvalidArguments),
            Some(args) => match r {
                Ok(e) => e.sender_id == obj.id && e.kind == k && args_view(e.args@) == args,
                Err(_) => false,
            },
        },
    }
}

/// What encoding request `k` on `obj` with `args` yields.
pub open spec fn encode_result(obj: ProtocolObject, k: RequestKind, args: Seq<ArgValue>, r: Result<
    OutgoingMessage,
    ProtocolError,
>) -> bool {
    let (iface, opcode) = spec_request_target(k);
    if iface != obj.interface {
        r == Err::<OutgoingMessage, ProtocolError>(ProtocolError::InvalidOperation)
    } else if !args_match(spec_request_sig(k), args) {
        r == Err::<OutgoingMessage, ProtocolError>(ProtocolError::InvalidArguments)
    } else if !args_fit(args) || args_bytes(args).len() > 0xffff {
        r == Err::<OutgoingMessage, ProtocolError>(ProtocolError::MessageTooLarge)
    } else {
        match r {
            Ok(m) => m.bytes@ == frame_bytes(
                WireHeader {
                    sender_id: obj.id,
                    opcode,
                    body_size: args_bytes(args).len() as u16,
                },
                args_bytes(args),
            ) && m.fds@ == args_fds(args),
            Err(_) => false,
        }
    }
}

impl Interface {
    /// The protocol name of this interface.
    pub fn name(&self) -> (r: &'static str)
        ensures
            r@ == interface_name(*self),
    {
        match self {
            Interface::Display => "wl_display",
            Interface::Registry => "wl_registry",
            Interface::Callback => "wl_callback",
            Interface::Compositor => "wl_compositor",
            Interface::ShmPool => "wl_shm_pool",
            Interface::Shm => "wl_shm",
            Interface::Buffer => "wl_buffer",
            Interface::Surface => "wl_surface",
            Interface::Shell => "wl_shell",
            Interface::ShellSurface => "wl_shell_surface",
        }
    }
}

/// The protocol name of an interface.
pub open spec fn interface_name(i: Interface) -> Seq<char> {
    match i {
        Interface::Display => "wl_display"@,
        Interface::Registry => "wl_registry"@,
        Interface::Callback => "wl_callback"@,
        Interface::Compositor => "wl_compositor"@,
        Interface::ShmPool => "wl_shm_pool"@,
        Interface::Shm => "wl_shm"@,
        Interface::Buffer => "wl_buffer"@,
        Interface::Surface => "wl_surface"@,
        Interface::Shell => "wl_shell"@,
        Interface::ShellSurface => "wl_shell_surface"@,
    }
}

impl ProtocolObject {
    /// Decodes `body` as event `opcode` of this object's interface.
    pub fn decode_event(&self, opcode: u16, body: &[u8]) -> (r: Result<Event, ProtocolError>)
        ensures
            decode_result(*self, opcode, body@, r),
    {
        match event_kind(self.interface, opcode) {
            None => Err(ProtocolError::InvalidOpcode),
            Some(k) => {
                let sig = event_sig(k);
                match decode_args(&sig, body) {
                    None => Err(ProtocolError::InvalidArguments),
                    Some(args) => Ok(Event { sender_id: self.id, kind: k, args }),
                }
            },
        }
    }

    /// Encodes request `k` with `args` as a message from this object.
    pub fn encode_request(&self, k: RequestKind, args: &Vec<Arg>) -> (r: Result<
        OutgoingMessage,
        ProtocolError,
    >)
        ensures
            encode_result(*self, k, args_view(args@), r),
    {
        let (iface, opcode) = request_target(k);
        if iface != self.interface {
            return Err(ProtocolError::InvalidOperation);
        }
        let sig = request_sig(k);
        if !check_args(&sig, args) {
            return Err(ProtocolError::InvalidArguments);
        }
        if !check_fit(args) {
            return Err(ProtocolError::MessageTooLarge);
        }
        let (body, fds) = encode_args(args);
        match encode_frame(self.id, opcode, &body) {
            Ok(bytes) => Ok(OutgoingMessage { bytes, fds }),
            Err(_) => Err(ProtocolError::MessageTooLarge),
        }
    }
}

} // verus!
