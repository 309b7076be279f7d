use vstd::prelude::*;

verus! {

/// Size in bytes of a message header on the wire.
pub const HEADER_SIZE: usize = 8;

/// The header that precedes every message body on the wire.
#[derive(Clone, Copy, Debug, PartialEq, Eq, Structural)]
pub struct WireHeader {
    pub sender_id: u32,
    pub opcode: u16,
    pub body_size: u16,
}

/// One deframed message: its header and exactly `header.body_size` body bytes.
#[derive(Clone, Debug)]
pub struct Message {
    pub header: WireHeader,
    pub body: Vec<u8>,
}

impl View for Message {
    type V = (WireHeader, Seq<u8>);

    open spec fn view(&self) -> (WireHeader, Seq<u8>) {
        (self.header, self.body@)
    }
}

/// Why a read could not be split into whole messages.
#[derive(Clone, Copy, Debug, PartialEq, Eq, Structural)]
pub enum FramingError {
    /// Fewer than eight bytes remain where a header should start.
    TruncatedHeader,
    /// A header declares more body bytes than remain in the read.
    TruncatedBody,
    /// A body is longer than the sixteen-bit size field can declare.
    BodyTooLarge,
}

/// The little-endian 32-bit word stored at `s[i..i + 4]`.
pub open spec fn le_u32(s: Seq<u8>, i: int) -> u32 {
    (s[i] as u32) | ((s[i + 1] as u32) << 8u32) | ((s[i + 2] as u32) << 16u32) | ((s[i + 3] as u32)
        << 24u32)
}

/// The four little-endian bytes of `x`.
pub open spec fn le_bytes(x: u32) -> Seq<u8> {
    seq![
        (x & 0xffu32) as u8,
        ((x >> 8u32) & 0xffu32) as u8,
        ((x >> 16u32) & 0xffu32) as u8,
        (x >> 24u32) as u8,
    ]
}

/// The second header word: opcode in the low half, body size in the high half.
pub open spec fn packed_word(h: WireHeader) -> u32 {
    (h.opcode as u32) | ((h.body_size as u32) << 16u32)
}

/// The eight bytes that encode `h`.
pub open spec fn header_bytes(h: WireHeader) -> Seq<u8> {
    le_bytes(h.sender_id) + le_bytes(packed_word(h))
}

/// The header read from the eight bytes at `s[i..i + 8]`.
pub open spec fn header_at(s: Seq<u8>, i: int) -> WireHeader {
    let w = le_u32(s, i + 4);
    WireHeader {
        sender_id: le_u32(s, i),
        opcode: (w & 0xffffu32) as u16,
        body_size: (w >> 16u32) as u16,
    }
}

/// The bytes of one framed message.
pub open spec fn frame_bytes(h: WireHeader, body: Seq<u8>) -> Seq<u8> {
    header_bytes(h) + body
}

/// The bytes of several framed messages sent back to back.
pub open spec fn frames_bytes(msgs: Seq<(WireHeader, Seq<u8>)>) -> Seq<u8>
    decreases msgs.len(),
{
    if msgs.len() == 0 {
        Seq::empty()
    } else {
        frame_bytes(msgs[0].0, msgs[0].1) + frames_bytes(msgs.drop_first())
    }
}

/// Every body holds exactly the number of bytes its header declares.
pub open spec fn well_sized(msgs: Seq<(WireHeader, Seq<u8>)>) -> bool {
    forall|i: int| 0 <= i < msgs.len() ==> (#[trigger] msgs[i]).1.len() == msgs[i].0.body_size
}

/// The messages that `s` holds, read header by header from its start, or
/// `None` when a header or a body runs past the end of `s`.
pub open spec fn parse_frames(s: Seq<u8>) -> Option<Seq<(WireHeader, Seq<u8>)>>
    decreases s.len(),
{
    if s.len() == 0 {
        Some(Seq::empty())
    } else if s.len() < 8 {
        None
    } else {
        let h = header_at(s, 0);
        let end = 8 + h.body_size;
        if end > s.len() {
            None
        } else {
            match parse_frames(s.subrange(end, s.len() as int)) {
                Some(rest) => Some(seq![(h, s.subrange(8, end))] + rest),
                None => None,
            }
        }
    }
}

/// The error reported for `s` when `parse_frames(s)` is `None`.
pub open spec fn framing_error(s: Seq<u8>) -> FramingError
    decreases s.len(),
{
    if s.len() < 8 {
        FramingError::TruncatedHeader
    } else {
        let end = 8 + header_at(s, 0).body_size;
        if end > s.len() {
            FramingError::TruncatedBody
        } else {
            framing_error(s.subrange(end, s.len() as int))
        }
    }
}

/// Reading back the four bytes of a word gives the word.
pub proof fn lemma_le_round_trip(x: u32)
    ensures
        le_u32(le_bytes(x), 0) == x,
{
    let b = le_bytes(x);
    assert(((((x & 0xffu32) as u8) as u32) | (((((x >> 8u32) & 0xffu32) as u8) as u32) << 8u32)
        | (((((x >> 16u32) & 0xffu32) as u8) as u32) << 16u32) | ((((x >> 24u32) as u8) as u32)
        << 24u32)) == x) by (bit_vector);
}

/// Reading back an encoded header, whatever follows it, gives the header.
pub proof fn lemma_header_round_trip(h: WireHeader, rest: Seq<u8>)
    ensures
        header_at(header_bytes(h) + rest, 0) == h,
{
    let s = header_bytes(h) + rest;
    lemma_le_round_trip(h.sender_id);
    lemma_le_round_trip(packed_word(h));
    assert(s.subrange(0, 4) =~= le_bytes(h.sender_id));
    assert(s.subrange(4, 8) =~= le_bytes(packed_word(h)));
    assert(le_u32(s, 0) == le_u32(le_bytes(h.sender_id), 0));
    assert(le_u32(s, 4) == le_u32(le_bytes(packed_word(h)), 0));
    let op = h.opcode;
    let sz = h.body_size;
    assert((((op as u32) | ((sz as u32) << 16u32)) & 0xffffu32) as u16 == op) by (bit_vector);
    assert((((op as u32) | ((sz as u32) << 16u32)) >> 16u32) as u16 == sz) by (bit_vector);
}

/// Back-to-back frames whose bodies match their declared sizes are read
/// back as exactly those messages, in the order they were written.
pub proof fn lemma_frames_round_trip(msgs: Seq<(WireHeader, Seq<u8>)>)
    requires
        well_sized(msgs),
    ensures
        parse_frames(frames_bytes(msgs)) == Some(msgs),
    decreases msgs.len(),
{
    if msgs.len() > 0 {
        let h = msgs[0].0;
        let body = msgs[0].1;
        let tail = msgs.drop_first();
        assert(well_sized(tail)) by {
            assert forall|i: int| 0 <= i < tail.len() implies (#[trigger] tail[i]).1.len()
                == tail[i].0.body_size by {
                assert(tail[i] == msgs[i + 1]);
            }
        }
        lemma_frames_round_trip(tail);
        let s = frames_bytes(msgs);
        assert(s == header_bytes(h) + (body + frames_bytes(tail)));
        lemma_header_round_trip(h, body + frames_bytes(tail));
        let end = 8 + h.body_size;
        assert(body.len() == h.body_size);
        assert(s.subrange(end, s.len() as int) =~= frames_bytes(tail));
        assert(s.subrange(8, end) =~= body);
        assert(seq![(h, body)] + tail =~= msgs);
    } else {
        assert(frames_bytes(msgs) =~= Seq::<u8>::empty());
    }
}

/// Reads the little-endian 32-bit word at `buf[at..at + 4]`.
pub fn read_u32(buf: &[u8], at: usize) -> (r: u32)
    requires
        at + 4 <= buf@.len(),
    ensures
        r == le_u32(buf@, at as int),
{
    (buf[at] as u32) | ((buf[at + 1] as u32) << 8u32) | ((buf[at + 2] as u32) << 16u32) | ((buf[at
        + 3] as u32) << 24u32)
}

/// Appends the four little-endian bytes of `x`.
pub fn push_u32(out: &mut Vec<u8>, x: u32)
    ensures
        final(out)@ == old(out)@ + le_bytes(x),
{
    out.push((x & 0xffu32) as u8);
    out.push(((x >> 8u32) & 0xffu32) as u8);
    out.push(((x >> 16u32) & 0xffu32) as u8);
    out.push((x >> 24u32) as u8);
    assert(final(out)@ =~= old(out)@ + le_bytes(x));
}

/// Reads the header stored at `buf[at..at + 8]`.
pub fn decode_header(buf: &[u8], at: usize) -> (r: WireHeader)
    requires
        at + 8 <= buf@.len(),
    ensures
        r == header_at(buf@, at as int),
{
    let n: usize = buf.len();
    assert(at + 4 <= n);
    let w = read_u32(buf, at + 4);
    assert(w & 0xffffu32 <= 0xffffu32) by (bit_vector);
    assert(w >> 16u32 <= 0xffffu32) by (bit_vector);
    WireHeader {
        sender_id: read_u32(buf, at),
        opcode: (w & 0xffffu32) as u16,
        body_size: (w >> 16u32) as u16,
    }
}

/// Appends the eight bytes that encode `h`.
pub fn encode_header(out: &mut Vec<u8>, h: WireHeader)
    ensures
        final(out)@ == old(out)@ + header_bytes(h),
{
    push_u32(out, h.sender_id);
    push_u32(out, (h.opcode as u32) | ((h.body_size as u32) << 16u32));
    assert(final(out)@ =~= old(out)@ + header_bytes(h));
}

/// Frames `body` as one message from `sender_id` with `opcode`; fails when the
/// body is too long for the sixteen-bit size field.
pub fn encode_frame(sender_id: u32, opcode: u16, body: &[u8]) -> (r: Result<Vec<u8>, FramingError>)
    ensures
        body@.len() <= 0xffff ==> r == Ok::<Vec<u8>, FramingError>(r->Ok_0) && r->Ok_0@ == frame_bytes(
            WireHeader { sender_id, opcode, body_size: body@.len() as u16 },
            body@,
        ),
        body@.len() > 0xffff ==> r == Err::<Vec<u8>, FramingError>(FramingError::BodyTooLarge),
{
    if body.len() > 0xffff {
        return Err(FramingError::BodyTooLarge);
    }
    let h = WireHeader { sender_id, opcode, body_size: body.len() as u16 };
    let mut out: Vec<u8> = Vec::new();
    encode_header(&mut out, h);
    let mut i: usize = 0;
    while i < body.len()
        invariant
            i <= body@.len(),
            out@ == header_bytes(h) + body@.take(i as int),
        decreases body@.len() - i,
    {
        out.push(body[i]);
        i = i + 1;
        assert(out@ =~= header_bytes(h) + body@.take(i as int));
    }
    assert(body@.take(i as int) =~= body@);
    Ok(out)
}

/// Copies `buf[from..to]`.
pub fn copy_range(buf: &[u8], from: usize, to: usize) -> (r: Vec<u8>)
    requires
        from <= to <= buf@.len(),
    ensures
        r@ == buf@.subrange(from as int, to as int),
{
    let mut out: Vec<u8> = Vec::new();
    let mut i: usize = from;
    while i < to
        invariant
            from <= i <= to,
            to <= buf@.len(),
            out@ == buf@.subrange(from as int, i as int),
        decreases to - i,
    {
        out.push(buf[i]);
        i = i + 1;
        assert(out@ =~= buf@.subrange(from as int, i as int));
    }
    out
}

/// The mathematical values of a list of messages.
pub open spec fn messages_view(v: Seq<Message>) -> Seq<(WireHeader, Seq<u8>)> {
    v.map_values(|m: Message| m@)
}

/// Splits the first `len` bytes of `buf` into the messages they hold,
/// header by header; a header or body that runs past `len` is an error.
pub fn split_frames(buf: &[u8], len: usize) -> (r: Result<Vec<Message>, FramingError>)
    requires
        len <= buf@.len(),
    ensures
        match r {
            Ok(v) => parse_frames(buf@.take(len as int)) == Some(messages_view(v@)),
            Err(e) => parse_frames(buf@.take(len as int)) is None && e == framing_error(
                buf@.take(len as int),
            ),
        },
{
    let ghost s = buf@.take(len as int);
    let mut out: Vec<Message> = Vec::new();
    let mut pos: usize = 0;
    assert(s.subrange(0, len as int) =~= s);
    proof {
        match parse_frames(s) {
            Some(rest) => {
                assert(messages_view(out@) + rest =~= rest);
            },
            None => {},
        }
    }
    while pos < len
        invariant
            pos <= len <= buf@.len(),
            s == buf@.take(len as int),
            parse_frames(s) == match parse_frames(s.subrange(pos as int, len as int)) {
                Some(rest) => Some(messages_view(out@) + rest),
                None => None::<Seq<(WireHeader, Seq<u8>)>>,
            },
            framing_error(s) == framing_error(s.subrange(pos as int, len as int)),
        decreases len - pos,
    {
        let ghost t = s.subrange(pos as int, len as int);
        if len - pos < HEADER_SIZE {
            return Err(FramingError::TruncatedHeader);
        }
        let header = decode_header(buf, pos);
        assert(header == header_at(t, 0)) by {
            assert(t.subrange(0, 8) =~= buf@.subrange(pos as int, pos + 8));
        }
        let size = header.body_size as usize;
        if len - pos - HEADER_SIZE < size {
            return Err(FramingError::TruncatedBody);
        }
        let start = pos + HEADER_SIZE;
        let end = start + size;
        let body = copy_range(buf, start, end);
        assert(body@ =~= t.subrange(8, 8 + size));
        assert(t.subrange(8 + size, t.len() as int) =~= s.subrange(end as int, len as int));
        let ghost before = messages_view(out@);
        out.push(Message { header, body });
        assert(messages_view(out@) =~= before.push((header, body@)));
        proof {
            match parse_frames(s.subrange(end as int, len as int)) {
                Some(rest) => {
                    assert(before + (seq![(header, body@)] + rest) =~= before.push((header, body@))
                        + rest);
                },
                None => {},
            }
        }
        pos = end;
    }
    assert(s.subrange(pos as int, len as int) =~= Seq::<u8>::empty());
    assert(messages_view(out@) + Seq::<(WireHeader, Seq<u8>)>::empty() =~= messages_view(out@));
    Ok(out)
}

} // verus!
