//! Framing: every message is a fixed header and a payload whose length the header gives.
use vstd::prelude::*;
use crate::le::Le;
use crate::wire::msg;

verus! {

/// 'L'
pub const MAGIC0: u8 = 0x4C;

/// 'Y'
pub const MAGIC1: u8 = 0x59;

pub const VERSION_MAJOR: u8 = 1;

/// 1.1: per-lens modes and zoom range in CAPS, CONTROL pan, pan in CONTROL_STATE.
pub const VERSION_MINOR: u8 = 1;

pub const HEADER_SIZE: usize = 12;

pub const MAX_VIDEO_PAYLOAD: u32 = 4194304;

pub const MAX_CONTROL_PAYLOAD: u32 = 65536;

#[derive(Clone, Copy, Debug, PartialEq, Eq, Structural)]
pub struct Header {
    pub ver_major: u8,
    pub ver_minor: u8,
    pub typ: u16,
    pub flags: u16,
    pub length: u32,
}

impl Default for Header {
    fn default() -> (h: Self)
        ensures
            h == (Header {
                ver_major: VERSION_MAJOR,
                ver_minor: VERSION_MINOR,
                typ: 0,
                flags: 0,
                length: 0,
            }),
    {
        Header { ver_major: VERSION_MAJOR, ver_minor: VERSION_MINOR, typ: 0, flags: 0, length: 0 }
    }
}

/// A header on the wire.
pub open spec fn header_bytes(h: Header) -> Seq<u8> {
    seq![MAGIC0, MAGIC1, h.ver_major, h.ver_minor] + h.typ.bytes() + h.flags.bytes()
        + h.length.bytes()
}

pub proof fn lemma_header_len(h: Header)
    ensures
        header_bytes(h).len() == HEADER_SIZE,
{
    h.typ.lemma_bytes_then_of();
    h.flags.lemma_bytes_then_of();
    h.length.lemma_bytes_then_of();
}

/// Writes a header over the first bytes of `out`.
pub fn put_header(out: &mut [u8], h: &Header)
    requires
        old(out)@.len() >= HEADER_SIZE,
    ensures
        final(out)@ == header_bytes(*h) + old(out)@.skip(HEADER_SIZE as int),
{
    let mut b: Vec<u8> = Vec::new();
    b.push(MAGIC0);
    b.push(MAGIC1);
    b.push(h.ver_major);
    b.push(h.ver_minor);
    h.typ.put(&mut b);
    h.flags.put(&mut b);
    h.length.put(&mut b);
    proof {
        lemma_header_len(*h);
        assert(b@ =~= header_bytes(*h));
    }
    let mut i: usize = 0;
    while i < HEADER_SIZE
        invariant
            b@.len() == HEADER_SIZE,
            out@.len() >= HEADER_SIZE,
            i <= HEADER_SIZE,
            out@ == b@.take(i as int) + old(out)@.skip(i as int),
            out@.len() == old(out)@.len(),
        decreases HEADER_SIZE - i,
    {
        out[i] = b[i];
        i = i + 1;
        assert(out@ =~= b@.take(i as int) + old(out)@.skip(i as int));
    }
    assert(b@.take(HEADER_SIZE as int) =~= b@);
}

/// The largest payload of a message of this type.
#[verifier::allow_in_spec]
pub fn max_payload(typ: u16) -> u32
    returns
        (if typ == msg::VIDEO_FRAME {
            MAX_VIDEO_PAYLOAD
        } else {
            MAX_CONTROL_PAYLOAD
        }),
{
    if typ == msg::VIDEO_FRAME {
        MAX_VIDEO_PAYLOAD
    } else {
        MAX_CONTROL_PAYLOAD
    }
}

/// What the bytes at the front of a stream hold.
#[verifier::ext_equal]
pub enum Front {
    Message(Header, Seq<u8>),
    NeedMore,
    BadMagic,
    TooLarge,
}

/// The header that the first bytes of a stream spell.
pub open spec fn header_of(p: Seq<u8>) -> Header {
    Header {
        ver_major: p[2],
        ver_minor: p[3],
        typ: u16::of_bytes(p.subrange(4, 6)),
        flags: u16::of_bytes(p.subrange(6, 8)),
        length: u32::of_bytes(p.subrange(8, 12)),
    }
}

/// What a stream with these bytes pending yields next.
pub open spec fn front(p: Seq<u8>) -> Front {
    if p.len() < HEADER_SIZE {
        Front::NeedMore
    } else if p[0] != MAGIC0 || p[1] != MAGIC1 {
        Front::BadMagic
    } else {
        let h = header_of(p);
        if h.length > max_payload(h.typ) {
            Front::TooLarge
        } else if p.len() < HEADER_SIZE + h.length {
            Front::NeedMore
        } else {
            Front::Message(h, p.subrange(HEADER_SIZE as int, HEADER_SIZE + h.length))
        }
    }
}

/// The bytes that stay pending after that.
pub open spec fn after_front(p: Seq<u8>) -> Seq<u8> {
    match front(p) {
        Front::Message(h, _) => p.skip(HEADER_SIZE + h.length),
        _ => p,
    }
}

/// What `MessageReader::next` found.
pub enum Status<'a> {
    Message(Header, &'a [u8]),
    NeedMore,
    BadMagic,
    TooLarge,
}

impl<'a> View for Status<'a> {
    type V = Front;

    open spec fn view(&self) -> Front {
        match self {
            Status::Message(h, p) => Front::Message(*h, p@),
            Status::NeedMore => Front::NeedMore,
            Status::BadMagic => Front::BadMagic,
            Status::TooLarge => Front::TooLarge,
        }
    }
}

/// Incremental reassembly of messages from a byte stream. Unknown types come out like any other
/// message; the caller ignores them.
pub struct MessageReader {
    buf: Vec<u8>,
    pos: usize,
}

impl View for MessageReader {
    type V = Seq<u8>;

    /// The bytes that were fed and not yet handed out.
    closed spec fn view(&self) -> Seq<u8> {
        self.buf@.skip(self.pos as int)
    }
}

impl Default for MessageReader {
    fn default() -> (r: Self)
        ensures
            r@ == Seq::<u8>::empty(),
    {
        MessageReader { buf: Vec::new(), pos: 0 }
    }
}

impl MessageReader {
    #[verifier::type_invariant]
    spec fn wf(self) -> bool {
        self.pos <= self.buf@.len()
    }

    pub fn feed(&mut self, data: &[u8])
        ensures
            final(self)@ == old(self)@ + data@,
    {
        proof {
            use_type_invariant(&*self);
        }
        let mut buf: Vec<u8> = Vec::new();
        let pending = &self.buf[self.pos..self.buf.len()];
        assert(pending@ =~= self@);
        buf.extend_from_slice(pending);
        buf.extend_from_slice(data);
        *self = MessageReader { buf, pos: 0 };
        assert(self@ =~= old(self)@ + data@);
    }

    pub fn next(&mut self) -> (r: Status<'_>)
        ensures
            r@ == front(old(self)@),
            final(self)@ == after_front(old(self)@),
    {
        proof {
            use_type_invariant(&*self);
        }
        let ghost old_view = self@;
        let start: usize = self.pos;
        if self.buf.len() - start < HEADER_SIZE {
            return Status::NeedMore;
        }
        if self.buf[start] != MAGIC0 || self.buf[start + 1] != MAGIC1 {
            return Status::BadMagic;
        }
        let pending = &self.buf[start..self.buf.len()];
        assert(pending@ =~= old_view);
        let h = read_header(pending);
        if h.length > max_payload(h.typ) {
            return Status::TooLarge;
        }
        let end: usize = HEADER_SIZE + h.length as usize;
        if self.buf.len() - start < end {
            return Status::NeedMore;
        }
        self.pos = start + end;
        assert(self@ =~= old_view.skip(end as int));
        let payload = &self.buf[start + HEADER_SIZE..start + end];
        assert(payload@ =~= old_view.subrange(HEADER_SIZE as int, end as int));
        Status::Message(h, payload)
    }
}

/// The header in the first bytes of `p`.
fn read_header(p: &[u8]) -> (h: Header)
    requires
        p@.len() >= HEADER_SIZE,
    ensures
        h == header_of(p@),
{
    let typ: u16 = match <u16 as Le>::get(&p[4..6]) {
        Some(x) => x,
        None => 0,
    };
    let flags: u16 = match <u16 as Le>::get(&p[6..8]) {
        Some(x) => x,
        None => 0,
    };
    let length: u32 = match <u32 as Le>::get(&p[8..12]) {
        Some(x) => x,
        None => 0,
    };
    Header { ver_major: p[2], ver_minor: p[3], typ, flags, length }
}

// ---- Laws --------------------------------------------------------------------------------------

/// A message as it comes out of a stream.
#[verifier::ext_equal]
pub struct Framed {
    pub header: Header,
    pub payload: Seq<u8>,
}

/// All messages that a stream with these bytes pending yields, and the bytes that then stay.
pub open spec fn drain(p: Seq<u8>) -> (Seq<Framed>, Seq<u8>)
    decreases p.len(),
{
    match front(p) {
        Front::Message(header, payload) => {
            let (more, rest) = drain(p.skip(HEADER_SIZE + header.length));
            (seq![Framed { header, payload }] + more, rest)
        },
        _ => (Seq::empty(), p),
    }
}

/// A message that was written is what the reader yields first, and only its bytes are used up.
pub proof fn law_message_reads_back(h: Header, payload: Seq<u8>, rest: Seq<u8>)
    requires
        h.length == payload.len(),
        h.length <= max_payload(h.typ),
    ensures
        front(header_bytes(h) + payload + rest) == Front::Message(h, payload),
        after_front(header_bytes(h) + payload + rest) == rest,
{
    let p = header_bytes(h) + payload + rest;
    lemma_header_len(h);
    h.typ.lemma_bytes_then_of();
    h.flags.lemma_bytes_then_of();
    h.length.lemma_bytes_then_of();
    assert(p.subrange(4, 6) =~= h.typ.bytes());
    assert(p.subrange(6, 8) =~= h.flags.bytes());
    assert(p.subrange(8, 12) =~= h.length.bytes());
    assert(p.subrange(HEADER_SIZE as int, HEADER_SIZE + h.length) =~= payload);
    assert(p.skip(HEADER_SIZE + h.length) =~= rest);
}

/// More bytes never change what was already complete: a message, a bad magic or an oversized
/// payload stays what it is when more data follows.
pub proof fn law_more_bytes_keep_the_front(p: Seq<u8>, more: Seq<u8>)
    requires
        front(p) != Front::NeedMore,
    ensures
        front(p + more) == front(p),
        front(p) is Message ==> after_front(p + more) == after_front(p) + more,
{
    let q = p + more;
    assert(q.subrange(4, 6) =~= p.subrange(4, 6));
    assert(q.subrange(6, 8) =~= p.subrange(6, 8));
    assert(q.subrange(8, 12) =~= p.subrange(8, 12));
    match front(p) {
        Front::Message(h, payload) => {
            let end = HEADER_SIZE + h.length;
            assert(q.subrange(HEADER_SIZE as int, end) =~= payload);
            assert(q.skip(end) =~= p.skip(end) + more);
        },
        _ => {},
    }
}

/// The messages of a stream do not depend on how its bytes were cut into chunks: reading what is
/// there and feeding the rest later gives the same messages as feeding everything at once.
pub proof fn law_chunks_do_not_matter(p: Seq<u8>, more: Seq<u8>)
    ensures
        ({
            let (first, left) = drain(p);
            let (second, rest) = drain(left + more);
            drain(p + more) == (first + second, rest)
        }),
    decreases p.len(),
{
    let (first, left) = drain(p);
    let (second, rest) = drain(left + more);
    match front(p) {
        Front::Message(header, payload) => {
            let end = HEADER_SIZE + header.length;
            law_more_bytes_keep_the_front(p, more);
            law_chunks_do_not_matter(p.skip(end), more);
            let (tail, _) = drain(p.skip(end));
            let one = seq![Framed { header, payload }];
            assert((p + more).skip(end) =~= p.skip(end) + more);
            assert(one + (tail + second) =~= (one + tail) + second);
        },
        _ => {
            assert(first + second =~= second);
        },
    }
}

/// Chunks, one after the other.
pub open spec fn joined(chunks: Seq<Seq<u8>>) -> Seq<u8>
    decreases chunks.len(),
{
    if chunks.len() == 0 {
        Seq::empty()
    } else {
        joined(chunks.drop_last()) + chunks.last()
    }
}

/// The messages of a reader that is fed chunk by chunk, and drained after each, and the bytes that then stay.
pub open spec fn drain_chunks(chunks: Seq<Seq<u8>>) -> (Seq<Framed>, Seq<u8>)
    decreases chunks.len(),
{
    if chunks.len() == 0 {
        (Seq::empty(), Seq::empty())
    } else {
        let (first, left) = drain_chunks(chunks.drop_last());
        let (second, rest) = drain(left + chunks.last());
        (first + second, rest)
    }
}

proof fn lemma_drained(p: Seq<u8>)
    ensures
        !(front(drain(p).1) is Message),
    decreases p.len(),
{
    if let Front::Message(header, _) = front(p) {
        lemma_drained(p.skip(HEADER_SIZE + header.length));
    }
}

/// However the bytes of a stream are cut into chunks, byte by byte or all at once: the messages are the same, and so
/// are the bytes that stay and what the reader says of them in the end.
pub proof fn law_any_chunks_give_the_same_messages(chunks: Seq<Seq<u8>>)
    ensures
        drain_chunks(chunks) == drain(joined(chunks)),
        !(front(drain_chunks(chunks).1) is Message),
    decreases chunks.len(),
{
    if chunks.len() > 0 {
        let all = joined(chunks.drop_last());
        law_any_chunks_give_the_same_messages(chunks.drop_last());
        law_chunks_do_not_matter(all, chunks.last());
    }
    lemma_drained(joined(chunks));
}

} // verus!
