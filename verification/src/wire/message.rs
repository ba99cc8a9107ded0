//! What a message is: a type id, and fields that stand for its contents.
use vstd::prelude::*;
use crate::wire::frame::{
    Front, Header, HEADER_SIZE, VERSION_MAJOR, after_front, front, header_bytes, law_message_reads_back,
    lemma_header_len, max_payload, put_header,
};
use crate::wire::tlv::{Field, TlvWriter, all_fit, law_written_fields_read_back, tlv_bytes, tlv_fields};

verus! {

pub type DeviceId = [u8; 16];

pub type PairToken = [u8; 16];

/// Strings are kept as raw bytes, exactly as received.
pub type Str = Vec<u8>;

/// A message with a TLV payload.
pub trait Message: Sized + View {
    const TYPE: u16;

    /// `TYPE`, as specifications see it.
    spec fn type_id() -> u16;

    fn message_type() -> (r: u16)
        ensures
            r == Self::type_id(),
    ;

    /// The fields that a message is written as. Fields newer than the negotiated protocol
    /// `minor` are left out.
    spec fn fields(m: Self::V, minor: u8) -> Seq<Field>;

    /// The message that fields stand for, or `None` if a required one is missing or one is
    /// malformed. Unknown tags do not count.
    spec fn from_fields(fs: Seq<Field>) -> Option<Self::V>;

    /// Whether fields with this tag say anything.
    spec fn knows(tag: u16) -> bool;

    /// A field with an unknown tag, wherever it stands, does not change what a message says.
    proof fn law_unknown_fields_are_skipped(a: Seq<Field>, f: Field, b: Seq<Field>)
        requires
            !Self::knows(f.tag),
        ensures
            Self::from_fields(a.push(f) + b) == Self::from_fields(a + b),
    ;

    fn encode(&self, w: &mut TlvWriter<'_>, minor: u8)
        ensures
            final(w).0@ == old(w).0@ + tlv_bytes(Self::fields(self@, minor)),
            *final(final(w).0) == *final(old(w).0),
    ;

    /// `None`: malformed or missing a required field; the message must be ignored.
    fn decode(v: &[u8]) -> (r: Option<Self>)
        ensures
            match (tlv_fields(v@), r) {
                (Some(fs), Some(m)) => Self::from_fields(fs) == Some(m@),
                (Some(fs), None) => Self::from_fields(fs) is None,
                (None, _) => r is None,
            },
    ;
}

/// The message that a payload stands for.
pub open spec fn decoded<M: Message>(v: Seq<u8>) -> Option<M::V> {
    match tlv_fields(v) {
        None => None,
        Some(fs) => M::from_fields(fs),
    }
}

/// A whole message: header and TLV payload.
pub open spec fn message_bytes<M: Message>(m: M::V, minor: u8) -> Seq<u8> {
    let payload = tlv_bytes(M::fields(m, minor));
    header_bytes(message_header(M::type_id(), minor, payload.len())) + payload
}

/// The header of a message with this type and payload. The length of a payload of 4 GiB or more
/// wraps; no message has one.
pub open spec fn message_header(typ: u16, minor: u8, len: nat) -> Header {
    Header {
        ver_major: VERSION_MAJOR,
        ver_minor: minor,
        typ,
        flags: 0,
        length: (len % 0x1_0000_0000) as u32,
    }
}

/// Full message (header + TLV payload).
pub fn to_message<M: Message>(m: &M, minor: u8) -> (r: Vec<u8>)
    ensures
        r@ == message_bytes::<M>(m@, minor),
{
    let mut out: Vec<u8> = vec![0; HEADER_SIZE];
    let ghost zeros = out@;
    let ghost payload = tlv_bytes(M::fields(m@, minor));
    {
        let mut w = TlvWriter(&mut out);
        m.encode(&mut w, minor);
    }
    assert(out@ == zeros + payload);
    let len: usize = out.len() - HEADER_SIZE;
    let h = Header {
        ver_major: VERSION_MAJOR,
        ver_minor: minor,
        typ: M::message_type(),
        flags: 0,
        length: (len as u64 % 0x1_0000_0000) as u32,
    };
    put_header(out.as_mut_slice(), &h);
    proof {
        lemma_header_len(h);
        assert(out@ =~= header_bytes(h) + payload);
    }
    out
}

/// A message whose fields fit is read back from a stream as it was written: the reader finds it whole, whatever
/// follows, and its payload holds the same fields.
pub proof fn law_a_message_reads_back<M: Message>(m: M::V, minor: u8, rest: Seq<u8>)
    requires
        all_fit(M::fields(m, minor)),
        tlv_bytes(M::fields(m, minor)).len() <= max_payload(M::type_id()),
    ensures
        ({
            let payload = tlv_bytes(M::fields(m, minor));
            let bytes = message_bytes::<M>(m, minor) + rest;
            &&& front(bytes) == Front::Message(message_header(M::type_id(), minor, payload.len()), payload)
            &&& after_front(bytes) == rest
            &&& decoded::<M>(payload) == M::from_fields(M::fields(m, minor))
        }),
{
    let payload = tlv_bytes(M::fields(m, minor));
    law_written_fields_read_back(M::fields(m, minor));
    law_message_reads_back(message_header(M::type_id(), minor, payload.len()), payload, rest);
}

} // verus!
