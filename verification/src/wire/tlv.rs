//! Tag, length, value: the fields that message payloads are made of.
use vstd::prelude::*;
use crate::le::Le;

verus! {

/// One field: a tag and the bytes of its value.
#[verifier::ext_equal]
pub struct Field {
    pub tag: u16,
    pub val: Seq<u8>,
}

/// The largest value that a length of two bytes can announce.
pub const MAX_FIELD: usize = 0xFFFF;

/// A length as its two bytes on the wire spell it. Lengths above `MAX_FIELD` wrap.
pub open spec fn wire_len(n: nat) -> u16 {
    (n % 0x1_0000) as u16
}

/// A field on the wire: tag, length, value.
pub open spec fn field_bytes(f: Field) -> Seq<u8> {
    f.tag.bytes() + wire_len(f.val.len()).bytes() + f.val
}

/// Fields on the wire, one after the other.
pub open spec fn tlv_bytes(fs: Seq<Field>) -> Seq<u8>
    decreases fs.len(),
{
    if fs.len() == 0 {
        Seq::empty()
    } else {
        tlv_bytes(fs.drop_last()) + field_bytes(fs.last())
    }
}

/// The fields that a payload is made of, or `None` if the last one is cut short.
pub open spec fn tlv_fields(v: Seq<u8>) -> Option<Seq<Field>>
    decreases v.len(),
{
    if v.len() == 0 {
        Some(Seq::empty())
    } else {
        match first_field(v) {
            None => None,
            Some(f) => match tlv_fields(v.skip(4 + f.val.len() as int)) {
                None => None,
                Some(rest) => Some(seq![f] + rest),
            },
        }
    }
}

/// The field that a payload starts with, or `None` if the bytes do not reach to its end.
pub open spec fn first_field(v: Seq<u8>) -> Option<Field> {
    if v.len() < 4 {
        None
    } else {
        let len = u16::of_bytes(v.subrange(2, 4)) as int;
        if v.len() - 4 < len {
            None
        } else {
            Some(Field { tag: u16::of_bytes(v.subrange(0, 2)), val: v.subrange(4, 4 + len) })
        }
    }
}

/// Every value is short enough for its length to be written as it is.
pub open spec fn all_fit(fs: Seq<Field>) -> bool {
    forall|i: int| 0 <= i < fs.len() ==> #[trigger] fs[i].val.len() <= MAX_FIELD
}

pub broadcast proof fn lemma_tlv_bytes_push(fs: Seq<Field>, f: Field)
    ensures
        #[trigger] tlv_bytes(fs.push(f)) == tlv_bytes(fs) + field_bytes(f),
{
    assert(fs.push(f).drop_last() =~= fs);
}

pub broadcast proof fn lemma_all_fit_push(fs: Seq<Field>, f: Field)
    ensures
        #[trigger] all_fit(fs.push(f)) == (all_fit(fs) && f.val.len() <= MAX_FIELD),
{
    let g = fs.push(f);
    if all_fit(g) {
        assert forall|i: int| 0 <= i < fs.len() implies #[trigger] fs[i].val.len() <= MAX_FIELD by {
            assert(g[i] == fs[i]);
        }
        assert(g[fs.len() as int].val.len() <= MAX_FIELD);
    }
}

/// A buffer that ends in fields, with one more field written to it.
pub broadcast proof fn lemma_append(base: Seq<u8>, fs: Seq<Field>, f: Field)
    ensures
        #[trigger] (base + tlv_bytes(fs) + field_bytes(f)) == base + tlv_bytes(fs.push(f)),
{
    lemma_tlv_bytes_push(fs, f);
    assert(base + tlv_bytes(fs) + field_bytes(f) =~= base + tlv_bytes(fs.push(f)));
}

/// A field whose value is an integer.
#[verifier::inline]
pub open spec fn num<T: Le>(tag: u16, v: T) -> Field {
    Field { tag, val: v.bytes() }
}

/// A field whose value is given.
#[verifier::inline]
pub open spec fn blob(tag: u16, val: Seq<u8>) -> Field {
    Field { tag, val }
}

/// `fs`, with `f` behind it where `present` holds.
pub open spec fn push_if(fs: Seq<Field>, present: bool, f: Field) -> Seq<Field> {
    if present {
        fs.push(f)
    } else {
        fs
    }
}

pub proof fn lemma_tlv_bytes_empty()
    ensures
        tlv_bytes(Seq::<Field>::empty()) == Seq::<u8>::empty(),
{
}

/// What follows a written field does not change how the field reads back.
pub proof fn lemma_first_field(f: Field, rest: Seq<u8>)
    requires
        f.val.len() <= MAX_FIELD,
    ensures
        first_field(field_bytes(f) + rest) == Some(f),
        (field_bytes(f) + rest).skip(4 + f.val.len() as int) == rest,
{
    let v = field_bytes(f) + rest;
    f.tag.lemma_bytes_then_of();
    wire_len(f.val.len()).lemma_bytes_then_of();
    assert(v.subrange(0, 2) =~= f.tag.bytes());
    assert(v.subrange(2, 4) =~= wire_len(f.val.len()).bytes());
    assert(v.subrange(4, 4 + f.val.len() as int) =~= f.val);
    assert(v.skip(4 + f.val.len() as int) =~= rest);
}

proof fn lemma_written_fields_then(fs: Seq<Field>, rest: Seq<u8>)
    requires
        all_fit(fs),
    ensures
        tlv_fields(tlv_bytes(fs) + rest) == match tlv_fields(rest) {
            None => None,
            Some(more) => Some(fs + more),
        },
    decreases fs.len(),
{
    if fs.len() == 0 {
        assert(tlv_bytes(fs) + rest =~= rest);
        match tlv_fields(rest) {
            None => {},
            Some(more) => {
                assert(fs + more =~= more);
            },
        }
    } else {
        let init = fs.drop_last();
        let f = fs.last();
        let tail = field_bytes(f) + rest;
        assert(tlv_bytes(fs) + rest =~= tlv_bytes(init) + tail);
        assert forall|i: int| 0 <= i < init.len() implies #[trigger] init[i].val.len()
            <= MAX_FIELD by {
            assert(init[i] == fs[i]);
        }
        lemma_written_fields_then(init, tail);
        assert(fs[fs.len() - 1].val.len() <= MAX_FIELD);
        lemma_first_field(f, rest);
        match tlv_fields(rest) {
            None => {},
            Some(more) => {
                assert(init + (seq![f] + more) =~= fs + more);
            },
        }
    }
}

/// Fields that are written come back when they are read, in order and with nothing added.
pub proof fn law_written_fields_read_back(fs: Seq<Field>)
    requires
        all_fit(fs),
    ensures
        tlv_fields(tlv_bytes(fs)) == Some(fs),
{
    lemma_written_fields_then(fs, Seq::empty());
    assert(tlv_bytes(fs) + Seq::<u8>::empty() =~= tlv_bytes(fs));
    assert(fs + Seq::<Field>::empty() =~= fs);
}

/// What a reader of these bytes gives, field by field, until it gives nothing more; and whether it then says that the
/// last field was cut short.
pub open spec fn walk(v: Seq<u8>) -> (Seq<Field>, bool)
    decreases v.len(),
{
    match first_field(v) {
        None => (Seq::empty(), v.len() > 0),
        Some(f) => {
            let (more, bad) = walk(v.skip(4 + f.val.len() as int));
            (seq![f] + more, bad)
        },
    }
}

/// A reader gives the fields that were written, in order, whatever stands behind them that is no whole field. It says
/// that something was cut short where anything stands there.
pub proof fn law_a_reader_walks_all_fields(fs: Seq<Field>, tail: Seq<u8>)
    requires
        all_fit(fs),
        first_field(tail) is None,
    ensures
        walk(tlv_bytes(fs) + tail) == (fs, tail.len() > 0),
{
    lemma_walk(fs, tail);
    assert(fs + Seq::<Field>::empty() =~= fs);
}

proof fn lemma_walk(fs: Seq<Field>, rest: Seq<u8>)
    requires
        all_fit(fs),
    ensures
        walk(tlv_bytes(fs) + rest) == (fs + walk(rest).0, walk(rest).1),
    decreases fs.len(),
{
    if fs.len() == 0 {
        assert(tlv_bytes(fs) + rest =~= rest);
        assert(fs + walk(rest).0 =~= walk(rest).0);
    } else {
        let init = fs.drop_last();
        let f = fs.last();
        let tail = field_bytes(f) + rest;
        assert(tlv_bytes(fs) + rest =~= tlv_bytes(init) + tail);
        assert forall|i: int| 0 <= i < init.len() implies #[trigger] init[i].val.len() <= MAX_FIELD by {
            assert(init[i] == fs[i]);
        }
        lemma_walk(init, tail);
        assert(fs[fs.len() - 1].val.len() <= MAX_FIELD);
        lemma_first_field(f, rest);
        assert(init + (seq![f] + walk(rest).0) =~= fs + walk(rest).0);
    }
}

/// The fields of a payload are those that a reader gives, unless it finds the last one cut short.
pub proof fn law_a_walk_gives_the_fields(v: Seq<u8>)
    ensures
        tlv_fields(v) == (if walk(v).1 {
            None
        } else {
            Some(walk(v).0)
        }),
    decreases v.len(),
{
    if let Some(f) = first_field(v) {
        law_a_walk_gives_the_fields(v.skip(4 + f.val.len() as int));
    }
}

proof fn lemma_tlv_bytes_cons(f: Field, fs: Seq<Field>)
    ensures
        tlv_bytes(seq![f] + fs) == field_bytes(f) + tlv_bytes(fs),
    decreases fs.len(),
{
    let all = seq![f] + fs;
    if fs.len() == 0 {
        assert(all =~= Seq::empty().push(f));
        lemma_tlv_bytes_push(Seq::empty(), f);
        assert(tlv_bytes(all) =~= field_bytes(f) + tlv_bytes(fs));
    } else {
        lemma_tlv_bytes_cons(f, fs.drop_last());
        assert(all.drop_last() =~= seq![f] + fs.drop_last());
        assert(tlv_bytes(all) =~= field_bytes(f) + tlv_bytes(fs));
    }
}

/// Fields that were read spell the payload that they were read from, and each of them fits.
pub proof fn law_read_fields_write_back(v: Seq<u8>)
    ensures
        tlv_fields(v) matches Some(fs) ==> tlv_bytes(fs) == v && all_fit(fs),
    decreases v.len(),
{
    if v.len() > 0 {
        match first_field(v) {
            None => {},
            Some(f) => {
                let n = 4 + f.val.len() as int;
                law_read_fields_write_back(v.skip(n));
                match tlv_fields(v.skip(n)) {
                    None => {},
                    Some(rest) => {
                        lemma_tlv_bytes_cons(f, rest);
                        u16::lemma_of_then_bytes(v.subrange(0, 2));
                        u16::lemma_of_then_bytes(v.subrange(2, 4));
                        assert(wire_len(f.val.len()) == u16::of_bytes(v.subrange(2, 4)));
                        assert(field_bytes(f) + v.skip(n) =~= v);
                        let fs = seq![f] + rest;
                        assert forall|i: int| 0 <= i < fs.len() implies #[trigger] fs[i].val.len()
                            <= MAX_FIELD by {
                            if i > 0 {
                                assert(fs[i] == rest[i - 1]);
                            }
                        }
                    },
                }
            },
        }
    }
}

// ---- Writing -----------------------------------------------------------------------------------

/// The longest prefix of `v` that fits in a field.
pub open spec fn clipped(v: Seq<u8>) -> Seq<u8> {
    if v.len() <= MAX_FIELD {
        v
    } else {
        v.take(MAX_FIELD as int)
    }
}

/// Writes fields to the end of a buffer.
pub struct TlvWriter<'a>(pub &'a mut Vec<u8>);

impl<'a> TlvWriter<'a> {
    fn head(&mut self, tag: u16, len: usize)
        ensures
            final(self).0@ == old(self).0@ + tag.bytes() + wire_len(len as nat).bytes(),
            *final(final(self).0) == *final(old(self).0),
    {
        tag.put(self.0);
        let n: u16 = (len % 0x1_0000) as u16;
        n.put(self.0);
    }

    fn raw(&mut self, tag: u16, v: &[u8])
        ensures
            final(self).0@ == old(self).0@ + field_bytes((Field { tag, val: v@ })),
            *final(final(self).0) == *final(old(self).0),
    {
        self.head(tag, v.len());
        self.0.extend_from_slice(v);
        assert(self.0@ =~= old(self).0@ + field_bytes((Field { tag, val: v@ })));
    }

    fn number<T: Le>(&mut self, tag: u16, v: T)
        requires
            T::width() <= MAX_FIELD,
        ensures
            final(self).0@ == old(self).0@ + field_bytes((Field { tag, val: v.bytes() })),
            *final(final(self).0) == *final(old(self).0),
    {
        let mut b: Vec<u8> = Vec::new();
        v.put(&mut b);
        assert(b@ =~= v.bytes());
        self.raw(tag, b.as_slice());
    }

    pub fn u8(&mut self, tag: u16, v: u8)
        ensures
            final(self).0@ == old(self).0@ + field_bytes((Field { tag, val: v.bytes() })),
            *final(final(self).0) == *final(old(self).0),
    {
        self.number(tag, v)
    }

    pub fn u16(&mut self, tag: u16, v: u16)
        ensures
            final(self).0@ == old(self).0@ + field_bytes((Field { tag, val: v.bytes() })),
            *final(final(self).0) == *final(old(self).0),
    {
        self.number(tag, v)
    }

    pub fn u32(&mut self, tag: u16, v: u32)
        ensures
            final(self).0@ == old(self).0@ + field_bytes((Field { tag, val: v.bytes() })),
            *final(final(self).0) == *final(old(self).0),
    {
        self.number(tag, v)
    }

    pub fn u64(&mut self, tag: u16, v: u64)
        ensures
            final(self).0@ == old(self).0@ + field_bytes((Field { tag, val: v.bytes() })),
            *final(final(self).0) == *final(old(self).0),
    {
        self.number(tag, v)
    }

    pub fn i32(&mut self, tag: u16, v: i32)
        ensures
            final(self).0@ == old(self).0@ + field_bytes((Field { tag, val: v.bytes() })),
            *final(final(self).0) == *final(old(self).0),
    {
        self.number(tag, v)
    }

    pub fn i64(&mut self, tag: u16, v: i64)
        ensures
            final(self).0@ == old(self).0@ + field_bytes((Field { tag, val: v.bytes() })),
            *final(final(self).0) == *final(old(self).0),
    {
        self.number(tag, v)
    }

    /// Truncated to `MAX_FIELD` bytes.
    pub fn str(&mut self, tag: u16, v: &[u8])
        ensures
            final(self).0@ == old(self).0@ + field_bytes((Field { tag, val: clipped(v@) })),
            *final(final(self).0) == *final(old(self).0),
    {
        if v.len() <= MAX_FIELD {
            self.raw(tag, v)
        } else {
            self.raw(tag, &v[0..MAX_FIELD])
        }
    }

    /// The caller keeps it within `MAX_FIELD` bytes: the length of a longer value wraps.
    pub fn bytes(&mut self, tag: u16, v: &[u8])
        ensures
            final(self).0@ == old(self).0@ + field_bytes((Field { tag, val: v@ })),
            *final(final(self).0) == *final(old(self).0),
    {
        self.raw(tag, v)
    }

    pub fn empty(&mut self, tag: u16)
        ensures
            final(self).0@ == old(self).0@ + field_bytes((Field { tag, val: Seq::empty() })),
            *final(final(self).0) == *final(old(self).0),
    {
        self.head(tag, 0);
        assert(self.0@ =~= old(self).0@ + field_bytes((Field { tag, val: Seq::empty() })));
    }

    /// Opens a field whose value is what gets written until `end_list`.
    pub fn begin_list(&mut self, tag: u16) -> (mark: usize)
        ensures
            final(self).0@ == old(self).0@ + tag.bytes() + 0u16.bytes(),
            *final(final(self).0) == *final(old(self).0),
            mark == final(self).0@.len(),
            mark == old(self).0@.len() + 4,
    {
        self.head(tag, 0);
        proof {
            tag.lemma_bytes_then_of();
            0u16.lemma_bytes_then_of();
        }
        self.0.len()
    }

    /// Sets the length of the field that was opened at `mark`.
    pub fn end_list(&mut self, mark: usize)
        requires
            2 <= mark <= old(self).0@.len(),
        ensures
            final(self).0@ == old(self).0@.take(mark - 2) + wire_len(
                (old(self).0@.len() - mark) as nat,
            ).bytes() + old(self).0@.skip(mark as int),
            *final(final(self).0) == *final(old(self).0),
    {
        let len: u16 = ((self.0.len() - mark) % 0x1_0000) as u16;
        let mut b: Vec<u8> = Vec::new();
        len.put(&mut b);
        proof {
            len.lemma_bytes_then_of();
            assert(b@ =~= len.bytes());
        }
        self.0[mark - 2] = b[0];
        self.0[mark - 1] = b[1];
        assert(self.0@ =~= old(self).0@.take(mark - 2) + len.bytes() + old(self).0@.skip(
            mark as int,
        ));
    }
}

/// A list that was opened on `before`, filled with `inner` and closed is a field with that value.
pub proof fn lemma_list(before: Seq<u8>, tag: u16, inner: Seq<u8>)
    ensures
        ({
            let open = before + tag.bytes() + 0u16.bytes() + inner;
            let mark = before.len() + 4;
            open.take(mark - 2) + wire_len((open.len() - mark) as nat).bytes() + open.skip(
                mark as int,
            ) == before + field_bytes((Field { tag, val: inner }))
        }),
{
    tag.lemma_bytes_then_of();
    0u16.lemma_bytes_then_of();
    let open = before + tag.bytes() + 0u16.bytes() + inner;
    let mark = before.len() + 4;
    assert(open.take(mark - 2) =~= before + tag.bytes());
    assert(open.skip(mark as int) =~= inner);
    assert(open.take(mark - 2) + wire_len((open.len() - mark) as nat).bytes() + open.skip(
        mark as int,
    ) =~= before + field_bytes((Field { tag, val: inner })));
}

// ---- Reading -----------------------------------------------------------------------------------

/// Reads the fields of a payload one by one.
pub struct TlvReader<'a> {
    pub v: &'a [u8],
    pub pos: usize,
    /// A field was cut short.
    pub bad: bool,
}

impl<'a> TlvReader<'a> {
    pub open spec fn wf(&self) -> bool {
        self.pos <= self.v@.len()
    }

    /// The bytes that are still to be read.
    pub open spec fn rest(&self) -> Seq<u8> {
        self.v@.skip(self.pos as int)
    }

    pub fn new(v: &'a [u8]) -> (r: Self)
        ensures
            r.wf(),
            r.rest() == v@,
            !r.bad,
    {
        let r = TlvReader { v, pos: 0, bad: false };
        assert(r.rest() =~= v@);
        r
    }

    /// The next field. `None` at the end, or on a truncated field (then `bad` is set).
    pub fn next(&mut self) -> (r: Option<(u16, &'a [u8])>)
        requires
            old(self).wf(),
        ensures
            final(self).wf(),
            match first_field(old(self).rest()) {
                Some(f) => {
                    &&& r matches Some((tag, val)) && tag == f.tag && val@ == f.val
                    &&& final(self).rest() == old(self).rest().skip(4 + f.val.len() as int)
                    &&& final(self).bad == old(self).bad
                },
                None => {
                    &&& r is None
                    &&& final(self).bad == (old(self).bad || old(self).rest().len() > 0)
                    &&& final(self).rest() == (if old(self).rest().len() < 4 {
                        old(self).rest()
                    } else {
                        old(self).rest().skip(4)
                    })
                },
            },
    {
        if self.pos == self.v.len() {
            return None;
        }
        if self.v.len() - self.pos < 4 {
            self.bad = true;
            return None;
        }
        let ghost rest = self.rest();
        let v = self.v;
        let p: usize = self.pos;
        let tag: u16 = match <u16 as Le>::get(&v[p..p + 2]) {
            Some(x) => x,
            None => 0,
        };
        let len: usize = match <u16 as Le>::get(&v[p + 2..p + 4]) {
            Some(x) => x as usize,
            None => 0,
        };
        assert(rest.subrange(0, 2) =~= v@.subrange(p as int, p + 2));
        assert(rest.subrange(2, 4) =~= v@.subrange(p + 2, p + 4));
        self.pos = p + 4;
        if v.len() - self.pos < len {
            self.bad = true;
            assert(self.rest() =~= rest.skip(4));
            return None;
        }
        let val = &v[p + 4..p + 4 + len];
        self.pos = p + 4 + len;
        assert(val@ =~= rest.subrange(4, 4 + len));
        assert(self.rest() =~= rest.skip(4 + len));
        Some((tag, val))
    }
}

/// A field as it lies in a payload.
pub struct RawField<'a> {
    pub tag: u16,
    pub val: &'a [u8],
}

impl<'a> View for RawField<'a> {
    type V = Field;

    open spec fn view(&self) -> Field {
        Field { tag: self.tag, val: self.val@ }
    }
}

/// What a list of fields stands for.
pub open spec fn fields_view<'a>(fs: Seq<RawField<'a>>) -> Seq<Field> {
    fs.map_values(|f: RawField<'a>| f@)
}

/// All fields of a payload, or `None` if the last one is cut short.
pub fn fields<'a>(v: &'a [u8]) -> (r: Option<Vec<RawField<'a>>>)
    ensures
        match r {
            Some(fs) => tlv_fields(v@) == Some(fields_view(fs@)),
            None => tlv_fields(v@) is None,
        },
{
    let mut out: Vec<RawField<'a>> = Vec::new();
    let mut r = TlvReader::new(v);
    loop
        invariant
            r.wf(),
            !r.bad,
            tlv_fields(v@) == match tlv_fields(r.rest()) {
                None => None,
                Some(more) => Some(fields_view(out@) + more),
            },
        decreases r.rest().len(),
    {
        let ghost before = fields_view(out@);
        let ghost rest = r.rest();
        match r.next() {
            Some((tag, val)) => {
                let f = RawField { tag, val };
                out.push(f);
                proof {
                    assert(fields_view(out@) =~= before.push(f@));
                    match tlv_fields(r.rest()) {
                        None => {},
                        Some(more) => {
                            assert(before + (seq![f@] + more) =~= before.push(f@) + more);
                        },
                    }
                }
            },
            None => {
                if r.bad {
                    return None;
                }
                assert(rest.len() == 0);
                assert(before + Seq::<Field>::empty() =~= before);
                return Some(out);
            },
        }
    }
}

} // verus!
