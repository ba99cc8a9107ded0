//! Finding fields by their tag. Where a tag is repeated, the last field wins.
use vstd::prelude::*;
use crate::le::Le;
use crate::wire::tlv::{Field, RawField, fields_view};

verus! {

/// The value of the last field with this tag.
pub open spec fn last_of(fs: Seq<Field>, tag: u16) -> Option<Seq<u8>>
    decreases fs.len(),
{
    if fs.len() == 0 {
        None
    } else if fs.last().tag == tag {
        Some(fs.last().val)
    } else {
        last_of(fs.drop_last(), tag)
    }
}

/// All values of the fields with this tag, in order.
pub open spec fn all_of(fs: Seq<Field>, tag: u16) -> Seq<Seq<u8>>
    decreases fs.len(),
{
    if fs.len() == 0 {
        Seq::empty()
    } else if fs.last().tag == tag {
        all_of(fs.drop_last(), tag).push(fs.last().val)
    } else {
        all_of(fs.drop_last(), tag)
    }
}

/// Every field with this tag has `n` bytes.
pub open spec fn all_len(fs: Seq<Field>, tag: u16, n: nat) -> bool {
    forall|i: int| 0 <= i < fs.len() && fs[i].tag == tag ==> #[trigger] fs[i].val.len() == n
}

/// What a message says for one tag.
pub enum Slot<T> {
    /// Nothing.
    Absent,
    /// A value of the wrong size: the message is to be ignored.
    Malformed,
    /// This value.
    Is(T),
}

impl<T> Slot<T> {
    /// The value, or `None` if there is none.
    #[verifier::allow_in_spec]
    pub fn required(self) -> (r: Option<T>)
        returns
            (match self {
                Slot::Is(x) => Some(x),
                _ => None,
            }),
    {
        match self {
            Slot::Is(x) => Some(x),
            _ => None,
        }
    }

    /// The value, or `default` if the message says nothing; `None` if it is malformed.
    #[verifier::allow_in_spec]
    pub fn or(self, default: T) -> (r: Option<T>)
        returns
            (match self {
                Slot::Is(x) => Some(x),
                Slot::Absent => Some(default),
                Slot::Malformed => None,
            }),
    {
        match self {
            Slot::Is(x) => Some(x),
            Slot::Absent => Some(default),
            Slot::Malformed => None,
        }
    }
}

/// The last value with this tag, all of which must have `n` bytes.
pub open spec fn exact(fs: Seq<Field>, tag: u16, n: nat) -> Slot<Seq<u8>> {
    if !all_len(fs, tag, n) {
        Slot::Malformed
    } else {
        match last_of(fs, tag) {
            None => Slot::Absent,
            Some(v) => Slot::Is(v),
        }
    }
}

/// The integer that a message gives for this tag.
pub open spec fn number_of<T: Le>(fs: Seq<Field>, tag: u16) -> Slot<T> {
    match exact(fs, tag, T::width()) {
        Slot::Absent => Slot::Absent,
        Slot::Malformed => Slot::Malformed,
        Slot::Is(v) => Slot::Is(T::of_bytes(v)),
    }
}

pub broadcast proof fn lemma_last_of_push(fs: Seq<Field>, f: Field, tag: u16)
    ensures
        #[trigger] last_of(fs.push(f), tag) == (if f.tag == tag {
            Some(f.val)
        } else {
            last_of(fs, tag)
        }),
{
    assert(fs.push(f).drop_last() =~= fs);
}

pub broadcast proof fn lemma_all_of_push(fs: Seq<Field>, f: Field, tag: u16)
    ensures
        #[trigger] all_of(fs.push(f), tag) == (if f.tag == tag {
            all_of(fs, tag).push(f.val)
        } else {
            all_of(fs, tag)
        }),
{
    assert(fs.push(f).drop_last() =~= fs);
}

pub broadcast proof fn lemma_all_len_push(fs: Seq<Field>, f: Field, tag: u16, n: nat)
    ensures
        #[trigger] all_len(fs.push(f), tag, n) == (all_len(fs, tag, n) && (f.tag == tag
            ==> f.val.len() == n)),
{
    let g = fs.push(f);
    if all_len(g, tag, n) {
        assert forall|i: int| 0 <= i < fs.len() && fs[i].tag == tag implies #[trigger] fs[i].val.len()
            == n by {
            assert(g[i] == fs[i]);
        }
        assert(g[fs.len() as int].val.len() == n || f.tag != tag);
    }
}

pub broadcast proof fn lemma_exact_push(fs: Seq<Field>, f: Field, tag: u16, n: nat)
    ensures
        #[trigger] exact(fs.push(f), tag, n) == (if f.tag != tag {
            exact(fs, tag, n)
        } else if exact(fs, tag, n) is Malformed || f.val.len() != n {
            Slot::Malformed
        } else {
            Slot::Is(f.val)
        }),
{
    lemma_last_of_push(fs, f, tag);
    lemma_all_len_push(fs, f, tag, n);
}

pub broadcast proof fn lemma_number_of_push<T: Le>(fs: Seq<Field>, f: Field, tag: u16)
    ensures
        #[trigger] number_of::<T>(fs.push(f), tag) == (if f.tag != tag {
            number_of::<T>(fs, tag)
        } else if number_of::<T>(fs, tag) is Malformed || f.val.len() != T::width() {
            Slot::Malformed
        } else {
            Slot::Is(T::of_bytes(f.val))
        }),
{
    lemma_exact_push(fs, f, tag, T::width());
}

pub broadcast proof fn lemma_exact_empty(tag: u16, n: nat)
    ensures
        #[trigger] exact(Seq::empty(), tag, n) == Slot::<Seq<u8>>::Absent,
{
}

pub broadcast proof fn lemma_number_of_empty<T: Le>(tag: u16)
    ensures
        #[trigger] number_of::<T>(Seq::empty(), tag) == Slot::<T>::Absent,
{
}

pub broadcast group group_push {
    lemma_exact_push,
    lemma_number_of_push,
    lemma_exact_empty,
    lemma_number_of_empty,
    lemma_last_of_push,
    lemma_all_of_push,
    lemma_all_len_push,
}

/// The last value with this tag.
pub fn last_value<'a>(fs: &Vec<RawField<'a>>, tag: u16) -> (r: Option<&'a [u8]>)
    ensures
        match r {
            Some(v) => last_of(fields_view(fs@), tag) == Some(v@),
            None => last_of(fields_view(fs@), tag) is None,
        },
{
    let mut r: Option<&'a [u8]> = None;
    let mut i: usize = 0;
    let ghost all = fields_view(fs@);
    assert(all.take(0) =~= Seq::empty());
    while i < fs.len()
        invariant
            i <= fs@.len(),
            all == fields_view(fs@),
            match r {
                Some(v) => last_of(all.take(i as int), tag) == Some(v@),
                None => last_of(all.take(i as int), tag) is None,
            },
        decreases fs.len() - i,
    {
        proof {
            assert(all.take(i + 1) =~= all.take(i as int).push(all[i as int]));
            lemma_last_of_push(all.take(i as int), all[i as int], tag);
        }
        if fs[i].tag == tag {
            r = Some(fs[i].val);
        }
        i = i + 1;
    }
    assert(all.take(all.len() as int) =~= all);
    r
}

/// The last value with this tag, all of which must have `n` bytes.
pub fn exact_value<'a>(fs: &Vec<RawField<'a>>, tag: u16, n: usize) -> (r: Slot<&'a [u8]>)
    ensures
        match r {
            Slot::Absent => exact(fields_view(fs@), tag, n as nat) == Slot::<Seq<u8>>::Absent,
            Slot::Malformed => exact(fields_view(fs@), tag, n as nat)
                == Slot::<Seq<u8>>::Malformed,
            Slot::Is(v) => exact(fields_view(fs@), tag, n as nat) == Slot::Is(v@),
        },
{
    broadcast use group_push;

    let ghost all = fields_view(fs@);
    let mut i: usize = 0;
    assert(all.take(0) =~= Seq::empty());
    while i < fs.len()
        invariant
            i <= fs@.len(),
            all == fields_view(fs@),
            all_len(all.take(i as int), tag, n as nat),
        decreases fs.len() - i,
    {
        assert(all.take(i + 1) =~= all.take(i as int).push(all[i as int]));
        if fs[i].tag == tag && fs[i].val.len() != n {
            proof {
                assert(all[i as int].tag == tag && all[i as int].val.len() != n as nat);
            }
            return Slot::Malformed;
        }
        i = i + 1;
    }
    assert(all.take(all.len() as int) =~= all);
    match last_value(fs, tag) {
        None => Slot::Absent,
        Some(v) => Slot::Is(v),
    }
}

/// The integer that a message gives for this tag.
pub fn number<T: Le>(fs: &Vec<RawField<'_>>, tag: u16) -> (r: Slot<T>)
    ensures
        r == number_of::<T>(fields_view(fs@), tag),
{
    let mut r: Slot<T> = Slot::Absent;
    let mut i: usize = 0;
    let ghost all = fields_view(fs@);
    assert(all.take(0) =~= Seq::empty());
    while i < fs.len()
        invariant
            i <= fs@.len(),
            all == fields_view(fs@),
            r == number_of::<T>(all.take(i as int), tag),
        decreases fs.len() - i,
    {
        proof {
            let before = all.take(i as int);
            let f = all[i as int];
            assert(all.take(i + 1) =~= before.push(f));
            lemma_last_of_push(before, f, tag);
            lemma_all_len_push(before, f, tag, T::width());
        }
        if fs[i].tag == tag {
            match T::get(fs[i].val) {
                Some(x) => {
                    r = match r {
                        Slot::Malformed => Slot::Malformed,
                        _ => Slot::Is(x),
                    };
                },
                None => {
                    r = Slot::Malformed;
                },
            }
        }
        i = i + 1;
    }
    assert(all.take(all.len() as int) =~= all);
    r
}

/// Where no field has this tag, there is no value for it.
pub proof fn lemma_absent(fs: Seq<Field>, tag: u16)
    requires
        forall|i: int| 0 <= i < fs.len() ==> (#[trigger] fs[i]).tag != tag,
    ensures
        last_of(fs, tag) is None,
    decreases fs.len(),
{
    if fs.len() > 0 {
        assert(fs[fs.len() - 1].tag != tag);
        assert forall|i: int| 0 <= i < fs.drop_last().len() implies (#[trigger] fs.drop_last()[i]).tag != tag by {
            assert(fs[i].tag != tag);
        }
        lemma_absent(fs.drop_last(), tag);
    }
}

/// A value that passed has the asked length.
pub proof fn lemma_exact_len(fs: Seq<Field>, tag: u16, n: nat)
    ensures
        exact(fs, tag, n) matches Slot::Is(v) ==> v.len() == n,
{
    if all_len(fs, tag, n) {
        lemma_last_len(fs, tag, n);
    }
}

proof fn lemma_last_len(fs: Seq<Field>, tag: u16, n: nat)
    requires
        all_len(fs, tag, n),
    ensures
        last_of(fs, tag) matches Some(v) ==> v.len() == n,
    decreases fs.len(),
{
    if fs.len() > 0 {
        let init = fs.drop_last();
        assert(fs[fs.len() - 1].val.len() == n || fs.last().tag != tag);
        assert forall|i: int| 0 <= i < init.len() && init[i].tag
            == tag implies #[trigger] init[i].val.len() == n by {
            assert(init[i] == fs[i]);
        }
        lemma_last_len(init, tag, n);
    }
}

// ---- Fields with other tags do not count -------------------------------------------------------

pub broadcast proof fn lemma_last_of_skips(a: Seq<Field>, f: Field, b: Seq<Field>, tag: u16)
    requires
        f.tag != tag,
    ensures
        #[trigger] last_of(a.push(f) + b, tag) == last_of(a + b, tag),
    decreases b.len(),
{
    if b.len() == 0 {
        assert(a.push(f) + b =~= a.push(f));
        assert(a + b =~= a);
        lemma_last_of_push(a, f, tag);
    } else {
        assert((a.push(f) + b).drop_last() =~= a.push(f) + b.drop_last());
        assert((a + b).drop_last() =~= a + b.drop_last());
        lemma_last_of_skips(a, f, b.drop_last(), tag);
    }
}

pub broadcast proof fn lemma_all_of_skips(a: Seq<Field>, f: Field, b: Seq<Field>, tag: u16)
    requires
        f.tag != tag,
    ensures
        #[trigger] all_of(a.push(f) + b, tag) == all_of(a + b, tag),
    decreases b.len(),
{
    if b.len() == 0 {
        assert(a.push(f) + b =~= a.push(f));
        assert(a + b =~= a);
        lemma_all_of_push(a, f, tag);
    } else {
        assert((a.push(f) + b).drop_last() =~= a.push(f) + b.drop_last());
        assert((a + b).drop_last() =~= a + b.drop_last());
        lemma_all_of_skips(a, f, b.drop_last(), tag);
    }
}

pub broadcast proof fn lemma_exact_skips(a: Seq<Field>, f: Field, b: Seq<Field>, tag: u16, n: nat)
    requires
        f.tag != tag,
    ensures
        #[trigger] exact(a.push(f) + b, tag, n) == exact(a + b, tag, n),
{
    let with = a.push(f) + b;
    let without = a + b;
    lemma_last_of_skips(a, f, b, tag);
    if all_len(with, tag, n) {
        assert forall|i: int| 0 <= i < without.len() && without[i].tag
            == tag implies #[trigger] without[i].val.len() == n by {
            if i < a.len() {
                assert(with[i] == without[i]);
            } else {
                assert(with[i + 1] == without[i]);
            }
        }
    }
    if all_len(without, tag, n) {
        assert forall|i: int| 0 <= i < with.len() && with[i].tag
            == tag implies #[trigger] with[i].val.len() == n by {
            if i < a.len() {
                assert(without[i] == with[i]);
            } else if i > a.len() {
                assert(without[i - 1] == with[i]);
            }
        }
    }
}

pub broadcast group group_skips {
    lemma_last_of_skips,
    lemma_all_of_skips,
    lemma_exact_skips,
}

} // verus!
