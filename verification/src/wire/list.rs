//! Repeated and nested fields.
use vstd::prelude::*;
use crate::wire::lookup::{all_of, exact, last_of, lemma_all_of_push};
use crate::wire::tlv::{Field, RawField, all_fit, blob, fields, fields_view, tlv_fields, MAX_FIELD};

verus! {

/// `fs` with one field more for each value.
pub open spec fn list_onto(fs: Seq<Field>, tag: u16, vals: Seq<Seq<u8>>) -> Seq<Field>
    decreases vals.len(),
{
    if vals.len() == 0 {
        fs
    } else {
        list_onto(fs, tag, vals.drop_last()).push(blob(tag, vals.last()))
    }
}

/// What each value stands for, or `None` if one of them stands for nothing.
pub open spec fn decode_all<T>(vals: Seq<Seq<u8>>, one: spec_fn(Seq<u8>) -> Option<T>) -> Option<
    Seq<T>,
>
    decreases vals.len(),
{
    if vals.len() == 0 {
        Some(Seq::empty())
    } else {
        match (decode_all(vals.drop_last(), one), one(vals.last())) {
            (Some(init), Some(x)) => Some(init.push(x)),
            _ => None,
        }
    }
}

/// The fields inside the values, one value after the other; `None` if one of them is cut short.
pub open spec fn nested(vals: Seq<Seq<u8>>) -> Option<Seq<Field>>
    decreases vals.len(),
{
    if vals.len() == 0 {
        Some(Seq::empty())
    } else {
        match (nested(vals.drop_last()), tlv_fields(vals.last())) {
            (Some(init), Some(more)) => Some(init + more),
            _ => None,
        }
    }
}

pub proof fn lemma_list_onto_push(fs: Seq<Field>, tag: u16, vals: Seq<Seq<u8>>, v: Seq<u8>)
    ensures
        list_onto(fs, tag, vals.push(v)) == list_onto(fs, tag, vals).push(blob(tag, v)),
{
    assert(vals.push(v).drop_last() =~= vals);
}

pub proof fn lemma_decode_all_push<T>(
    vals: Seq<Seq<u8>>,
    v: Seq<u8>,
    one: spec_fn(Seq<u8>) -> Option<T>,
)
    ensures
        decode_all(vals.push(v), one) == match (decode_all(vals, one), one(v)) {
            (Some(init), Some(x)) => Some(init.push(x)),
            _ => None,
        },
{
    assert(vals.push(v).drop_last() =~= vals);
}

pub proof fn lemma_nested_push(vals: Seq<Seq<u8>>, v: Seq<u8>)
    ensures
        nested(vals.push(v)) == match (nested(vals), tlv_fields(v)) {
            (Some(init), Some(more)) => Some(init + more),
            _ => None,
        },
{
    assert(vals.push(v).drop_last() =~= vals);
}

/// A list under one tag is what that tag gives, and other tags do not see it.
pub broadcast proof fn lemma_list_exact(
    fs: Seq<Field>,
    tag: u16,
    vals: Seq<Seq<u8>>,
    other: u16,
    n: nat,
)
    requires
        tag != other,
    ensures
        #[trigger] exact(list_onto(fs, tag, vals), other, n) == exact(fs, other, n),
    decreases vals.len(),
{
    broadcast use crate::wire::lookup::group_push;

    if vals.len() > 0 {
        lemma_list_exact(fs, tag, vals.drop_last(), other, n);
    }
}

pub broadcast proof fn lemma_list_last_of(
    fs: Seq<Field>,
    tag: u16,
    vals: Seq<Seq<u8>>,
    other: u16,
)
    requires
        tag != other,
    ensures
        #[trigger] last_of(list_onto(fs, tag, vals), other) == last_of(fs, other),
    decreases vals.len(),
{
    broadcast use crate::wire::lookup::group_push;

    if vals.len() > 0 {
        lemma_list_last_of(fs, tag, vals.drop_last(), other);
    }
}

pub broadcast proof fn lemma_list_all_of(fs: Seq<Field>, tag: u16, vals: Seq<Seq<u8>>, other: u16)
    ensures
        #[trigger] all_of(list_onto(fs, tag, vals), other) == (if tag == other {
            all_of(fs, other) + vals
        } else {
            all_of(fs, other)
        }),
    decreases vals.len(),
{
    broadcast use crate::wire::lookup::group_push;

    if vals.len() > 0 {
        lemma_list_all_of(fs, tag, vals.drop_last(), other);
        if tag == other {
            assert((all_of(fs, other) + vals.drop_last()).push(vals.last()) =~= all_of(fs, other)
                + vals);
        }
    } else {
        assert(all_of(fs, other) + vals =~= all_of(fs, other));
    }
}

pub proof fn lemma_list_all_fit(fs: Seq<Field>, tag: u16, vals: Seq<Seq<u8>>)
    requires
        all_fit(fs),
        forall|i: int| 0 <= i < vals.len() ==> #[trigger] vals[i].len() <= MAX_FIELD,
    ensures
        all_fit(list_onto(fs, tag, vals)),
    decreases vals.len(),
{
    broadcast use crate::wire::tlv::lemma_all_fit_push;

    if vals.len() > 0 {
        let init = vals.drop_last();
        assert forall|i: int| 0 <= i < init.len() implies #[trigger] init[i].len() <= MAX_FIELD by {
            assert(init[i] == vals[i]);
        }
        assert(vals[vals.len() - 1].len() <= MAX_FIELD);
        lemma_list_all_fit(fs, tag, init);
    }
}

/// Values that stand for `xs`, one for one, give `xs`.
pub proof fn lemma_decode_all_is<T>(
    vals: Seq<Seq<u8>>,
    one: spec_fn(Seq<u8>) -> Option<T>,
    xs: Seq<T>,
)
    requires
        vals.len() == xs.len(),
        forall|i: int| 0 <= i < xs.len() ==> one(#[trigger] vals[i]) == Some(xs[i]),
    ensures
        decode_all(vals, one) == Some(xs),
    decreases xs.len(),
{
    if xs.len() > 0 {
        let init = vals.drop_last();
        assert forall|i: int| 0 <= i < xs.len() - 1 implies one(#[trigger] init[i]) == Some(
            xs.drop_last()[i],
        ) by {
            assert(init[i] == vals[i]);
        }
        lemma_decode_all_is(init, one, xs.drop_last());
        assert(one(vals[vals.len() - 1]) == Some(xs.last()));
        assert(xs.drop_last().push(xs.last()) =~= xs);
    } else {
        assert(xs =~= Seq::empty());
    }
}

/// A list with a value that stands for nothing stands for nothing.
pub proof fn lemma_decode_all_fails<T>(vals: Seq<Seq<u8>>, one: spec_fn(Seq<u8>) -> Option<T>, i: int)
    requires
        0 <= i < vals.len(),
        one(vals[i]) is None,
    ensures
        decode_all(vals, one) is None,
    decreases vals.len(),
{
    if i < vals.len() - 1 {
        lemma_decode_all_fails(vals.drop_last(), one, i);
    }
}

/// The values of the fields with this tag.
pub fn values<'a>(fs: &Vec<RawField<'a>>, tag: u16) -> (r: Vec<&'a [u8]>)
    ensures
        values_view(r@) == all_of(fields_view(fs@), tag),
{
    let mut r: Vec<&'a [u8]> = Vec::new();
    let mut i: usize = 0;
    let ghost all = fields_view(fs@);
    assert(all.take(0) =~= Seq::empty());
    assert(values_view(r@) =~= Seq::empty());
    while i < fs.len()
        invariant
            i <= fs@.len(),
            all == fields_view(fs@),
            values_view(r@) == all_of(all.take(i as int), tag),
        decreases fs.len() - i,
    {
        proof {
            assert(all.take(i + 1) =~= all.take(i as int).push(all[i as int]));
            lemma_all_of_push(all.take(i as int), all[i as int], tag);
        }
        if fs[i].tag == tag {
            let ghost before = r@;
            r.push(fs[i].val);
            assert(values_view(r@) =~= values_view(before).push(fs@[i as int].val@));
        }
        i = i + 1;
    }
    assert(all.take(all.len() as int) =~= all);
    r
}

/// What a list of values stands for.
pub open spec fn values_view<'a>(vals: Seq<&'a [u8]>) -> Seq<Seq<u8>> {
    vals.map_values(|v: &'a [u8]| v@)
}

/// The fields inside the values, one value after the other.
pub fn nested_fields<'a>(vals: &Vec<&'a [u8]>) -> (r: Option<Vec<RawField<'a>>>)
    ensures
        match r {
            Some(fs) => nested(values_view(vals@)) == Some(fields_view(fs@)),
            None => nested(values_view(vals@)) is None,
        },
{
    let mut out: Vec<RawField<'a>> = Vec::new();
    let mut i: usize = 0;
    let ghost all = values_view(vals@);
    assert(all.take(0) =~= Seq::empty());
    assert(fields_view(out@) =~= Seq::empty());
    while i < vals.len()
        invariant
            i <= vals@.len(),
            all == values_view(vals@),
            nested(all.take(i as int)) == Some(fields_view(out@)),
        decreases vals.len() - i,
    {
        proof {
            assert(all.take(i + 1) =~= all.take(i as int).push(all[i as int]));
            lemma_nested_push(all.take(i as int), all[i as int]);
        }
        match fields(vals[i]) {
            Some(mut more) => {
                let ghost a = out@;
                let ghost b = more@;
                out.append(&mut more);
                assert(fields_view(out@) =~= fields_view(a) + fields_view(b));
            },
            None => {
                proof {
                    lemma_nested_none(all, i + 1);
                }
                return None;
            },
        }
        i = i + 1;
    }
    assert(all.take(all.len() as int) =~= all);
    Some(out)
}

/// One value that is cut short spoils the whole list.
proof fn lemma_nested_none(vals: Seq<Seq<u8>>, n: int)
    requires
        0 <= n <= vals.len(),
        nested(vals.take(n)) is None,
    ensures
        nested(vals) is None,
    decreases vals.len() - n,
{
    if n < vals.len() {
        assert(vals.take(n + 1) =~= vals.take(n).push(vals[n]));
        lemma_nested_push(vals.take(n), vals[n]);
        lemma_nested_none(vals, n + 1);
    } else {
        assert(vals.take(n) =~= vals);
    }
}

/// One value that stands for nothing spoils the whole list.
pub proof fn lemma_decode_all_none<T>(
    vals: Seq<Seq<u8>>,
    one: spec_fn(Seq<u8>) -> Option<T>,
    n: int,
)
    requires
        0 <= n <= vals.len(),
        decode_all(vals.take(n), one) is None,
    ensures
        decode_all(vals, one) is None,
    decreases vals.len() - n,
{
    if n < vals.len() {
        assert(vals.take(n + 1) =~= vals.take(n).push(vals[n]));
        lemma_decode_all_push(vals.take(n), vals[n], one);
        lemma_decode_all_none(vals, one, n + 1);
    } else {
        assert(vals.take(n) =~= vals);
    }
}

} // verus!
