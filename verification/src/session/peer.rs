//! What a session remembers of the other side.
use vstd::prelude::*;
use crate::abi::{LENNY_MAX_PEER_LENSES, LENNY_MAX_PEER_MODES, lenny_mode, lenny_peer_info};
use crate::bytes::copy;
use crate::wire::caps::{Caps, CapsView, LensView, lenses_view};
use crate::wire::simple::{Hello, HelloView};

verus! {

#[verifier::ext_equal]
pub struct PeerView {
    pub device_id: Seq<u8>,
    pub name: Seq<u8>,
    pub platform: u8,
    pub controls: u32,
    pub lens_count: u8,
    pub lens_ids: Seq<u8>,
    pub lens_facing: Seq<u8>,
    pub lens_labels: Seq<Seq<u8>>,
    pub exposure_min: i32,
    pub exposure_max: i32,
    pub exposure_step_milli: u32,
    pub mode_count: u8,
    pub modes: Seq<lenny_mode>,
}

impl View for lenny_peer_info {
    type V = PeerView;

    open spec fn view(&self) -> PeerView {
        PeerView {
            device_id: self.device_id@,
            name: self.name@,
            platform: self.platform,
            controls: self.controls,
            lens_count: self.lens_count,
            lens_ids: self.lens_ids@,
            lens_facing: self.lens_facing@,
            lens_labels: labels_view(self.lens_labels@),
            exposure_min: self.exposure_min,
            exposure_max: self.exposure_max,
            exposure_step_milli: self.exposure_step_milli,
            mode_count: self.mode_count,
            modes: self.modes@,
        }
    }
}

pub open spec fn labels_view(labels: Seq<[u8; 32]>) -> Seq<Seq<u8>> {
    labels.map_values(|l: [u8; 32]| l@)
}

pub open spec fn zeros(n: nat) -> Seq<u8> {
    Seq::new(n, |i: int| 0u8)
}

pub open spec fn no_mode() -> lenny_mode {
    lenny_mode { width: 0, height: 0, fps_num: 0, fps_den: 0 }
}

/// Nothing is known.
pub open spec fn no_peer() -> PeerView {
    PeerView {
        device_id: zeros(16),
        name: zeros(64),
        platform: 0,
        controls: 0,
        lens_count: 0,
        lens_ids: zeros(8),
        lens_facing: zeros(8),
        lens_labels: Seq::new(8, |i: int| zeros(32)),
        exposure_min: 0,
        exposure_max: 0,
        exposure_step_milli: 0,
        mode_count: 0,
        modes: Seq::new(32, |i: int| no_mode()),
    }
}

impl Default for lenny_peer_info {
    fn default() -> (p: Self)
        ensures
            p@ == no_peer(),
    {
        let p = lenny_peer_info {
            device_id: [0; 16],
            name: [0; 64],
            platform: 0,
            controls: 0,
            lens_count: 0,
            lens_ids: [0; 8],
            lens_facing: [0; 8],
            lens_labels: [[0; 32]; 8],
            exposure_min: 0,
            exposure_max: 0,
            exposure_step_milli: 0,
            mode_count: 0,
            modes: [lenny_mode { width: 0, height: 0, fps_num: 0, fps_den: 0 }; 32],
        };
        proof {
            assert(p.device_id@ =~= zeros(16));
            assert(p.name@ =~= zeros(64));
            assert(p.lens_ids@ =~= zeros(8));
            assert(p.lens_facing@ =~= zeros(8));
            assert forall|i: int| 0 <= i < 8 implies #[trigger] labels_view(p.lens_labels@)[i]
                == zeros(32) by {
                assert(p.lens_labels@[i]@ =~= zeros(32));
            }
            assert(labels_view(p.lens_labels@) =~= Seq::new(8, |i: int| zeros(32)));
            assert(p.modes@ =~= Seq::new(32, |i: int| no_mode()));
        }
        p
    }
}

/// The bytes before the first zero byte.
pub open spec fn until_nul(b: Seq<u8>) -> Seq<u8>
    decreases b.len(),
{
    if b.len() == 0 || b[0] == 0 {
        Seq::empty()
    } else {
        seq![b[0]] + until_nul(b.skip(1))
    }
}

/// Bytes up to the first NUL: what a C string of the same bytes reads as.
pub fn c_string(b: &[u8]) -> (r: Vec<u8>)
    ensures
        r@ == until_nul(b@),
{
    let mut i: usize = 0;
    assert(b@.take(0) + until_nul(b@.skip(0)) =~= until_nul(b@)) by {
        assert(b@.skip(0) =~= b@);
    }
    while i < b.len() && b[i] != 0
        invariant
            i <= b@.len(),
            b@.take(i as int) + until_nul(b@.skip(i as int)) == until_nul(b@),
        decreases b.len() - i,
    {
        proof {
            let rest = b@.skip(i as int);
            assert(rest.skip(1) =~= b@.skip(i + 1));
            assert(b@.take(i as int) + (seq![rest[0]] + until_nul(b@.skip(i + 1))) =~= b@.take(
                i + 1,
            ) + until_nul(b@.skip(i + 1)));
        }
        i = i + 1;
    }
    assert(until_nul(b@.skip(i as int)) =~= Seq::empty());
    let r = copy(&b[0..i]);
    assert(r@ =~= until_nul(b@));
    r
}

/// A text of fixed size after `src` was written to it: cut where it does not fit, and ended by a
/// zero byte. What lies behind that stays.
pub open spec fn text_into(dst: Seq<u8>, src: Seq<u8>) -> Seq<u8> {
    let n = if src.len() < dst.len() {
        src.len() as int
    } else {
        dst.len() - 1
    };
    src.take(n).push(0) + dst.skip(n + 1)
}

pub fn copy_c(dst: &mut [u8], src: &[u8])
    requires
        old(dst)@.len() > 0,
    ensures
        final(dst)@ == text_into(old(dst)@, src@),
{
    let n: usize = if src.len() < dst.len() {
        src.len()
    } else {
        dst.len() - 1
    };
    let mut i: usize = 0;
    while i < n
        invariant
            i <= n,
            n <= src@.len(),
            n < dst@.len(),
            dst@ == src@.take(i as int) + old(dst)@.skip(i as int),
            dst@.len() == old(dst)@.len(),
        decreases n - i,
    {
        dst[i] = src[i];
        i = i + 1;
        assert(dst@ =~= src@.take(i as int) + old(dst)@.skip(i as int));
    }
    dst[n] = 0;
    assert(dst@ =~= src@.take(n as int).push(0) + old(dst)@.skip(n + 1));
}

/// What a HELLO says of the other side.
pub open spec fn peer_of_hello(h: HelloView) -> PeerView {
    PeerView {
        device_id: h.device_id,
        platform: h.platform,
        name: text_into(zeros(64), h.device_name),
        ..no_peer()
    }
}

pub fn peer_from_hello(h: &Hello) -> (p: lenny_peer_info)
    ensures
        p@ == peer_of_hello(h@),
{
    let mut p = lenny_peer_info::default();
    p.device_id = h.device_id;
    p.platform = h.platform;
    let mut name: [u8; 64] = [0; 64];
    assert(name@ =~= zeros(64));
    copy_c(&mut name, h.device_name.as_slice());
    p.name = name;
    p
}

/// How many lenses a peer info holds.
pub open spec fn lens_room(n: nat) -> nat {
    if n < LENNY_MAX_PEER_LENSES {
        n
    } else {
        LENNY_MAX_PEER_LENSES as nat
    }
}

/// How many modes a peer info holds.
pub open spec fn mode_room(n: nat) -> nat {
    if n < LENNY_MAX_PEER_MODES {
        n
    } else {
        LENNY_MAX_PEER_MODES as nat
    }
}

/// The first `n` lenses written over what was there.
pub open spec fn ids_over(old_ids: Seq<u8>, ls: Seq<LensView>, n: nat) -> Seq<u8> {
    Seq::new(
        old_ids.len(),
        |i: int|
            if i < n {
                ls[i].id
            } else {
                old_ids[i]
            },
    )
}

pub open spec fn facing_over(old_facing: Seq<u8>, ls: Seq<LensView>, n: nat) -> Seq<u8> {
    Seq::new(
        old_facing.len(),
        |i: int|
            if i < n {
                ls[i].facing
            } else {
                old_facing[i]
            },
    )
}

pub open spec fn labels_over(old_labels: Seq<Seq<u8>>, ls: Seq<LensView>, n: nat) -> Seq<Seq<u8>> {
    Seq::new(
        old_labels.len(),
        |i: int|
            if i < n {
                text_into(old_labels[i], ls[i].label)
            } else {
                old_labels[i]
            },
    )
}

pub open spec fn modes_over(old_modes: Seq<lenny_mode>, ms: Seq<lenny_mode>, n: nat) -> Seq<
    lenny_mode,
> {
    Seq::new(
        old_modes.len(),
        |i: int|
            if i < n {
                ms[i]
            } else {
                old_modes[i]
            },
    )
}

/// What is known after CAPS: as many lenses and modes as there is room for.
pub open spec fn peer_with_caps(p: PeerView, c: CapsView) -> PeerView {
    let lenses = lens_room(c.lenses.len());
    let modes = mode_room(c.modes.len());
    PeerView {
        controls: (c.controls as int % 0x1_0000_0000) as u32,
        lens_count: lenses as u8,
        lens_ids: ids_over(p.lens_ids, c.lenses, lenses),
        lens_facing: facing_over(p.lens_facing, c.lenses, lenses),
        lens_labels: labels_over(p.lens_labels, c.lenses, lenses),
        exposure_min: if c.has_exposure_range {
            c.exposure_min
        } else {
            p.exposure_min
        },
        exposure_max: if c.has_exposure_range {
            c.exposure_max
        } else {
            p.exposure_max
        },
        exposure_step_milli: if c.has_exposure_range {
            c.exposure_step_milli
        } else {
            p.exposure_step_milli
        },
        mode_count: modes as u8,
        modes: modes_over(p.modes, c.modes, modes),
        ..p
    }
}

pub fn peer_learns_caps(p: &mut lenny_peer_info, c: &Caps)
    ensures
        final(p)@ == peer_with_caps(old(p)@, c@),
{
    let ghost before = p@;
    let ghost ls = lenses_view(c.lenses@);
    p.controls = (c.controls % 0x1_0000_0000) as u32;
    let n: usize = if c.lenses.len() < LENNY_MAX_PEER_LENSES {
        c.lenses.len()
    } else {
        LENNY_MAX_PEER_LENSES
    };
    let mut ids = p.lens_ids;
    let mut facing = p.lens_facing;
    let mut labels = p.lens_labels;
    let mut i: usize = 0;
    assert(ids@ =~= ids_over(before.lens_ids, ls, 0));
    assert(facing@ =~= facing_over(before.lens_facing, ls, 0));
    assert(labels_view(labels@) =~= labels_over(before.lens_labels, ls, 0));
    while i < n
        invariant
            i <= n,
            n <= 8,
            n <= c.lenses@.len(),
            ls == lenses_view(c.lenses@),
            before.lens_ids.len() == 8,
            before.lens_facing.len() == 8,
            before.lens_labels.len() == 8,
            forall|k: int| 0 <= k < 8 ==> (#[trigger] before.lens_labels[k]).len() == 32,
            ids@ == ids_over(before.lens_ids, ls, i as nat),
            facing@ == facing_over(before.lens_facing, ls, i as nat),
            labels_view(labels@) == labels_over(before.lens_labels, ls, i as nat),
        decreases n - i,
    {
        let l = &c.lenses[i];
        assert(ls[i as int] == l@);
        ids[i] = l.id;
        facing[i] = l.facing;
        let mut row: [u8; 32] = labels[i];
        assert(row@ == labels_view(labels@)[i as int]);
        assert(row@ == before.lens_labels[i as int]);
        copy_c(&mut row, l.label.as_slice());
        let ghost old_labels = labels@;
        labels[i] = row;
        assert(ids@ =~= ids_over(before.lens_ids, ls, (i + 1) as nat));
        assert(facing@ =~= facing_over(before.lens_facing, ls, (i + 1) as nat));
        assert forall|k: int| 0 <= k < 8 implies #[trigger] labels_view(labels@)[k] == labels_over(
            before.lens_labels,
            ls,
            (i + 1) as nat,
        )[k] by {
            if k != i as int {
                assert(labels@[k] == old_labels[k]);
                assert(labels_view(old_labels)[k] == labels_over(
                    before.lens_labels,
                    ls,
                    i as nat,
                )[k]);
            }
        }
        assert(labels_view(labels@) =~= labels_over(before.lens_labels, ls, (i + 1) as nat));
        i = i + 1;
    }
    p.lens_count = n as u8;
    p.lens_ids = ids;
    p.lens_facing = facing;
    p.lens_labels = labels;
    if c.has_exposure_range {
        p.exposure_min = c.exposure_min;
        p.exposure_max = c.exposure_max;
        p.exposure_step_milli = c.exposure_step_milli;
    }
    let m: usize = if c.modes.len() < LENNY_MAX_PEER_MODES {
        c.modes.len()
    } else {
        LENNY_MAX_PEER_MODES
    };
    p.mode_count = m as u8;
    let mut modes = p.modes;
    let mut k: usize = 0;
    assert(modes@ =~= modes_over(before.modes, c.modes@, 0));
    while k < m
        invariant
            k <= m,
            m <= 32,
            m <= c.modes@.len(),
            before.modes.len() == 32,
            modes@ == modes_over(before.modes, c.modes@, k as nat),
        decreases m - k,
    {
        modes[k] = c.modes[k];
        assert(modes@ =~= modes_over(before.modes, c.modes@, (k + 1) as nat));
        k = k + 1;
    }
    p.modes = modes;
    assert(p@ =~= peer_with_caps(before, c@));
}

/// A text that fits, and has no zero byte, reads back from the info as it was given.
pub proof fn law_text_that_fits_reads_back(dst: Seq<u8>, src: Seq<u8>)
    requires
        src.len() < dst.len(),
        forall|i: int| 0 <= i < src.len() ==> #[trigger] src[i] != 0,
    ensures
        until_nul(text_into(dst, src)) == src,
        text_into(dst, src).len() == dst.len(),
{
    lemma_until_nul(src, dst.skip(src.len() as int + 1));
    assert(src.take(src.len() as int) =~= src);
    assert(text_into(dst, src) =~= src + seq![0u8] + dst.skip(src.len() as int + 1));
}

proof fn lemma_until_nul(src: Seq<u8>, rest: Seq<u8>)
    requires
        forall|i: int| 0 <= i < src.len() ==> #[trigger] src[i] != 0,
    ensures
        until_nul(src + seq![0u8] + rest) == src,
    decreases src.len(),
{
    let all = src + seq![0u8] + rest;
    if src.len() > 0 {
        let tail = src.skip(1);
        assert forall|i: int| 0 <= i < tail.len() implies #[trigger] tail[i] != 0 by {
            assert(tail[i] == src[i + 1]);
        }
        lemma_until_nul(tail, rest);
        assert(all[0] == src[0]);
        assert(all.skip(1) =~= tail + seq![0u8] + rest);
        assert(seq![src[0]] + tail =~= src);
    } else {
        assert(all[0] == 0);
        assert(until_nul(all) =~= src);
    }
}

} // verus!
