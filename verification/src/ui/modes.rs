//! Aspect ratio, resolution and frame rate, only from what the selected lens really streams.
use vstd::prelude::*;

use crate::abi::{lenny_mode, lenny_stream_settings};
use crate::text::{decimal, push_decimal};
use crate::wire::caps::Caps;

verus! {

/// The greatest common divisor, by Euclid.
pub open spec fn gcd_of(a: nat, b: nat) -> nat
    decreases b,
{
    if b == 0 {
        a
    } else {
        gcd_of(b, a % b)
    }
}

pub fn gcd(a: u32, b: u32) -> (g: u32)
    ensures
        g == gcd_of(a as nat, b as nat),
    decreases b,
{
    if b == 0 {
        a
    } else {
        gcd(b, a % b)
    }
}

/// The greatest common divisor divides both numbers, and every number that does so divides it.
pub proof fn law_gcd_is_the_greatest_common_divisor(a: nat, b: nat)
    requires
        a > 0 || b > 0,
    ensures
        gcd_of(a, b) > 0,
        a % gcd_of(a, b) == 0,
        b % gcd_of(a, b) == 0,
        forall|d: nat| d > 0 && a % d == 0 && b % d == 0 ==> #[trigger] (gcd_of(a, b) % d) == 0,
    decreases b,
{
    let g = gcd_of(a, b);
    if b == 0 {
        assert(a % a == 0) by (nonlinear_arith)
            requires
                a > 0,
        ;
        assert(0nat % a == 0) by (nonlinear_arith)
            requires
                a > 0,
        ;
    } else {
        law_gcd_is_the_greatest_common_divisor(b, a % b);
        assert(a % g == 0) by {
            let k = b / g;
            let l = (a % b) / g;
            let q = a / b;
            vstd::arithmetic::div_mod::lemma_fundamental_div_mod(a as int, b as int);
            vstd::arithmetic::div_mod::lemma_fundamental_div_mod(b as int, g as int);
            vstd::arithmetic::div_mod::lemma_fundamental_div_mod((a % b) as int, g as int);
            assert(a == g * (k * q + l)) by (nonlinear_arith)
                requires
                    a == b * q + (a % b),
                    b == g * k,
                    a % b == g * l,
            ;
            vstd::arithmetic::div_mod::lemma_mod_multiples_basic((k * q + l) as int, g as int);
            assert((k * q + l) * g == g * (k * q + l)) by (nonlinear_arith);
        }
        assert forall|d: nat| d > 0 && a % d == 0 && b % d == 0 implies #[trigger] (g % d) == 0 by {
            let k = a / d;
            let l = b / d;
            let q = a / b;
            vstd::arithmetic::div_mod::lemma_fundamental_div_mod(a as int, b as int);
            vstd::arithmetic::div_mod::lemma_fundamental_div_mod(a as int, d as int);
            vstd::arithmetic::div_mod::lemma_fundamental_div_mod(b as int, d as int);
            let r = a % b;
            assert(b * q == (l * q) * d) by (nonlinear_arith)
                requires
                    b == d * l,
            ;
            assert((k - l * q) * d == k * d - (l * q) * d) by (nonlinear_arith);
            assert(k * d == d * k) by (nonlinear_arith);
            assert(r as int == (k - l * q) * d);
            vstd::arithmetic::div_mod::lemma_mod_multiples_basic(k - l * q, d as int);
            assert((a % b) % d == 0);
        }
    }
}

/// A ratio of sides in lowest terms.
#[derive(Clone, Copy, Debug, PartialEq, Eq, Structural)]
pub struct Aspect {
    pub width: u32,
    pub height: u32,
}

/// The words for a ratio: `16:9`.
pub open spec fn aspect_words(a: Aspect) -> Seq<char> {
    decimal(a.width as nat) + ":"@ + decimal(a.height as nat)
}

impl Aspect {
    pub fn label(self) -> (text: String)
        ensures
            text@ == aspect_words(self),
    {
        let mut text = String::new();
        push_decimal(&mut text, self.width);
        text.append(":");
        push_decimal(&mut text, self.height);
        assert(text@ =~= aspect_words(self));
        text
    }
}

/// The words for a height: `4K` for 2160 lines, else `1080p` and the like.
pub open spec fn height_words(h: u32) -> Seq<char> {
    if h == 2160 {
        "4K"@
    } else {
        decimal(h as nat) + "p"@
    }
}

pub fn height_label(h: u32) -> (text: String)
    ensures
        text@ == height_words(h),
{
    let mut text = String::new();
    if h == 2160 {
        text.append("4K");
    } else {
        push_decimal(&mut text, h);
        text.append("p");
    }
    assert(text@ =~= height_words(h));
    text
}

/// Whole frames per second.
pub open spec fn fps_of(m: lenny_mode) -> u32 {
    (m.fps_num as u32) / (if m.fps_den > 1 {
        m.fps_den as u32
    } else {
        1
    })
}

/// The ratio of a mode's sides.
pub open spec fn aspect_of(m: lenny_mode) -> Aspect {
    let g = gcd_of(m.width as nat, m.height as nat);
    let d = if g > 1 {
        g
    } else {
        1
    };
    Aspect { width: (m.width as nat / d) as u32, height: (m.height as nat / d) as u32 }
}

pub fn fps(m: &lenny_mode) -> (r: u32)
    ensures
        r == fps_of(*m),
{
    let d: u32 = if m.fps_den > 1 {
        m.fps_den as u32
    } else {
        1
    };
    m.fps_num as u32 / d
}

pub fn aspect(m: &lenny_mode) -> (r: Aspect)
    ensures
        r == aspect_of(*m),
{
    let g: u32 = gcd(m.width as u32, m.height as u32);
    let d: u32 = if g > 1 {
        g
    } else {
        1
    };
    Aspect { width: m.width as u32 / d, height: m.height as u32 / d }
}

/// The ratios of the modes, each once, in the order in which they come up.
pub open spec fn aspects_of(modes: Seq<lenny_mode>) -> Seq<Aspect>
    decreases modes.len(),
{
    if modes.len() == 0 {
        Seq::empty()
    } else {
        let before = aspects_of(modes.drop_last());
        let a = aspect_of(modes.last());
        if before.contains(a) {
            before
        } else {
            before.push(a)
        }
    }
}

/// Numbers in rising order, none of them twice.
pub open spec fn rising(s: Seq<u32>) -> bool {
    forall|i: int, j: int| 0 <= i < j < s.len() ==> s[i] < s[j]
}

/// A mode with ratio `a` and `h` lines.
pub open spec fn has_height(modes: Seq<lenny_mode>, a: Aspect, h: u32) -> bool {
    exists|i: int| 0 <= i < modes.len() && aspect_of(#[trigger] modes[i]) == a && modes[i].height == h
}

/// A mode with ratio `a`, `h` lines and `f` frames per second.
pub open spec fn has_rate(modes: Seq<lenny_mode>, a: Aspect, h: u32, f: u32) -> bool {
    exists|i: int|
        0 <= i < modes.len() && aspect_of(#[trigger] modes[i]) == a && modes[i].height == h && fps_of(modes[i]) == f
}

/// Puts `n` into rising numbers, unless it is there.
fn insert_rising(list: &mut Vec<u32>, n: u32)
    requires
        rising(old(list)@),
    ensures
        rising(final(list)@),
        forall|x: u32| #[trigger] final(list)@.contains(x) <==> old(list)@.contains(x) || x == n,
{
    let ghost was = list@;
    let mut i: usize = 0;
    while i < list.len() && list[i] < n
        invariant
            i <= list@.len(),
            list@ == was,
            forall|j: int| 0 <= j < i ==> list@[j] < n,
        decreases list.len() - i,
    {
        i = i + 1;
    }
    if i < list.len() && list[i] == n {
        assert(was.contains(n)) by {
            assert(was[i as int] == n);
        }
        return;
    }
    list.insert(i, n);
    assert(list@ =~= was.insert(i as int, n));
    assert forall|x: u32| #[trigger] list@.contains(x) <==> was.contains(x) || x == n by {
        if list@.contains(x) && x != n {
            let k = choose|k: int| 0 <= k < list@.len() && list@[k] == x;
            if k < i {
                assert(was[k] == x);
            } else {
                assert(was[k - 1] == x);
            }
        }
        if was.contains(x) {
            let k = choose|k: int| 0 <= k < was.len() && was[k] == x;
            if k < i {
                assert(list@[k] == x);
            } else {
                assert(list@[k + 1] == x);
            }
        }
        if x == n {
            assert(list@[i as int] == n);
        }
    }
}

/// What can be picked, and what is picked now.
pub struct Choices {
    pub aspects: Vec<Aspect>,
    /// Lines, for the ratio of the current mode.
    pub heights: Vec<u32>,
    /// Frames per second, for the ratio and the height of the current mode.
    pub rates: Vec<u32>,
}

/// What can be picked from `modes` while `cur` is streamed.
pub fn choices(modes: &[lenny_mode], cur: &lenny_mode) -> (c: Choices)
    ensures
        c.aspects@ == aspects_of(modes@),
        rising(c.heights@),
        forall|h: u32| #[trigger] c.heights@.contains(h) <==> has_height(modes@, aspect_of(*cur), h),
        rising(c.rates@),
        forall|f: u32| #[trigger] c.rates@.contains(f) <==> has_rate(modes@, aspect_of(*cur), cur.height as u32, f),
{
    let a = aspect(cur);
    let mut aspects: Vec<Aspect> = Vec::new();
    let mut heights: Vec<u32> = Vec::new();
    let mut rates: Vec<u32> = Vec::new();
    let mut i: usize = 0;
    assert(aspects@ =~= aspects_of(modes@.take(0)));
    while i < modes.len()
        invariant
            i <= modes@.len(),
            a == aspect_of(*cur),
            aspects@ == aspects_of(modes@.take(i as int)),
            rising(heights@),
            forall|h: u32| #[trigger] heights@.contains(h) <==> has_height(modes@.take(i as int), a, h),
            rising(rates@),
            forall|f: u32| #[trigger]
                rates@.contains(f) <==> has_rate(modes@.take(i as int), a, cur.height as u32, f),
        decreases modes.len() - i,
    {
        let m = &modes[i];
        let ghost before = modes@.take(i as int);
        let ghost upto = modes@.take(i as int + 1);
        assert(upto.drop_last() =~= before);
        assert(upto.last() == *m);
        assert(upto[i as int] == *m);
        let ghost had_heights = heights@;
        let ghost had_rates = rates@;
        let ma = aspect(m);
        if !contains(&aspects, ma) {
            aspects.push(ma);
        }
        if ma == a {
            insert_rising(&mut heights, m.height as u32);
            if m.height == cur.height {
                insert_rising(&mut rates, fps(m));
            }
        }
        proof {
            assert forall|h: u32| #[trigger] heights@.contains(h) <==> has_height(upto, a, h) by {
                if has_height(upto, a, h) {
                    let k = choose|k: int|
                        0 <= k < upto.len() && aspect_of(#[trigger] upto[k]) == a && upto[k].height == h;
                    if k < i {
                        assert(before[k] == upto[k]);
                        assert(has_height(before, a, h));
                        assert(had_heights.contains(h));
                    }
                }
                if heights@.contains(h) {
                    if had_heights.contains(h) {
                        let k = choose|k: int|
                            0 <= k < before.len() && aspect_of(#[trigger] before[k]) == a && before[k].height == h;
                        assert(upto[k] == before[k]);
                    }
                }
            }
            let ch = cur.height as u32;
            assert forall|f: u32| #[trigger] rates@.contains(f) <==> has_rate(upto, a, ch, f) by {
                if has_rate(upto, a, ch, f) {
                    let k = choose|k: int|
                        0 <= k < upto.len() && aspect_of(#[trigger] upto[k]) == a && upto[k].height == ch && fps_of(
                            upto[k],
                        ) == f;
                    if k < i {
                        assert(before[k] == upto[k]);
                        assert(has_rate(before, a, ch, f));
                        assert(had_rates.contains(f));
                    }
                }
                if rates@.contains(f) {
                    if had_rates.contains(f) {
                        let k = choose|k: int|
                            0 <= k < before.len() && aspect_of(#[trigger] before[k]) == a && before[k].height == ch
                                && fps_of(before[k]) == f;
                        assert(upto[k] == before[k]);
                    }
                }
            }
        }
        i = i + 1;
    }
    assert(modes@.take(i as int) =~= modes@);
    Choices { aspects, heights, rates }
}

fn contains(list: &Vec<Aspect>, a: Aspect) -> (r: bool)
    ensures
        r == list@.contains(a),
{
    let mut i: usize = 0;
    while i < list.len()
        invariant
            i <= list@.len(),
            forall|j: int| 0 <= j < i ==> list@[j] != a,
        decreases list.len() - i,
    {
        if list[i] == a {
            return true;
        }
        i = i + 1;
    }
    false
}

/// How far a mode is from what is wanted: first another ratio, then lines, then frames per second.
pub open spec fn distance(m: lenny_mode, a: Aspect, h: u32, f: u32) -> (int, int, int) {
    (
        if aspect_of(m) == a {
            0
        } else {
            1
        },
        if m.height >= h {
            m.height - h
        } else {
            h - m.height
        },
        if fps_of(m) >= f {
            fps_of(m) - f
        } else {
            f - fps_of(m)
        },
    )
}

/// The order of distances.
pub open spec fn nearer(x: (int, int, int), y: (int, int, int)) -> bool {
    x.0 < y.0 || (x.0 == y.0 && (x.1 < y.1 || (x.1 == y.1 && x.2 < y.2)))
}

/// `i` is the first of the nearest modes.
pub open spec fn is_nearest(modes: Seq<lenny_mode>, i: int, a: Aspect, h: u32, f: u32) -> bool {
    &&& 0 <= i < modes.len()
    &&& forall|j: int|
        0 <= j < modes.len() ==> !nearer(distance(#[trigger] modes[j], a, h, f), distance(modes[i], a, h, f))
    &&& forall|j: int| 0 <= j < i ==> nearer(distance(modes[i], a, h, f), distance(#[trigger] modes[j], a, h, f))
}

fn is_nearer(m: &lenny_mode, than: &lenny_mode, a: Aspect, h: u32, f: u32) -> (r: bool)
    ensures
        r == nearer(distance(*m, a, h, f), distance(*than, a, h, f)),
{
    let (x0, y0) = (aspect(m) == a, aspect(than) == a);
    if x0 != y0 {
        return x0;
    }
    let x1: u32 = apart(m.height as u32, h);
    let y1: u32 = apart(than.height as u32, h);
    if x1 != y1 {
        return x1 < y1;
    }
    apart(fps(m), f) < apart(fps(than), f)
}

fn apart(x: u32, y: u32) -> (d: u32)
    ensures
        d == (if x >= y {
            x - y
        } else {
            y - x
        }),
{
    if x >= y {
        x - y
    } else {
        y - x
    }
}

/// The mode nearest to ratio `a`, `h` lines and `f` frames per second; of several the first.
pub fn nearest(modes: &[lenny_mode], a: Aspect, h: u32, f: u32) -> (r: Option<lenny_mode>)
    ensures
        r is None <==> modes@.len() == 0,
        r matches Some(m) ==> exists|i: int| #[trigger] is_nearest(modes@, i, a, h, f) && modes@[i] == m,
{
    if modes.len() == 0 {
        return None;
    }
    let mut best: usize = 0;
    let mut i: usize = 1;
    while i < modes.len()
        invariant
            1 <= i <= modes@.len(),
            best < i,
            forall|j: int|
                0 <= j < i ==> !nearer(
                    distance(#[trigger] modes@[j], a, h, f),
                    distance(modes@[best as int], a, h, f),
                ),
            forall|j: int|
                0 <= j < best ==> nearer(
                    distance(modes@[best as int], a, h, f),
                    distance(#[trigger] modes@[j], a, h, f),
                ),
        decreases modes.len() - i,
    {
        if is_nearer(&modes[i], &modes[best], a, h, f) {
            best = i;
        }
        i = i + 1;
    }
    assert(is_nearest(modes@, best as int, a, h, f));
    Some(modes[best])
}

/// A choice that is on offer is met: a ratio that some mode has; with it lines that a mode of that ratio has; with
/// both a rate that such a mode has.
pub proof fn law_an_offered_choice_is_met(modes: Seq<lenny_mode>, i: int, a: Aspect, h: u32, f: u32)
    requires
        is_nearest(modes, i, a, h, f),
    ensures
        aspects_of(modes).contains(a) ==> aspect_of(modes[i]) == a,
        has_height(modes, a, h) ==> aspect_of(modes[i]) == a && modes[i].height == h,
        has_rate(modes, a, h, f) ==> aspect_of(modes[i]) == a && modes[i].height == h && fps_of(modes[i]) == f,
{
    if aspects_of(modes).contains(a) {
        lemma_aspects(modes, a);
        let k = choose|k: int| 0 <= k < modes.len() && aspect_of(#[trigger] modes[k]) == a;
        assert(!nearer(distance(modes[k], a, h, f), distance(modes[i], a, h, f)));
    }
    if has_height(modes, a, h) {
        let k = choose|k: int| 0 <= k < modes.len() && aspect_of(#[trigger] modes[k]) == a && modes[k].height == h;
        assert(!nearer(distance(modes[k], a, h, f), distance(modes[i], a, h, f)));
    }
    if has_rate(modes, a, h, f) {
        let k = choose|k: int|
            0 <= k < modes.len() && aspect_of(#[trigger] modes[k]) == a && modes[k].height == h && fps_of(modes[k])
                == f;
        assert(!nearer(distance(modes[k], a, h, f), distance(modes[i], a, h, f)));
    }
}

/// A ratio on offer is some mode's.
proof fn lemma_aspects(modes: Seq<lenny_mode>, a: Aspect)
    requires
        aspects_of(modes).contains(a),
    ensures
        exists|k: int| 0 <= k < modes.len() && aspect_of(#[trigger] modes[k]) == a,
    decreases modes.len(),
{
    if modes.len() > 0 {
        let n = modes.len() - 1;
        let front = modes.drop_last();
        if aspect_of(modes[n]) != a {
            let j = choose|j: int| 0 <= j < aspects_of(modes).len() && aspects_of(modes)[j] == a;
            assert(aspects_of(front)[j] == a);
            lemma_aspects(front, a);
            let k = choose|k: int| 0 <= k < front.len() && aspect_of(#[trigger] front[k]) == a;
            assert(modes[k] == front[k]);
        }
    }
}

/// The modes to pick from: those of the selected lens, or those of the phone where that lens has none of its own.
pub open spec fn modes_on_offer(
    lens_modes: Seq<Seq<lenny_mode>>,
    modes: Seq<lenny_mode>,
    lens_id: u8,
) -> Seq<lenny_mode> {
    if lens_id < lens_modes.len() && lens_modes[lens_id as int].len() > 0 {
        lens_modes[lens_id as int]
    } else {
        modes
    }
}

/// The modes of each lens.
pub open spec fn lens_modes_of(c: Caps) -> Seq<Seq<lenny_mode>> {
    Seq::new(c.lenses@.len(), |i: int| c.lenses@[i].modes@)
}

pub fn offered(caps: &Caps, lens_id: u8) -> (r: &Vec<lenny_mode>)
    ensures
        r@ == modes_on_offer(lens_modes_of(*caps), caps.modes@, lens_id),
{
    let i: usize = lens_id as usize;
    if i < caps.lenses.len() && caps.lenses[i].modes.len() > 0 {
        &caps.lenses[i].modes
    } else {
        &caps.modes
    }
}

/// What was clicked in the video card: places in the lists of `Choices`.
#[derive(Clone, Copy, Debug, PartialEq, Eq, Structural)]
pub struct Clicks {
    pub aspect: Option<usize>,
    pub height: Option<usize>,
    pub rate: Option<usize>,
}

/// A ratio, lines and frames per second.
#[derive(Clone, Copy, Debug, PartialEq, Eq, Structural)]
pub struct Wish {
    pub aspect: Aspect,
    pub height: u32,
    pub rate: u32,
}

/// What the clicks want: of several the last in the card counts. The rest stays as it is.
pub open spec fn wanted(c: Choices, cur: lenny_mode, k: Clicks) -> Option<Wish> {
    match (k.rate, k.height, k.aspect) {
        (Some(i), _, _) => Some(
            Wish { aspect: aspect_of(cur), height: cur.height as u32, rate: c.rates@[i as int] },
        ),
        (None, Some(i), _) => Some(
            Wish { aspect: aspect_of(cur), height: c.heights@[i as int], rate: fps_of(cur) },
        ),
        (None, None, Some(i)) => Some(
            Wish { aspect: c.aspects@[i as int], height: cur.height as u32, rate: fps_of(cur) },
        ),
        (None, None, None) => None,
    }
}

/// `r` is what to ask for where the mode at `i` is the nearest: that mode, unless it is streamed already.
pub open spec fn picks(modes: Seq<lenny_mode>, i: int, cur: lenny_mode, w: Wish, r: Option<lenny_mode>) -> bool {
    &&& is_nearest(modes, i, w.aspect, w.height, w.rate)
    &&& r == (if modes[i] != cur {
        Some(modes[i])
    } else {
        None
    })
}

/// `r` is what to ask for where `w` is wanted.
pub open spec fn is_pick(modes: Seq<lenny_mode>, cur: lenny_mode, w: Option<Wish>, r: Option<lenny_mode>) -> bool {
    if w is Some {
        exists|i: int| #[trigger] picks(modes, i, cur, w->0, r)
    } else {
        r is None
    }
}

/// The mode to ask for after the clicks.
pub fn pick(modes: &[lenny_mode], c: &Choices, cur: &lenny_mode, k: Clicks) -> (r: Option<lenny_mode>)
    requires
        modes@.len() > 0,
        k.aspect matches Some(i) ==> i < c.aspects@.len(),
        k.height matches Some(i) ==> i < c.heights@.len(),
        k.rate matches Some(i) ==> i < c.rates@.len(),
    ensures
        is_pick(modes@, *cur, wanted(*c, *cur, k), r),
{
    let a = aspect(cur);
    let h: u32 = cur.height as u32;
    let w = match k.rate {
        Some(i) => Wish { aspect: a, height: h, rate: c.rates[i] },
        None => match k.height {
            Some(i) => Wish { aspect: a, height: c.heights[i], rate: fps(cur) },
            None => match k.aspect {
                Some(i) => Wish { aspect: c.aspects[i], height: h, rate: fps(cur) },
                None => {
                    return None;
                },
            },
        },
    };
    match nearest(modes, w.aspect, w.height, w.rate) {
        Some(m) => {
            let ghost i = choose|i: int| #[trigger]
                is_nearest(modes@, i, w.aspect, w.height, w.rate) && modes@[i] == m;
            let r = if m != *cur {
                Some(m)
            } else {
                None
            };
            let ghost wish = wanted(*c, *cur, k);
            assert(wish->0 == w && picks(modes@, i, *cur, wish->0, r));
            r
        },
        None => None,
    }
}

/// The settings to ask for: those of the stream with another mode.
pub fn with_mode(s: &lenny_stream_settings, mode: lenny_mode) -> (r: lenny_stream_settings)
    ensures
        r == (lenny_stream_settings { mode, ..*s }),
{
    lenny_stream_settings { mode, ..*s }
}

} // verus!
