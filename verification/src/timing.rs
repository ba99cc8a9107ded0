//! Clock sync over PING and PONG.
use vstd::prelude::*;

verus! {

/// How many samples the filter looks at.
pub const WINDOW: usize = 16;

pub const MS: i64 = 1000;

pub const SEC: i64 = 1_000_000;

/// A time that lies `d` after `t`, or the last time there is.
pub open spec fn later(t: i64, d: i64) -> i64 {
    if t + d > i64::MAX {
        i64::MAX
    } else if t + d < i64::MIN {
        i64::MIN
    } else {
        (t + d) as i64
    }
}

/// A time that lies `d` after `t`, or the last time there is.
pub fn time_later(t: i64, d: i64) -> (r: i64)
    ensures
        r == later(t, d),
{
    let x: i128 = t as i128 + d as i128;
    if x > i64::MAX as i128 {
        i64::MAX
    } else if x < i64::MIN as i128 {
        i64::MIN
    } else {
        x as i64
    }
}

/// Whether more than `d` has passed from `t` to `now`.
pub fn more_than(now: i64, t: i64, d: i64) -> (r: bool)
    ensures
        r == (now - t > d),
{
    now as i128 - t as i128 > d as i128
}

/// One PING and its PONG: the round trip time, and how far the remote clock is ahead of ours.
#[derive(Clone, Copy, Debug, PartialEq, Eq, Structural)]
pub struct Sample {
    pub rtt_us: i64,
    pub offset_us: i64,
}

/// `a / b`, rounded towards zero.
pub open spec fn div_to_zero(a: int, b: int) -> int {
    if a >= 0 {
        a / b
    } else {
        -((-a) / b)
    }
}

/// Time on the way: total time less the time that the remote side held the message.
pub open spec fn rtt_of(t1: i64, t2: i64, t3: i64, t4: i64) -> int {
    (t4 - t1) - (t3 - t2)
}

/// How far the remote clock is ahead, if both ways took as long.
pub open spec fn offset_of(t1: i64, t2: i64, t3: i64, t4: i64) -> int {
    div_to_zero((t2 - t1) + (t3 - t4), 2)
}

/// A sample counts if its round trip did not take less than no time, and its numbers are in range.
pub open spec fn sample_counts(t1: i64, t2: i64, t3: i64, t4: i64) -> bool {
    &&& 0 <= rtt_of(t1, t2, t3, t4) <= i64::MAX
    &&& i64::MIN <= offset_of(t1, t2, t3, t4) <= i64::MAX
}

/// The samples after one exchange: those that count, at most the last `WINDOW` of them.
pub open spec fn with_sample(s: Seq<Sample>, t1: i64, t2: i64, t3: i64, t4: i64) -> Seq<Sample> {
    if !sample_counts(t1, t2, t3, t4) {
        s
    } else {
        let all = s.push(
            Sample {
                rtt_us: rtt_of(t1, t2, t3, t4) as i64,
                offset_us: offset_of(t1, t2, t3, t4) as i64,
            },
        );
        if all.len() > WINDOW {
            all.skip(all.len() - WINDOW)
        } else {
            all
        }
    }
}

/// The sample with the shortest round trip; the first of several.
pub open spec fn best_sample(s: Seq<Sample>) -> Sample
    decreases s.len(),
{
    if s.len() <= 1 {
        s[0]
    } else {
        let b = best_sample(s.drop_last());
        if s.last().rtt_us < b.rtt_us {
            s.last()
        } else {
            b
        }
    }
}

/// Clock offset and round trip time, by the sample with the shortest round trip of the last
/// `WINDOW`: a message that was held up on the way says little about the clocks.
pub struct ClockSync {
    samples: Vec<Sample>,
}

impl View for ClockSync {
    type V = Seq<Sample>;

    closed spec fn view(&self) -> Seq<Sample> {
        self.samples@
    }
}

impl Default for ClockSync {
    fn default() -> (c: Self)
        ensures
            c@ == Seq::<Sample>::empty(),
    {
        ClockSync { samples: Vec::new() }
    }
}

impl ClockSync {
    #[verifier::type_invariant]
    spec fn wf(self) -> bool {
        self.samples@.len() <= WINDOW
    }

    /// Adds an exchange: PING sent at `t1` and answered PONG received at `t4` by our clock,
    /// received at `t2` and answered at `t3` by the remote clock.
    pub fn add(&mut self, t1: i64, t2: i64, t3: i64, t4: i64)
        ensures
            final(self)@ == with_sample(old(self)@, t1, t2, t3, t4),
    {
        proof {
            use_type_invariant(&*self);
        }
        let rtt: i128 = (t4 as i128 - t1 as i128) - (t3 as i128 - t2 as i128);
        let twice: i128 = (t2 as i128 - t1 as i128) + (t3 as i128 - t4 as i128);
        let offset: i128 = if twice >= 0 {
            twice / 2
        } else {
            -((-twice) / 2)
        };
        if rtt < 0 || rtt > i64::MAX as i128 || offset < i64::MIN as i128 || offset > i64::MAX as i128 {
            return;
        }
        let mut samples: Vec<Sample> = Vec::new();
        let mut i: usize = if self.samples.len() == WINDOW {
            1
        } else {
            0
        };
        let ghost first = i as int;
        while i < self.samples.len()
            invariant
                0 <= first <= i <= self.samples@.len(),
                samples@ == self.samples@.subrange(first, i as int),
            decreases self.samples.len() - i,
        {
            samples.push(self.samples[i]);
            i = i + 1;
            assert(samples@ =~= self.samples@.subrange(first, i as int));
        }
        let s = Sample { rtt_us: rtt as i64, offset_us: offset as i64 };
        samples.push(s);
        assert(samples@ =~= with_sample(self@, t1, t2, t3, t4));
        *self = ClockSync { samples };
    }

    /// Whether there is a sample.
    pub fn valid(&self) -> (r: bool)
        ensures
            r == (self@.len() > 0),
    {
        self.samples.len() > 0
    }

    fn best(&self) -> (r: Sample)
        requires
            self@.len() > 0,
        ensures
            r == best_sample(self@),
    {
        let mut b = self.samples[0];
        let mut i: usize = 1;
        let ghost all = self.samples@;
        assert(all.take(1).len() == 1 && all.take(1)[0] == all[0]);
        while i < self.samples.len()
            invariant
                1 <= i <= self.samples@.len(),
                all == self.samples@,
                b == best_sample(all.take(i as int)),
            decreases self.samples.len() - i,
        {
            assert(all.take(i + 1).drop_last() =~= all.take(i as int));
            if self.samples[i].rtt_us < b.rtt_us {
                b = self.samples[i];
            }
            i = i + 1;
        }
        assert(all.take(all.len() as int) =~= all);
        b
    }

    /// The round trip time, or -1 if it is not known.
    pub fn rtt_us(&self) -> (r: i64)
        ensures
            r == (if self@.len() > 0 {
                best_sample(self@).rtt_us as int
            } else {
                -1
            }),
    {
        if self.valid() {
            self.best().rtt_us
        } else {
            -1
        }
    }

    /// How far the remote clock is ahead of ours, or 0 if it is not known.
    pub fn offset_us(&self) -> (r: i64)
        ensures
            r == (if self@.len() > 0 {
                best_sample(self@).offset_us as int
            } else {
                0
            }),
    {
        if self.valid() {
            self.best().offset_us
        } else {
            0
        }
    }
}

/// The chosen sample is one of those in the window, and none of them has a shorter round trip.
pub proof fn law_best_sample_has_the_shortest_round_trip(s: Seq<Sample>)
    requires
        s.len() > 0,
    ensures
        s.contains(best_sample(s)),
        forall|i: int| 0 <= i < s.len() ==> best_sample(s).rtt_us <= #[trigger] s[i].rtt_us,
    decreases s.len(),
{
    if s.len() == 1 {
        assert(s[0] == best_sample(s));
    } else {
        let init = s.drop_last();
        law_best_sample_has_the_shortest_round_trip(init);
        let b = best_sample(init);
        let k = choose|k: int| 0 <= k < init.len() && init[k] == b;
        assert(s[k] == b);
        assert(s[s.len() - 1] == s.last());
        assert forall|i: int| 0 <= i < s.len() implies best_sample(s).rtt_us
            <= #[trigger] s[i].rtt_us by {
            if i < init.len() {
                assert(init[i] == s[i]);
            }
        }
    }
}

/// If the remote clock is ahead by `ahead` and both ways take `way`, the sample says exactly that.
pub proof fn law_symmetric_exchange_is_exact(t1: i64, way: int, held: int, ahead: int)
    requires
        0 <= way,
        0 <= held,
        i64::MIN <= ahead <= i64::MAX,
        i64::MIN <= t1 + way + ahead,
        t1 + way + ahead + held <= i64::MAX,
        t1 + way + held + way <= i64::MAX,
    ensures
        ({
            let t2 = (t1 + way + ahead) as i64;
            let t3 = (t1 + way + ahead + held) as i64;
            let t4 = (t1 + way + held + way) as i64;
            rtt_of(t1, t2, t3, t4) == 2 * way && offset_of(t1, t2, t3, t4) == ahead
        }),
{
}

/// Whatever each way takes, the sample tells the time on the way of both together, and how far the other clock is ahead
/// up to half of what one way took longer.
pub proof fn law_an_exchange_is_off_by_half_the_difference(t1: i64, there: int, held: int, back: int, ahead: int)
    requires
        0 <= there,
        0 <= held,
        0 <= back,
        i64::MIN <= t1 + there + ahead,
        t1 + there + ahead + held <= i64::MAX,
        t1 + there + held + back <= i64::MAX,
    ensures
        ({
            let t2 = (t1 + there + ahead) as i64;
            let t3 = (t1 + there + ahead + held) as i64;
            let t4 = (t1 + there + held + back) as i64;
            let off = 2 * (offset_of(t1, t2, t3, t4) - ahead);
            &&& rtt_of(t1, t2, t3, t4) == there + back
            &&& there - back - 1 <= off <= there - back + 1
        }),
{
}

/// Only an exchange that makes sense counts, and the last sixteen that do are kept, in order.
pub proof fn law_the_last_sixteen_exchanges_are_kept(s: Seq<Sample>, t1: i64, t2: i64, t3: i64, t4: i64)
    requires
        s.len() <= 16,
    ensures
        ({
            let n = with_sample(s, t1, t2, t3, t4);
            &&& (t4 - t1) - (t3 - t2) < 0 ==> n == s
            &&& n == s || {
                &&& n.len() == (if s.len() == 16 {
                    16
                } else {
                    s.len() + 1
                })
                &&& n.last().rtt_us == (t4 - t1) - (t3 - t2)
                &&& forall|i: int|
                    0 <= i < n.len() - 1 ==> #[trigger] n[i] == s[i + (if s.len() == 16 {
                        1int
                    } else {
                        0
                    })]
            }
        }),
{
}

/// A time lies as much later as was asked for, as long as there is such a time.
pub proof fn law_later_is_later(t: i64, d: i64)
    ensures
        i64::MIN <= t + d <= i64::MAX ==> later(t, d) == t + d,
        t + d > i64::MAX ==> later(t, d) == i64::MAX,
        t + d < i64::MIN ==> later(t, d) == i64::MIN,
{
}

} // verus!
