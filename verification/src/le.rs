//! Little-endian integers as byte sequences.
use vstd::prelude::*;

verus! {

/// The `n` lowest bytes of `x`, least significant first.
pub open spec fn le_seq(x: nat, n: nat) -> Seq<u8>
    decreases n,
{
    if n == 0 {
        Seq::empty()
    } else {
        seq![(x % 256) as u8] + le_seq(x / 256, (n - 1) as nat)
    }
}

/// The number that `s` spells, least significant byte first.
pub open spec fn le_nat(s: Seq<u8>) -> nat
    decreases s.len(),
{
    if s.len() == 0 {
        0
    } else {
        s[0] as nat + 256 * le_nat(s.skip(1))
    }
}

/// 256 to the power `n`: how many numbers `n` bytes can hold.
pub open spec fn byte_range(n: nat) -> nat
    decreases n,
{
    if n == 0 {
        1
    } else {
        256 * byte_range((n - 1) as nat)
    }
}

pub proof fn lemma_le_seq_len(x: nat, n: nat)
    ensures
        le_seq(x, n).len() == n,
    decreases n,
{
    if n > 0 {
        lemma_le_seq_len(x / 256, (n - 1) as nat);
    }
}

/// Writing a number and reading it back gives the number, if the bytes can hold it.
pub proof fn lemma_le_nat_of_seq(x: nat, n: nat)
    requires
        x < byte_range(n),
    ensures
        le_nat(le_seq(x, n)) == x,
    decreases n,
{
    if n > 0 {
        let m = (n - 1) as nat;
        lemma_le_seq_len(x / 256, m);
        assert(x / 256 < byte_range(m));
        lemma_le_nat_of_seq(x / 256, m);
        assert(le_seq(x, n).skip(1) =~= le_seq(x / 256, m));
    }
}

/// Reading bytes as a number and writing it again gives the bytes.
pub proof fn lemma_le_seq_of_nat(s: Seq<u8>)
    ensures
        le_nat(s) < byte_range(s.len()),
        le_seq(le_nat(s), s.len()) == s,
    decreases s.len(),
{
    if s.len() > 0 {
        let t = s.skip(1);
        lemma_le_seq_of_nat(t);
        assert(le_nat(s) / 256 == le_nat(t));
        assert(le_nat(s) % 256 == s[0] as nat);
        assert(le_seq(le_nat(s), s.len()) =~= s);
    }
}

/// Two's complement: the unsigned number that shares its bits with `v`.
pub open spec fn wrap(v: int, range: nat) -> nat {
    if v < 0 {
        (v + range) as nat
    } else {
        v as nat
    }
}

/// The signed number that shares its bits with `x`.
pub open spec fn unwrap_signed(x: nat, range: nat) -> int {
    if 2 * x >= range {
        x - range
    } else {
        x as int
    }
}

/// An integer with a fixed width on the wire.
pub trait Le: Sized + Copy {
    /// How many bytes it takes.
    spec fn width() -> nat;

    /// Its bytes, least significant first.
    spec fn bytes(self) -> Seq<u8>;

    /// The integer that `width()` bytes spell.
    spec fn of_bytes(s: Seq<u8>) -> Self;

    proof fn lemma_bytes_then_of(self)
        ensures
            self.bytes().len() == Self::width(),
            Self::of_bytes(self.bytes()) == self,
    ;

    proof fn lemma_of_then_bytes(s: Seq<u8>)
        requires
            s.len() == Self::width(),
        ensures
            Self::of_bytes(s).bytes() == s,
    ;

    /// The integer in `v`, or `None` unless `v` has exactly its width.
    fn get(v: &[u8]) -> (r: Option<Self>)
        ensures
            r == (if v@.len() == Self::width() {
                Some(Self::of_bytes(v@))
            } else {
                None
            }),
    ;

    /// Appends the integer's bytes.
    fn put(self, out: &mut Vec<u8>)
        ensures
            final(out)@ == old(out)@ + self.bytes(),
    ;
}

/// An integer's bytes have its width and read back as the integer.
pub broadcast proof fn lemma_le<T: Le>(x: T)
    ensures
        (#[trigger] x.bytes()).len() == T::width(),
        T::of_bytes(x.bytes()) == x,
{
    x.lemma_bytes_then_of();
}

impl Le for u8 {
    open spec fn width() -> nat {
        1
    }

    open spec fn bytes(self) -> Seq<u8> {
        le_seq(self as nat, 1)
    }

    open spec fn of_bytes(s: Seq<u8>) -> Self {
        le_nat(s) as u8
    }

    proof fn lemma_bytes_then_of(self) {
        reveal_with_fuel(byte_range, 2);
        lemma_le_seq_len(self as nat, 1);
        lemma_le_nat_of_seq(self as nat, 1);
    }

    proof fn lemma_of_then_bytes(s: Seq<u8>) {
        reveal_with_fuel(byte_range, 2);
        lemma_le_seq_of_nat(s);
    }

    fn get(v: &[u8]) -> (r: Option<Self>) {
        if v.len() == 1 {
            proof {
                reveal_with_fuel(le_nat, 2);
            }
            Some(v[0])
        } else {
            None
        }
    }

    fn put(self, out: &mut Vec<u8>) {
        proof {
            reveal_with_fuel(le_seq, 2);
        }
        out.push(self);
        assert(out@ =~= old(out)@ + self.bytes());
    }
}

impl Le for u16 {
    open spec fn width() -> nat {
        2
    }

    open spec fn bytes(self) -> Seq<u8> {
        le_seq(self as nat, 2)
    }

    open spec fn of_bytes(s: Seq<u8>) -> Self {
        le_nat(s) as u16
    }

    proof fn lemma_bytes_then_of(self) {
        reveal_with_fuel(byte_range, 3);
        lemma_le_seq_len(self as nat, 2);
        lemma_le_nat_of_seq(self as nat, 2);
    }

    proof fn lemma_of_then_bytes(s: Seq<u8>) {
        reveal_with_fuel(byte_range, 3);
        lemma_le_seq_of_nat(s);
    }

    fn get(v: &[u8]) -> (r: Option<Self>) {
        if v.len() == 2 {
            proof {
                reveal_with_fuel(le_nat, 3);
            }
            Some(v[0] as u16 + 256 * (v[1] as u16))
        } else {
            None
        }
    }

    fn put(self, out: &mut Vec<u8>) {
        proof {
            reveal_with_fuel(le_seq, 3);
        }
        out.push((self % 256) as u8);
        out.push((self / 256) as u8);
        assert(out@ =~= old(out)@ + self.bytes());
    }
}

impl Le for u32 {
    open spec fn width() -> nat {
        4
    }

    open spec fn bytes(self) -> Seq<u8> {
        le_seq(self as nat, 4)
    }

    open spec fn of_bytes(s: Seq<u8>) -> Self {
        le_nat(s) as u32
    }

    proof fn lemma_bytes_then_of(self) {
        reveal_with_fuel(byte_range, 5);
        lemma_le_seq_len(self as nat, 4);
        lemma_le_nat_of_seq(self as nat, 4);
    }

    proof fn lemma_of_then_bytes(s: Seq<u8>) {
        reveal_with_fuel(byte_range, 5);
        lemma_le_seq_of_nat(s);
    }

    fn get(v: &[u8]) -> (r: Option<Self>) {
        if v.len() == 4 {
            proof {
                reveal_with_fuel(le_nat, 5);
            }
            Some(
                v[0] as u32 + 256 * (v[1] as u32) + 65536 * (v[2] as u32) + 16777216 * (
                v[3] as u32),
            )
        } else {
            None
        }
    }

    fn put(self, out: &mut Vec<u8>) {
        proof {
            reveal_with_fuel(le_seq, 5);
        }
        out.push((self % 256) as u8);
        out.push((self / 256 % 256) as u8);
        out.push((self / 65536 % 256) as u8);
        out.push((self / 16777216) as u8);
        assert(out@ =~= old(out)@ + self.bytes());
    }
}

impl Le for u64 {
    open spec fn width() -> nat {
        8
    }

    open spec fn bytes(self) -> Seq<u8> {
        le_seq(self as nat, 8)
    }

    open spec fn of_bytes(s: Seq<u8>) -> Self {
        le_nat(s) as u64
    }

    proof fn lemma_bytes_then_of(self) {
        reveal_with_fuel(byte_range, 9);
        lemma_le_seq_len(self as nat, 8);
        lemma_le_nat_of_seq(self as nat, 8);
    }

    proof fn lemma_of_then_bytes(s: Seq<u8>) {
        reveal_with_fuel(byte_range, 9);
        lemma_le_seq_of_nat(s);
    }

    fn get(v: &[u8]) -> (r: Option<Self>) {
        if v.len() == 8 {
            let low: u32 = match <u32 as Le>::get(&v[0..4]) {
                Some(x) => x,
                None => 0,
            };
            let high: u32 = match <u32 as Le>::get(&v[4..8]) {
                Some(x) => x,
                None => 0,
            };
            proof {
                reveal_with_fuel(byte_range, 5);
                lemma_le_seq_of_nat(v@.subrange(0, 4));
                lemma_le_seq_of_nat(v@.subrange(4, 8));
                lemma_le_nat_concat(v@.subrange(0, 4), v@.subrange(4, 8));
                assert(v@.subrange(0, 4) + v@.subrange(4, 8) =~= v@);
                assert(byte_range(4) == 4294967296);
                assert(le_nat(v@) == low as nat + 4294967296 * (high as nat));
            }
            let x: u64 = low as u64 + 4294967296 * (high as u64);
            assert(x == Self::of_bytes(v@));
            assert(v@.len() == Self::width());
            Some(x)
        } else {
            assert(v@.len() != Self::width());
            None
        }
    }

    fn put(self, out: &mut Vec<u8>) {
        let low: u32 = (self % 4294967296) as u32;
        let high: u32 = (self / 4294967296) as u32;
        low.put(out);
        high.put(out);
        proof {
            reveal_with_fuel(byte_range, 5);
            lemma_le_seq_concat(low as nat, high as nat, 4, 4);
            assert(byte_range(4) == 4294967296);
            assert(self as nat == low as nat + byte_range(4) * (high as nat));
            assert(self.bytes() == low.bytes() + high.bytes());
            assert(out@ =~= old(out)@ + self.bytes());
        }
    }
}

impl Le for i32 {
    open spec fn width() -> nat {
        4
    }

    open spec fn bytes(self) -> Seq<u8> {
        le_seq(wrap(self as int, 0x1_0000_0000), 4)
    }

    open spec fn of_bytes(s: Seq<u8>) -> Self {
        unwrap_signed(le_nat(s), 0x1_0000_0000) as i32
    }

    proof fn lemma_bytes_then_of(self) {
        reveal_with_fuel(byte_range, 5);
        lemma_le_seq_len(wrap(self as int, 0x1_0000_0000), 4);
        lemma_le_nat_of_seq(wrap(self as int, 0x1_0000_0000), 4);
    }

    proof fn lemma_of_then_bytes(s: Seq<u8>) {
        reveal_with_fuel(byte_range, 5);
        lemma_le_seq_of_nat(s);
    }

    fn get(v: &[u8]) -> (r: Option<Self>) {
        proof {
            reveal_with_fuel(byte_range, 5);
            lemma_le_seq_of_nat(v@);
        }
        match <u32 as Le>::get(v) {
            Some(x) => {
                if x >= 0x8000_0000 {
                    Some((x as i64 - 0x1_0000_0000) as i32)
                } else {
                    Some(x as i32)
                }
            },
            None => None,
        }
    }

    fn put(self, out: &mut Vec<u8>) {
        let x: u32 = if self < 0 {
            (self as i64 + 0x1_0000_0000) as u32
        } else {
            self as u32
        };
        x.put(out)
    }
}

impl Le for i64 {
    open spec fn width() -> nat {
        8
    }

    open spec fn bytes(self) -> Seq<u8> {
        le_seq(wrap(self as int, 0x1_0000_0000_0000_0000), 8)
    }

    open spec fn of_bytes(s: Seq<u8>) -> Self {
        unwrap_signed(le_nat(s), 0x1_0000_0000_0000_0000) as i64
    }

    proof fn lemma_bytes_then_of(self) {
        reveal_with_fuel(byte_range, 9);
        lemma_le_seq_len(wrap(self as int, 0x1_0000_0000_0000_0000), 8);
        lemma_le_nat_of_seq(wrap(self as int, 0x1_0000_0000_0000_0000), 8);
    }

    proof fn lemma_of_then_bytes(s: Seq<u8>) {
        reveal_with_fuel(byte_range, 9);
        lemma_le_seq_of_nat(s);
    }

    fn get(v: &[u8]) -> (r: Option<Self>) {
        proof {
            reveal_with_fuel(byte_range, 9);
            lemma_le_seq_of_nat(v@);
        }
        match <u64 as Le>::get(v) {
            Some(x) => {
                if x >= 0x8000_0000_0000_0000 {
                    Some((x as i128 - 0x1_0000_0000_0000_0000) as i64)
                } else {
                    Some(x as i64)
                }
            },
            None => None,
        }
    }

    fn put(self, out: &mut Vec<u8>) {
        let x: u64 = if self < 0 {
            (self as i128 + 0x1_0000_0000_0000_0000) as u64
        } else {
            self as u64
        };
        x.put(out)
    }
}

proof fn lemma_le_nat_concat(a: Seq<u8>, b: Seq<u8>)
    ensures
        le_nat(a + b) == le_nat(a) + byte_range(a.len()) * le_nat(b),
    decreases a.len(),
{
    if a.len() == 0 {
        assert(a + b =~= b);
        let y = le_nat(b);
        assert(byte_range(0) == 1);
        assert(1 * y == y) by (nonlinear_arith);
    } else {
        let t = a.skip(1);
        lemma_le_nat_concat(t, b);
        assert((a + b).skip(1) =~= t + b);
        let r = byte_range(t.len());
        let y = le_nat(b);
        assert(256 * (r * y) == (256 * r) * y) by (nonlinear_arith);
    }
}

proof fn lemma_le_seq_concat(x: nat, y: nat, n: nat, m: nat)
    requires
        x < byte_range(n),
    ensures
        le_seq(x + byte_range(n) * y, n + m) == le_seq(x, n) + le_seq(y, m),
    decreases n,
{
    if n == 0 {
        assert(le_seq(x, n) + le_seq(y, m) =~= le_seq(y, m));
    } else {
        let k = (n - 1) as nat;
        let r = byte_range(k);
        let z = x + byte_range(n) * y;
        assert((256 * r) * y == 256 * (r * y)) by (nonlinear_arith);
        assert(z % 256 == x % 256);
        assert(z / 256 == x / 256 + r * y);
        lemma_le_seq_concat(x / 256, y, k, m);
        assert((n + m - 1) as nat == k + m);
        assert(le_seq(z, n + m) =~= le_seq(x, n) + le_seq(y, m));
    }
}

} // verus!
