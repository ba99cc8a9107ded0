//! Text as the desktop writes and reads it: decimal and hexadecimal numbers, percent-encoding, unpadded base64url,
//! and UTF-8 with the bad parts replaced.
use vstd::prelude::*;
use vstd::utf8::{decode_utf8, valid_utf8};

verus! {

/// `String::push` appends one character.
pub assume_specification[ String::push ](s: &mut String, ch: char)
    ensures
        final(s)@ == old(s)@.push(ch),
;

/// What `String::from_utf8_lossy` makes of a byte string.
pub uninterp spec fn utf8_lossy(bytes: Seq<u8>) -> Seq<char>;

/// `String::from_utf8_lossy`: the bytes as text. Valid UTF-8 is decoded unchanged; what stands in for the parts that
/// are not valid is left to `utf8_lossy`.
#[verifier::external_body]
fn from_utf8_lossy(bytes: &[u8]) -> (text: String)
    ensures
        text@ == utf8_lossy(bytes@),
        valid_utf8(bytes@) ==> text@ == decode_utf8(bytes@),
{
    String::from_utf8_lossy(bytes).into_owned()
}

/// The bytes as text, with the parts that are not UTF-8 replaced.
pub fn lossy(bytes: &[u8]) -> (text: String)
    ensures
        text@ == utf8_lossy(bytes@),
        valid_utf8(bytes@) ==> text@ == decode_utf8(bytes@),
{
    from_utf8_lossy(bytes)
}

/// The characters of `text`, one by one.
pub fn chars_of(text: &str) -> (chars: Vec<char>)
    ensures
        chars@ == text@,
{
    let mut chars: Vec<char> = Vec::new();
    for c in iter: text.chars()
        invariant
            chars@.len() == iter.index(),
            iter.seq() == text@,
            forall|i: int| 0 <= i < chars@.len() ==> chars@[i] == iter.seq()[i],
    {
        chars.push(c);
    }
    assert(chars@ =~= text@);
    chars
}

/// The text made of `chars`.
pub fn text_of(chars: &[char]) -> (text: String)
    ensures
        text@ == chars@,
{
    let mut text = String::new();
    let mut i: usize = 0;
    while i < chars.len()
        invariant
            i <= chars@.len(),
            text@ == chars@.take(i as int),
        decreases chars.len() - i,
    {
        text.push(chars[i]);
        assert(chars@.take(i as int + 1) =~= chars@.take(i as int).push(chars@[i as int]));
        i = i + 1;
    }
    assert(chars@.take(i as int) =~= chars@);
    text
}

// ---- decimal ----

/// The decimal digit for `n`.
pub open spec fn digit(n: nat) -> char {
    (48 + n) as char
}

/// `n` in decimal, without leading zeros.
pub open spec fn decimal(n: nat) -> Seq<char>
    decreases n,
{
    if n < 10 {
        seq![digit(n)]
    } else {
        decimal(n / 10).push(digit(n % 10))
    }
}

/// Appends `n` in decimal.
pub fn push_decimal(out: &mut String, n: u32)
    ensures
        final(out)@ == old(out)@ + decimal(n as nat),
    decreases n,
{
    if n >= 10 {
        push_decimal(out, n / 10);
    }
    let d: u8 = 48 + (n % 10) as u8;
    out.push(d as char);
    assert(out@ =~= old(out)@ + decimal(n as nat));
}

/// `n` in decimal.
pub fn decimal_text(n: u32) -> (text: String)
    ensures
        text@ == decimal(n as nat),
{
    let mut text = String::new();
    push_decimal(&mut text, n);
    assert(text@ =~= decimal(n as nat));
    text
}

/// The number that decimal digits write.
pub open spec fn decimal_value(text: Seq<char>) -> nat
    decreases text.len(),
{
    if text.len() == 0 {
        0
    } else {
        10 * decimal_value(text.drop_last()) + (text.last() as nat - 48) as nat
    }
}

/// A number written in decimal reads back as itself.
pub proof fn law_decimal_reads_back(n: nat)
    ensures
        decimal_value(decimal(n)) == n,
        forall|i: int| 0 <= i < decimal(n).len() ==> '0' <= #[trigger] decimal(n)[i] <= '9',
        decimal(n).len() >= 1,
    decreases n,
{
    if n < 10 {
        assert(decimal(n).drop_last() =~= Seq::<char>::empty());
        assert(decimal_value(Seq::<char>::empty()) == 0);
        assert(decimal(n).last() == digit(n));
    } else {
        law_decimal_reads_back(n / 10);
        assert(decimal(n).drop_last() =~= decimal(n / 10));
        assert(decimal(n).last() == digit(n % 10));
    }
}

// ---- hexadecimal ----

/// The lower-case hexadecimal digit for `n`.
pub open spec fn hex_digit(n: nat) -> char {
    if n < 10 {
        (48 + n) as char
    } else {
        (87 + n) as char
    }
}

/// The upper-case hexadecimal digit for `n`.
pub open spec fn hex_digit_upper(n: nat) -> char {
    if n < 10 {
        (48 + n) as char
    } else {
        (55 + n) as char
    }
}

/// The value of a hexadecimal digit of either case.
pub open spec fn hex_value(c: char) -> Option<u8> {
    if '0' <= c <= '9' {
        Some((c as int - 48) as u8)
    } else if 'a' <= c <= 'f' {
        Some((c as int - 87) as u8)
    } else if 'A' <= c <= 'F' {
        Some((c as int - 55) as u8)
    } else {
        None
    }
}

/// The lower-case hexadecimal digit for `n`.
pub fn to_hex(n: u8) -> (c: char)
    requires
        n < 16,
    ensures
        c == hex_digit(n as nat),
{
    if n < 10 {
        (48 + n) as char
    } else {
        (87 + n) as char
    }
}

/// The upper-case hexadecimal digit for `n`.
pub fn to_hex_upper(n: u8) -> (c: char)
    requires
        n < 16,
    ensures
        c == hex_digit_upper(n as nat),
{
    if n < 10 {
        (48 + n) as char
    } else {
        (55 + n) as char
    }
}

/// The value of a hexadecimal digit, if `c` is one.
pub fn from_hex(c: char) -> (v: Option<u8>)
    ensures
        v == hex_value(c),
{
    let n: u32 = c as u32;
    if 48 <= n && n <= 57 {
        Some((n - 48) as u8)
    } else if 97 <= n && n <= 102 {
        Some((n - 87) as u8)
    } else if 65 <= n && n <= 70 {
        Some((n - 55) as u8)
    } else {
        None
    }
}

// ---- percent-encoding ----

/// Bytes that stand for themselves in a query value.
pub open spec fn unreserved(b: u8) -> bool {
    ||| 65 <= b <= 90
    ||| 97 <= b <= 122
    ||| 48 <= b <= 57
    ||| b == 45
    ||| b == 46
    ||| b == 95
    ||| b == 126
}

/// One byte of a query value.
pub open spec fn escaped(b: u8) -> Seq<char> {
    if unreserved(b) {
        seq![b as char]
    } else {
        seq!['%', hex_digit_upper(b as nat / 16), hex_digit_upper(b as nat % 16)]
    }
}

/// A query value: every byte that is not unreserved becomes `%XX`.
pub open spec fn percent_encoded(bytes: Seq<u8>) -> Seq<char>
    decreases bytes.len(),
{
    if bytes.len() == 0 {
        Seq::empty()
    } else {
        escaped(bytes[0]) + percent_encoded(bytes.skip(1))
    }
}

/// Appends `bytes` percent-encoded.
pub fn push_percent_encoded(out: &mut String, bytes: &[u8])
    ensures
        final(out)@ == old(out)@ + percent_encoded(bytes@),
{
    let mut i: usize = 0;
    assert(bytes@.skip(0) =~= bytes@);
    while i < bytes.len()
        invariant
            i <= bytes@.len(),
            out@ + percent_encoded(bytes@.skip(i as int)) == old(out)@ + percent_encoded(bytes@),
        decreases bytes.len() - i,
    {
        let b: u8 = bytes[i];
        let ghost before = out@;
        if (65 <= b && b <= 90) || (97 <= b && b <= 122) || (48 <= b && b <= 57) || b == 45 || b == 46 || b == 95 || b
            == 126 {
            out.push(b as char);
        } else {
            out.push('%');
            out.push(to_hex_upper(b / 16));
            out.push(to_hex_upper(b % 16));
        }
        assert(out@ =~= before + escaped(b));
        assert(bytes@.skip(i as int).skip(1) =~= bytes@.skip(i as int + 1));
        assert(out@ + percent_encoded(bytes@.skip(i as int + 1)) =~= before + percent_encoded(bytes@.skip(i as int)));
        i = i + 1;
    }
    assert(bytes@.skip(i as int) =~= Seq::<u8>::empty());
    assert(out@ + percent_encoded(bytes@.skip(i as int)) =~= out@);
}

/// What a reader of percent-encoding makes of `text`: `%XX` is the byte XX, any other character itself.
pub open spec fn percent_decoded(text: Seq<char>) -> Seq<u8>
    decreases text.len(),
{
    if text.len() == 0 {
        Seq::empty()
    } else if text[0] == '%' && text.len() >= 3 {
        seq![(16 * hex_value(text[1])->0 + hex_value(text[2])->0) as u8] + percent_decoded(text.skip(3))
    } else {
        seq![text[0] as u8] + percent_decoded(text.skip(1))
    }
}

/// Percent-encoding loses nothing: a reader gets the same bytes back.
pub proof fn law_percent_encoding_reads_back(bytes: Seq<u8>)
    ensures
        percent_decoded(percent_encoded(bytes)) == bytes,
    decreases bytes.len(),
{
    if bytes.len() > 0 {
        let rest = percent_encoded(bytes.skip(1));
        law_percent_encoding_reads_back(bytes.skip(1));
        let b = bytes[0];
        let text = escaped(b) + rest;
        if unreserved(b) {
            assert(text.skip(1) =~= rest);
        } else {
            assert(text.skip(3) =~= rest);
            assert(text[1] == hex_digit_upper(b as nat / 16));
            assert(text[2] == hex_digit_upper(b as nat % 16));
        }
        assert(bytes =~= seq![b] + bytes.skip(1));
    }
}

// ---- base64url ----

/// The base64url character for a value below 64.
pub open spec fn base64_char(v: nat) -> char {
    if v < 26 {
        (65 + v) as char
    } else if v < 52 {
        (71 + v) as char
    } else if v < 62 {
        (v - 4) as char
    } else if v == 62 {
        '-'
    } else {
        '_'
    }
}

/// The value of a base64url character.
pub open spec fn base64_value(c: char) -> nat {
    if 'A' <= c <= 'Z' {
        (c as nat - 65) as nat
    } else if 'a' <= c <= 'z' {
        (c as nat - 71) as nat
    } else if '0' <= c <= '9' {
        (c as nat + 4) as nat
    } else if c == '-' {
        62
    } else {
        63
    }
}

/// Up to three bytes as one big-endian number of 24 bits.
pub open spec fn group24(b: Seq<u8>) -> nat {
    (65536 * b[0] + (if b.len() > 1 {
        256 * b[1]
    } else {
        0
    }) + (if b.len() > 2 {
        b[2] as int
    } else {
        0
    })) as nat
}

/// Base64url without padding: each group of three bytes is four characters, a last group of one or two bytes is two
/// or three.
pub open spec fn base64url_text(b: Seq<u8>) -> Seq<char>
    decreases b.len(),
{
    if b.len() == 0 {
        Seq::empty()
    } else {
        let n = group24(b);
        let two = seq![base64_char(n / 262144), base64_char(n / 4096 % 64)];
        if b.len() == 1 {
            two
        } else if b.len() == 2 {
            two.push(base64_char(n / 64 % 64))
        } else {
            two.push(base64_char(n / 64 % 64)).push(base64_char(n % 64)) + base64url_text(b.skip(3))
        }
    }
}

/// The base64url character for a value below 64.
fn to_base64(v: u32) -> (c: char)
    requires
        v < 64,
    ensures
        c == base64_char(v as nat),
{
    if v < 26 {
        (65 + v as u8) as char
    } else if v < 52 {
        (71 + v as u8) as char
    } else if v < 62 {
        (v as u8 - 4) as char
    } else if v == 62 {
        '-'
    } else {
        '_'
    }
}

/// `b` in base64url, unpadded.
pub fn base64url(b: &[u8]) -> (text: String)
    ensures
        text@ == base64url_text(b@),
{
    let mut out = String::new();
    let mut i: usize = 0;
    assert(b@.skip(0) =~= b@);
    while i < b.len()
        invariant
            i <= b@.len(),
            out@ + base64url_text(b@.skip(i as int)) == base64url_text(b@),
        decreases b.len() - i,
    {
        let ghost before = out@;
        let ghost rest = b@.skip(i as int);
        let left: usize = b.len() - i;
        let second: u32 = if left > 1 {
            b[i + 1] as u32
        } else {
            0
        };
        let third: u32 = if left > 2 {
            b[i + 2] as u32
        } else {
            0
        };
        let n: u32 = 65536 * (b[i] as u32) + 256 * second + third;
        assert(n as nat == group24(rest));
        out.push(to_base64(n / 262144));
        out.push(to_base64(n / 4096 % 64));
        if left > 1 {
            out.push(to_base64(n / 64 % 64));
        }
        if left > 2 {
            out.push(to_base64(n % 64));
            assert(rest.skip(3) =~= b@.skip(i as int + 3));
            assert(out@ + base64url_text(b@.skip(i as int + 3)) =~= before + base64url_text(rest));
            i = i + 3;
        } else {
            assert(out@ =~= before + base64url_text(rest));
            i = b.len();
            assert(b@.skip(i as int) =~= Seq::<u8>::empty());
            assert(out@ + base64url_text(b@.skip(i as int)) =~= out@);
        }
    }
    assert(b@.skip(i as int) =~= Seq::<u8>::empty());
    assert(out@ + base64url_text(b@.skip(i as int)) =~= out@);
    out
}

/// What a reader of unpadded base64url makes of `text`.
pub open spec fn base64url_bytes(text: Seq<char>) -> Seq<u8>
    decreases text.len(),
{
    if text.len() < 2 {
        Seq::empty()
    } else {
        let n = 262144 * base64_value(text[0]) + 4096 * base64_value(text[1]) + (if text.len() > 2 {
            64 * base64_value(text[2])
        } else {
            0
        }) + (if text.len() > 3 {
            base64_value(text[3])
        } else {
            0
        });
        let one = seq![(n / 65536) as u8];
        if text.len() == 2 {
            one
        } else if text.len() == 3 {
            one.push((n / 256 % 256) as u8)
        } else {
            one.push((n / 256 % 256) as u8).push((n % 256) as u8) + base64url_bytes(text.skip(4))
        }
    }
}

/// The value of the character for `v` is `v`.
proof fn lemma_base64_char(v: nat)
    requires
        v < 64,
    ensures
        base64_value(base64_char(v)) == v,
{
}

/// A number of 24 bits is put together again from its four groups of six bits.
proof fn lemma_six_bits(n: nat)
    requires
        n < 16777216,
    ensures
        n / 262144 < 64,
        262144 * (n / 262144) + 4096 * (n / 4096 % 64) + 64 * (n / 64 % 64) + n % 64 == n,
        n % 64 == 0 ==> 262144 * (n / 262144) + 4096 * (n / 4096 % 64) + 64 * (n / 64 % 64) == n,
        n % 4096 == 0 ==> 262144 * (n / 262144) + 4096 * (n / 4096 % 64) == n,
{
}

/// A number of 24 bits falls apart into the three bytes that it is made of.
proof fn lemma_three_bytes(x: u8, y: u8, z: u8)
    ensures
        (65536 * x + 256 * y + z) / 65536 == x,
        (65536 * x + 256 * y + z) / 256 % 256 == y,
        (65536 * x + 256 * y + z) % 256 == z,
        65536 * x + 256 * y + z < 16777216,
        z == 0 ==> (65536 * x + 256 * y + z) % 64 == 0,
        y == 0 && z == 0 ==> (65536 * x + 256 * y + z) % 4096 == 0,
{
}

/// Base64url loses nothing: a reader gets the same bytes back.
pub proof fn law_base64url_reads_back(b: Seq<u8>)
    ensures
        base64url_bytes(base64url_text(b)) == b,
    decreases b.len(),
{
    if b.len() > 0 {
        let n = group24(b);
        let text = base64url_text(b);
        let y = if b.len() > 1 {
            b[1]
        } else {
            0
        };
        let z = if b.len() > 2 {
            b[2]
        } else {
            0
        };
        assert(n == 65536 * b[0] + 256 * y + z);
        lemma_three_bytes(b[0], y, z);
        lemma_six_bits(n);
        lemma_base64_char(n / 262144);
        lemma_base64_char(n / 4096 % 64);
        lemma_base64_char(n / 64 % 64);
        lemma_base64_char(n % 64);
        if b.len() >= 3 {
            law_base64url_reads_back(b.skip(3));
            assert(text.skip(4) =~= base64url_text(b.skip(3)));
            assert(base64url_bytes(text) =~= seq![b[0], b[1], b[2]] + b.skip(3));
            assert(b =~= seq![b[0], b[1], b[2]] + b.skip(3));
        } else {
            assert(base64url_bytes(text) =~= b);
        }
    } else {
        assert(base64url_bytes(base64url_text(b)) =~= b);
    }
}

} // verus!
