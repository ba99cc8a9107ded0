//! What holds of written numbers and bytes, character by character.
use vstd::arithmetic::div_mod::lemma_fundamental_div_mod_converse;
use vstd::prelude::*;

use crate::text::{
    base64_char, base64_value, base64url_text, decimal, digit, escaped, group24, hex_digit, hex_digit_upper, hex_value,
    percent_encoded,
};

verus! {

/// The digits of numbers.
pub proof fn law_the_digits()
    ensures
        forall|n: nat|
            n < 10 ==> #[trigger] digit(n) == seq!['0', '1', '2', '3', '4', '5', '6', '7', '8', '9'][n as int],
        forall|n: nat|
            n < 16 ==> #[trigger] hex_digit(n) == seq![
                '0',
                '1',
                '2',
                '3',
                '4',
                '5',
                '6',
                '7',
                '8',
                '9',
                'a',
                'b',
                'c',
                'd',
                'e',
                'f',
            ][n as int],
        forall|n: nat|
            n < 16 ==> #[trigger] hex_digit_upper(n) == seq![
                '0',
                '1',
                '2',
                '3',
                '4',
                '5',
                '6',
                '7',
                '8',
                '9',
                'A',
                'B',
                'C',
                'D',
                'E',
                'F',
            ][n as int],
        forall|n: nat| n < 16 ==> hex_value(#[trigger] hex_digit(n)) == Some(n as u8),
        forall|n: nat| n < 16 ==> hex_value(#[trigger] hex_digit_upper(n)) == Some(n as u8),
{
}

/// A number has no zero in front, and each of its digits counts ten times the next: one digit more multiplies by ten.
pub proof fn law_decimals_grow_by_digits(n: nat, d: nat)
    requires
        d < 10,
    ensures
        n > 0 ==> decimal(10 * n + d) == decimal(n).push(digit(d)),
        n == 0 ==> decimal(10 * n + d) == seq![digit(d)],
        n > 0 ==> decimal(n)[0] != '0',
    decreases n,
{
    if n >= 10 {
        law_decimals_grow_by_digits(n / 10, n % 10);
    }
}

/// A byte of a link stands for itself where it is a letter, a digit, `-`, `.`, `_` or `~`; any other is written as `%`
/// and two digits that give it in base sixteen.
pub proof fn law_bytes_are_escaped(b: u8)
    ensures
        ({
            let c = b as char;
            let plain = ('A' <= c <= 'Z') || ('a' <= c <= 'z') || ('0' <= c <= '9') || c == '-' || c == '.' || c == '_'
                || c == '~';
            &&& plain ==> escaped(b) == seq![c]
            &&& !plain ==> escaped(b).len() == 3 && escaped(b)[0] == '%' && hex_value(escaped(b)[1]) == Some(
                (b / 16) as u8,
            ) && hex_value(escaped(b)[2]) == Some((b % 16) as u8)
        }),
        percent_encoded(seq![b]) == escaped(b),
{
    assert(seq![b].skip(1) =~= Seq::<u8>::empty());
    assert(percent_encoded(seq![b].skip(1)) =~= Seq::<char>::empty());
    assert(percent_encoded(seq![b]) =~= escaped(b));
}

/// Bytes are escaped one by one, in order.
pub proof fn law_escaping_goes_byte_by_byte(a: Seq<u8>, b: Seq<u8>)
    ensures
        percent_encoded(a + b) == percent_encoded(a) + percent_encoded(b),
    decreases a.len(),
{
    if a.len() == 0 {
        assert(a + b =~= b);
        assert(percent_encoded(a) + percent_encoded(b) =~= percent_encoded(b));
    } else {
        assert((a + b).skip(1) =~= a.skip(1) + b);
        law_escaping_goes_byte_by_byte(a.skip(1), b);
        assert(percent_encoded(a + b) =~= percent_encoded(a) + percent_encoded(b));
    }
}

/// The sixty-four characters: upper-case letters, lower-case letters, digits, `-` and `_`.
pub proof fn law_the_characters_of_base64(v: nat)
    requires
        v < 64,
    ensures
        ({
            let c = base64_char(v);
            &&& v < 26 ==> 'A' <= c <= 'Z' && c as int - 'A' as int == v
            &&& 26 <= v < 52 ==> 'a' <= c <= 'z' && c as int - 'a' as int == v - 26
            &&& 52 <= v < 62 ==> '0' <= c <= '9' && c as int - '0' as int == v - 52
            &&& v == 62 ==> c == '-'
            &&& v == 63 ==> c == '_'
        }),
        base64_value(base64_char(v)) == v,
{
}

proof fn lemma_six_bits(a: int, b: int, c: int)
    requires
        0 <= a < 256,
        0 <= b < 256,
        0 <= c < 256,
    ensures
        ({
            let n = 65536 * a + 256 * b + c;
            &&& n / 262144 == a / 4
            &&& n / 4096 % 64 == (a % 4) * 16 + b / 16
            &&& n / 64 % 64 == (b % 16) * 4 + c / 64
            &&& n % 64 == c % 64
        }),
{
    let (p, q) = (a / 4, a % 4);
    let (r, s) = (b / 16, b % 16);
    let (t, u) = (c / 64, c % 64);
    let n = 65536 * a + 256 * b + c;
    lemma_fundamental_div_mod_converse(n, 262144, p, 65536 * q + 4096 * r + 256 * s + 64 * t + u);
    lemma_fundamental_div_mod_converse(n, 4096, 64 * p + 16 * q + r, 256 * s + 64 * t + u);
    lemma_fundamental_div_mod_converse(64 * p + 16 * q + r, 64, p, 16 * q + r);
    lemma_fundamental_div_mod_converse(n, 64, 4096 * p + 1024 * q + 64 * r + 4 * s + t, u);
    lemma_fundamental_div_mod_converse(
        4096 * p + 1024 * q + 64 * r + 4 * s + t,
        64,
        64 * p + 16 * q + r,
        4 * s + t,
    );
}

/// Three bytes are four characters, six bits each from the top; what follows is written on its own.
pub proof fn law_three_bytes_are_four_characters(a: u8, b: u8, c: u8, rest: Seq<u8>)
    ensures
        base64url_text(seq![a, b, c] + rest) == seq![
            base64_char(a as nat / 4),
            base64_char((a as nat % 4) * 16 + b as nat / 16),
            base64_char((b as nat % 16) * 4 + c as nat / 64),
            base64_char(c as nat % 64),
        ] + base64url_text(rest),
{
    let all = seq![a, b, c] + rest;
    assert(all.skip(3) =~= rest);
    lemma_six_bits(a as int, b as int, c as int);
    assert(group24(all) == 65536 * a + 256 * b + c);
    assert(base64url_text(all) =~= seq![
        base64_char(a as nat / 4),
        base64_char((a as nat % 4) * 16 + b as nat / 16),
        base64_char((b as nat % 16) * 4 + c as nat / 64),
        base64_char(c as nat % 64),
    ] + base64url_text(rest));
}

/// One or two bytes at the end are two or three characters, without padding.
pub proof fn law_the_last_bytes_are_not_padded(a: u8, b: u8)
    ensures
        base64url_text(seq![a, b]) == seq![
            base64_char(a as nat / 4),
            base64_char((a as nat % 4) * 16 + b as nat / 16),
            base64_char((b as nat % 16) * 4),
        ],
        base64url_text(seq![a]) == seq![base64_char(a as nat / 4), base64_char((a as nat % 4) * 16)],
        base64url_text(Seq::empty()) == Seq::<char>::empty(),
{
    lemma_six_bits(a as int, b as int, 0);
    lemma_six_bits(a as int, 0, 0);
    let (two, one) = (seq![a, b], seq![a]);
    assert(group24(two) == 65536 * a + 256 * b);
    assert(group24(one) == 65536 * a);
    assert(base64url_text(two) =~= seq![
        base64_char(a as nat / 4),
        base64_char((a as nat % 4) * 16 + b as nat / 16),
        base64_char((b as nat % 16) * 4),
    ]);
    assert(base64url_text(one) =~= seq![base64_char(a as nat / 4), base64_char((a as nat % 4) * 16)]);
}

} // verus!
