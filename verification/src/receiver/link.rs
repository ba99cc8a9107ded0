//! The pairing link, which the QR code carries and discovery answers with, and the addresses in it.
use vstd::prelude::*;
use vstd::utf8::encode_utf8;

use crate::bytes::same;
use crate::text::{
    base64_char, base64url, base64url_text, chars_of, decimal, digit, escaped, hex_digit_upper,
    law_percent_encoding_reads_back, percent_decoded, percent_encoded, push_decimal, push_percent_encoded, text_of,
    unreserved,
};

verus! {

/// The texts of a list of strings.
pub open spec fn texts(list: Seq<String>) -> Seq<Seq<char>> {
    Seq::new(list.len(), |i: int| list[i]@)
}

/// The bytes of the hosts, with a comma between two of them.
pub open spec fn joined(hosts: Seq<Seq<char>>) -> Seq<u8>
    decreases hosts.len(),
{
    if hosts.len() == 0 {
        Seq::empty()
    } else if hosts.len() == 1 {
        encode_utf8(hosts[0])
    } else {
        joined(hosts.drop_last()).push(44) + encode_utf8(hosts.last())
    }
}

/// The link `lenny://c?v=1&h=<ip>,<ip>&p=<port>&t=<token>&n=<name>`. Hosts, token and name are left out where there
/// are none. Values are percent-encoded; a port and a token have nothing to encode.
pub open spec fn pair_uri_text(hosts: Seq<Seq<char>>, port: u16, token: Option<Seq<u8>>, name: Seq<char>) -> Seq<char> {
    let h = if hosts.len() > 0 {
        "&h="@ + percent_encoded(joined(hosts))
    } else {
        Seq::empty()
    };
    let t = match token {
        Some(t) => "&t="@ + base64url_text(t),
        None => Seq::empty(),
    };
    let n = if name.len() > 0 {
        "&n="@ + percent_encoded(encode_utf8(name))
    } else {
        Seq::empty()
    };
    "lenny://c?v=1"@ + h + "&p="@ + decimal(port as nat) + t + n
}

/// A token's bytes.
pub open spec fn token_bytes(token: Option<&[u8; 16]>) -> Option<Seq<u8>> {
    match token {
        Some(t) => Some(t@),
        None => None,
    }
}

/// Appends the bytes of `more`.
fn append(out: &mut Vec<u8>, more: &[u8])
    ensures
        final(out)@ == old(out)@ + more@,
{
    out.extend_from_slice(more);
    assert(out@ =~= old(out)@ + more@);
}

/// The hosts' bytes with a comma between two of them.
fn join_hosts(hosts: &[String]) -> (r: Vec<u8>)
    ensures
        r@ == joined(texts(hosts@)),
{
    let mut out: Vec<u8> = Vec::new();
    let mut i: usize = 0;
    assert(texts(hosts@).take(0) =~= Seq::<Seq<char>>::empty());
    while i < hosts.len()
        invariant
            i <= hosts@.len(),
            out@ == joined(texts(hosts@).take(i as int)),
        decreases hosts.len() - i,
    {
        let ghost upto = texts(hosts@).take(i as int + 1);
        assert(upto.drop_last() =~= texts(hosts@).take(i as int));
        if i > 0 {
            out.push(44);
        }
        append(&mut out, hosts[i].as_str().as_bytes());
        assert(out@ =~= joined(upto));
        i = i + 1;
    }
    assert(texts(hosts@).take(i as int) =~= texts(hosts@));
    out
}

/// The pairing link for a receiver that listens at `hosts` on `port`.
pub fn pair_uri(hosts: &[String], port: u16, token: Option<&[u8; 16]>, name: &str) -> (uri: String)
    ensures
        uri@ == pair_uri_text(texts(hosts@), port, token_bytes(token), name@),
{
    let mut out = String::new();
    out.append("lenny://c?v=1");
    let ghost start = "lenny://c?v=1"@;
    assert(out@ =~= start);
    if hosts.len() > 0 {
        out.append("&h=");
        let h = join_hosts(hosts);
        push_percent_encoded(&mut out, h.as_slice());
    }
    let ghost h = if hosts@.len() > 0 {
        "&h="@ + percent_encoded(joined(texts(hosts@)))
    } else {
        Seq::empty()
    };
    assert(out@ =~= start + h);
    out.append("&p=");
    push_decimal(&mut out, port as u32);
    let ghost before = out@;
    assert(before =~= start + h + "&p="@ + decimal(port as nat));
    if let Some(t) = token {
        out.append("&t=");
        let b = base64url(t.as_slice());
        out.append(b.as_str());
    }
    let ghost t = match token_bytes(token) {
        Some(t) => "&t="@ + base64url_text(t),
        None => Seq::empty(),
    };
    assert(out@ =~= before + t);
    if name.unicode_len() > 0 {
        out.append("&n=");
        push_percent_encoded(&mut out, name.as_bytes());
    }
    assert(out@ =~= pair_uri_text(texts(hosts@), port, token_bytes(token), name@));
    out
}

/// Percent-encoded text holds only unreserved characters and `%`, so a value can never be taken for the end of its
/// field, for another field or for the end of the link.
pub proof fn law_encoded_values_hold_no_separator(bytes: Seq<u8>)
    ensures
        forall|i: int|
            #![trigger percent_encoded(bytes)[i]]
            0 <= i < percent_encoded(bytes).len() ==> {
                let c = percent_encoded(bytes)[i];
                c == '%' || (exists|b: u8| unreserved(b) && c == b as char)
            },
    decreases bytes.len(),
{
    if bytes.len() > 0 {
        law_encoded_values_hold_no_separator(bytes.skip(1));
        let head = escaped(bytes[0]);
        assert forall|i: int|
            #![trigger percent_encoded(bytes)[i]]
            0 <= i < percent_encoded(bytes).len() implies ({
            let c = percent_encoded(bytes)[i];
            c == '%' || (exists|b: u8| unreserved(b) && c == b as char)
        }) by {
            let c = percent_encoded(bytes)[i];
            if i < head.len() {
                assert(c == head[i]);
                if unreserved(bytes[0]) {
                    assert(c == bytes[0] as char);
                } else if i > 0 {
                    let n = if i == 1 {
                        bytes[0] as nat / 16
                    } else {
                        bytes[0] as nat % 16
                    };
                    assert(c == hex_digit_upper(n));
                    let b = if n < 10 {
                        (48 + n) as u8
                    } else {
                        (55 + n) as u8
                    };
                    assert(unreserved(b) && c == b as char);
                }
            } else {
                assert(c == percent_encoded(bytes.skip(1))[i - head.len()]);
            }
        }
    }
}

/// A token takes 22 characters of a link.
pub proof fn law_a_token_takes_22_characters(token: Seq<u8>)
    requires
        token.len() == 16,
    ensures
        base64url_text(token).len() == 22,
{
    reveal_with_fuel(base64url_text, 7);
}

/// The text up to the next `&`.
pub open spec fn until_and(text: Seq<char>) -> Seq<char>
    decreases text.len(),
{
    if text.len() == 0 || text[0] == '&' {
        Seq::empty()
    } else {
        seq![text[0]] + until_and(text.skip(1))
    }
}

/// What a reader of a query finds under a key of one letter: the rest of the first field `key=...`.
pub open spec fn query_value(query: Seq<char>, key: char) -> Option<Seq<char>>
    decreases query.len(),
{
    let field = until_and(query);
    if field.len() >= 2 && field[0] == key && field[1] == '=' {
        Some(field.skip(2))
    } else if field.len() < query.len() {
        query_value(query.skip(field.len() as int + 1), key)
    } else {
        None
    }
}

spec fn no_and(text: Seq<char>) -> bool {
    forall|i: int| 0 <= i < text.len() ==> #[trigger] text[i] != '&'
}

proof fn lemma_until_and(field: Seq<char>, tail: Seq<char>)
    requires
        no_and(field),
        tail.len() == 0 || tail[0] == '&',
    ensures
        until_and(field + tail) == field,
    decreases field.len(),
{
    let text = field + tail;
    if field.len() > 0 {
        assert(text.skip(1) =~= field.skip(1) + tail);
        assert(text[0] == field[0]);
        assert forall|i: int| 0 <= i < field.skip(1).len() implies #[trigger] field.skip(1)[i] != '&' by {
            assert(field.skip(1)[i] == field[i + 1]);
        }
        lemma_until_and(field.skip(1), tail);
        assert(seq![field[0]] + field.skip(1) =~= field);
    } else {
        assert(text =~= tail);
    }
}

/// A reader looks at one field after the other.
proof fn lemma_field(field: Seq<char>, tail: Seq<char>, key: char)
    requires
        no_and(field),
        field.len() >= 2,
        field[1] == '=',
        tail.len() == 0 || tail[0] == '&',
    ensures
        query_value(field + tail, key) == (if field[0] == key {
            Some(field.skip(2))
        } else if tail.len() == 0 {
            None
        } else {
            query_value(tail.skip(1), key)
        }),
{
    lemma_until_and(field, tail);
    if tail.len() > 0 {
        assert((field + tail).skip(field.len() as int + 1) =~= tail.skip(1));
    }
}

proof fn lemma_encoded_has_no_and(bytes: Seq<u8>)
    ensures
        no_and(percent_encoded(bytes)),
{
    law_encoded_values_hold_no_separator(bytes);
    assert forall|i: int| 0 <= i < percent_encoded(bytes).len() implies #[trigger] percent_encoded(bytes)[i] != '&' by {
        let c = percent_encoded(bytes)[i];
        if c != '%' {
            let b = choose|b: u8| unreserved(b) && c == b as char;
            assert(unreserved(b) && c == b as char);
        }
    }
}

proof fn lemma_decimal_has_no_and(n: nat)
    ensures
        no_and(decimal(n)),
    decreases n,
{
    if n >= 10 {
        lemma_decimal_has_no_and(n / 10);
    }
    assert(digit(n % 10) != '&');
}

proof fn lemma_base64url_has_no_and(b: Seq<u8>)
    ensures
        no_and(base64url_text(b)),
    decreases b.len(),
{
    assert forall|v: nat| v < 64 implies #[trigger] base64_char(v) != '&' by {}
    if b.len() >= 3 {
        lemma_base64url_has_no_and(b.skip(3));
    }
}

/// A field behind the first: `&`, the key, `=` and the value.
spec fn piece(key: char, value: Option<Seq<char>>) -> Seq<char> {
    match value {
        Some(v) => seq!['&', key, '='] + v,
        None => Seq::empty(),
    }
}

proof fn lemma_piece(key: char, value: Option<Seq<char>>, tail: Seq<char>, asked: char)
    requires
        value matches Some(v) ==> no_and(v),
        key != '&',
        tail.len() == 0 || tail[0] == '&',
    ensures
        ({
            let all = piece(key, value) + tail;
            let after = if tail.len() == 0 {
                None
            } else {
                query_value(tail.skip(1), asked)
            };
            &&& all.len() == 0 || all[0] == '&'
            &&& value is None ==> all == tail
            &&& value matches Some(v) ==> query_value(all.skip(1), asked) == (if key == asked {
                Some(v)
            } else {
                after
            })
        }),
{
    let all = piece(key, value) + tail;
    match value {
        Some(v) => {
            let field = seq![key, '='] + v;
            assert forall|i: int| 0 <= i < field.len() implies #[trigger] field[i] != '&' by {
                if i >= 2 {
                    assert(field[i] == v[i - 2]);
                }
            }
            assert(all.skip(1) =~= field + tail);
            assert(field.skip(2) =~= v);
            lemma_field(field, tail, asked);
        },
        None => {
            assert(all =~= tail);
        },
    }
}

/// A reader of a link gets back what it was made from: the version, the hosts, the port, the token and the name, each
/// of them where there is one.
pub proof fn law_a_link_reads_back(hosts: Seq<Seq<char>>, port: u16, token: Option<Seq<u8>>, name: Seq<char>)
    ensures
        ({
            let link = pair_uri_text(hosts, port, token, name);
            let query = link.skip(10);
            &&& link.take(10) == "lenny://c?"@
            &&& query_value(query, 'v') == Some("1"@)
            &&& query_value(query, 'p') == Some(decimal(port as nat))
            &&& query_value(query, 'h') is Some <==> hosts.len() > 0
            &&& query_value(query, 'h') matches Some(v) ==> percent_decoded(v) == joined(hosts)
            &&& query_value(query, 't') == (match token {
                Some(t) => Some(base64url_text(t)),
                None => None,
            })
            &&& query_value(query, 'n') is Some <==> name.len() > 0
            &&& query_value(query, 'n') matches Some(v) ==> percent_decoded(v) == encode_utf8(name)
        }),
{
    reveal_strlit("lenny://c?v=1");
    reveal_strlit("lenny://c?");
    reveal_strlit("1");
    reveal_strlit("&h=");
    reveal_strlit("&p=");
    reveal_strlit("&t=");
    reveal_strlit("&n=");
    let link = pair_uri_text(hosts, port, token, name);
    let query = link.skip(10);
    let h = if hosts.len() > 0 {
        Some(percent_encoded(joined(hosts)))
    } else {
        None
    };
    let p = Some(decimal(port as nat));
    let t = match token {
        Some(t) => Some(base64url_text(t)),
        None => None,
    };
    let n = if name.len() > 0 {
        Some(percent_encoded(encode_utf8(name)))
    } else {
        None
    };
    lemma_encoded_has_no_and(joined(hosts));
    lemma_encoded_has_no_and(encode_utf8(name));
    lemma_decimal_has_no_and(port as nat);
    if let Some(t) = token {
        lemma_base64url_has_no_and(t);
    }
    law_percent_encoding_reads_back(joined(hosts));
    law_percent_encoding_reads_back(encode_utf8(name));
    let n_tail = piece('n', n) + Seq::empty();
    let t_tail = piece('t', t) + n_tail;
    let p_tail = piece('p', p) + t_tail;
    let h_tail = piece('h', h) + p_tail;
    let first = seq!['v', '=', '1'];
    assert(link.take(10) =~= "lenny://c?"@);
    assert(link =~= "lenny://c?v=1"@ + h_tail) by {
        assert("&h="@ =~= seq!['&', 'h', '=']);
        assert("&p="@ =~= seq!['&', 'p', '=']);
        assert("&t="@ =~= seq!['&', 't', '=']);
        assert("&n="@ =~= seq!['&', 'n', '=']);
    }
    assert(query =~= first + h_tail);
    assert(first.skip(2) =~= "1"@);
    assert forall|asked: char|
        asked == 'v' || asked == 'p' || asked == 'h' || asked == 't' || asked == 'n' implies #[trigger] query_value(
        query,
        asked,
    ) == (if asked == 'v' {
        Some("1"@)
    } else if asked == 'h' {
        h
    } else if asked == 'p' {
        p
    } else if asked == 't' {
        t
    } else {
        n
    }) by {
        lemma_piece('n', n, Seq::empty(), asked);
        lemma_piece('t', t, n_tail, asked);
        lemma_piece('p', p, t_tail, asked);
        lemma_piece('h', h, p_tail, asked);
        lemma_field(first, h_tail, asked);
    }
}

/// What discovery is asked with: `LENNY?1`.
pub open spec fn probe() -> Seq<u8> {
    seq![76, 69, 78, 78, 89, 63, 49]
}

/// The answer to a discovery datagram: the link without hosts (the sender knows where it asked) and without a token.
/// Anything but the probe gets no answer.
pub fn discovery_answer(datagram: &[u8], port: u16, name: &str) -> (answer: Option<String>)
    ensures
        answer is Some <==> datagram@ == probe(),
        answer matches Some(a) ==> a@ == pair_uri_text(Seq::empty(), port, None, name@),
{
    let ask: [u8; 7] = [76, 69, 78, 78, 89, 63, 49];
    assert(ask@ =~= probe());
    if same(datagram, ask.as_slice()) {
        let none: Vec<String> = Vec::new();
        let a = pair_uri(none.as_slice(), port, None, name);
        assert(texts(none@) =~= Seq::<Seq<char>>::empty());
        Some(a)
    } else {
        None
    }
}

/// Addresses that a phone could reach: not loopback (127.0.0.0/8), not link-local (169.254.0.0/16).
pub open spec fn reachable(octets: [u8; 4]) -> bool {
    octets[0] != 127 && !(octets[0] == 169 && octets[1] == 254)
}

/// An address in dotted decimal.
pub open spec fn dotted(o: [u8; 4]) -> Seq<char> {
    decimal(o[0] as nat) + "."@ + decimal(o[1] as nat) + "."@ + decimal(o[2] as nat) + "."@ + decimal(o[3] as nat)
}

/// The reachable ones of `addresses`, in order, as text.
pub open spec fn reachable_texts(addresses: Seq<[u8; 4]>) -> Seq<Seq<char>>
    decreases addresses.len(),
{
    if addresses.len() == 0 {
        Seq::empty()
    } else {
        let before = reachable_texts(addresses.drop_last());
        if reachable(addresses.last()) {
            before.push(dotted(addresses.last()))
        } else {
            before
        }
    }
}

/// An address in dotted decimal.
fn dotted_text(o: [u8; 4]) -> (text: String)
    ensures
        text@ == dotted(o),
{
    let mut text = String::new();
    push_decimal(&mut text, o[0] as u32);
    text.append(".");
    push_decimal(&mut text, o[1] as u32);
    text.append(".");
    push_decimal(&mut text, o[2] as u32);
    text.append(".");
    push_decimal(&mut text, o[3] as u32);
    assert(text@ =~= dotted(o));
    text
}

/// Of this machine's IPv4 addresses the ones that a phone could reach, in order, as text.
pub fn local_ipv4s(addresses: &[[u8; 4]]) -> (list: Vec<String>)
    ensures
        texts(list@) == reachable_texts(addresses@),
{
    let mut list: Vec<String> = Vec::new();
    let mut i: usize = 0;
    assert(texts(list@) =~= reachable_texts(addresses@.take(0)));
    while i < addresses.len()
        invariant
            i <= addresses@.len(),
            texts(list@) == reachable_texts(addresses@.take(i as int)),
        decreases addresses.len() - i,
    {
        let o: [u8; 4] = addresses[i];
        let ghost before = list@;
        let ghost upto = addresses@.take(i as int + 1);
        assert(upto.drop_last() =~= addresses@.take(i as int));
        assert(upto.last() == o);
        if o[0] != 127 && !(o[0] == 169 && o[1] == 254) {
            list.push(dotted_text(o));
            assert(texts(list@) =~= texts(before).push(dotted(o)));
        }
        i = i + 1;
    }
    assert(addresses@.take(i as int) =~= addresses@);
    list
}

/// White space: the characters with the Unicode property of that name.
pub open spec fn white_space(c: char) -> bool {
    let n = c as u32;
    ||| 0x9 <= n <= 0xd
    ||| n == 0x20
    ||| n == 0x85
    ||| n == 0xa0
    ||| n == 0x1680
    ||| 0x2000 <= n <= 0x200a
    ||| n == 0x2028
    ||| n == 0x2029
    ||| n == 0x202f
    ||| n == 0x205f
    ||| n == 0x3000
}

/// The text from its first character that is not white space.
pub open spec fn trimmed_start(text: Seq<char>) -> Seq<char>
    decreases text.len(),
{
    if text.len() > 0 && white_space(text[0]) {
        trimmed_start(text.skip(1))
    } else {
        text
    }
}

/// The text up to its last character that is not white space.
pub open spec fn trimmed_end(text: Seq<char>) -> Seq<char>
    decreases text.len(),
{
    if text.len() > 0 && white_space(text.last()) {
        trimmed_end(text.drop_last())
    } else {
        text
    }
}

/// The text without the white space at both ends.
pub open spec fn trimmed(text: Seq<char>) -> Seq<char> {
    trimmed_end(trimmed_start(text))
}

/// Whether `c` is white space.
fn is_white_space(c: char) -> (r: bool)
    ensures
        r == white_space(c),
{
    let n: u32 = c as u32;
    (0x9 <= n && n <= 0xd) || n == 0x20 || n == 0x85 || n == 0xa0 || n == 0x1680 || (0x2000 <= n && n <= 0x200a) || n
        == 0x2028 || n == 0x2029 || n == 0x202f || n == 0x205f || n == 0x3000
}

/// The text without the white space at both ends.
fn trim(text: &str) -> (r: String)
    ensures
        r@ == trimmed(text@),
{
    let chars = chars_of(text);
    let mut from: usize = 0;
    assert(text@.skip(0) =~= text@);
    while from < chars.len() && is_white_space(chars[from])
        invariant
            from <= chars@.len(),
            chars@ == text@,
            trimmed_start(chars@.skip(from as int)) == trimmed_start(text@),
        decreases chars.len() - from,
    {
        assert(chars@.skip(from as int).skip(1) =~= chars@.skip(from as int + 1));
        from = from + 1;
    }
    let ghost start = chars@.skip(from as int);
    assert(trimmed_start(text@) == start);
    let mut to: usize = chars.len();
    assert(chars@.subrange(from as int, to as int) =~= start);
    while to > from && is_white_space(chars[to - 1])
        invariant
            from <= to <= chars@.len(),
            trimmed_end(chars@.subrange(from as int, to as int)) == trimmed_end(start),
        decreases to - from,
    {
        assert(chars@.subrange(from as int, to as int).drop_last() =~= chars@.subrange(from as int, to - 1));
        to = to - 1;
    }
    text_of(&chars[from..to])
}

/// A name, or "Lenny Desktop" where there is none.
pub open spec fn named(name: Option<Seq<char>>) -> Seq<char> {
    match name {
        Some(n) => if n.len() > 0 {
            n
        } else {
            "Lenny Desktop"@
        },
        None => "Lenny Desktop"@,
    }
}

/// The text of a string that may not be there.
pub open spec fn text_view(s: Option<String>) -> Option<Seq<char>> {
    match s {
        Some(s) => Some(s@),
        None => None,
    }
}

/// The name to go by when trimming left `name`: itself, unless it is missing or empty.
pub fn name_or_default(name: Option<String>) -> (r: String)
    ensures
        r@ == named(text_view(name)),
{
    if let Some(n) = name {
        if n.as_str().unicode_len() > 0 {
            return n;
        }
    }
    let mut r = String::new();
    r.append("Lenny Desktop");
    assert(r@ =~= "Lenny Desktop"@);
    r
}

/// The first of three texts that is there.
pub open spec fn first_of(a: Option<Seq<char>>, b: Option<Seq<char>>, c: Option<Seq<char>>) -> Option<Seq<char>> {
    if a is Some {
        a
    } else if b is Some {
        b
    } else {
        c
    }
}

/// The name of a machine where these say what it is called.
pub open spec fn machine_name(
    computer: Option<Seq<char>>,
    host: Option<Seq<char>>,
    file: Option<Seq<char>>,
) -> Seq<char> {
    named(
        match first_of(computer, host, file) {
            Some(n) => Some(trimmed(n)),
            None => None,
        },
    )
}

/// This machine's name: COMPUTERNAME, else HOSTNAME, else what /etc/hostname holds; without white space around it.
pub fn host_name(computer: Option<String>, host: Option<String>, file: Option<String>) -> (r: String)
    ensures
        r@ == machine_name(text_view(computer), text_view(host), text_view(file)),
{
    let found = match computer {
        Some(c) => Some(c),
        None => match host {
            Some(h) => Some(h),
            None => file,
        },
    };
    match found {
        Some(n) => name_or_default(Some(trim(n.as_str()))),
        None => name_or_default(None),
    }
}

} // verus!
