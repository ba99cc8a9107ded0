//! The phones allowed before: kept in a text file, one phone to a line.
use vstd::prelude::*;

use crate::text::{chars_of, from_hex, hex_digit, hex_value, text_of, to_hex};

verus! {

/// One phone: its device id and the name that it goes by.
#[derive(Clone, Debug)]
pub struct Known {
    pub id: [u8; 16],
    pub name: String,
}

impl View for Known {
    type V = (Seq<u8>, Seq<char>);

    open spec fn view(&self) -> (Seq<u8>, Seq<char>) {
        (self.id@, self.name@)
    }
}

/// The contents of a list of phones.
pub open spec fn views(list: Seq<Known>) -> Seq<(Seq<u8>, Seq<char>)> {
    Seq::new(list.len(), |i: int| list[i]@)
}

/// A list of phones as a map from device id to name: of two entries with one id the later counts.
pub open spec fn map_of(list: Seq<(Seq<u8>, Seq<char>)>) -> Map<Seq<u8>, Seq<char>>
    decreases list.len(),
{
    if list.len() == 0 {
        Map::empty()
    } else {
        map_of(list.drop_last()).insert(list.last().0, list.last().1)
    }
}

/// The order of device ids: that of their first bytes that differ.
pub open spec fn before(a: Seq<u8>, b: Seq<u8>) -> bool {
    exists|k: int| #[trigger] differ_at(a, b, k) && a[k] < b[k]
}

/// `a` and `b` are the same up to `k` and differ there.
pub open spec fn differ_at(a: Seq<u8>, b: Seq<u8>, k: int) -> bool {
    0 <= k < 16 && a[k] != b[k] && forall|j: int| 0 <= j < k ==> a[j] == b[j]
}

/// Every id is before all later ones.
pub open spec fn sorted(list: Seq<(Seq<u8>, Seq<char>)>) -> bool {
    forall|i: int, j: int| 0 <= i < j < list.len() ==> before(#[trigger] list[i].0, #[trigger] list[j].0)
}

/// All ids have sixteen bytes.
pub open spec fn ids(list: Seq<(Seq<u8>, Seq<char>)>) -> bool {
    forall|i: int| 0 <= i < list.len() ==> (#[trigger] list[i]).0.len() == 16
}

/// An id is not before itself, and never both before and behind another.
proof fn lemma_before_is_strict(a: Seq<u8>, b: Seq<u8>)
    ensures
        !before(a, a),
        !(before(a, b) && before(b, a)),
{
    if before(a, b) && before(b, a) {
        let k = choose|k: int| #[trigger] differ_at(a, b, k) && a[k] < b[k];
        let l = choose|k: int| #[trigger] differ_at(b, a, k) && b[k] < a[k];
        assert(differ_at(a, b, k) && differ_at(b, a, l));
        if k < l {
            assert(b[k] == a[k]);
        } else if l < k {
            assert(a[l] == b[l]);
        }
    }
}

proof fn lemma_before_is_transitive(a: Seq<u8>, b: Seq<u8>, c: Seq<u8>)
    requires
        before(a, b),
        before(b, c),
    ensures
        before(a, c),
{
    let k = choose|k: int| #[trigger] differ_at(a, b, k) && a[k] < b[k];
    let l = choose|k: int| #[trigger] differ_at(b, c, k) && b[k] < c[k];
    let m = if k < l {
        k
    } else {
        l
    };
    assert(differ_at(a, c, m) && a[m] < c[m]);
}

/// Which of two device ids comes first.
enum Place {
    Before,
    Same,
    Behind,
}

fn place(a: &[u8; 16], b: &[u8; 16]) -> (r: Place)
    ensures
        match r {
            Place::Before => before(a@, b@),
            Place::Same => a@ == b@,
            Place::Behind => before(b@, a@),
        },
{
    let mut i: usize = 0;
    while i < 16
        invariant
            i <= 16,
            forall|j: int| 0 <= j < i ==> a@[j] == b@[j],
        decreases 16 - i,
    {
        if a[i] != b[i] {
            assert(differ_at(a@, b@, i as int) && differ_at(b@, a@, i as int));
            return if a[i] < b[i] {
                Place::Before
            } else {
                Place::Behind
            };
        }
        i = i + 1;
    }
    assert(a@ =~= b@);
    Place::Same
}

/// The map holds exactly what the list does, where no id stands twice.
proof fn lemma_map_of(list: Seq<(Seq<u8>, Seq<char>)>)
    requires
        sorted(list),
    ensures
        forall|i: int| #![trigger list[i]] 0 <= i < list.len() ==> map_of(list).contains_pair(list[i].0, list[i].1),
        forall|id: Seq<u8>| #[trigger]
            map_of(list).contains_key(id) ==> exists|i: int| 0 <= i < list.len() && (#[trigger] list[i]).0 == id,
    decreases list.len(),
{
    if list.len() > 0 {
        let front = list.drop_last();
        assert(sorted(front)) by {
            assert forall|i: int, j: int| 0 <= i < j < front.len() implies before(
                #[trigger] front[i].0,
                #[trigger] front[j].0,
            ) by {
                assert(front[i] == list[i] && front[j] == list[j]);
            }
        }
        lemma_map_of(front);
        let n = list.len() - 1;
        assert forall|i: int| #![trigger list[i]] 0 <= i < list.len() implies map_of(list).contains_pair(
            list[i].0,
            list[i].1,
        ) by {
            if i < n {
                assert(front[i] == list[i]);
                lemma_before_is_strict(list[i].0, list[n].0);
                assert(before(list[i].0, list[n].0));
            }
        }
        assert forall|id: Seq<u8>| #[trigger] map_of(list).contains_key(id) implies exists|i: int|
            0 <= i < list.len() && (#[trigger] list[i]).0 == id by {
            if id == list[n].0 {
                assert(list[n].0 == id);
            } else {
                assert(map_of(front).contains_key(id));
                let i = choose|i: int| 0 <= i < front.len() && (#[trigger] front[i]).0 == id;
                assert(list[i].0 == id);
            }
        }
    }
}

/// The phones allowed before, by device id.
pub struct KnownPhones {
    list: Vec<Known>,
}

impl View for KnownPhones {
    type V = Map<Seq<u8>, Seq<char>>;

    open spec fn view(&self) -> Map<Seq<u8>, Seq<char>> {
        map_of(self.entries())
    }
}

impl KnownPhones {
    /// The phones in the order of their ids.
    pub closed spec fn entries(&self) -> Seq<(Seq<u8>, Seq<char>)> {
        views(self.list@)
    }

    #[verifier::type_invariant]
    spec fn in_order(self) -> bool {
        sorted(views(self.list@))
    }

    /// No phones.
    pub fn new() -> (r: KnownPhones)
        ensures
            r@ == Map::<Seq<u8>, Seq<char>>::empty(),
            r.entries().len() == 0,
    {
        let list: Vec<Known> = Vec::new();
        assert(views(list@).len() == 0);
        KnownPhones { list }
    }

    /// Where `id` stands, or where it would have to.
    fn position(&self, id: &[u8; 16]) -> (r: (usize, bool))
        ensures
            r.0 <= self.list@.len(),
            r.1 ==> r.0 < self.list@.len() && self.list@[r.0 as int].id@ == id@,
            forall|i: int| 0 <= i < r.0 ==> before(#[trigger] self.list@[i].id@, id@),
            forall|i: int|
                (if r.1 {
                    r.0 < i
                } else {
                    r.0 <= i
                }) && i < self.list@.len() ==> before(id@, #[trigger] self.list@[i].id@),
    {
        proof {
            use_type_invariant(self);
        }
        let mut i: usize = 0;
        while i < self.list.len()
            invariant
                i <= self.list@.len(),
                sorted(views(self.list@)),
                forall|j: int| 0 <= j < i ==> before(#[trigger] self.list@[j].id@, id@),
            decreases self.list.len() - i,
        {
            let ghost v = views(self.list@);
            match place(&self.list[i].id, id) {
                Place::Before => {
                    i = i + 1;
                },
                Place::Same => {
                    assert forall|j: int| i < j < self.list@.len() implies before(
                        id@,
                        #[trigger] self.list@[j].id@,
                    ) by {
                        assert(before(v[i as int].0, v[j].0));
                    }
                    return (i, true);
                },
                Place::Behind => {
                    assert forall|j: int| i <= j < self.list@.len() implies before(
                        id@,
                        #[trigger] self.list@[j].id@,
                    ) by {
                        if i < j {
                            assert(before(v[i as int].0, v[j].0));
                            lemma_before_is_transitive(id@, v[i as int].0, v[j].0);
                        }
                    }
                    return (i, false);
                },
            }
        }
        (i, false)
    }

    /// Remembers a phone under `name`, whatever it was called before.
    pub fn insert(&mut self, id: [u8; 16], name: String)
        ensures
            final(self)@ == old(self)@.insert(id@, name@),
    {
        let (at, found) = self.position(&id);
        proof {
            use_type_invariant(&*self);
        }
        let ghost was = views(self.list@);
        let mut list: Vec<Known> = Vec::new();
        std::mem::swap(&mut list, &mut self.list);
        let ghost lv = list@;
        if found {
            list.remove(at);
        }
        let ghost mid = list@;
        list.insert(at, Known { id, name });
        let ghost now = views(list@);
        proof {
            let gap: int = if found {
                1
            } else {
                0
            };
            let old_at = |i: int| -> int {
                if i < at {
                    i
                } else {
                    i - 1 + gap
                }
            };
            assert forall|i: int| 0 <= i < now.len() && i != at implies #[trigger] now[i] == was[old_at(i)] && 0
                <= old_at(i) < was.len() by {
                if found {
                    if i < at {
                        assert(mid[i] == lv[i]);
                    } else {
                        assert(mid[i - 1] == lv[i]);
                    }
                }
            }
            assert(now[at as int] == (id@, name@));
            assert forall|i: int, j: int| 0 <= i < j < now.len() implies before(
                #[trigger] now[i].0,
                #[trigger] now[j].0,
            ) by {
                if i == at {
                    assert(now[j] == was[old_at(j)]);
                    assert(was[old_at(j)].0 == lv[old_at(j)].id@);
                } else if j == at {
                    assert(now[i] == was[old_at(i)]);
                    assert(was[old_at(i)].0 == lv[old_at(i)].id@);
                } else {
                    assert(now[i] == was[old_at(i)] && now[j] == was[old_at(j)]);
                }
            }
            lemma_map_of(was);
            lemma_map_of(now);
            let want = map_of(was).insert(id@, name@);
            assert forall|k: Seq<u8>| map_of(now).contains_key(k) implies #[trigger] want.contains_key(k)
                && want[k] == map_of(now)[k] by {
                let i = choose|i: int| 0 <= i < now.len() && (#[trigger] now[i]).0 == k;
                assert(map_of(now).contains_pair(now[i].0, now[i].1));
                if i != at {
                    assert(now[i] == was[old_at(i)]);
                    assert(map_of(was).contains_pair(was[old_at(i)].0, was[old_at(i)].1));
                    lemma_before_is_strict(k, id@);
                    assert(before(now[i].0, now[at as int].0) || before(now[at as int].0, now[i].0));
                }
            }
            assert forall|k: Seq<u8>| #[trigger] want.contains_key(k) implies map_of(now).contains_key(k) by {
                if k == id@ {
                    assert(map_of(now).contains_pair(now[at as int].0, now[at as int].1));
                } else {
                    let i = choose|i: int| 0 <= i < was.len() && (#[trigger] was[i]).0 == k;
                    if found && i == at {
                        assert(was[i].0 == lv[i].id@);
                    }
                    let l = if i < at {
                        i
                    } else {
                        i + 1 - gap
                    };
                    assert(now[l] == was[old_at(l)]);
                    assert(map_of(now).contains_pair(now[l].0, now[l].1));
                }
            }
            assert(map_of(now) =~= want);
        }
        *self = KnownPhones { list };
    }

    /// Stops remembering a phone.
    pub fn remove(&mut self, id: &[u8; 16])
        ensures
            final(self)@ == old(self)@.remove(id@),
    {
        let (at, found) = self.position(id);
        proof {
            use_type_invariant(&*self);
        }
        let ghost was = views(self.list@);
        let mut list: Vec<Known> = Vec::new();
        std::mem::swap(&mut list, &mut self.list);
        let ghost lv = list@;
        if found {
            list.remove(at);
        }
        let ghost now = views(list@);
        proof {
            let old_at = |i: int| -> int {
                if found && i >= at {
                    i + 1
                } else {
                    i
                }
            };
            assert forall|i: int| 0 <= i < now.len() implies #[trigger] now[i] == was[old_at(i)] && 0 <= old_at(i)
                < was.len() by {
                assert(list@[i] == lv[old_at(i)]);
            }
            assert forall|i: int, j: int| 0 <= i < j < now.len() implies before(
                #[trigger] now[i].0,
                #[trigger] now[j].0,
            ) by {
                assert(now[i] == was[old_at(i)] && now[j] == was[old_at(j)]);
            }
            lemma_map_of(was);
            lemma_map_of(now);
            let want = map_of(was).remove(id@);
            assert forall|k: Seq<u8>| map_of(now).contains_key(k) implies #[trigger] want.contains_key(k)
                && want[k] == map_of(now)[k] by {
                let i = choose|i: int| 0 <= i < now.len() && (#[trigger] now[i]).0 == k;
                assert(map_of(now).contains_pair(now[i].0, now[i].1));
                assert(now[i] == was[old_at(i)]);
                assert(map_of(was).contains_pair(was[old_at(i)].0, was[old_at(i)].1));
                assert(was[old_at(i)].0 == lv[old_at(i)].id@);
                lemma_before_is_strict(k, id@);
            }
            assert forall|k: Seq<u8>| #[trigger] want.contains_key(k) implies map_of(now).contains_key(k) by {
                let i = choose|i: int| 0 <= i < was.len() && (#[trigger] was[i]).0 == k;
                assert(was[i].0 == lv[i].id@);
                let l = if found && i > at {
                    i - 1
                } else {
                    i
                };
                assert(now[l] == was[old_at(l)]);
                assert(map_of(now).contains_pair(now[l].0, now[l].1));
            }
            assert(map_of(now) =~= want);
        }
        *self = KnownPhones { list };
    }

    /// The phones in the order of their ids, none of them twice.
    pub fn known_phones(&self) -> (r: Vec<Known>)
        ensures
            views(r@) == self.entries(),
            sorted(self.entries()),
    {
        proof {
            use_type_invariant(self);
        }
        let mut r: Vec<Known> = Vec::new();
        let mut i: usize = 0;
        while i < self.list.len()
            invariant
                i <= self.list@.len(),
                views(r@) == views(self.list@).take(i as int),
            decreases self.list.len() - i,
        {
            let k = Known { id: self.list[i].id, name: self.list[i].name.clone() };
            let ghost so_far = r@;
            r.push(k);
            assert(views(r@) =~= views(so_far).push(self.list@[i as int]@));
            assert(views(self.list@).take(i as int + 1) =~= views(self.list@).take(i as int).push(
                self.list@[i as int]@,
            ));
            i = i + 1;
        }
        assert(views(self.list@).take(i as int) =~= views(self.list@));
        r
    }

    /// The phones as the file holds them.
    pub fn save(&self) -> (text: String)
        ensures
            text@ == saved(self.entries()),
            sorted(self.entries()),
    {
        proof {
            use_type_invariant(self);
        }
        let mut out = String::new();
        let mut i: usize = 0;
        let ghost all = views(self.list@);
        assert(all.skip(0) =~= all);
        assert(out@ + saved(all) =~= saved(all));
        while i < self.list.len()
            invariant
                i <= self.list@.len(),
                all == views(self.list@),
                out@ + saved(all.skip(i as int)) == saved(all),
            decreases self.list.len() - i,
        {
            let ghost so_far = out@;
            push_hex(&mut out, &self.list[i].id);
            out.push(' ');
            out.append(self.list[i].name.as_str());
            out.push('\n');
            assert(out@ =~= so_far + line_text(all[i as int]));
            assert(all.skip(i as int).skip(1) =~= all.skip(i as int + 1));
            assert(out@ + saved(all.skip(i as int + 1)) =~= so_far + saved(all.skip(i as int)));
            i = i + 1;
        }
        assert(all.skip(i as int) =~= Seq::<(Seq<u8>, Seq<char>)>::empty());
        assert(out@ + saved(all.skip(i as int)) =~= out@);
        out
    }

    /// The phones that the file's text holds. A line that does not start with sixteen hexadecimal bytes is passed
    /// over; of two lines with one id the later counts.
    pub fn load(text: &str) -> (r: KnownPhones)
        ensures
            r@ == map_of(parsed(lines(text@))),
    {
        let chars = chars_of(text);
        let mut phones = KnownPhones::new();
        let mut pos: usize = 0;
        let ghost mut done: Seq<(Seq<u8>, Seq<char>)> = Seq::empty();
        assert(chars@.skip(0) =~= chars@);
        assert(done + parsed(lines(chars@)) =~= parsed(lines(chars@)));
        while pos < chars.len()
            invariant
                pos <= chars@.len(),
                chars@ == text@,
                phones@ == map_of(done),
                done + parsed(lines(chars@.skip(pos as int))) == parsed(lines(text@)),
            decreases chars.len() - pos,
        {
            let ghost rest = chars@.skip(pos as int);
            let end: usize = find_from(&chars, pos, '\n');
            assert(end - pos == find(rest, '\n'));
            let ghost whole = chars@.subrange(pos as int, end as int);
            let stop: usize = if end < chars.len() && end > pos && chars[end - 1] == '\r' {
                end - 1
            } else {
                end
            };
            let ghost line = chars@.subrange(pos as int, stop as int);
            let found = parse_line(&chars[pos..stop]);
            proof {
                assert(rest.take(end - pos) =~= whole);
                if end < chars@.len() {
                    assert(line =~= without_cr(whole));
                    assert(rest.skip(end - pos + 1) =~= chars@.skip(end + 1));
                    assert(lines(rest) == seq![line] + lines(chars@.skip(end + 1)));
                } else {
                    assert(line =~= rest);
                    assert(lines(rest) == seq![line]);
                }
                let ls = lines(rest);
                let next: int = if end < chars@.len() {
                    end + 1
                } else {
                    end as int
                };
                assert(chars@.skip(chars@.len() as int) =~= Seq::<char>::empty());
                assert(ls.skip(1) =~= lines(chars@.skip(next)));
                assert(ls[0] == line);
                let more = parsed(lines(chars@.skip(next)));
                match parsed_line(line) {
                    Some(e) => {
                        assert(parsed(ls) == seq![e] + more);
                        assert(done.push(e) + more =~= done + parsed(ls));
                        assert(done.push(e).drop_last() =~= done);
                    },
                    None => {
                        assert(parsed(ls) == more);
                    },
                }
            }
            if let Some(k) = found {
                proof {
                    done = done.push(k@);
                }
                phones.insert(k.id, k.name);
            }
            pos = if end < chars.len() {
                end + 1
            } else {
                end
            };
        }
        assert(chars@.skip(pos as int) =~= Seq::<char>::empty());
        assert(done + parsed(lines(chars@.skip(pos as int))) =~= done);
        phones
    }
}

// ---- the file ----

/// Sixteen bytes, or any number, in lower-case hexadecimal.
pub open spec fn hex_text(id: Seq<u8>) -> Seq<char>
    decreases id.len(),
{
    if id.len() == 0 {
        Seq::empty()
    } else {
        hex_text(id.drop_last()).push(hex_digit(id.last() as nat / 16)).push(hex_digit(id.last() as nat % 16))
    }
}

/// A phone's line: `<32 hex chars> <name>`.
pub open spec fn line_text(phone: (Seq<u8>, Seq<char>)) -> Seq<char> {
    (hex_text(phone.0).push(' ') + phone.1).push('\n')
}

/// The lines of all phones.
pub open spec fn saved(list: Seq<(Seq<u8>, Seq<char>)>) -> Seq<char>
    decreases list.len(),
{
    if list.len() == 0 {
        Seq::empty()
    } else {
        line_text(list[0]) + saved(list.skip(1))
    }
}

/// Where `c` stands first in `text`, or the text's length.
pub open spec fn find(text: Seq<char>, c: char) -> int
    decreases text.len(),
{
    if text.len() == 0 || text[0] == c {
        0
    } else {
        1 + find(text.skip(1), c)
    }
}

/// A line without the carriage return that belongs to its end.
pub open spec fn without_cr(line: Seq<char>) -> Seq<char> {
    if line.len() > 0 && line.last() == '\r' {
        line.drop_last()
    } else {
        line
    }
}

/// The lines of a text. A line ends with a line feed, or a carriage return and a line feed; the last one may do
/// without.
pub open spec fn lines(text: Seq<char>) -> Seq<Seq<char>>
    decreases text.len(),
{
    if text.len() == 0 {
        Seq::empty()
    } else {
        let n = find(text, '\n');
        if 0 <= n < text.len() {
            seq![without_cr(text.take(n))] + lines(text.skip(n + 1))
        } else {
            seq![text]
        }
    }
}

/// The value of a pair of hexadecimal digits. A plus sign may stand in place of the first.
pub open spec fn hex_pair(a: char, b: char) -> Option<u8> {
    match (hex_value(a), hex_value(b)) {
        (Some(x), Some(y)) => Some((16 * x + y) as u8),
        (None, Some(y)) => if a == '+' {
            Some(y)
        } else {
            None
        },
        _ => None,
    }
}

/// The phone on a line: sixteen hexadecimal pairs, and behind the first space the name.
pub open spec fn parsed_line(line: Seq<char>) -> Option<(Seq<u8>, Seq<char>)> {
    let space = find(line, ' ');
    let name = if space < line.len() {
        line.skip(space + 1)
    } else {
        Seq::empty()
    };
    if space >= 32 && forall|i: int| 0 <= i < 16 ==> (#[trigger] hex_pair(line[2 * i], line[2 * i + 1])) is Some {
        Some((Seq::new(16, |i: int| hex_pair(line[2 * i], line[2 * i + 1])->0), name))
    } else {
        None
    }
}

/// The phones on all lines, in order.
pub open spec fn parsed(list: Seq<Seq<char>>) -> Seq<(Seq<u8>, Seq<char>)>
    decreases list.len(),
{
    if list.len() == 0 {
        Seq::empty()
    } else {
        match parsed_line(list[0]) {
            Some(e) => seq![e] + parsed(list.skip(1)),
            None => parsed(list.skip(1)),
        }
    }
}

/// Where `find` looks: nothing before is `c`, and there stands one, or the text ends.
proof fn lemma_find(text: Seq<char>, c: char, n: int)
    requires
        0 <= n <= text.len(),
        n < text.len() ==> text[n] == c,
        forall|i: int| 0 <= i < n ==> text[i] != c,
    ensures
        find(text, c) == n,
    decreases n,
{
    if n > 0 {
        let rest = text.skip(1);
        assert forall|i: int| 0 <= i < n - 1 implies rest[i] != c by {
            assert(rest[i] == text[i + 1]);
        }
        lemma_find(rest, c, n - 1);
    }
}

/// Where `c` stands first in `chars` from `pos` on, or the end.
fn find_from(chars: &[char], pos: usize, c: char) -> (n: usize)
    requires
        pos <= chars@.len(),
    ensures
        pos <= n <= chars@.len(),
        n - pos == find(chars@.skip(pos as int), c),
        n < chars@.len() ==> chars@[n as int] == c,
{
    let mut n: usize = pos;
    while n < chars.len() && chars[n] != c
        invariant
            pos <= n <= chars@.len(),
            forall|i: int| pos <= i < n ==> chars@[i] != c,
        decreases chars.len() - n,
    {
        n = n + 1;
    }
    proof {
        let rest = chars@.skip(pos as int);
        assert forall|i: int| 0 <= i < n - pos implies rest[i] != c by {
            assert(rest[i] == chars@[pos + i]);
        }
        lemma_find(rest, c, n - pos);
    }
    n
}

/// Appends an id in hexadecimal.
fn push_hex(out: &mut String, id: &[u8; 16])
    ensures
        final(out)@ == old(out)@ + hex_text(id@),
{
    let mut i: usize = 0;
    assert(id@.take(0) =~= Seq::<u8>::empty());
    assert(out@ + hex_text(id@.take(0)) =~= out@);
    while i < 16
        invariant
            i <= 16,
            out@ == old(out)@ + hex_text(id@.take(i as int)),
        decreases 16 - i,
    {
        let b: u8 = id[i];
        out.push(to_hex(b / 16));
        out.push(to_hex(b % 16));
        assert(id@.take(i as int + 1).drop_last() =~= id@.take(i as int));
        assert(out@ =~= old(out)@ + hex_text(id@.take(i as int + 1)));
        i = i + 1;
    }
    assert(id@.take(16) =~= id@);
}

/// The value of a pair of hexadecimal digits.
fn pair_of(a: char, b: char) -> (r: Option<u8>)
    ensures
        r == hex_pair(a, b),
{
    match (from_hex(a), from_hex(b)) {
        (Some(x), Some(y)) => Some(16 * x + y),
        (None, Some(y)) => if a == '+' {
            Some(y)
        } else {
            None
        },
        _ => None,
    }
}

/// The phone on a line, if there is one.
fn parse_line(line: &[char]) -> (r: Option<Known>)
    ensures
        r is Some <==> parsed_line(line@) is Some,
        r matches Some(k) ==> parsed_line(line@) == Some(k@),
{
    let space: usize = find_from(line, 0, ' ');
    assert(line@.skip(0) =~= line@);
    if space < 32 {
        return None;
    }
    let mut id: [u8; 16] = [0;16];
    let mut i: usize = 0;
    while i < 16
        invariant
            i <= 16,
            space >= 32,
            space <= line@.len(),
            forall|j: int| 0 <= j < i ==> (#[trigger] hex_pair(line@[2 * j], line@[2 * j + 1])) == Some(id@[j]),
        decreases 16 - i,
    {
        match pair_of(line[2 * i], line[2 * i + 1]) {
            Some(b) => {
                id[i] = b;
            },
            None => {
                assert(hex_pair(line@[2 * i], line@[2 * i + 1]) is None);
                return None;
            },
        }
        i = i + 1;
    }
    let name = if space < line.len() {
        let n: usize = line.len();
        assert(line@.subrange(space + 1, n as int) =~= line@.skip(space + 1));
        text_of(&line[space + 1..n])
    } else {
        String::new()
    };
    assert(id@ =~= Seq::new(16, |i: int| hex_pair(line@[2 * i], line@[2 * i + 1])->0)) by {
        assert forall|i: int| 0 <= i < 16 implies id@[i] == hex_pair(line@[2 * i], line@[2 * i + 1])->0 by {
            assert(hex_pair(line@[2 * i], line@[2 * i + 1]) == Some(id@[i]));
        }
    }
    Some(Known { id, name })
}

/// The digits of an id: two to a byte, and each pair gives the byte back.
proof fn lemma_hex_text(id: Seq<u8>)
    ensures
        hex_text(id).len() == 2 * id.len(),
        forall|i: int|
            0 <= i < id.len() ==> (#[trigger] hex_pair(hex_text(id)[2 * i], hex_text(id)[2 * i + 1])) == Some(id[i]),
        forall|i: int| 0 <= i < hex_text(id).len() ==> #[trigger] hex_text(id)[i] != ' ' && hex_text(id)[i] != '\n',
    decreases id.len(),
{
    if id.len() > 0 {
        let front = hex_text(id.drop_last());
        let n = id.len() - 1;
        lemma_hex_text(id.drop_last());
        assert forall|i: int| 0 <= i < id.len() implies (#[trigger] hex_pair(
            hex_text(id)[2 * i],
            hex_text(id)[2 * i + 1],
        )) == Some(id[i]) by {
            if i < n {
                assert(hex_pair(front[2 * i], front[2 * i + 1]) == Some(id.drop_last()[i]));
            } else {
                assert(hex_text(id)[2 * n] == hex_digit(id[n] as nat / 16));
                assert(hex_text(id)[2 * n + 1] == hex_digit(id[n] as nat % 16));
            }
        }
        assert forall|i: int| 0 <= i < hex_text(id).len() implies #[trigger] hex_text(id)[i] != ' ' && hex_text(id)[i]
            != '\n' by {
            if i < 2 * n {
                assert(hex_text(id)[i] == front[i]);
            }
        }
    }
}

/// A name that a line can hold: no line feed in it and no carriage return at its end.
pub open spec fn fits_a_line(name: Seq<char>) -> bool {
    &&& forall|i: int| 0 <= i < name.len() ==> name[i] != '\n'
    &&& name.len() > 0 ==> name.last() != '\r'
}

/// What was saved is read back: the same phones, with the same names, in the same order.
pub proof fn law_saved_phones_read_back(list: Seq<(Seq<u8>, Seq<char>)>)
    requires
        ids(list),
        forall|i: int| 0 <= i < list.len() ==> fits_a_line((#[trigger] list[i]).1),
    ensures
        parsed(lines(saved(list))) == list,
        map_of(parsed(lines(saved(list)))) == map_of(list),
    decreases list.len(),
{
    let text = saved(list);
    if list.len() > 0 {
        let (id, name) = list[0];
        let rest = saved(list.skip(1));
        assert forall|i: int| 0 <= i < list.skip(1).len() implies fits_a_line((#[trigger] list.skip(1)[i]).1) by {
            assert(list.skip(1)[i] == list[i + 1]);
        }
        assert(ids(list.skip(1)));
        law_saved_phones_read_back(list.skip(1));
        lemma_hex_text(id);
        let hex = hex_text(id);
        let line = hex.push(' ') + name;
        let n = line.len() as int;
        assert(fits_a_line(list[0].1));
        assert(text.take(n) =~= line);
        assert(text.skip(n + 1) =~= rest);
        assert forall|i: int| 0 <= i < n implies text[i] != '\n' by {
            assert(text[i] == line[i]);
            if i > 32 {
                assert(line[i] == name[i - 33]);
            } else if i < 32 {
                assert(line[i] == hex[i]);
            }
        }
        lemma_find(text, '\n', n);
        assert(without_cr(line) == line) by {
            if name.len() > 0 {
                assert(line.last() == name.last());
            } else {
                assert(line.last() == ' ');
            }
        }
        assert forall|i: int| 0 <= i < 32 implies line[i] != ' ' by {
            assert(line[i] == hex[i]);
        }
        lemma_find(line, ' ', 32);
        assert forall|i: int| 0 <= i < 16 implies (#[trigger] hex_pair(line[2 * i], line[2 * i + 1])) == Some(
            id[i],
        ) by {
            assert(hex_pair(hex[2 * i], hex[2 * i + 1]) == Some(id[i]));
        }
        assert(line.skip(33) =~= name);
        assert(Seq::new(16, |i: int| hex_pair(line[2 * i], line[2 * i + 1])->0) =~= id) by {
            assert forall|i: int| 0 <= i < 16 implies hex_pair(line[2 * i], line[2 * i + 1])->0 == id[i] by {
                assert(hex_pair(line[2 * i], line[2 * i + 1]) == Some(id[i]));
            }
        }
        assert(parsed_line(line) == Some((id, name)));
        assert(lines(text)[0] == line);
        assert(lines(text).skip(1) =~= lines(rest));
        assert(list =~= seq![list[0]] + list.skip(1));
    } else {
        assert(parsed(lines(text)) =~= list);
    }
}

} // verus!
