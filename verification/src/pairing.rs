//! Pairing tokens: a receiver shows one, and the phone that has seen it skips the accept prompt.
use vstd::prelude::*;
use crate::abi::{LENNY_PAIR_ALREADY_USED, LENNY_PAIR_EXPIRED, LENNY_PAIR_OK, LENNY_PAIR_UNKNOWN_TOKEN};
use crate::wire::message::PairToken;

verus! {

/// How long a token holds unless something else is asked for: 90 s.
pub const DEFAULT_TTL_US: i64 = 90_000_000;

struct Entry {
    token: PairToken,
    issued: i64,
    ttl_us: i64,
    used: bool,
}

/// A token that was issued.
#[verifier::ext_equal]
pub struct EntryView {
    pub token: Seq<u8>,
    pub issued: i64,
    pub ttl_us: i64,
    pub used: bool,
}

impl Entry {
    spec fn as_view(self) -> EntryView {
        EntryView {
            token: self.token@,
            issued: self.issued,
            ttl_us: self.ttl_us,
            used: self.used,
        }
    }
}

/// Where a token stands among those issued; the first one counts.
pub open spec fn find(s: Seq<EntryView>, token: Seq<u8>) -> Option<int>
    decreases s.len(),
{
    if s.len() == 0 {
        None
    } else {
        match find(s.drop_last(), token) {
            Some(i) => Some(i),
            None => if s.last().token == token {
                Some(s.len() - 1)
            } else {
                None
            },
        }
    }
}

/// What redeeming a token at `now` is answered.
pub open spec fn answer(s: Seq<EntryView>, token: Seq<u8>, now: i64) -> u8 {
    match find(s, token) {
        None => LENNY_PAIR_UNKNOWN_TOKEN,
        Some(i) => if s[i].used {
            LENNY_PAIR_ALREADY_USED
        } else if now - s[i].issued > s[i].ttl_us {
            LENNY_PAIR_EXPIRED
        } else {
            LENNY_PAIR_OK
        },
    }
}

/// The tokens after that: one that was accepted is used up.
pub open spec fn after_redeem(s: Seq<EntryView>, token: Seq<u8>, now: i64) -> Seq<EntryView> {
    match find(s, token) {
        Some(i) if answer(s, token, now) == LENNY_PAIR_OK => s.update(
            i,
            EntryView { used: true, ..s[i] },
        ),
        _ => s,
    }
}

/// The tokens that were issued, in memory only.
pub struct TokenStore {
    entries: Vec<Entry>,
}

impl View for TokenStore {
    type V = Seq<EntryView>;

    closed spec fn view(&self) -> Seq<EntryView> {
        self.entries@.map_values(|e: Entry| e.as_view())
    }
}

impl Default for TokenStore {
    fn default() -> (t: Self)
        ensures
            t@ == Seq::<EntryView>::empty(),
    {
        let t = TokenStore { entries: Vec::new() };
        assert(t@ =~= Seq::empty());
        t
    }
}

/// Whether two tokens are the same. Takes as long whatever they hold.
fn same_token(a: &PairToken, b: &PairToken) -> (r: bool)
    ensures
        r == (a@ == b@),
{
    let mut diff: u8 = 0;
    let mut i: usize = 0;
    while i < 16
        invariant
            i <= 16,
            (diff == 0) == (forall|j: int| 0 <= j < i ==> a@[j] == b@[j]),
        decreases 16 - i,
    {
        let x: u8 = a[i];
        let y: u8 = b[i];
        assert(((diff | (x ^ y)) == 0) == (diff == 0 && x == y)) by (bit_vector);
        diff = diff | (x ^ y);
        i = i + 1;
    }
    assert(diff == 0 ==> a@ =~= b@);
    diff == 0
}

impl TokenStore {
    /// Lets a token, which the caller drew at random, be redeemed once within `ttl_us` from `now`.
    pub fn issue(&mut self, token: PairToken, now: i64, ttl_us: i64) -> (r: PairToken)
        ensures
            r == token,
            final(self)@ == old(self)@.push(
                EntryView { token: token@, issued: now, ttl_us, used: false },
            ),
    {
        let e = Entry { token, issued: now, ttl_us, used: false };
        self.entries.push(e);
        assert(self@ =~= old(self)@.push(e.as_view()));
        token
    }

    /// Redeems a token: `LENNY_PAIR_OK`, or why not.
    pub fn redeem(&mut self, token: &PairToken, now: i64) -> (r: u8)
        ensures
            r == answer(old(self)@, token@, now),
            final(self)@ == after_redeem(old(self)@, token@, now),
    {
        let ghost all = self@;
        let mut found: Option<usize> = None;
        let mut i: usize = 0;
        assert(all.take(0) =~= Seq::empty());
        while i < self.entries.len()
            invariant
                i <= self.entries@.len(),
                all == self@,
                match found {
                    Some(k) => k < i && find(all.take(i as int), token@) == Some(k as int),
                    None => find(all.take(i as int), token@) is None,
                },
            decreases self.entries.len() - i,
        {
            assert(all.take(i + 1).drop_last() =~= all.take(i as int));
            assert(all[i as int] == self.entries@[i as int].as_view());
            let same = same_token(&self.entries[i].token, token);
            if same && found.is_none() {
                found = Some(i);
            }
            i = i + 1;
        }
        assert(all.take(all.len() as int) =~= all);
        match found {
            None => LENNY_PAIR_UNKNOWN_TOKEN,
            Some(k) => {
                assert(all[k as int] == self.entries@[k as int].as_view());
                if self.entries[k].used {
                    LENNY_PAIR_ALREADY_USED
                } else if now as i128 - self.entries[k].issued as i128
                    > self.entries[k].ttl_us as i128 {
                    LENNY_PAIR_EXPIRED
                } else {
                    let e = &self.entries[k];
                    let used = Entry {
                        token: e.token,
                        issued: e.issued,
                        ttl_us: e.ttl_us,
                        used: true,
                    };
                    self.entries[k] = used;
                    assert(self@ =~= after_redeem(all, token@, now));
                    LENNY_PAIR_OK
                }
            },
        }
    }
}

proof fn lemma_find_update(s: Seq<EntryView>, token: Seq<u8>, i: int, e: EntryView)
    requires
        0 <= i < s.len(),
        e.token == s[i].token,
    ensures
        find(s.update(i, e), token) == find(s, token),
    decreases s.len(),
{
    let t = s.update(i, e);
    if i < s.len() - 1 {
        assert(t.drop_last() =~= s.drop_last().update(i, e));
        lemma_find_update(s.drop_last(), token, i, e);
    } else {
        assert(t.drop_last() =~= s.drop_last());
    }
}

proof fn lemma_find_range(s: Seq<EntryView>, token: Seq<u8>)
    ensures
        find(s, token) matches Some(i) ==> 0 <= i < s.len() && s[i].token == token,
    decreases s.len(),
{
    if s.len() > 0 {
        lemma_find_range(s.drop_last(), token);
    }
}

/// A token that was accepted once is never accepted again, however often it is tried.
pub proof fn law_token_is_single_use(s: Seq<EntryView>, token: Seq<u8>, now: i64, later: i64)
    requires
        answer(s, token, now) == LENNY_PAIR_OK,
    ensures
        answer(after_redeem(s, token, now), token, later) == LENNY_PAIR_ALREADY_USED,
        after_redeem(after_redeem(s, token, now), token, later) == after_redeem(s, token, now),
{
    lemma_find_range(s, token);
    let i = find(s, token)->0;
    lemma_find_update(s, token, i, EntryView { used: true, ..s[i] });
}

/// A token is accepted from its issue until its time is over, and then no more.
pub proof fn law_fresh_token_holds_for_its_time(
    s: Seq<EntryView>,
    token: Seq<u8>,
    issued: i64,
    ttl_us: i64,
    now: i64,
)
    requires
        find(s, token) is None,
    ensures
        answer(s.push(EntryView { token, issued, ttl_us, used: false }), token, now) == (if now
            - issued <= ttl_us {
            LENNY_PAIR_OK
        } else {
            LENNY_PAIR_EXPIRED
        }),
{
    let t = s.push(EntryView { token, issued, ttl_us, used: false });
    assert(t.drop_last() =~= s);
}

/// Redeeming one token does not change what another is answered.
pub proof fn law_tokens_are_independent(
    s: Seq<EntryView>,
    token: Seq<u8>,
    now: i64,
    other: Seq<u8>,
    later: i64,
)
    requires
        token != other,
    ensures
        answer(after_redeem(s, token, now), other, later) == answer(s, other, later),
{
    if answer(s, token, now) == LENNY_PAIR_OK {
        lemma_find_range(s, token);
        lemma_find_range(s, other);
        let i = find(s, token)->0;
        lemma_find_update(s, other, i, EntryView { used: true, ..s[i] });
    }
}

/// A token is looked for among all that were issued: one that is not there is unknown, and of one that is there the
/// first issue counts. Numbers of the answers: 0 good, 1 unknown, 2 expired, 3 used.
pub proof fn law_the_first_issue_of_a_token_counts(s: Seq<EntryView>, token: Seq<u8>, k: int, now: i64)
    requires
        0 <= k <= s.len(),
        forall|i: int| 0 <= i < k ==> (#[trigger] s[i]).token != token,
        k < s.len() ==> s[k].token == token,
    ensures
        find(s, token) == (if k < s.len() {
            Some(k)
        } else {
            None
        }),
        answer(s, token, now) == (if k == s.len() {
            1u8
        } else if s[k].used {
            3
        } else if now - s[k].issued > s[k].ttl_us {
            2
        } else {
            0
        }),
        ({
            let t = after_redeem(s, token, now);
            &&& t.len() == s.len()
            &&& forall|i: int|
                0 <= i < s.len() ==> (#[trigger] t[i]).token == s[i].token && t[i].issued == s[i].issued && t[i].ttl_us
                    == s[i].ttl_us && t[i].used == (s[i].used || (i == k && answer(s, token, now) == 0))
        }),
    decreases s.len(),
{
    if s.len() > 0 {
        let init = s.drop_last();
        assert forall|i: int| 0 <= i < k && i < init.len() implies (#[trigger] init[i]).token != token by {
            assert(init[i] == s[i]);
        }
        if k == s.len() {
            assert(s[k - 1].token != token);
            law_the_first_issue_of_a_token_counts(init, token, k - 1, now);
        } else {
            law_the_first_issue_of_a_token_counts(init, token, k, now);
        }
    }
}

} // verus!
