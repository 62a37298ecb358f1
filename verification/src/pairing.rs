//! Pairing tokens: six-digit codes that a device presents once, before they
//! expire, to be paired with this hub.
use vstd::prelude::*;
use crate::text::{all_digits, decimal, decimal_padded, is_digit, str_eq, u64_padded};

verus! {

/// A pairing code handed to a user, valid until `expires_at_epoch_ms`.
#[derive(Debug, Clone)]
pub struct PairingToken {
    pub code: String,
    pub device_name: String,
    pub expires_at_epoch_ms: u64,
}

/// The live pairing tokens, at most one per code, and the counter that
/// spreads successive codes apart.
#[derive(Debug)]
pub struct PairingManager {
    tokens: Vec<PairingToken>,
    counter: u64,
}

/// The current time in milliseconds since the Unix epoch (0 if the clock is
/// before the epoch).
#[verifier::external_body]
pub fn now_epoch_ms() -> (r: u64) {
    std::time::SystemTime::now()
        .duration_since(std::time::UNIX_EPOCH)
        .map(|duration| duration.as_millis() as u64)
        .unwrap_or(0)
}

/// Position of the token with this code.
pub open spec fn code_index(toks: Seq<PairingToken>, code: Seq<char>) -> Option<int>
    decreases toks.len(),
{
    if toks.len() == 0 {
        None
    } else if toks.last().code@ == code {
        Some(toks.len() - 1)
    } else {
        code_index(toks.drop_last(), code)
    }
}

/// No two tokens share a code.
pub open spec fn codes_unique(toks: Seq<PairingToken>) -> bool {
    forall|i: int, j: int|
        0 <= i < j < toks.len() ==> #[trigger] toks[i].code@ != #[trigger] toks[j].code@
}

/// The tokens still valid at `now`, in order.
pub open spec fn live_at(toks: Seq<PairingToken>, now: u64) -> Seq<PairingToken>
    decreases toks.len(),
{
    if toks.len() == 0 {
        Seq::empty()
    } else if toks.last().expires_at_epoch_ms > now {
        live_at(toks.drop_last(), now).push(toks.last())
    } else {
        live_at(toks.drop_last(), now)
    }
}

/// The token list with `t` stored under its code, replacing one with the same code.
pub open spec fn put_token(toks: Seq<PairingToken>, t: PairingToken) -> Seq<PairingToken> {
    match code_index(toks, t.code@) {
        Some(i) => toks.update(i, t),
        None => toks.push(t),
    }
}

/// The token list without the token of this code.
pub open spec fn take_token(toks: Seq<PairingToken>, code: Seq<char>) -> Seq<PairingToken> {
    match code_index(toks, code) {
        Some(i) => toks.remove(i),
        None => toks,
    }
}

/// The raw number behind the code tried at `attempt`.
pub open spec fn code_seed(now: u64, counter: u64, attempt: u64) -> u64 {
    vstd::wrapping::u64_specs::wrapping_add(
        vstd::wrapping::u64_specs::wrapping_add(now, vstd::wrapping::u64_specs::wrapping_mul(counter, 37)),
        vstd::wrapping::u64_specs::wrapping_mul(attempt, 10007),
    )
}

/// The six-digit code tried at `attempt`, when the counter stood at `counter`.
pub open spec fn candidate_code(now: u64, counter: u64, attempt: u64) -> Seq<char> {
    decimal_padded((code_seed(now, counter, attempt) % 1000000) as nat, 6)
}

/// The number of attempts the search for a free code makes.
pub open spec fn max_attempts() -> u64 {
    1000000
}

/// The counter after `n` attempts.
pub open spec fn counter_after(counter: u64, n: u64) -> u64 {
    vstd::wrapping::u64_specs::wrapping_add(counter, n)
}

/// `code` is what the search for a free code among `toks` returns, starting
/// with the counter at `c0` and leaving it at `c1`: the first candidate that
/// no token uses, or `000000` when every attempt was taken.
pub open spec fn is_code_search(toks: Seq<PairingToken>, now: u64, c0: u64, c1: u64, code: Seq<char>) -> bool {
    ||| exists|a: u64|
        #![trigger counter_after(c0, a)]
        a < max_attempts() && code == candidate_code(now, counter_after(c0, a), a)
            && code_index(toks, code) is None && c1 == counter_after(c0, (a + 1) as u64)
            && forall|b: u64|
            b < a ==> code_index(toks, #[trigger] candidate_code(now, counter_after(c0, b), b)) is Some
    ||| code == "000000"@ && c1 == counter_after(c0, max_attempts()) && forall|b: u64|
        b < max_attempts() ==> code_index(toks, #[trigger] candidate_code(now, counter_after(c0, b), b)) is Some
}

/// The expiry of a token made at `now` to live `ttl_seconds`, saturating.
pub open spec fn expiry(now: u64, ttl_seconds: u64) -> u64 {
    let ms: int = if ttl_seconds * 1000 > u64::MAX { u64::MAX as int } else { ttl_seconds * 1000 };
    if now + ms > u64::MAX { u64::MAX } else { (now + ms) as u64 }
}

/// What consuming `code` at `now` gives: the stored token, if it has not expired.
pub open spec fn consume_result(toks: Seq<PairingToken>, code: Seq<char>, now: u64) -> Option<PairingToken> {
    match code_index(toks, code) {
        Some(i) => if toks[i].expires_at_epoch_ms <= now { None } else { Some(toks[i]) },
        None => None,
    }
}

pub proof fn lemma_code_index(toks: Seq<PairingToken>, code: Seq<char>)
    ensures
        code_index(toks, code) matches Some(i) ==> 0 <= i < toks.len() && toks[i].code@ == code,
        code_index(toks, code) is None ==> forall|k: int| 0 <= k < toks.len() ==> #[trigger] toks[k].code@ != code,
    decreases toks.len(),
{
    if toks.len() > 0 {
        lemma_code_index(toks.drop_last(), code);
        if toks.last().code@ != code {
            assert forall|k: int| 0 <= k < toks.len() - 1 implies #[trigger] toks[k].code@ == toks.drop_last()[k].code@ by {}
        }
    }
}

proof fn lemma_code_index_unique(toks: Seq<PairingToken>, code: Seq<char>, k: int)
    requires
        codes_unique(toks),
        0 <= k < toks.len(),
        toks[k].code@ == code,
    ensures
        code_index(toks, code) == Some(k),
    decreases toks.len(),
{
    if k < toks.len() - 1 {
        assert(toks[k].code@ != toks[toks.len() - 1].code@);
        let t = toks.drop_last();
        assert(t[k] == toks[k]);
        lemma_code_index_unique(t, code, k);
    }
}

proof fn lemma_live_subset(toks: Seq<PairingToken>, now: u64)
    ensures
        forall|k: int| 0 <= k < live_at(toks, now).len() ==> #[trigger] live_at(toks, now)[k].expires_at_epoch_ms > now,
        forall|k: int|
            0 <= k < live_at(toks, now).len() ==> exists|j: int| 0 <= j < toks.len() && #[trigger] live_at(toks, now)[k] == toks[j],
        codes_unique(toks) ==> codes_unique(live_at(toks, now)),
    decreases toks.len(),
{
    if toks.len() > 0 {
        let d = toks.drop_last();
        lemma_live_subset(d, now);
        let l = live_at(d, now);
        assert forall|k: int| 0 <= k < live_at(toks, now).len() implies exists|j: int|
            0 <= j < toks.len() && #[trigger] live_at(toks, now)[k] == toks[j] by {
            if k < l.len() {
                let j = choose|j: int| 0 <= j < d.len() && l[k] == d[j];
                assert(toks[j] == d[j]);
            } else {
                assert(live_at(toks, now)[k] == toks[toks.len() - 1]);
            }
        }
        if codes_unique(toks) {
            assert(codes_unique(d)) by {
                assert forall|i: int, j: int| 0 <= i < j < d.len() implies #[trigger] d[i].code@ != #[trigger] d[j].code@ by {
                    assert(d[i] == toks[i] && d[j] == toks[j]);
                }
            }
            if toks.last().expires_at_epoch_ms > now {
                let r = live_at(toks, now);
                assert forall|i: int, j: int| 0 <= i < j < r.len() implies #[trigger] r[i].code@ != #[trigger] r[j].code@ by {
                    if j == r.len() - 1 {
                        let m = choose|m: int| 0 <= m < d.len() && l[i] == d[m];
                        assert(toks[m] == d[m]);
                        assert(m < toks.len() - 1);
                    } else {
                        assert(r[i] == l[i] && r[j] == l[j]);
                    }
                }
            }
        }
    }
}

pub proof fn lemma_put_token(toks: Seq<PairingToken>, t: PairingToken)
    requires
        codes_unique(toks),
    ensures
        codes_unique(put_token(toks, t)),
        code_index(put_token(toks, t), t.code@) matches Some(i) && 0 <= i < put_token(toks, t).len()
            && put_token(toks, t)[i] == t,
        forall|k: int| 0 <= k < put_token(toks, t).len() && put_token(toks, t)[k].code@ != t.code@
            ==> exists|j: int| 0 <= j < toks.len() && #[trigger] put_token(toks, t)[k] == toks[j],
{
    lemma_code_index(toks, t.code@);
    let r = put_token(toks, t);
    match code_index(toks, t.code@) {
        Some(i) => {
            assert forall|a: int, b: int| 0 <= a < b < r.len() implies #[trigger] r[a].code@ != #[trigger] r[b].code@ by {
                if a != i && b != i {
                    assert(r[a] == toks[a] && r[b] == toks[b]);
                }
            }
            lemma_code_index_unique(r, t.code@, i);
            assert forall|k: int| 0 <= k < r.len() && r[k].code@ != t.code@ implies exists|j: int|
                0 <= j < toks.len() && #[trigger] r[k] == toks[j] by {
                assert(r[k] == toks[k]);
            }
        },
        None => {
            assert forall|a: int, b: int| 0 <= a < b < r.len() implies #[trigger] r[a].code@ != #[trigger] r[b].code@ by {
                if b == r.len() - 1 {
                    assert(r[a] == toks[a]);
                } else {
                    assert(r[a] == toks[a] && r[b] == toks[b]);
                }
            }
            lemma_code_index_unique(r, t.code@, r.len() - 1);
            assert forall|k: int| 0 <= k < r.len() && r[k].code@ != t.code@ implies exists|j: int|
                0 <= j < toks.len() && #[trigger] r[k] == toks[j] by {
                assert(r[k] == toks[k]);
            }
        },
    }
}

pub proof fn lemma_take_token(toks: Seq<PairingToken>, code: Seq<char>)
    requires
        codes_unique(toks),
    ensures
        codes_unique(take_token(toks, code)),
        code_index(take_token(toks, code), code) is None,
        forall|c: Seq<char>| c != code ==> #[trigger] consume_result(take_token(toks, code), c, 0) == consume_result(toks, c, 0),
{
    lemma_code_index(toks, code);
    let r = take_token(toks, code);
    match code_index(toks, code) {
        Some(i) => {
            assert forall|a: int, b: int| 0 <= a < b < r.len() implies #[trigger] r[a].code@ != #[trigger] r[b].code@ by {
                let ia = if a < i { a } else { a + 1 };
                let ib = if b < i { b } else { b + 1 };
                assert(r[a] == toks[ia] && r[b] == toks[ib]);
            }
            assert forall|k: int| 0 <= k < r.len() implies #[trigger] r[k].code@ != code by {
                let ik = if k < i { k } else { k + 1 };
                assert(r[k] == toks[ik]);
            }
            lemma_code_index(r, code);
            assert forall|c: Seq<char>| c != code implies #[trigger] consume_result(r, c, 0) == consume_result(toks, c, 0) by {
                lemma_code_index(toks, c);
                lemma_code_index(r, c);
                match code_index(toks, c) {
                    Some(j) => {
                        let jr = if j < i { j } else { j - 1 };
                        assert(j != i);
                        assert(r[jr] == toks[j]);
                        lemma_code_index_unique(r, c, jr);
                    },
                    None => {
                        if code_index(r, c) is Some {
                            let m = code_index(r, c)->0;
                            let im = if m < i { m } else { m + 1 };
                            assert(r[m] == toks[im]);
                        }
                    },
                }
            }
        },
        None => {
            lemma_code_index(r, code);
        },
    }
}

proof fn lemma_decimal_digits(n: nat)
    ensures
        all_digits(decimal(n)),
    decreases n,
{
    if n >= 10 {
        lemma_decimal_digits(n / 10);
        let d = decimal(n / 10);
        assert forall|i: int| 0 <= i < decimal(n).len() implies is_digit(#[trigger] decimal(n)[i]) by {
            if i < d.len() {
                assert(decimal(n)[i] == d[i]);
            }
        }
    }
}

proof fn lemma_decimal_short(n: nat, k: nat, bound: nat)
    requires
        1 <= k,
        n < bound,
        bound == pow10(k),
    ensures
        decimal(n).len() <= k,
    decreases k,
{
    if n >= 10 && k > 1 {
        assert(pow10(k) == 10 * pow10((k - 1) as nat));
        lemma_decimal_short(n / 10, (k - 1) as nat, pow10((k - 1) as nat));
    } else if n >= 10 {
        assert(pow10(1) == 10) by {
            reveal_with_fuel(pow10, 2);
        }
    }
}

pub open spec fn pow10(k: nat) -> nat
    decreases k,
{
    if k == 0 { 1 } else { 10 * pow10((k - 1) as nat) }
}

/// Every code is six decimal digits.
pub proof fn lemma_six_digits(v: nat)
    requires
        v < 1000000,
    ensures
        decimal_padded(v, 6).len() == 6,
        all_digits(decimal_padded(v, 6)),
{
    assert(pow10(6) == 1000000) by {
        reveal_with_fuel(pow10, 7);
    }
    lemma_decimal_short(v, 6, 1000000);
    lemma_decimal_digits(v);
    let d = decimal(v);
    if d.len() < 6 {
        let p = Seq::new((6 - d.len()) as nat, |i: int| '0');
        assert forall|i: int| 0 <= i < decimal_padded(v, 6).len() implies is_digit(#[trigger] decimal_padded(v, 6)[i]) by {
            if i >= p.len() {
                assert(decimal_padded(v, 6)[i] == d[i - p.len()]);
            }
        }
    }
}

impl PairingManager {
    pub closed spec fn tokens(&self) -> Seq<PairingToken> {
        self.tokens@
    }

    pub closed spec fn counter(&self) -> u64 {
        self.counter
    }

    /// No two live tokens share a code.
    pub open spec fn wf(&self) -> bool {
        codes_unique(self.tokens())
    }

    /// A manager with no tokens.
    pub fn new() -> (m: PairingManager)
        ensures
            m.wf(),
            m.tokens().len() == 0,
            m.counter() == 0,
    {
        PairingManager { tokens: Vec::new(), counter: 0 }
    }

    fn find(&self, code: &str) -> (r: Option<usize>)
        ensures
            match r {
                Some(i) => code_index(self.tokens(), code@) == Some(i as int),
                None => code_index(self.tokens(), code@) is None,
            },
    {
        let mut i = self.tokens.len();
        assert(self.tokens@.take(i as int) =~= self.tokens@);
        while i > 0
            invariant
                i <= self.tokens@.len(),
                code_index(self.tokens@, code@) == code_index(self.tokens@.take(i as int), code@),
            decreases i,
        {
            assert(self.tokens@.take(i as int).drop_last() =~= self.tokens@.take(i - 1));
            if str_eq(self.tokens[i - 1].code.as_str(), code) {
                return Some(i - 1);
            }
            i = i - 1;
        }
        None
    }

    /// Drop the tokens that are no longer valid at `now`.
    fn prune_expired(&mut self, now: u64)
        requires
            old(self).wf(),
        ensures
            final(self).wf(),
            final(self).tokens() == live_at(old(self).tokens(), now),
            final(self).counter() == old(self).counter(),
    {
        let ghost all = self.tokens@;
        let mut kept: Vec<PairingToken> = Vec::new();
        let mut i: usize = 0;
        while i < self.tokens.len()
            invariant
                all == self.tokens@,
                i <= all.len(),
                kept@ == live_at(all.take(i as int), now),
            decreases all.len() - i,
        {
            assert(all.take(i + 1).drop_last() =~= all.take(i as int));
            if self.tokens[i].expires_at_epoch_ms > now {
                kept.push(self.tokens[i].clone_token());
            }
            i = i + 1;
        }
        assert(all.take(i as int) =~= all);
        proof {
            lemma_live_subset(all, now);
        }
        self.tokens = kept;
    }

    /// The first code, among up to a million candidates, that no token uses.
    fn next_unique_code(&mut self, now: u64) -> (code: String)
        ensures
            final(self).tokens() == old(self).tokens(),
            is_code_search(old(self).tokens(), now, old(self).counter(), final(self).counter(), code@),
            code@.len() == 6,
            all_digits(code@),
    {
        let ghost c0 = self.counter;
        let mut attempt: u64 = 0;
        while attempt < 1000000
            invariant
                attempt <= max_attempts(),
                self.tokens@ == old(self).tokens@,
                c0 == old(self).counter,
                self.counter == counter_after(c0, attempt),
                forall|b: u64|
                    b < attempt ==> code_index(self.tokens@, #[trigger] candidate_code(now, counter_after(c0, b), b)) is Some,
            decreases 1000000 - attempt,
        {
            let counter = self.counter;
            self.counter = self.counter.wrapping_add(1);
            assert(self.counter == counter_after(c0, (attempt + 1) as u64)) by {
                assert(counter_after(c0, (attempt + 1) as u64) == vstd::wrapping::u64_specs::wrapping_add(
                    counter_after(c0, attempt),
                    1,
                ));
            }
            let raw = now.wrapping_add(counter.wrapping_mul(37)).wrapping_add(attempt.wrapping_mul(10007));
            let code = u64_padded(raw % 1000000, 6);
            proof {
                lemma_six_digits((raw % 1000000) as nat);
            }
            assert(code@ == candidate_code(now, counter_after(c0, attempt), attempt));
            if self.find(code.as_str()).is_none() {
                return code;
            }
            attempt = attempt + 1;
        }
        proof {
            reveal_strlit("000000");
        }
        String::from_str("000000")
    }

    /// Issue a token for `device_name` valid for `ttl_seconds` from `now`.
    /// Expired tokens are dropped first; the code is the first free candidate.
    pub fn create_token_at(&mut self, device_name: String, ttl_seconds: u64, now: u64) -> (token: PairingToken)
        requires
            old(self).wf(),
        ensures
            final(self).wf(),
            token.device_name == device_name,
            token.expires_at_epoch_ms == expiry(now, ttl_seconds),
            token.code@.len() == 6,
            all_digits(token.code@),
            is_code_search(live_at(old(self).tokens(), now), now, old(self).counter(), final(self).counter(), token.code@),
            final(self).tokens() == put_token(live_at(old(self).tokens(), now), token),
    {
        self.prune_expired(now);
        let code = self.next_unique_code(now);
        let ms = match ttl_seconds.checked_mul(1000) {
            Some(v) => v,
            None => u64::MAX,
        };
        let token = PairingToken {
            code,
            device_name,
            expires_at_epoch_ms: now.saturating_add(ms),
        };
        let stored = token.clone_token();
        proof {
            lemma_put_token(self.tokens@, stored);
            lemma_code_index(self.tokens@, stored.code@);
        }
        match self.find(stored.code.as_str()) {
            Some(i) => {
                self.tokens.set(i, stored);
            },
            None => {
                self.tokens.push(stored);
            },
        }
        token
    }

    /// Issue a token valid for `ttl_seconds` from the current time.
    pub fn create_token(&mut self, device_name: String, ttl_seconds: u64) -> (token: PairingToken)
        requires
            old(self).wf(),
        ensures
            final(self).wf(),
            token.device_name == device_name,
            token.code@.len() == 6,
            all_digits(token.code@),
            exists|now: u64|
                token.expires_at_epoch_ms == expiry(now, ttl_seconds) && #[trigger] final(self).tokens() == put_token(
                    live_at(old(self).tokens(), now),
                    token,
                ) && is_code_search(
                    live_at(old(self).tokens(), now),
                    now,
                    old(self).counter(),
                    final(self).counter(),
                    token.code@,
                ),
    {
        let now = now_epoch_ms();
        self.create_token_at(device_name, ttl_seconds, now)
    }

    /// Take the token with `code` out of the manager; it is returned when it
    /// is still valid at `now`. A code is accepted at most once.
    pub fn consume_token_at(&mut self, code: &str, now: u64) -> (r: Option<PairingToken>)
        requires
            old(self).wf(),
        ensures
            final(self).wf(),
            r == consume_result(old(self).tokens(), code@, now),
            final(self).tokens() == take_token(old(self).tokens(), code@),
            final(self).counter() == old(self).counter(),
    {
        proof {
            lemma_take_token(self.tokens@, code@);
            lemma_code_index(self.tokens@, code@);
        }
        match self.find(code) {
            None => None,
            Some(i) => {
                let token = self.tokens.remove(i);
                if token.expires_at_epoch_ms <= now {
                    None
                } else {
                    Some(token)
                }
            },
        }
    }

    /// Take the token with `code` out of the manager; it is returned when it
    /// has not expired by the current time.
    pub fn consume_token(&mut self, code: &str) -> (r: Option<PairingToken>)
        requires
            old(self).wf(),
        ensures
            final(self).wf(),
            final(self).tokens() == take_token(old(self).tokens(), code@),
            exists|now: u64| r == #[trigger] consume_result(old(self).tokens(), code@, now),
    {
        let now = now_epoch_ms();
        self.consume_token_at(code, now)
    }
}

impl Default for PairingManager {
    fn default() -> (m: PairingManager)
        ensures
            m.wf(),
            m.tokens().len() == 0,
    {
        PairingManager::new()
    }
}

impl PairingToken {
    pub fn clone_token(&self) -> (r: PairingToken)
        ensures
            r == *self,
    {
        PairingToken {
            code: self.code.clone(),
            device_name: self.device_name.clone(),
            expires_at_epoch_ms: self.expires_at_epoch_ms,
        }
    }
}

/// A token is accepted at most once: after its code was consumed, consuming
/// it again finds nothing, at any time.
pub proof fn law_token_single_use(toks: Seq<PairingToken>, code: Seq<char>, now: u64)
    requires
        codes_unique(toks),
    ensures
        consume_result(take_token(toks, code), code, now) is None,
{
    lemma_take_token(toks, code);
}

/// A token issued with no lifetime is refused at its issue time and later.
pub proof fn law_zero_ttl_expired(toks: Seq<PairingToken>, token: PairingToken, now: u64, later: u64)
    requires
        codes_unique(toks),
        token.expires_at_epoch_ms == expiry(now, 0),
        now <= later,
    ensures
        consume_result(put_token(toks, token), token.code@, later) is None,
{
    lemma_put_token(toks, token);
    lemma_code_index(put_token(toks, token), token.code@);
}

/// A token is accepted before its expiry: consuming a freshly stored token
/// at a time before it expires gives it back.
pub proof fn law_token_accepted_before_expiry(toks: Seq<PairingToken>, token: PairingToken, now: u64)
    requires
        codes_unique(toks),
        now < token.expires_at_epoch_ms,
    ensures
        consume_result(put_token(toks, token), token.code@, now) == Some(token),
{
    lemma_put_token(toks, token);
    lemma_code_index(put_token(toks, token), token.code@);
    lemma_code_index(toks, token.code@);
}

} // verus!
