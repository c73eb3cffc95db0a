//! Token pool, redemption ledger, and the append-only redemption log.
//!
//! The pool holds the tokens still in state *unused*; the ledger holds
//! the tokens in state *used*. They are disjoint at all times, their
//! union never changes except by issuance, and the only mutating
//! operation is [`Service::redeem`], which moves one token from the pool
//! to the ledger and appends one log entry, as a single transition.

use vstd::prelude::*;
use crate::token::{Token, spec_token_of, valid_token_str, parse_token, token_string, lemma_pow10_8};

verus! {

/// Why a redemption was refused.
#[derive(Clone, Copy, PartialEq, Eq, Structural, Debug)]
pub enum RedeemError {
    /// The token was redeemed before.
    AlreadyUsed,
    /// The token was never issued (or is no longer recognized).
    NotFound,
}

/// One completed redemption: the consumed token and the identifier
/// supplied with it.
pub struct Record {
    pub token: Token,
    pub student_id: String,
}

/// Mathematical model of the service state: the pool and ledger as sets,
/// the log as the sequence of `(token, identifier)` pairs in completion
/// order.
#[verifier::ext_equal]
pub struct ServiceModel {
    pub pool: Set<Token>,
    pub used: Set<Token>,
    pub log: Seq<(Token, Seq<char>)>,
}

impl ServiceModel {
    /// Every token ever issued: unused and used together.
    pub open spec fn issued(self) -> Set<Token> {
        self.pool.union(self.used)
    }

    /// The state invariant: pool and ledger are disjoint sets of
    /// well-formed tokens, every logged token is used, and no token is
    /// logged twice.
    pub open spec fn wf(self) -> bool {
        &&& self.pool.finite()
        &&& self.used.finite()
        &&& self.pool.disjoint(self.used)
        &&& forall|t: Token| self.pool.contains(t) ==> (#[trigger] t.wf())
        &&& forall|t: Token| self.used.contains(t) ==> (#[trigger] t.wf())
        &&& forall|i: int| 0 <= i < self.log.len() ==> self.used.contains((#[trigger] self.log[i]).0)
        &&& forall|i: int, j: int| 0 <= i < j < self.log.len()
            ==> (#[trigger] self.log[i]).0 != (#[trigger] self.log[j]).0
    }
}

/// The service state proper: unused tokens, used tokens, and the
/// redemption log, each kept as a duplicate-free vector.
pub struct Service {
    pub pool: Vec<Token>,
    pub used: Vec<Token>,
    pub log: Vec<Record>,
}

impl Service {
    /// Abstraction to the mathematical model.
    pub open spec fn model(self) -> ServiceModel {
        ServiceModel {
            pool: self.pool@.to_set(),
            used: self.used@.to_set(),
            log: self.log@.map_values(|r: Record| (r.token, r.student_id@)),
        }
    }

    /// Representation invariant: the vectors are duplicate-free and the
    /// model is well-formed.
    pub open spec fn inv(self) -> bool {
        &&& self.pool@.no_duplicates()
        &&& self.used@.no_duplicates()
        &&& self.model().wf()
    }

    /// A service with nothing issued yet.
    pub fn new() -> (s: Service)
        ensures
            s.inv(),
            s.model() == (ServiceModel {
                pool: Set::<Token>::empty(),
                used: Set::<Token>::empty(),
                log: Seq::<(Token, Seq<char>)>::empty(),
            }),
    {
        let s = Service { pool: Vec::new(), used: Vec::new(), log: Vec::new() };
        proof {
            assert(s.pool@.to_set() =~= Set::<Token>::empty());
            assert(s.used@.to_set() =~= Set::<Token>::empty());
            assert(s.model().log =~= Seq::<(Token, Seq<char>)>::empty());
            assert(s.model() =~= (ServiceModel {
                pool: Set::<Token>::empty(),
                used: Set::<Token>::empty(),
                log: Seq::<(Token, Seq<char>)>::empty(),
            }));
        }
        s
    }

    /// The token is currently unused (present in the pool).
    pub fn contains_unused(&self, t: Token) -> (r: bool)
        ensures
            r == self.model().pool.contains(t),
    {
        vec_contains_token(&self.pool, t)
    }

    /// The token has been redeemed (present in the ledger).
    pub fn contains_used(&self, t: Token) -> (r: bool)
        ensures
            r == self.model().used.contains(t),
    {
        vec_contains_token(&self.used, t)
    }

    /// Add a freshly issued token to the pool. Refused (and the state left
    /// unchanged) when the token was already issued, so issuance by random
    /// sampling collapses duplicates.
    pub fn insert_token(&mut self, t: Token) -> (added: bool)
        requires
            old(self).inv(),
            t.wf(),
        ensures
            final(self).inv(),
            added == !old(self).model().issued().contains(t),
            added ==> final(self).model() == (ServiceModel {
                pool: old(self).model().pool.insert(t),
                used: old(self).model().used,
                log: old(self).model().log,
            }),
            !added ==> *final(self) == *old(self),
    {
        if self.contains_unused(t) || self.contains_used(t) {
            return false;
        }
        proof {
            assert(!self.pool@.contains(t));
            lemma_no_dup_push_to_set(self.pool@, t);
        }
        self.pool.push(t);
        proof {
            assert(self.model() =~= (ServiceModel {
                pool: old(self).model().pool.insert(t),
                used: old(self).model().used,
                log: old(self).model().log,
            }));
        }
        true
    }

    /// The read-only step-1 check: the string is a well-formed token that
    /// is still unused. Takes the state by shared reference, so repeated
    /// calls can never mutate the pool or the ledger.
    pub fn is_redeemable(&self, token_str: &str) -> (r: bool)
        ensures
            r == spec_is_redeemable(self.model(), token_str@),
    {
        match parse_token(token_str) {
            Some(t) => {
                let in_pool = self.contains_unused(t);
                let in_used = self.contains_used(t);
                in_pool && !in_used
            },
            None => false,
        }
    }

    /// The single state-changing operation: atomically check and consume.
    /// Exactly when the token is in the pool, it moves to the ledger and
    /// one `(token, identifier)` entry is appended to the log; a used
    /// token fails with `AlreadyUsed`, an unknown one with `NotFound`,
    /// and failures leave the state untouched.
    pub fn redeem(&mut self, t: Token, student_id: &str) -> (r: Result<(), RedeemError>)
        requires
            old(self).inv(),
        ensures
            final(self).inv(),
            r == spec_redeem_outcome(old(self).model(), t),
            r is Ok <==> old(self).model().pool.contains(t),
            r == Result::<(), RedeemError>::Err(RedeemError::AlreadyUsed)
                <==> old(self).model().used.contains(t),
            r == Result::<(), RedeemError>::Err(RedeemError::NotFound)
                <==> !old(self).model().issued().contains(t),
            r is Ok ==> final(self).model() == (ServiceModel {
                pool: old(self).model().pool.remove(t),
                used: old(self).model().used.insert(t),
                log: old(self).model().log.push((t, student_id@)),
            }),
            r is Err ==> *final(self) == *old(self),
    {
        if self.contains_used(t) {
            return Err(RedeemError::AlreadyUsed);
        }
        let idx = vec_index_of_token(&self.pool, t);
        match idx {
            None => Err(RedeemError::NotFound),
            Some(i) => {
                proof {
                    lemma_no_dup_remove_to_set(self.pool@, i as int, t);
                    assert(!self.used@.contains(t));
                    lemma_no_dup_push_to_set(self.used@, t);
                    assert(self.pool@.contains(t)) by {
                        assert(self.pool@[i as int] == t);
                    }
                }
                self.pool.remove(i);
                self.used.push(t);
                let entry = Record { token: t, student_id: String::from_str(student_id) };
                self.log.push(entry);
                proof {
                    let f = |r: Record| (r.token, r.student_id@);
                    assert(self.log@.map_values(f)
                        =~= old(self).log@.map_values(f).push((t, student_id@)));
                    assert(self.model() =~= (ServiceModel {
                        pool: old(self).model().pool.remove(t),
                        used: old(self).model().used.insert(t),
                        log: old(self).model().log.push((t, student_id@)),
                    }));
                }
                Ok(())
            },
        }
    }

    /// Issue up to `count` fresh tokens by sampling uniformly from the
    /// 8-digit space; duplicate samples collapse, so at most `count`
    /// tokens are added and every added token is a full 8-digit one.
    /// From a state with nothing issued yet, asking for at least one
    /// token always yields one: the first sample has nothing to collide
    /// with.
    pub fn issue(&mut self, count: usize)
        requires
            old(self).inv(),
        ensures
            final(self).inv(),
            final(self).model().used == old(self).model().used,
            final(self).model().log == old(self).model().log,
            final(self).model().pool.len() <= old(self).model().pool.len() + count,
            count >= 1 && old(self).model().issued().len() == 0
                ==> final(self).model().pool.len() >= 1,
            forall|t: Token| old(self).model().pool.contains(t)
                ==> #[trigger] final(self).model().pool.contains(t),
            forall|t: Token| #[trigger] final(self).model().pool.contains(t)
                ==> old(self).model().pool.contains(t)
                    || (t.len == 8 && 10000000 <= t.value < 99999999),
    {
        let mut k: usize = 0;
        while k < count
            invariant
                k <= count,
                self.inv(),
                self.model().used == old(self).model().used,
                self.model().log == old(self).model().log,
                self.model().pool.len() <= old(self).model().pool.len() + k,
                k >= 1 && old(self).model().issued().len() == 0
                    ==> self.model().pool.len() >= 1,
                forall|t: Token| old(self).model().pool.contains(t)
                    ==> #[trigger] self.model().pool.contains(t),
                forall|t: Token| #[trigger] self.model().pool.contains(t)
                    ==> old(self).model().pool.contains(t)
                        || (t.len == 8 && 10000000 <= t.value < 99999999),
            decreases count - k,
        {
            let v = sample_token_value();
            let t = Token { len: 8, value: v };
            proof {
                lemma_pow10_8();
            }
            let ghost pre = *self;
            let added = self.insert_token(t);
            proof {
                if old(self).model().issued().len() == 0 && k == 0 {
                    old(self).model().issued().lemma_len0_is_empty();
                    assert(pre.model().pool.len() == 0) by {
                        assert forall|x: Token| !(#[trigger] old(self).model().pool.contains(x)) by {
                            assert(!old(self).model().issued().contains(x));
                        }
                        assert(old(self).model().pool =~= Set::<Token>::empty());
                    }
                    pre.model().pool.lemma_len0_is_empty();
                    assert(!pre.model().issued().contains(t)) by {
                        assert(!pre.model().pool.contains(t));
                        assert(!old(self).model().issued().contains(t));
                        assert(!old(self).model().used.contains(t));
                    }
                    assert(added);
                    assert(self.model().pool.len() >= 1);
                }
            }
            k += 1;
        }
    }

    /// The digit strings of the currently unused tokens, in pool order:
    /// the issuance artifact an operator keeps out of band.
    pub fn pool_strings(&self) -> (r: Vec<String>)
        requires
            self.inv(),
        ensures
            r@.len() == self.pool@.len(),
            forall|i: int| 0 <= i < r@.len() ==> (#[trigger] r@[i])@ == self.pool@[i].chars(),
    {
        let n = self.pool.len();
        let mut r: Vec<String> = Vec::new();
        let mut i: usize = 0;
        while i < n
            invariant
                i <= n,
                n == self.pool@.len(),
                self.inv(),
                r@.len() == i,
                forall|j: int| 0 <= j < i ==> (#[trigger] r@[j])@ == self.pool@[j].chars(),
            decreases n - i,
        {
            let t = self.pool[i];
            proof {
                assert(self.pool@.contains(t)) by {
                    assert(self.pool@[i as int] == t);
                }
                assert(self.model().pool.contains(t));
            }
            r.push(token_string(t));
            i += 1;
        }
        r
    }
}

/// The one CSV-style line recorded durably for a completed redemption:
/// the token's digits, a comma, the identifier's digits.
pub fn record_line(token_str: &str, student_id: &str) -> (r: String)
    ensures
        r@ == token_str@ + ","@ + student_id@,
{
    let mut r = String::from_str(token_str);
    r.append(",");
    r.append(student_id);
    proof {
        assert(r@ =~= token_str@ + ","@ + student_id@);
    }
    r
}

/// The outcome a redemption attempt for `t` must have in state `m`.
pub open spec fn spec_redeem_outcome(m: ServiceModel, t: Token) -> Result<(), RedeemError> {
    if m.used.contains(t) {
        Err(RedeemError::AlreadyUsed)
    } else if m.pool.contains(t) {
        Ok(())
    } else {
        Err(RedeemError::NotFound)
    }
}

/// The model-level successor state of a successful redemption: the token
/// leaves the pool, enters the ledger, and one log entry is appended.
pub open spec fn spec_redeem_next(m: ServiceModel, t: Token, id: Seq<char>) -> ServiceModel {
    ServiceModel {
        pool: m.pool.remove(t),
        used: m.used.insert(t),
        log: m.log.push((t, id)),
    }
}

/// Exactly-once redemption: from any well-formed state in which `t` is
/// redeemable, one successful redemption leaves a state in which every
/// further attempt for `t` fails with `AlreadyUsed` — the token is used,
/// no longer unused, the set of issued tokens is unchanged, and the log
/// gains exactly its first entry for `t`.
pub proof fn lemma_redeem_exactly_once(m: ServiceModel, t: Token, id1: Seq<char>)
    requires
        m.wf(),
        m.pool.contains(t),
    ensures
        spec_redeem_next(m, t, id1).wf(),
        spec_redeem_next(m, t, id1).used.contains(t),
        !spec_redeem_next(m, t, id1).pool.contains(t),
        spec_redeem_outcome(spec_redeem_next(m, t, id1), t) == Err::<(), RedeemError>(RedeemError::AlreadyUsed),
        spec_redeem_next(m, t, id1).issued() == m.issued(),
        spec_redeem_next(m, t, id1).log == m.log.push((t, id1)),
        forall|i: int| 0 <= i < m.log.len() ==> (#[trigger] m.log[i]).0 != t,
{
    let next = spec_redeem_next(m, t, id1);
    assert(!m.used.contains(t));
    assert(next.issued() =~= m.issued());
    assert forall|i: int| 0 <= i < m.log.len() implies (#[trigger] m.log[i]).0 != t by {
        assert(m.used.contains(m.log[i].0));
    }
    assert forall|i: int| 0 <= i < next.log.len()
        implies next.used.contains((#[trigger] next.log[i]).0) by {
        if i < m.log.len() {
            assert(m.used.contains(m.log[i].0));
        }
    }
}

/// The log holds at most one entry per token: two distinct positions
/// always record distinct tokens.
pub proof fn lemma_log_at_most_once(m: ServiceModel, i: int, j: int)
    requires
        m.wf(),
        0 <= i < m.log.len(),
        0 <= j < m.log.len(),
        i != j,
    ensures
        m.log[i].0 != m.log[j].0,
{
}

/// Relies on rand: sampling a `Uniform` distribution built with
/// `Uniform::from(low..high)` returns a value in `[low, high)` (here
/// `[10000000, 99999999)`); being random, nothing beyond the bounds is
/// stated of the outcome.
#[verifier::external_body]
fn sample_token_value() -> (r: u64)
    ensures
        10000000 <= r < 99999999,
{
    let mut rng = rand::thread_rng();
    rand::Rng::sample(&mut rng, rand::distributions::Uniform::from(10000000u64..99999999u64))
}

/// A token is in exactly one lifecycle state: once issued, it is unused
/// precisely when it is not used — never both, never neither.
pub proof fn lemma_token_state_exclusive(m: ServiceModel, t: Token)
    requires
        m.wf(),
        m.issued().contains(t),
    ensures
        m.pool.contains(t) <==> !m.used.contains(t),
{
}

/// The read-only step-1 check: well-formed, in the pool, not in the ledger.
pub open spec fn spec_is_redeemable(m: ServiceModel, s: Seq<char>) -> bool {
    &&& valid_token_str(s)
    &&& m.pool.contains(spec_token_of(s))
    &&& !m.used.contains(spec_token_of(s))
}

/// The read path is idempotent: the step-1 check takes the service by
/// shared reference, so it can never mutate pool or ledger, and its
/// result is a function of the state and the string alone — any two
/// repetitions on the same still-unused token answer alike.
pub proof fn lemma_read_check_idempotent(m: ServiceModel, s: Seq<char>, r1: bool, r2: bool)
    requires
        r1 == spec_is_redeemable(m, s),
        r2 == spec_is_redeemable(m, s),
    ensures
        r1 == r2,
{
}

/// Find a token's index in a duplicate-free vector.
fn vec_index_of_token(v: &Vec<Token>, t: Token) -> (r: Option<usize>)
    ensures
        match r {
            Some(i) => i < v@.len() && v@[i as int] == t,
            None => !v@.contains(t),
        },
{
    let n = v.len();
    let mut i: usize = 0;
    while i < n
        invariant
            i <= n,
            n == v@.len(),
            forall|j: int| 0 <= j < i ==> v@[j] != t,
        decreases n - i,
    {
        if v[i] == t {
            return Some(i);
        }
        i += 1;
    }
    None
}

/// Pushing a fresh element onto a duplicate-free sequence adds exactly
/// it to the sequence's element set, and keeps the rest duplicate-free.
proof fn lemma_no_dup_push_to_set(s: Seq<Token>, t: Token)
    requires
        s.no_duplicates(),
        !s.contains(t),
    ensures
        s.push(t).to_set() =~= s.to_set().insert(t),
        s.push(t).no_duplicates(),
{
    let pushed = s.push(t);
    assert forall|x: Token| pushed.contains(x) implies s.contains(x) || x == t by {
        let i = choose|i: int| 0 <= i < pushed.len() && pushed[i] == x;
        if i < s.len() {
            assert(s[i] == x);
        }
    }
    assert forall|x: Token| s.contains(x) implies pushed.contains(x) by {
        let i = choose|i: int| 0 <= i < s.len() && s[i] == x;
        assert(pushed[i] == x);
    }
    assert(pushed[s.len() as int] == t);
    assert(pushed.to_set() =~= s.to_set().insert(t));
    assert forall|a: int, b: int| 0 <= a < b < pushed.len() implies pushed[a] != pushed[b] by {
        if b < s.len() {
            assert(pushed[a] == s[a] && pushed[b] == s[b]);
        } else {
            assert(pushed[b] == t && pushed[a] == s[a]);
            assert(s.contains(s[a]));
        }
    }
}

/// Removing the one occurrence of `t` from a duplicate-free sequence
/// removes exactly `t` from its set of elements, and keeps the rest
/// duplicate-free.
proof fn lemma_no_dup_remove_to_set(s: Seq<Token>, i: int, t: Token)
    requires
        s.no_duplicates(),
        0 <= i < s.len(),
        s[i] == t,
    ensures
        s.remove(i).to_set() =~= s.to_set().remove(t),
        s.remove(i).no_duplicates(),
{
    let r = s.remove(i);
    s.remove_ensures(i);
    assert forall|x: Token| r.contains(x) implies s.contains(x) && x != t by {
        let j = choose|j: int| 0 <= j < r.len() && r[j] == x;
        if j < i {
            assert(s[j] == x);
        } else {
            assert(s[j + 1] == x);
        }
    }
    assert forall|x: Token| s.contains(x) && x != t implies r.contains(x) by {
        let j = choose|j: int| 0 <= j < s.len() && s[j] == x;
        if j < i {
            assert(r[j] == x);
        } else {
            assert(j != i);
            assert(r[j - 1] == x);
        }
    }
    assert forall|a: int, b: int| 0 <= a < b < r.len() implies r[a] != r[b] by {
        let a2: int = if a < i { a } else { a + 1 };
        let b2: int = if b < i { b } else { b + 1 };
        assert(r[a] == s[a2] && r[b] == s[b2]);
    }
}

/// Linear membership scan.
fn vec_contains_token(v: &Vec<Token>, t: Token) -> (r: bool)
    ensures
        r == v@.contains(t),
{
    let n = v.len();
    let mut i: usize = 0;
    while i < n
        invariant
            i <= n,
            n == v@.len(),
            forall|j: int| 0 <= j < i ==> v@[j] != t,
        decreases n - i,
    {
        if v[i] == t {
            return true;
        }
        i += 1;
    }
    false
}

} // verus!
