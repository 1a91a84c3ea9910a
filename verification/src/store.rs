//! The flow session store: a keyed map from CSRF state token to pending-flow
//! record. An entry is created when a flow starts and consumed exactly once by
//! the callback that presents its key; entries older than the TTL are evicted
//! on access. The store's contracts speak of its view, a `Map` from state
//! token to flow model.

use crate::errors::StoreError;
use vstd::prelude::*;
use vstd::map::*;

verus! {

/// Entries older than this many seconds are treated as absent.
pub const DEFAULT_TTL_SECONDS: u64 = 600;

/// One in-flight authorization attempt. Created by the initiator, read-once:
/// it is never mutated, only removed by the callback that consumes it.
#[derive(Debug)]
pub struct PendingFlow {
    /// Opaque random token, unique per flow; the store key.
    pub csrf_state: String,
    /// Secret sent only in the token-exchange request.
    pub pkce_verifier: String,
    /// Scope identifiers requested for this flow.
    pub requested_scopes: Vec<String>,
    /// Creation timestamp in seconds, used for expiry.
    pub created_at: u64,
}

/// The mathematical content of a `PendingFlow`.
#[verifier::ext_equal]
pub ghost struct FlowModel {
    pub csrf_state: Seq<char>,
    pub pkce_verifier: Seq<char>,
    pub requested_scopes: Seq<Seq<char>>,
    pub created_at: u64,
}

impl View for PendingFlow {
    type V = FlowModel;

    open spec fn view(&self) -> FlowModel {
        FlowModel {
            csrf_state: self.csrf_state@,
            pkce_verifier: self.pkce_verifier@,
            requested_scopes: crate::encode::seq_views(self.requested_scopes@),
            created_at: self.created_at,
        }
    }
}

/// The state token of the flow at position `i`.
pub open spec fn key_at(s: Seq<PendingFlow>, i: int) -> Seq<char> {
    s[i]@.csrf_state
}

/// Whether a sequence of flows holds the given state token.
pub open spec fn seq_has_key(s: Seq<PendingFlow>, k: Seq<char>) -> bool {
    exists|i: int| 0 <= i < s.len() && #[trigger] key_at(s, i) == k
}

/// The position of the given state token in a sequence of flows.
pub open spec fn seq_key_index(s: Seq<PendingFlow>, k: Seq<char>) -> int {
    choose|i: int| 0 <= i < s.len() && #[trigger] key_at(s, i) == k
}

/// No two flows in the sequence share a state token.
pub open spec fn seq_wf(s: Seq<PendingFlow>) -> bool {
    forall|i: int, j: int|
        0 <= i < j < s.len() ==> #[trigger] key_at(s, i) != #[trigger] key_at(s, j)
}

/// The sequence of flows, read as a map keyed by state token.
pub open spec fn seq_as_map(s: Seq<PendingFlow>) -> Map<Seq<char>, FlowModel> {
    Map::new(|k: Seq<char>| seq_has_key(s, k), |k: Seq<char>| s[seq_key_index(s, k)]@)
}

proof fn lemma_key_index(s: Seq<PendingFlow>, k: Seq<char>)
    requires
        seq_has_key(s, k),
    ensures
        0 <= seq_key_index(s, k) < s.len(),
        s[seq_key_index(s, k)]@.csrf_state == k,
        seq_as_map(s).contains_key(k),
        seq_as_map(s)[k] == s[seq_key_index(s, k)]@,
{
}

proof fn lemma_unique_index(s: Seq<PendingFlow>, i: int, j: int)
    requires
        seq_wf(s),
        0 <= i < s.len(),
        0 <= j < s.len(),
        s[i]@.csrf_state == s[j]@.csrf_state,
    ensures
        i == j,
{
    if i < j {
        assert(key_at(s, i) != key_at(s, j));
    } else if j < i {
        assert(key_at(s, j) != key_at(s, i));
    }
}

proof fn lemma_at(s: Seq<PendingFlow>, i: int)
    requires
        seq_wf(s),
        0 <= i < s.len(),
    ensures
        seq_has_key(s, s[i]@.csrf_state),
        seq_key_index(s, s[i]@.csrf_state) == i,
        seq_as_map(s)[s[i]@.csrf_state] == s[i]@,
{
    assert(key_at(s, i) == s[i]@.csrf_state);
    assert(seq_has_key(s, s[i]@.csrf_state));
    lemma_key_index(s, s[i]@.csrf_state);
    lemma_unique_index(s, i, seq_key_index(s, s[i]@.csrf_state));
}

proof fn lemma_push(s: Seq<PendingFlow>, flow: PendingFlow)
    requires
        seq_wf(s),
        !seq_has_key(s, flow@.csrf_state),
    ensures
        seq_wf(s.push(flow)),
        seq_as_map(s.push(flow)) == seq_as_map(s).insert(flow@.csrf_state, flow@),
{
    let s2 = s.push(flow);
    let k0 = flow@.csrf_state;
    assert forall|i: int, j: int| 0 <= i < j < s2.len() implies #[trigger] key_at(s2, i)
        != #[trigger] key_at(s2, j) by {
        if j < s.len() {
            assert(s2[i] == s[i]);
            assert(s2[j] == s[j]);
            assert(key_at(s, i) != key_at(s, j));
        } else {
            assert(s2[j] == flow);
            assert(s2[i] == s[i]);
            if key_at(s2, i) == k0 {
                assert(key_at(s, i) == k0);
                assert(seq_has_key(s, k0));
            }
        }
    }
    assert_maps_equal!(seq_as_map(s.push(flow)), seq_as_map(s).insert(flow@.csrf_state, flow@), k => {
        if k == k0 {
            assert(s2[s.len() as int] == flow);
            lemma_at(s2, s.len() as int);
        } else {
            if seq_has_key(s2, k) {
                let j = seq_key_index(s2, k);
                lemma_key_index(s2, k);
                assert(j < s.len()) by {
                    if j == s.len() {
                        assert(s2[j] == flow);
                    }
                }
                assert(s2[j] == s[j]);
                assert(key_at(s, j) == k);
                lemma_at(s, j);
                lemma_at(s2, j);
            }
            if seq_has_key(s, k) {
                let j = seq_key_index(s, k);
                lemma_key_index(s, k);
                assert(s2[j] == s[j]);
                assert(key_at(s2, j) == k);
                assert(seq_has_key(s2, k));
            }
        }
    });
}

proof fn lemma_remove(s: Seq<PendingFlow>, i: int)
    requires
        seq_wf(s),
        0 <= i < s.len(),
    ensures
        seq_wf(s.remove(i)),
        seq_as_map(s.remove(i)) == seq_as_map(s).remove(s[i]@.csrf_state),
{
    let s2 = s.remove(i);
    let k0 = s[i]@.csrf_state;
    assert forall|p: int, q: int| 0 <= p < q < s2.len() implies #[trigger] key_at(s2, p)
        != #[trigger] key_at(s2, q) by {
        let p0 = if p < i { p } else { p + 1 };
        let q0 = if q < i { q } else { q + 1 };
        assert(s2[p] == s[p0]);
        assert(s2[q] == s[q0]);
        assert(key_at(s, p0) != key_at(s, q0));
    }
    assert_maps_equal!(seq_as_map(s.remove(i)), seq_as_map(s).remove(s[i]@.csrf_state), k => {
        if k == k0 {
            if seq_has_key(s2, k0) {
                let j = seq_key_index(s2, k0);
                lemma_key_index(s2, k0);
                let j0 = if j < i { j } else { j + 1 };
                assert(s2[j] == s[j0]);
                assert(key_at(s, j0) == k0);
                lemma_unique_index(s, j0, i);
            }
        } else {
            if seq_has_key(s2, k) {
                let j = seq_key_index(s2, k);
                lemma_key_index(s2, k);
                let j0 = if j < i { j } else { j + 1 };
                assert(s2[j] == s[j0]);
                assert(key_at(s, j0) == k);
                lemma_at(s, j0);
                lemma_at(s2, j);
            }
            if seq_has_key(s, k) {
                let j = seq_key_index(s, k);
                lemma_key_index(s, k);
                if j != i {
                    let j2 = if j < i { j } else { j - 1 };
                    assert(s2[j2] == s[j]);
                    assert(key_at(s2, j2) == k);
                    assert(seq_has_key(s2, k));
                    lemma_at(s2, j2);
                } else {
                    assert(k == k0);
                }
            }
        }
    });
}

/// A flow is still live at `now` under the given TTL.
pub open spec fn flow_fresh(f: FlowModel, now: u64, ttl: u64) -> bool {
    now <= f.created_at + ttl
}

/// What a `take` of key `k` at time `now` returns, seen on the store's map.
pub open spec fn take_result(
    m: Map<Seq<char>, FlowModel>,
    k: Seq<char>,
    now: u64,
    ttl: u64,
) -> Option<FlowModel> {
    if m.contains_key(k) && flow_fresh(m[k], now, ttl) {
        Some(m[k])
    } else {
        None
    }
}

/// What a `take` of key `k` leaves behind: the entry under `k` is gone whether
/// it was returned or evicted as stale; every other entry is untouched.
pub open spec fn take_rest(m: Map<Seq<char>, FlowModel>, k: Seq<char>) -> Map<
    Seq<char>,
    FlowModel,
> {
    if m.contains_key(k) {
        m.remove(k)
    } else {
        m
    }
}

/// Keyed map from CSRF state token to pending flow, with TTL eviction.
pub struct FlowSessionStore {
    entries: Vec<PendingFlow>,
    ttl_seconds: u64,
}

impl FlowSessionStore {
    /// The store's TTL in seconds.
    pub closed spec fn ttl(&self) -> u64 {
        self.ttl_seconds
    }

    /// Well-formedness: the store never holds two live entries with the same key.
    pub closed spec fn wf(&self) -> bool {
        seq_wf(self.entries@)
    }

    /// An empty store with the given TTL.
    pub fn new(ttl_seconds: u64) -> (r: FlowSessionStore)
        ensures
            r.wf(),
            r@ == Map::<Seq<char>, FlowModel>::empty(),
            r.ttl() == ttl_seconds,
    {
        let r = FlowSessionStore { entries: Vec::new(), ttl_seconds };
        proof {
            assert_maps_equal!(seq_as_map(r.entries@), Map::<Seq<char>, FlowModel>::empty());
        }
        r
    }

    /// Inserts a new pending flow under its own state token. Fails with
    /// `DuplicateKey`, leaving the store unchanged, exactly when a live or
    /// stale entry already sits under that token.
    pub fn put(&mut self, flow: PendingFlow) -> (r: Result<(), StoreError>)
        requires
            old(self).wf(),
        ensures
            final(self).wf(),
            final(self).ttl() == old(self).ttl(),
            old(self)@.contains_key(flow@.csrf_state) ==> r == Err::<(), StoreError>(
                StoreError::DuplicateKey,
            ) && final(self)@ == old(self)@,
            !old(self)@.contains_key(flow@.csrf_state) ==> r == Ok::<(), StoreError>(())
                && final(self)@ == old(self)@.insert(flow@.csrf_state, flow@),
    {
        let n = self.entries.len();
        let mut i: usize = 0;
        while i < n
            invariant
                self == old(self),
                self.wf(),
                n == self.entries@.len(),
                i <= n,
                forall|j: int| 0 <= j < i ==> #[trigger] key_at(self.entries@, j) != flow@.csrf_state,
            decreases n - i,
        {
            if crate::encode::str_eq(self.entries[i].csrf_state.as_str(), flow.csrf_state.as_str()) {
                proof {
                    assert(key_at(self.entries@, i as int) == flow@.csrf_state);
                    assert(seq_has_key(self.entries@, flow@.csrf_state));
                    lemma_key_index(self.entries@, flow@.csrf_state);
                }
                return Err(StoreError::DuplicateKey);
            }
            i = i + 1;
        }
        proof {
            assert(forall|j: int|
                0 <= j < self.entries@.len() ==> #[trigger] key_at(self.entries@, j)
                    != flow@.csrf_state);
            assert(!seq_has_key(self.entries@, flow@.csrf_state));
            lemma_push(self.entries@, flow);
        }
        self.entries.push(flow);
        Ok(())
    }

    /// Atomically removes and returns the flow stored under `state`, when one
    /// is there and still fresh at `now`. A stale entry is evicted and treated
    /// as absent. At most one caller can ever receive a given record: the
    /// entry is gone from the store the moment this returns.
    pub fn take(&mut self, state: &str, now: u64) -> (r: Option<PendingFlow>)
        requires
            old(self).wf(),
        ensures
            final(self).wf(),
            final(self).ttl() == old(self).ttl(),
            final(self)@ == take_rest(old(self)@, state@),
            r is Some <==> take_result(old(self)@, state@, now, old(self).ttl()) is Some,
            r matches Some(flow) ==> take_result(old(self)@, state@, now, old(self).ttl())
                == Some(flow@),
    {
        let n = self.entries.len();
        let mut i: usize = 0;
        while i < n
            invariant
                self == old(self),
                self.wf(),
                n == self.entries@.len(),
                i <= n,
                forall|j: int| 0 <= j < i ==> #[trigger] key_at(self.entries@, j) != state@,
            decreases n - i,
        {
            if crate::encode::str_eq(self.entries[i].csrf_state.as_str(), state) {
                proof {
                    assert(key_at(self.entries@, i as int) == state@);
                    lemma_at(self.entries@, i as int);
                    lemma_remove(self.entries@, i as int);
                }
                let flow = self.entries.remove(i);
                let fresh = if now <= flow.created_at {
                    true
                } else {
                    now - flow.created_at <= self.ttl_seconds
                };
                if fresh {
                    return Some(flow);
                } else {
                    return None;
                }
            }
            i = i + 1;
        }
        proof {
            assert(forall|j: int|
                0 <= j < self.entries@.len() ==> #[trigger] key_at(self.entries@, j) != state@);
            assert(!seq_has_key(self.entries@, state@));
        }
        None
    }
}

impl View for FlowSessionStore {
    type V = Map<Seq<char>, FlowModel>;

    closed spec fn view(&self) -> Map<Seq<char>, FlowModel> {
        seq_as_map(self.entries@)
    }
}

/// Law: a `take` that follows a matching `put` returns exactly that record,
/// and any further `take` of the same state returns nothing — the record is
/// consumable at most once, however many callers race for it, since the store
/// serializes them.
pub proof fn lemma_put_then_take_exactly_once(
    m: Map<Seq<char>, FlowModel>,
    k: Seq<char>,
    f: FlowModel,
    now1: u64,
    now2: u64,
    ttl: u64,
)
    requires
        flow_fresh(f, now1, ttl),
    ensures
        take_result(m.insert(k, f), k, now1, ttl) == Some(f),
        take_rest(m.insert(k, f), k) == m.remove(k),
        take_result(take_rest(m.insert(k, f), k), k, now2, ttl) is None,
{
    assert(take_rest(m.insert(k, f), k) =~= m.remove(k));
}

/// Law: a `take` on a state that was never issued, was already consumed, or
/// is older than the TTL returns nothing.
pub proof fn lemma_unissued_or_stale_take_fails(
    m: Map<Seq<char>, FlowModel>,
    k: Seq<char>,
    now: u64,
    ttl: u64,
)
    requires
        !m.contains_key(k) || !flow_fresh(m[k], now, ttl),
    ensures
        take_result(m, k, now, ttl) is None,
{
}

/// Law: flows are isolated. Starting a second flow, or consuming it, never
/// disturbs the record — in particular the PKCE verifier — of a flow stored
/// under a different state token.
pub proof fn lemma_flow_isolation(
    m: Map<Seq<char>, FlowModel>,
    k1: Seq<char>,
    k2: Seq<char>,
    f2: FlowModel,
    now: u64,
    ttl: u64,
)
    requires
        k1 != k2,
        m.contains_key(k1),
    ensures
        m.insert(k2, f2).contains_key(k1),
        m.insert(k2, f2)[k1] == m[k1],
        take_rest(m, k2).contains_key(k1),
        take_rest(m, k2)[k1] == m[k1],
        take_result(m.insert(k2, f2), k1, now, ttl) == take_result(m, k1, now, ttl),
        take_result(take_rest(m, k2), k1, now, ttl) == take_result(m, k1, now, ttl),
{
}

} // verus!
