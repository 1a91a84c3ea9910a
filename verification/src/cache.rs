//! The credential cache: access credentials keyed by session identifier,
//! replaced on each successful exchange for the same key. Its contracts
//! speak of its view, a `Map` from key to credential model.

use vstd::prelude::*;
use vstd::map::*;

verus! {

/// The outcome of a successful token exchange.
#[derive(Debug)]
pub struct AccessCredential {
    /// Bearer secret for calls to the protected resource API.
    pub access_token: String,
    /// Scheme reported by the provider, normally `bearer`.
    pub token_type: String,
    /// Lifetime in seconds, when the provider reports one.
    pub expires_in: Option<u64>,
    /// Scope actually granted, when the provider reports one.
    pub scope: Option<String>,
}

/// The mathematical content of an `AccessCredential`.
#[verifier::ext_equal]
pub ghost struct CredentialModel {
    pub access_token: Seq<char>,
    pub token_type: Seq<char>,
    pub expires_in: Option<u64>,
    pub scope: Option<Seq<char>>,
}

impl View for AccessCredential {
    type V = CredentialModel;

    open spec fn view(&self) -> CredentialModel {
        CredentialModel {
            access_token: self.access_token@,
            token_type: self.token_type@,
            expires_in: self.expires_in,
            scope: match self.scope {
                Some(s) => Some(s@),
                None => None,
            },
        }
    }
}

impl AccessCredential {
    /// An equal copy of this credential.
    pub fn duplicate(&self) -> (r: AccessCredential)
        ensures
            r == *self,
    {
        AccessCredential {
            access_token: self.access_token.clone(),
            token_type: self.token_type.clone(),
            expires_in: self.expires_in,
            scope: match &self.scope {
                Some(s) => Some(s.clone()),
                None => None,
            },
        }
    }

    /// The access token redacted for diagnostics: at most its first four
    /// characters, never the whole secret.
    pub fn redacted_token(&self) -> (r: String)
        ensures
            r@ == self.access_token@.take(if self.access_token@.len() < 4 {
                self.access_token@.len() as int
            } else {
                4
            }) + "..."@,
    {
        let n = self.access_token.as_str().unicode_len();
        let keep: usize = if n < 4 {
            n
        } else {
            4
        };
        let mut r = self.access_token.as_str().substring_char(0, keep).to_owned();
        r.append("...");
        proof {
            assert(self.access_token@.subrange(0, keep as int) =~= self.access_token@.take(
                keep as int,
            ));
        }
        r
    }
}

/// One cached credential under its session key.
#[derive(Debug)]
pub struct CacheEntry {
    pub key: String,
    pub credential: AccessCredential,
}

/// The session key of the entry at position `i`.
pub open spec fn cache_key_at(s: Seq<CacheEntry>, i: int) -> Seq<char> {
    s[i].key@
}

/// Whether the entries hold the given session key.
pub open spec fn cache_has_key(s: Seq<CacheEntry>, k: Seq<char>) -> bool {
    exists|i: int| 0 <= i < s.len() && #[trigger] cache_key_at(s, i) == k
}

/// The position of the given session key among the entries.
pub open spec fn cache_key_index(s: Seq<CacheEntry>, k: Seq<char>) -> int {
    choose|i: int| 0 <= i < s.len() && #[trigger] cache_key_at(s, i) == k
}

/// No two entries share a session key.
pub open spec fn cache_wf_seq(s: Seq<CacheEntry>) -> bool {
    forall|i: int, j: int|
        0 <= i < j < s.len() ==> #[trigger] cache_key_at(s, i) != #[trigger] cache_key_at(s, j)
}

/// The entries, read as a map keyed by session key.
pub open spec fn cache_as_map(s: Seq<CacheEntry>) -> Map<Seq<char>, CredentialModel> {
    Map::new(
        |k: Seq<char>| cache_has_key(s, k),
        |k: Seq<char>| s[cache_key_index(s, k)].credential@,
    )
}

proof fn lemma_cache_at(s: Seq<CacheEntry>, i: int)
    requires
        cache_wf_seq(s),
        0 <= i < s.len(),
    ensures
        cache_has_key(s, s[i].key@),
        cache_key_index(s, s[i].key@) == i,
        cache_as_map(s)[s[i].key@] == s[i].credential@,
{
    assert(cache_key_at(s, i) == s[i].key@);
    assert(cache_has_key(s, s[i].key@));
    let j = cache_key_index(s, s[i].key@);
    if i != j {
        if i < j {
            assert(cache_key_at(s, i) != cache_key_at(s, j));
        } else {
            assert(cache_key_at(s, j) != cache_key_at(s, i));
        }
    }
}

proof fn lemma_cache_push(s: Seq<CacheEntry>, entry: CacheEntry)
    requires
        cache_wf_seq(s),
        !cache_has_key(s, entry.key@),
    ensures
        cache_wf_seq(s.push(entry)),
        cache_as_map(s.push(entry)) == cache_as_map(s).insert(entry.key@, entry.credential@),
{
    let s2 = s.push(entry);
    let k0 = entry.key@;
    assert forall|i: int, j: int| 0 <= i < j < s2.len() implies #[trigger] cache_key_at(s2, i)
        != #[trigger] cache_key_at(s2, j) by {
        if j < s.len() {
            assert(s2[i] == s[i]);
            assert(s2[j] == s[j]);
            assert(cache_key_at(s, i) != cache_key_at(s, j));
        } else {
            assert(s2[j] == entry);
            assert(s2[i] == s[i]);
            if cache_key_at(s2, i) == k0 {
                assert(cache_key_at(s, i) == k0);
                assert(cache_has_key(s, k0));
            }
        }
    }
    assert_maps_equal!(cache_as_map(s.push(entry)), cache_as_map(s).insert(entry.key@, entry.credential@), k => {
        if k == k0 {
            assert(s2[s.len() as int] == entry);
            lemma_cache_at(s2, s.len() as int);
        } else {
            if cache_has_key(s2, k) {
                let j = cache_key_index(s2, k);
                assert(0 <= j < s2.len() && cache_key_at(s2, j) == k);
                assert(j < s.len()) by {
                    if j == s.len() {
                        assert(s2[j] == entry);
                    }
                }
                assert(s2[j] == s[j]);
                assert(cache_key_at(s, j) == k);
                lemma_cache_at(s, j);
                lemma_cache_at(s2, j);
            }
            if cache_has_key(s, k) {
                let j = cache_key_index(s, k);
                assert(0 <= j < s.len() && cache_key_at(s, j) == k);
                assert(s2[j] == s[j]);
                assert(cache_key_at(s2, j) == k);
                assert(cache_has_key(s2, k));
            }
        }
    });
}

proof fn lemma_cache_remove(s: Seq<CacheEntry>, i: int)
    requires
        cache_wf_seq(s),
        0 <= i < s.len(),
    ensures
        cache_wf_seq(s.remove(i)),
        cache_as_map(s.remove(i)) == cache_as_map(s).remove(s[i].key@),
{
    let s2 = s.remove(i);
    let k0 = s[i].key@;
    assert forall|p: int, q: int| 0 <= p < q < s2.len() implies #[trigger] cache_key_at(s2, p)
        != #[trigger] cache_key_at(s2, q) by {
        let p0 = if p < i {
            p
        } else {
            p + 1
        };
        let q0 = if q < i {
            q
        } else {
            q + 1
        };
        assert(s2[p] == s[p0]);
        assert(s2[q] == s[q0]);
        assert(cache_key_at(s, p0) != cache_key_at(s, q0));
    }
    assert_maps_equal!(cache_as_map(s.remove(i)), cache_as_map(s).remove(s[i].key@), k => {
        if k == k0 {
            if cache_has_key(s2, k0) {
                let j = cache_key_index(s2, k0);
                assert(0 <= j < s2.len() && cache_key_at(s2, j) == k0);
                let j0 = if j < i { j } else { j + 1 };
                assert(s2[j] == s[j0]);
                assert(cache_key_at(s, j0) == k0);
                assert(cache_key_at(s, i) == k0);
                if j0 < i {
                    assert(cache_key_at(s, j0) != cache_key_at(s, i));
                } else {
                    assert(cache_key_at(s, i) != cache_key_at(s, j0));
                }
            }
        } else {
            if cache_has_key(s2, k) {
                let j = cache_key_index(s2, k);
                assert(0 <= j < s2.len() && cache_key_at(s2, j) == k);
                let j0 = if j < i { j } else { j + 1 };
                assert(s2[j] == s[j0]);
                assert(cache_key_at(s, j0) == k);
                lemma_cache_at(s, j0);
                lemma_cache_at(s2, j);
            }
            if cache_has_key(s, k) {
                let j = cache_key_index(s, k);
                assert(0 <= j < s.len() && cache_key_at(s, j) == k);
                if j != i {
                    let j2 = if j < i { j } else { j - 1 };
                    assert(s2[j2] == s[j]);
                    assert(cache_key_at(s2, j2) == k);
                    assert(cache_has_key(s2, k));
                    lemma_cache_at(s2, j2);
                } else {
                    assert(k == k0);
                }
            }
        }
    });
}

/// Keyed cache of access credentials, replace-on-write.
pub struct CredentialCache {
    entries: Vec<CacheEntry>,
}

impl CredentialCache {
    /// Well-formedness: one entry per session key.
    pub closed spec fn wf(&self) -> bool {
        cache_wf_seq(self.entries@)
    }

    /// An empty cache.
    pub fn new() -> (r: CredentialCache)
        ensures
            r.wf(),
            r@ == Map::<Seq<char>, CredentialModel>::empty(),
    {
        let r = CredentialCache { entries: Vec::new() };
        proof {
            assert_maps_equal!(cache_as_map(r.entries@), Map::<Seq<char>, CredentialModel>::empty());
        }
        r
    }

    /// Stores the credential under the key, overwriting any credential the
    /// key held before; every other key is untouched.
    pub fn set(&mut self, key: &str, credential: AccessCredential)
        requires
            old(self).wf(),
        ensures
            final(self).wf(),
            final(self)@ == old(self)@.insert(key@, credential@),
    {
        let n = self.entries.len();
        let mut i: usize = 0;
        while i < n
            invariant
                self == old(self),
                self.wf(),
                n == self.entries@.len(),
                i <= n,
                forall|j: int| 0 <= j < i ==> #[trigger] cache_key_at(self.entries@, j) != key@,
            decreases n - i,
        {
            if crate::encode::str_eq(self.entries[i].key.as_str(), key) {
                proof {
                    assert(cache_key_at(self.entries@, i as int) == key@);
                    lemma_cache_at(self.entries@, i as int);
                    lemma_cache_remove(self.entries@, i as int);
                }
                let _ = self.entries.remove(i);
                proof {
                    assert(!self@.contains_key(key@));
                    assert(!cache_has_key(self.entries@, key@));
                }
                let entry = CacheEntry { key: key.to_owned(), credential };
                proof {
                    lemma_cache_push(self.entries@, entry);
                }
                self.entries.push(entry);
                proof {
                    assert(self@ =~= old(self)@.insert(key@, credential@));
                }
                return ;
            }
            i = i + 1;
        }
        proof {
            assert(forall|j: int|
                0 <= j < self.entries@.len() ==> #[trigger] cache_key_at(self.entries@, j)
                    != key@);
            assert(!cache_has_key(self.entries@, key@));
        }
        let entry = CacheEntry { key: key.to_owned(), credential };
        proof {
            lemma_cache_push(self.entries@, entry);
        }
        self.entries.push(entry);
    }

    /// Reads the credential cached under the key, when one is there.
    pub fn get(&self, key: &str) -> (r: Option<&AccessCredential>)
        requires
            self.wf(),
        ensures
            r is Some <==> self@.contains_key(key@),
            r matches Some(c) ==> c@ == self@[key@],
    {
        let n = self.entries.len();
        let mut i: usize = 0;
        while i < n
            invariant
                self.wf(),
                n == self.entries@.len(),
                i <= n,
                forall|j: int| 0 <= j < i ==> #[trigger] cache_key_at(self.entries@, j) != key@,
            decreases n - i,
        {
            if crate::encode::str_eq(self.entries[i].key.as_str(), key) {
                proof {
                    assert(cache_key_at(self.entries@, i as int) == key@);
                    lemma_cache_at(self.entries@, i as int);
                }
                return Some(&self.entries[i].credential);
            }
            i = i + 1;
        }
        proof {
            assert(forall|j: int|
                0 <= j < self.entries@.len() ==> #[trigger] cache_key_at(self.entries@, j)
                    != key@);
            assert(!cache_has_key(self.entries@, key@));
        }
        None
    }
}

impl View for CredentialCache {
    type V = Map<Seq<char>, CredentialModel>;

    closed spec fn view(&self) -> Map<Seq<char>, CredentialModel> {
        cache_as_map(self.entries@)
    }
}

} // verus!
