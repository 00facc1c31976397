//! The CSRF state store: short-lived, single-use random tokens that tie an
//! OAuth callback to a request this system issued. A token is removed on its
//! first lookup whatever the TTL says; expiry is only checked lazily at that
//! moment.

use vstd::prelude::*;

verus! {

use vstd::map::*;
use crate::rng::random_bytes;
use crate::text::{clone_string, str_eq};

/// How long an issued token stays consumable, in seconds.
pub const CSRF_TTL_SECS: u64 = 300;

/// An issued token older than the TTL at consumption time. A token stamped in
/// the future is not expired, matching elapsed-time arithmetic on a signed
/// clock.
pub open spec fn spec_csrf_expired(issued_at: u64, now: u64) -> bool {
    issued_at < now && now - issued_at > CSRF_TTL_SECS
}

/// A character of the URL-safe base64 alphabet.
pub open spec fn is_base64_url_char(c: char) -> bool {
    crate::text::is_ascii_alnum(c) || c == '-' || c == '_'
}

/// Relies on base64's `URL_SAFE_NO_PAD` engine: URL-safe text, no padding,
/// a function of the input bytes alone; unpadded base64 of `n` bytes is
/// `ceil(4n/3)` characters, all of the URL-safe alphabet.
#[verifier::external_body]
fn base64_url_encode(bytes: &Vec<u8>) -> (r: String)
    ensures
        r@ == b64url_of(bytes@),
        r@.len() == (bytes@.len() * 4 + 2) / 3,
        forall|i: int| 0 <= i < r@.len() ==> is_base64_url_char(#[trigger] r@[i]),
{
    base64::Engine::encode(&base64::engine::general_purpose::URL_SAFE_NO_PAD, bytes.as_slice())
}

pub uninterp spec fn b64url_of(bytes: Seq<u8>) -> Seq<char>;

pub struct CsrfEntry {
    pub token: String,
    pub owner_id: String,
    pub issued_at: u64,
}

/// The token registry. Tokens are unique while present; the store is a map
/// from token to the owner it was issued for and the time it was stamped.
pub struct CsrfStore {
    entries: Vec<CsrfEntry>,
}

/// What consuming a token yields: the owner it was issued for, `Unknown` for
/// a token never issued (or already consumed), `Expired` for one issued too
/// long ago — which is removed all the same.
#[derive(Debug)]
pub enum ConsumeOutcome {
    Owner(String),
    Unknown,
    Expired,
}

impl CsrfStore {
    pub closed spec fn wf(self) -> bool {
        forall|i: int, j: int|
            0 <= i < j < self.entries@.len() ==> (#[trigger] self.entries@[i]).token@ != (
            #[trigger] self.entries@[j]).token@
    }

    /// The store as a map from token to (owner, issue time).
    pub closed spec fn model(self) -> Map<Seq<char>, (Seq<char>, u64)> {
        Map::new(
            |t: Seq<char>|
                exists|i: int|
                    0 <= i < self.entries@.len() && (#[trigger] self.entries@[i]).token@ == t,
            |t: Seq<char>|
                {
                    let i = choose|i: int|
                        0 <= i < self.entries@.len() && (#[trigger] self.entries@[i]).token@ == t;
                    (self.entries@[i].owner_id@, self.entries@[i].issued_at)
                },
        )
    }

    /// In a well-formed store, an entry at any index is what the model maps
    /// its token to.
    proof fn lemma_model_at(self, k: int)
        requires
            self.wf(),
            0 <= k < self.entries@.len(),
        ensures
            self.model().dom().contains(self.entries@[k].token@),
            self.model()[self.entries@[k].token@] == (
                self.entries@[k].owner_id@,
                self.entries@[k].issued_at,
            ),
    {
        let t = self.entries@[k].token@;
        let i = choose|i: int|
            0 <= i < self.entries@.len() && (#[trigger] self.entries@[i]).token@ == t;
        if i != k {
            assert(self.entries@[i].token@ != self.entries@[k].token@);
        }
    }

    pub fn new() -> (s: Self)
        ensures
            s.wf(),
            s.model() == Map::<Seq<char>, (Seq<char>, u64)>::empty(),
    {
        let s = CsrfStore { entries: Vec::new() };
        proof {
            assert_maps_equal!(s.model(), Map::<Seq<char>, (Seq<char>, u64)>::empty());
        }
        s
    }

    /// Index of the entry holding `token`, or the length when absent.
    fn find_token(&self, token: &str) -> (idx: usize)
        ensures
            idx <= self.entries@.len(),
            idx < self.entries@.len() ==> self.entries@[idx as int].token@ == token@,
            idx == self.entries@.len() ==> forall|i: int|
                0 <= i < self.entries@.len() ==> (#[trigger] self.entries@[i]).token@ != token@,
    {
        let n = self.entries.len();
        let mut i: usize = 0;
        while i < n
            invariant
                0 <= i <= n,
                n == self.entries@.len(),
                forall|j: int| 0 <= j < i ==> (#[trigger] self.entries@[j]).token@ != token@,
            decreases n - i,
        {
            if str_eq(self.entries[i].token.as_str(), token) {
                return i;
            }
            i = i + 1;
        }
        n
    }

    /// Remove the entry holding `token`, if present.
    fn remove_token(&mut self, token: &str)
        requires
            old(self).wf(),
        ensures
            final(self).wf(),
            final(self).model() == old(self).model().remove(token@),
    {
        let ghost s0 = *self;
        let ghost m0 = s0.model();
        let ghost pre = s0.entries@;
        let idx = self.find_token(token);
        if idx == self.entries.len() {
            proof {
                assert(!m0.dom().contains(token@));
                assert_maps_equal!(self.model(), m0.remove(token@));
            }
            return;
        }
        let _ = self.entries.remove(idx);
        proof {
            let post = self.entries@;
            assert(post =~= pre.remove(idx as int));
            assert forall|i: int, j: int| 0 <= i < j < post.len() implies (
                #[trigger] post[i]).token@ != (#[trigger] post[j]).token@ by {
                let pi: int = if i < idx {
                    i
                } else {
                    i + 1
                };
                let pj: int = if j < idx {
                    j
                } else {
                    j + 1
                };
                assert(post[i] == pre[pi] && post[j] == pre[pj]);
            }
            assert_maps_equal!(self.model(), m0.remove(token@), t => {
                if exists|i: int| 0 <= i < post.len() && (#[trigger] post[i]).token@ == t {
                    let i = choose|i: int| 0 <= i < post.len() && (#[trigger] post[i]).token@ == t;
                    let pi: int = if i < idx { i } else { i + 1 };
                    assert(pre[pi].token@ == t);
                    assert(pi != idx);
                    assert(t != token@);
                    s0.lemma_model_at(pi);
                    self.lemma_model_at(i);
                } else {
                    assert(!self.model().dom().contains(t));
                    if t != token@ && exists|i: int|
                        0 <= i < pre.len() && (#[trigger] pre[i]).token@ == t {
                        let i = choose|i: int|
                            0 <= i < pre.len() && (#[trigger] pre[i]).token@ == t;
                        assert(i != idx);
                        let ni: int = if i < idx { i } else { i - 1 };
                        assert(post[ni] == pre[i]);
                        assert(post[ni].token@ == t);
                        assert(false);
                    }
                    assert(!m0.remove(token@).dom().contains(t));
                }
            });
        }
    }

    /// Record a token for an owner at a stamp time, replacing any entry with
    /// the same token.
    fn record(&mut self, token: String, owner_id: String, now: u64)
        requires
            old(self).wf(),
        ensures
            final(self).wf(),
            final(self).model() == old(self).model().insert(token@, (owner_id@, now)),
    {
        let ghost m0 = old(self).model();
        let ghost tok = token@;
        let ghost owner = owner_id@;
        self.remove_token(token.as_str());
        let ghost mid = *self;
        self.entries.push(CsrfEntry { token, owner_id, issued_at: now });
        proof {
            let pre = mid.entries@;
            let post = self.entries@;
            assert(post.len() == pre.len() + 1);
            assert(post.last().token@ == tok);
            assert forall|i: int, j: int| 0 <= i < j < post.len() implies (
                #[trigger] post[i]).token@ != (#[trigger] post[j]).token@ by {
                if j == post.len() - 1 {
                    assert(post[i] == pre[i]);
                    if pre[i].token@ == tok {
                        mid.lemma_model_at(i);
                        assert(false);
                    }
                } else {
                    assert(post[i] == pre[i] && post[j] == pre[j]);
                }
            }
            assert_maps_equal!(self.model(), mid.model().insert(tok, (owner, now)), t => {
                if t == tok {
                    self.lemma_model_at(post.len() - 1);
                } else {
                    if exists|i: int| 0 <= i < post.len() && (#[trigger] post[i]).token@ == t {
                        let i = choose|i: int| 0 <= i < post.len() && (#[trigger] post[i]).token@ == t;
                        assert(i < pre.len());
                        assert(pre[i].token@ == t);
                        mid.lemma_model_at(i);
                        self.lemma_model_at(i);
                    } else {
                        if exists|i: int| 0 <= i < pre.len() && (#[trigger] pre[i]).token@ == t {
                            let i = choose|i: int| 0 <= i < pre.len() && (#[trigger] pre[i]).token@ == t;
                            assert(post[i].token@ == t);
                            assert(false);
                        }
                    }
                }
            });
            assert_maps_equal!(m0.remove(tok).insert(tok, (owner, now)), m0.insert(tok, (owner, now)));
        }
    }

    /// Issue a fresh single-use token for an owner: 32 random bytes — 256
    /// bits of entropy — rendered as 43 URL-safe characters, recorded with
    /// the issue time.
    pub fn issue(&mut self, owner_id: String, now: u64) -> (token: String)
        requires
            old(self).wf(),
        ensures
            final(self).wf(),
            final(self).model() == old(self).model().insert(token@, (owner_id@, now)),
            token@.len() == 43,
            forall|i: int| 0 <= i < token@.len() ==> is_base64_url_char(#[trigger] token@[i]),
    {
        let bytes = random_bytes(32);
        let token = base64_url_encode(&bytes);
        let copy = clone_string(&token);
        self.record(copy, owner_id, now);
        token
    }

    /// Consume a token atomically: remove it if present, then judge it.
    /// Absent tokens are `Unknown`; present ones are removed whatever the
    /// verdict, `Expired` past the TTL and the issuing owner otherwise.
    pub fn consume(&mut self, token: &str, now: u64) -> (r: ConsumeOutcome)
        requires
            old(self).wf(),
        ensures
            final(self).wf(),
            !old(self).model().dom().contains(token@) ==> (r is Unknown && final(self).model()
                == old(self).model()),
            old(self).model().dom().contains(token@) ==> {
                &&& final(self).model() == old(self).model().remove(token@)
                &&& (spec_csrf_expired(old(self).model()[token@].1, now) <==> r is Expired)
                &&& (!spec_csrf_expired(old(self).model()[token@].1, now) ==> (
                r matches ConsumeOutcome::Owner(o) && o@ == old(self).model()[token@].0))
            },
    {
        let ghost s0 = *self;
        let idx = self.find_token(token);
        if idx == self.entries.len() {
            proof {
                assert(!s0.model().dom().contains(token@));
            }
            return ConsumeOutcome::Unknown;
        }
        proof {
            s0.lemma_model_at(idx as int);
        }
        let owner_id = clone_string(&self.entries[idx].owner_id);
        let issued_at = self.entries[idx].issued_at;
        self.remove_token(token);
        let expired = issued_at < now && now - issued_at > CSRF_TTL_SECS;
        if expired {
            ConsumeOutcome::Expired
        } else {
            ConsumeOutcome::Owner(owner_id)
        }
    }

    /// How many tokens are outstanding.
    pub fn len(&self) -> (n: usize)
        requires
            self.wf(),
        ensures
            n == self.model().dom().len(),
    {
        proof {
            self.lemma_len();
        }
        self.entries.len()
    }

    /// In a well-formed store the model has one key per entry.
    proof fn lemma_len(self)
        requires
            self.wf(),
        ensures
            self.model().dom().finite(),
            self.model().dom().len() == self.entries@.len(),
    {
        self.lemma_tokens_len(self.entries@.len() as int);
        let tokens = Set::new(
            |t: Seq<char>|
                exists|i: int|
                    0 <= i < self.entries@.len() as int && (#[trigger] self.entries@[i]).token@
                        == t,
        );
        assert(self.model().dom() =~= tokens);
    }

    proof fn lemma_tokens_len(self, k: int)
        requires
            self.wf(),
            0 <= k <= self.entries@.len(),
        ensures
            Set::new(
                |t: Seq<char>|
                    exists|i: int| 0 <= i < k && (#[trigger] self.entries@[i]).token@ == t,
            ).finite(),
            Set::new(
                |t: Seq<char>|
                    exists|i: int| 0 <= i < k && (#[trigger] self.entries@[i]).token@ == t,
            ).len() == k,
        decreases k,
    {
        let s = Set::new(
            |t: Seq<char>| exists|i: int| 0 <= i < k && (#[trigger] self.entries@[i]).token@ == t,
        );
        if k == 0 {
            assert(s =~= Set::<Seq<char>>::empty());
        } else {
            self.lemma_tokens_len(k - 1);
            let prev = Set::new(
                |t: Seq<char>|
                    exists|i: int| 0 <= i < k - 1 && (#[trigger] self.entries@[i]).token@ == t,
            );
            assert(!prev.contains(self.entries@[k - 1].token@));
            assert(s =~= prev.insert(self.entries@[k - 1].token@));
        }
    }
}


/// Law: tokens are single-use. Whatever consuming a present token returned,
/// the store afterwards — `consume`'s contract makes it the old model with
/// the token removed — no longer holds the token, so a second consume of the
/// same token can only be `Unknown`.
pub proof fn lemma_consume_single_use(store: CsrfStore, token: Seq<char>)
    requires
        store.wf(),
    ensures
        !store.model().remove(token).dom().contains(token),
{
}

} // verus!
