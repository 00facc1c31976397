//! The OAuth handshake orchestrator: authorize issues a CSRF token and builds
//! the provider's authorize URL; callback consumes the token, exchanges the
//! code and stores the encrypted credential; status reports whether an owner
//! holds an unexpired credential.

use vstd::prelude::*;

verus! {

use vstd::map::*;
use crate::csrf::{CsrfStore, ConsumeOutcome, spec_csrf_expired};
use vstd::utf8::encode_utf8;
use crate::vault::{encrypt_token, gcm_plain_max, is_sealed_blob};

/// What a code exchange yields on success.
pub struct TokenExchangeResult {
    pub access_token: String,
    pub refresh_token: String,
    pub expires_in: i64,
    pub scope: String,
}

/// Exchanging an OAuth code for tokens: a network call this library only
/// drives, so implementations live with the caller and no behaviour is
/// assumed of them.
pub trait TokenExchanger {
    fn exchange(&self, code: &str, redirect_uri: &str, client_id: &str) -> Result<
        TokenExchangeResult,
        String,
    >;
}

/// A placeholder exchanger that always refuses.
pub struct NoOpExchanger;

impl TokenExchanger for NoOpExchanger {
    fn exchange(&self, code: &str, redirect_uri: &str, client_id: &str) -> Result<
        TokenExchangeResult,
        String,
    > {
        Err(String::from_str("token exchange not configured"))
    }
}

/// The callback's query parameters.
pub struct CallbackParams {
    pub code: String,
    pub state: String,
}

/// One owner's stored credential: both tokens sealed by the vault, the
/// absolute expiry time in unix seconds, and the granted scope. One record
/// per owner, replaced wholesale on each successful exchange.
pub struct CredentialRecord {
    pub owner_id: String,
    pub access_ciphertext: Vec<u8>,
    pub refresh_ciphertext: Vec<u8>,
    pub expires_at: u64,
    pub scope: String,
}

/// The credential records, one per owner.
pub struct CredentialStore {
    records: Vec<CredentialRecord>,
}

impl CredentialStore {
    pub closed spec fn wf(self) -> bool {
        forall|i: int, j: int|
            0 <= i < j < self.records@.len() ==> (#[trigger] self.records@[i]).owner_id@ != (
            #[trigger] self.records@[j]).owner_id@
    }

    /// The store as a map from owner to record.
    pub closed spec fn model(self) -> Map<Seq<char>, CredentialRecord> {
        Map::new(
            |o: Seq<char>|
                exists|i: int|
                    0 <= i < self.records@.len() && (#[trigger] self.records@[i]).owner_id@ == o,
            |o: Seq<char>|
                {
                    let i = choose|i: int|
                        0 <= i < self.records@.len() && (#[trigger] self.records@[i]).owner_id@
                            == o;
                    self.records@[i]
                },
        )
    }

    proof fn lemma_model_at(self, k: int)
        requires
            self.wf(),
            0 <= k < self.records@.len(),
        ensures
            self.model().dom().contains(self.records@[k].owner_id@),
            self.model()[self.records@[k].owner_id@] == self.records@[k],
    {
        let o = self.records@[k].owner_id@;
        let i = choose|i: int|
            0 <= i < self.records@.len() && (#[trigger] self.records@[i]).owner_id@ == o;
        if i != k {
            assert(self.records@[i].owner_id@ != self.records@[k].owner_id@);
        }
    }

    pub fn new() -> (s: Self)
        ensures
            s.wf(),
            s.model() == Map::<Seq<char>, CredentialRecord>::empty(),
    {
        let s = CredentialStore { records: Vec::new() };
        proof {
            assert_maps_equal!(s.model(), Map::<Seq<char>, CredentialRecord>::empty());
        }
        s
    }

    fn find_owner(&self, owner_id: &str) -> (idx: usize)
        ensures
            idx <= self.records@.len(),
            idx < self.records@.len() ==> self.records@[idx as int].owner_id@ == owner_id@,
            idx == self.records@.len() ==> forall|i: int|
                0 <= i < self.records@.len() ==> (#[trigger] self.records@[i]).owner_id@
                    != owner_id@,
    {
        let n = self.records.len();
        let mut i: usize = 0;
        while i < n
            invariant
                0 <= i <= n,
                n == self.records@.len(),
                forall|j: int| 0 <= j < i ==> (#[trigger] self.records@[j]).owner_id@ != owner_id@,
            decreases n - i,
        {
            if crate::text::str_eq(self.records[i].owner_id.as_str(), owner_id) {
                return i;
            }
            i = i + 1;
        }
        n
    }

    fn remove_owner(&mut self, owner_id: &str)
        requires
            old(self).wf(),
        ensures
            final(self).wf(),
            final(self).model() == old(self).model().remove(owner_id@),
    {
        let ghost s0 = *self;
        let ghost m0 = s0.model();
        let ghost pre = s0.records@;
        let idx = self.find_owner(owner_id);
        if idx == self.records.len() {
            proof {
                assert(!m0.dom().contains(owner_id@));
                assert_maps_equal!(self.model(), m0.remove(owner_id@));
            }
            return;
        }
        let _ = self.records.remove(idx);
        proof {
            let post = self.records@;
            assert(post =~= pre.remove(idx as int));
            assert forall|i: int, j: int| 0 <= i < j < post.len() implies (
                #[trigger] post[i]).owner_id@ != (#[trigger] post[j]).owner_id@ by {
                let pi: int = if i < idx {
                    i
                } else {
                    i + 1
                };
                let pj: int = if j < idx {
                    j
                } else {
                    j + 1
                };
                assert(post[i] == pre[pi] && post[j] == pre[pj]);
            }
            assert_maps_equal!(self.model(), m0.remove(owner_id@), o => {
                if exists|i: int| 0 <= i < post.len() && (#[trigger] post[i]).owner_id@ == o {
                    let i = choose|i: int| 0 <= i < post.len() && (#[trigger] post[i]).owner_id@ == o;
                    let pi: int = if i < idx { i } else { i + 1 };
                    assert(pre[pi].owner_id@ == o);
                    assert(pi != idx);
                    assert(o != owner_id@);
                    s0.lemma_model_at(pi);
                    self.lemma_model_at(i);
                } else {
                    assert(!self.model().dom().contains(o));
                    if o != owner_id@ && exists|i: int|
                        0 <= i < pre.len() && (#[trigger] pre[i]).owner_id@ == o {
                        let i = choose|i: int|
                            0 <= i < pre.len() && (#[trigger] pre[i]).owner_id@ == o;
                        assert(i != idx);
                        let ni: int = if i < idx { i } else { i - 1 };
                        assert(post[ni] == pre[i]);
                        assert(post[ni].owner_id@ == o);
                        assert(false);
                    }
                    assert(!m0.remove(owner_id@).dom().contains(o));
                }
            });
        }
    }

    /// Insert or replace the one record for the record's owner.
    pub fn upsert(&mut self, record: CredentialRecord)
        requires
            old(self).wf(),
        ensures
            final(self).wf(),
            final(self).model() == old(self).model().insert(record.owner_id@, record),
    {
        let ghost m0 = old(self).model();
        let ghost owner = record.owner_id@;
        let ghost rec = record;
        let key_copy = crate::text::clone_string(&record.owner_id);
        self.remove_owner(key_copy.as_str());
        let ghost mid = *self;
        self.records.push(record);
        proof {
            let pre = mid.records@;
            let post = self.records@;
            assert(post.len() == pre.len() + 1);
            assert(post.last().owner_id@ == owner);
            assert forall|i: int, j: int| 0 <= i < j < post.len() implies (
                #[trigger] post[i]).owner_id@ != (#[trigger] post[j]).owner_id@ by {
                if j == post.len() - 1 {
                    assert(post[i] == pre[i]);
                    if pre[i].owner_id@ == owner {
                        mid.lemma_model_at(i);
                        assert(false);
                    }
                } else {
                    assert(post[i] == pre[i] && post[j] == pre[j]);
                }
            }
            assert_maps_equal!(self.model(), mid.model().insert(owner, rec), o => {
                if o == owner {
                    self.lemma_model_at(post.len() - 1);
                } else {
                    if exists|i: int| 0 <= i < post.len() && (#[trigger] post[i]).owner_id@ == o {
                        let i = choose|i: int| 0 <= i < post.len() && (#[trigger] post[i]).owner_id@ == o;
                        assert(i < pre.len());
                        assert(pre[i].owner_id@ == o);
                        mid.lemma_model_at(i);
                        self.lemma_model_at(i);
                    } else {
                        if exists|i: int| 0 <= i < pre.len() && (#[trigger] pre[i]).owner_id@ == o {
                            let i = choose|i: int| 0 <= i < pre.len() && (#[trigger] pre[i]).owner_id@ == o;
                            assert(post[i].owner_id@ == o);
                            assert(false);
                        }
                    }
                }
            });
            assert_maps_equal!(m0.remove(owner).insert(owner, rec), m0.insert(owner, rec));
        }
    }

    /// The record stored for an owner, if any.
    pub fn get(&self, owner_id: &str) -> (r: Option<&CredentialRecord>)
        requires
            self.wf(),
        ensures
            match r {
                Some(rec) => self.model().dom().contains(owner_id@) && *rec
                    == self.model()[owner_id@],
                None => !self.model().dom().contains(owner_id@),
            },
    {
        let idx = self.find_owner(owner_id);
        if idx == self.records.len() {
            None
        } else {
            proof {
                self.lemma_model_at(idx as int);
            }
            Some(&self.records[idx])
        }
    }
}

/// Absolute expiry of a credential granted now for `expires_in` seconds:
/// saturating, and never before `now`.
pub open spec fn spec_expires_at(now: u64, expires_in: i64) -> u64 {
    if expires_in <= 0 {
        now
    } else if now as nat + expires_in as nat > u64::MAX as nat {
        u64::MAX
    } else {
        (now + expires_in as u64) as u64
    }
}

pub fn expires_at_from(now: u64, expires_in: i64) -> (t: u64)
    ensures
        t == spec_expires_at(now, expires_in),
{
    if expires_in <= 0 {
        now
    } else {
        let add = expires_in as u64;
        match now.checked_add(add) {
            Some(t) => t,
            None => u64::MAX,
        }
    }
}

/// Why a callback was rejected: a state token this system never issued, one
/// past its TTL, a refused code exchange, or a failed encryption.
#[derive(Debug)]
pub enum CallbackError {
    InvalidState,
    ExpiredState,
    ExchangeFailed(String),
    EncryptFailed,
}

/// The handshake orchestrator's state: the CSRF registry, the credential
/// records, the vault key and the provider settings.
pub struct AuthState {
    pub csrf: CsrfStore,
    pub credentials: CredentialStore,
    pub encryption_key: [u8; 32],
    pub spotify_client_id: String,
    pub spotify_redirect_uri: String,
}

/// The scopes every authorize URL requests.
pub fn authorize_scopes() -> (s: &'static str)
    ensures
        s@ == "playlist-read-private playlist-read-collaborative user-library-read"@,
{
    "playlist-read-private playlist-read-collaborative user-library-read"
}

/// What `url::Url` renders for the provider's authorize endpoint
/// `https://accounts.spotify.com/authorize` carrying these query parameters:
/// named, not written out — percent-encoding is the outside crate's work.
pub uninterp spec fn authorize_url_of(
    client_id: Seq<char>,
    scope: Seq<char>,
    redirect_uri: Seq<char>,
    state_token: Seq<char>,
) -> Seq<char>;

/// Relies on url::Url: parses the provider's fixed authorize endpoint (which
/// always parses), appends response_type=code, client_id, scope, redirect_uri
/// and state as percent-encoded query pairs, and renders the result — a
/// function of its arguments alone.
#[verifier::external_body]
fn build_authorize_url(client_id: &str, scope: &str, redirect_uri: &str, state_token: &str) -> (r:
    String)
    ensures
        r@ == authorize_url_of(client_id@, scope@, redirect_uri@, state_token@),
{
    let mut u = url::Url::parse("https://accounts.spotify.com/authorize").expect(
        "the fixed base URL parses",
    );
    u.query_pairs_mut()
        .append_pair("response_type", "code")
        .append_pair("client_id", client_id)
        .append_pair("scope", scope)
        .append_pair("redirect_uri", redirect_uri)
        .append_pair("state", state_token);
    u.to_string()
}

/// A successful exchange's outcome for `owner`: some record sealing the
/// exchange's tokens under `key`, expiring `expires_in` seconds from now, was
/// upserted as the owner's one credential.
pub open spec fn credential_upserted(
    pre: CredentialStore,
    post: CredentialStore,
    key: Seq<u8>,
    owner: Seq<char>,
    res: TokenExchangeResult,
    now: u64,
) -> bool {
    exists|rec: CredentialRecord|
        #![auto]
        {
            &&& post.model() == pre.model().insert(owner, rec)
            &&& rec.owner_id@ == owner
            &&& is_sealed_blob(key, rec.access_ciphertext@, res.access_token@)
            &&& is_sealed_blob(key, rec.refresh_ciphertext@, res.refresh_token@)
            &&& rec.expires_at == spec_expires_at(now, res.expires_in)
            &&& rec.scope@ == res.scope@
        }
}

/// The provider settings an authorize or callback call leaves untouched.
pub open spec fn same_settings(a: AuthState, b: AuthState) -> bool {
    a.encryption_key == b.encryption_key && a.spotify_client_id == b.spotify_client_id
        && a.spotify_redirect_uri == b.spotify_redirect_uri
}

impl AuthState {
    pub open spec fn wf(self) -> bool {
        self.csrf.wf() && self.credentials.wf()
    }

    pub fn new(
        encryption_key: [u8; 32],
        spotify_client_id: String,
        spotify_redirect_uri: String,
    ) -> (s: Self)
        ensures
            s.wf(),
            s.csrf.model() == Map::<Seq<char>, (Seq<char>, u64)>::empty(),
            s.credentials.model() == Map::<Seq<char>, CredentialRecord>::empty(),
            s.encryption_key == encryption_key,
            s.spotify_client_id == spotify_client_id,
            s.spotify_redirect_uri == spotify_redirect_uri,
    {
        AuthState {
            csrf: CsrfStore::new(),
            credentials: CredentialStore::new(),
            encryption_key,
            spotify_client_id,
            spotify_redirect_uri,
        }
    }

    /// Begin the handshake for an owner: issue a single-use CSRF token, and
    /// return the provider's authorize URL carrying it as `state`. The
    /// provider is not contacted.
    pub fn authorize(&mut self, owner_id: String, now: u64) -> (url: String)
        requires
            old(self).wf(),
        ensures
            final(self).wf(),
            same_settings(*old(self), *final(self)),
            final(self).credentials == old(self).credentials,
            exists|tok: Seq<char>|
                {
                    &&& final(self).csrf.model() == old(self).csrf.model().insert(
                        tok,
                        (owner_id@, now),
                    )
                    &&& url@ == authorize_url_of(
                        old(self).spotify_client_id@,
                        "playlist-read-private playlist-read-collaborative user-library-read"@,
                        old(self).spotify_redirect_uri@,
                        tok,
                    )
                },
    {
        let token = self.csrf.issue(owner_id, now);
        let url = build_authorize_url(
            self.spotify_client_id.as_str(),
            authorize_scopes(),
            self.spotify_redirect_uri.as_str(),
            token.as_str(),
        );
        proof {
            let tok = token@;
            assert(self.csrf.model() == old(self).csrf.model().insert(tok, (owner_id@, now)));
            assert(url@ == authorize_url_of(
                old(self).spotify_client_id@,
                "playlist-read-private playlist-read-collaborative user-library-read"@,
                old(self).spotify_redirect_uri@,
                tok,
            ));
        }
        url
    }

    /// Seal an exchange's tokens under the vault key and store the owner's
    /// credential record, replacing any prior one. Fails only when the vault
    /// refuses a plaintext — a token past the cipher's length bound — in
    /// which case nothing changes; within the bound success is owed.
    pub fn store_exchange_result(
        &mut self,
        owner_id: String,
        result: &TokenExchangeResult,
        now: u64,
    ) -> (r: Result<(), CallbackError>)
        requires
            old(self).wf(),
        ensures
            final(self).wf(),
            same_settings(*old(self), *final(self)),
            final(self).csrf == old(self).csrf,
            (encode_utf8(result.access_token@).len() <= gcm_plain_max() && encode_utf8(
                result.refresh_token@,
            ).len() <= gcm_plain_max()) ==> r is Ok,
            r is Ok ==> credential_upserted(
                old(self).credentials,
                final(self).credentials,
                old(self).encryption_key@,
                owner_id@,
                *result,
                now,
            ),
            r is Err ==> (r matches Err(e) && e is EncryptFailed && final(self).credentials == old(self).credentials),
    {
        let access_encrypted = match encrypt_token(
            &self.encryption_key,
            result.access_token.as_str(),
        ) {
            Ok(blob) => blob,
            Err(_) => return Err(CallbackError::EncryptFailed),
        };
        let refresh_encrypted = match encrypt_token(
            &self.encryption_key,
            result.refresh_token.as_str(),
        ) {
            Ok(blob) => blob,
            Err(_) => return Err(CallbackError::EncryptFailed),
        };
        let expires_at = expires_at_from(now, result.expires_in);
        let scope = crate::text::clone_string(&result.scope);
        let record = CredentialRecord {
            owner_id,
            access_ciphertext: access_encrypted,
            refresh_ciphertext: refresh_encrypted,
            expires_at,
            scope,
        };
        self.credentials.upsert(record);
        Ok(())
    }

    /// Handle the provider's callback: consume the `state` token first —
    /// unknown or expired state is rejected and nothing but the token's
    /// removal happens. On a fresh token, exchange the code and store the
    /// owner's encrypted credential, replacing any prior one.
    pub fn callback<X: TokenExchanger>(
        &mut self,
        exchanger: &X,
        params: &CallbackParams,
        now: u64,
    ) -> (r: Result<(), CallbackError>)
        requires
            old(self).wf(),
        ensures
            final(self).wf(),
            same_settings(*old(self), *final(self)),
            !old(self).csrf.model().dom().contains(params.state@) ==> (r matches Err(e) && e
                is InvalidState && final(self).csrf.model() == old(self).csrf.model() && final(self).credentials == old(self).credentials),
            old(self).csrf.model().dom().contains(params.state@) ==> final(self).csrf.model()
                == old(self).csrf.model().remove(params.state@),
            (old(self).csrf.model().dom().contains(params.state@) && spec_csrf_expired(
                old(self).csrf.model()[params.state@].1,
                now,
            )) ==> (r matches Err(e) && e is ExpiredState && final(self).credentials == old(self).credentials),
            (old(self).csrf.model().dom().contains(params.state@) && !spec_csrf_expired(
                old(self).csrf.model()[params.state@].1,
                now,
            ) && r is Ok) ==> exists|res: TokenExchangeResult|
                credential_upserted(
                    old(self).credentials,
                    final(self).credentials,
                    old(self).encryption_key@,
                    old(self).csrf.model()[params.state@].0,
                    res,
                    now,
                ),
            (old(self).csrf.model().dom().contains(params.state@) && !spec_csrf_expired(
                old(self).csrf.model()[params.state@].1,
                now,
            ) && r is Err) ==> (r matches Err(e) && (e is ExchangeFailed || e is EncryptFailed)
                && final(self).credentials == old(self).credentials),
    {
        match self.csrf.consume(params.state.as_str(), now) {
            ConsumeOutcome::Unknown => Err(CallbackError::InvalidState),
            ConsumeOutcome::Expired => Err(CallbackError::ExpiredState),
            ConsumeOutcome::Owner(owner_id) => {
                let exchanged = exchanger.exchange(
                    params.code.as_str(),
                    self.spotify_redirect_uri.as_str(),
                    self.spotify_client_id.as_str(),
                );
                match exchanged {
                    Err(message) => Err(CallbackError::ExchangeFailed(message)),
                    Ok(result) => self.store_exchange_result(owner_id, &result, now),
                }
            },
        }
    }

    /// Whether an owner is connected: a credential record exists and its
    /// expiry lies strictly in the future.
    pub fn status(&self, owner_id: &str, now: u64) -> (connected: bool)
        requires
            self.wf(),
        ensures
            connected <==> (self.credentials.model().dom().contains(owner_id@)
                && self.credentials.model()[owner_id@].expires_at > now),
    {
        match self.credentials.get(owner_id) {
            Some(record) => record.expires_at > now,
            None => false,
        }
    }
}

} // verus!
