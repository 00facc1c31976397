//! The playlist import: reference validation, deterministic local identity,
//! and the paginated orchestrator with partial-failure accounting.

use vstd::prelude::*;

verus! {

use vstd::string::StrSliceExecFns;
use crate::spotify::{PlaylistItem, PlaylistTracksResponse, SpotifyError};
use crate::retry::{RetryConfig, RetryDecision, Sleeper, retry_decision, spec_retry_decision};
use crate::text::{
    all_alnum, clone_string, has_prefix, is_alnum_str, is_ascii_alnum, spec_trim, starts_with_str,
    trim_ascii,
};

/// Why an import failed: a malformed playlist reference, the upstream API, or
/// the persistence collaborator. `NotFound` and `AccessDenied` mirror the
/// caller-visible taxonomy.
#[derive(Debug)]
pub enum ImportError {
    InvalidUrl(String),
    SpotifyError(SpotifyError),
    Database(String),
    NotFound(String),
    AccessDenied(String),
}

impl ImportError {
    /// The HTTP status each variant surfaces as: the explicit, exhaustive
    /// error-to-status mapping.
    pub fn http_status(&self) -> (code: u16)
        ensures
            code == match *self {
                ImportError::InvalidUrl(_) => 400u16,
                ImportError::SpotifyError(_) => 502u16,
                ImportError::Database(_) => 500u16,
                ImportError::NotFound(_) => 404u16,
                ImportError::AccessDenied(_) => 403u16,
            },
    {
        match self {
            ImportError::InvalidUrl(_) => 400,
            ImportError::SpotifyError(_) => 502,
            ImportError::Database(_) => 500,
            ImportError::NotFound(_) => 404,
            ImportError::AccessDenied(_) => 403,
        }
    }
}

/// A track as the persistence collaborator stores it.
#[derive(Debug, Clone)]
pub struct TrackRecord {
    pub id: String,
    pub title: String,
    pub album: Option<String>,
    pub duration_ms: Option<i64>,
    pub spotify_uri: String,
    pub spotify_preview_url: Option<String>,
}

/// An artist as the persistence collaborator stores it.
#[derive(Debug, Clone)]
pub struct ArtistRecord {
    pub id: String,
    pub name: String,
    pub spotify_uri: String,
}

/// What an idempotent upsert reports: a new row or a replaced one.
#[derive(Debug, Clone, PartialEq, Eq, Structural)]
pub enum UpsertResult {
    Inserted,
    Updated,
}

/// One import run's accounting, committed exactly once at a terminal status.
#[derive(Debug, Clone)]
pub struct ImportSummary {
    pub import_id: String,
    pub total: u32,
    pub inserted: u32,
    pub updated: u32,
    pub failed: u32,
    pub status: String,
}

/// The suffix after the last occurrence of `c`, or the whole string when `c`
/// does not occur.
pub open spec fn tail_after_last(s: Seq<char>, c: char) -> Seq<char>
    decreases s.len(),
{
    if s.len() == 0 {
        s
    } else if s.last() == c {
        Seq::empty()
    } else {
        tail_after_last(s.drop_last(), c).push(s.last())
    }
}

proof fn lemma_tail_after_last(s: Seq<char>, c: char, k: int)
    requires
        0 <= k <= s.len(),
        forall|j: int| k <= j < s.len() ==> s[j] != c,
        k == 0 || s[k - 1] == c,
    ensures
        tail_after_last(s, c) =~= s.skip(k),
    decreases s.len(),
{
    if s.len() == 0 {
    } else if k == s.len() {
        assert(s.last() == c);
    } else {
        assert(s.last() != c);
        lemma_tail_after_last(s.drop_last(), c, k);
        assert(s.drop_last().skip(k).push(s.last()) =~= s.skip(k));
    }
}

fn colon_at(s: &str, i: usize) -> (r: bool)
    requires
        i < s@.len(),
    ensures
        r == (s@[i as int] == ':'),
{
    s.get_char(i) == ':'
}

/// Deterministic local identity of an external URI: its last colon-delimited
/// segment, so repeated imports reference the same local entity.
pub fn deterministic_id(uri: &str) -> (id: String)
    ensures
        id@ == tail_after_last(uri@, ':'),
{
    let n = uri.unicode_len();
    let mut i: usize = n;
    while i > 0 && !colon_at(uri, i - 1)
        invariant
            0 <= i <= n,
            n == uri@.len(),
            forall|j: int| i <= j < n ==> (#[trigger] uri@[j]) != ':',
        decreases i,
    {
        i = i - 1;
    }
    proof {
        lemma_tail_after_last(uri@, ':', i as int);
    }
    uri.substring_char(i, n).to_owned()
}

/// Length of the maximal ASCII-alphanumeric prefix.
pub open spec fn alnum_prefix_len(s: Seq<char>) -> int
    decreases s.len(),
{
    if s.len() == 0 || !is_ascii_alnum(s[0]) {
        0
    } else {
        1 + alnum_prefix_len(s.drop_first())
    }
}

proof fn lemma_alnum_prefix_len(s: Seq<char>, k: int)
    requires
        0 <= k <= s.len(),
        forall|j: int| 0 <= j < k ==> is_ascii_alnum(#[trigger] s[j]),
        k == s.len() || !is_ascii_alnum(s[k]),
    ensures
        alnum_prefix_len(s) == k,
    decreases s.len(),
{
    if s.len() == 0 {
    } else if k == 0 {
    } else {
        lemma_alnum_prefix_len(s.drop_first(), k - 1);
    }
}

/// The playlist ID a reference denotes, if any. A reference is either the
/// provider URI `spotify:playlist:{id}` with a non-empty alphanumeric `{id}`
/// (itself trimmed), or the browse URL
/// `https://open.spotify.com/playlist/{id}`, optionally followed by a query
/// string introduced by `?`. Anything else denotes nothing.
pub open spec fn spec_playlist_id(input: Seq<char>) -> Option<Seq<char>> {
    let t = spec_trim(input);
    if has_prefix(t, "spotify:playlist:"@) {
        let id = spec_trim(t.skip("spotify:playlist:"@.len() as int));
        if id.len() > 0 && all_alnum(id) {
            Some(id)
        } else {
            None
        }
    } else if has_prefix(t, "https://open.spotify.com/playlist/"@) {
        let rest = t.skip("https://open.spotify.com/playlist/"@.len() as int);
        let k = alnum_prefix_len(rest);
        if k > 0 && (k == rest.len() || rest[k] == '?') {
            Some(rest.take(k))
        } else {
            None
        }
    } else {
        None
    }
}

/// Extract the playlist ID from a browse URL or provider URI, exactly
/// `spec_playlist_id` of the input; anything else is `InvalidUrl`, echoing
/// the trimmed input.
pub fn validate_playlist_url(input: &str) -> (r: Result<String, ImportError>)
    ensures
        match r {
            Ok(id) => spec_playlist_id(input@) == Some(id@),
            Err(e) => spec_playlist_id(input@) is None && (e matches ImportError::InvalidUrl(m)
                && m@ == spec_trim(input@)),
        },
{
    let trimmed = trim_ascii(input);
    proof {
        reveal_strlit("spotify:playlist:");
        reveal_strlit("https://open.spotify.com/playlist/");
    }
    if starts_with_str(trimmed, "spotify:playlist:") {
        let n = trimmed.unicode_len();
        let after = trimmed.substring_char(17, n);
        proof {
            assert(after@ =~= trimmed@.skip(17));
        }
        let id = trim_ascii(after);
        if is_alnum_str(id) {
            Ok(id.to_owned())
        } else {
            Err(ImportError::InvalidUrl(trimmed.to_owned()))
        }
    } else if starts_with_str(trimmed, "https://open.spotify.com/playlist/") {
        let n = trimmed.unicode_len();
        let rest = trimmed.substring_char(34, n);
        proof {
            assert(rest@ =~= trimmed@.skip(34));
        }
        let m = rest.unicode_len();
        let mut k: usize = 0;
        while k < m && alnum_at(rest, k)
            invariant
                0 <= k <= m,
                m == rest@.len(),
                forall|j: int| 0 <= j < k ==> is_ascii_alnum(#[trigger] rest@[j]),
            decreases m - k,
        {
            k = k + 1;
        }
        proof {
            lemma_alnum_prefix_len(rest@, k as int);
        }
        if k > 0 && (k == m || rest.get_char(k) == '?') {
            Ok(rest.substring_char(0, k).to_owned())
        } else {
            Err(ImportError::InvalidUrl(trimmed.to_owned()))
        }
    } else {
        Err(ImportError::InvalidUrl(trimmed.to_owned()))
    }
}

fn alnum_at(s: &str, i: usize) -> (r: bool)
    requires
        i < s@.len(),
    ensures
        r == is_ascii_alnum(s@[i as int]),
{
    let u = s.get_char(i) as u32;
    (48 <= u && u <= 57) || (65 <= u && u <= 90) || (97 <= u && u <= 122)
}

/// Saturating increment, the tallies' arithmetic.
pub open spec fn sat_inc(x: u32) -> u32 {
    if x < u32::MAX {
        (x + 1) as u32
    } else {
        u32::MAX
    }
}

pub fn bump(x: u32) -> (r: u32)
    ensures
        r == sat_inc(x),
{
    if x < u32::MAX {
        x + 1
    } else {
        u32::MAX
    }
}

/// A run's counters while pages are applied.
#[derive(Debug, Clone, Copy, PartialEq, Eq, Structural)]
pub struct ImportTallies {
    pub inserted: u32,
    pub updated: u32,
    pub failed: u32,
}

/// What one page item did to the tallies.
#[derive(Debug, Clone, Copy, PartialEq, Eq, Structural)]
pub enum ItemOutcome {
    Inserted,
    Updated,
    Failed,
}

/// Saturating addition, for folding failure counts into a tally.
pub open spec fn sat_add32(x: u32, k: u32) -> u32 {
    if x as nat + k as nat > u32::MAX as nat {
        u32::MAX
    } else {
        (x + k) as u32
    }
}

fn bump_by(x: u32, k: u32) -> (r: u32)
    ensures
        r == sat_add32(x, k),
{
    match x.checked_add(k) {
        Some(v) => v,
        None => u32::MAX,
    }
}

/// The tallies after recording one item outcome: exactly one counter moves,
/// saturating.
pub open spec fn spec_bump(t: ImportTallies, o: ItemOutcome) -> ImportTallies {
    match o {
        ItemOutcome::Inserted => ImportTallies { inserted: sat_inc(t.inserted), ..t },
        ItemOutcome::Updated => ImportTallies { updated: sat_inc(t.updated), ..t },
        ItemOutcome::Failed => ImportTallies { failed: sat_inc(t.failed), ..t },
    }
}

/// `failed` grown by a count of failed secondary upserts.
pub open spec fn add_failed(t: ImportTallies, k: u32) -> ImportTallies {
    ImportTallies { failed: sat_add32(t.failed, k), ..t }
}

/// One item's whole effect on the tallies: its outcome's counter, plus one
/// `failed` for every secondary upsert that was refused.
pub open spec fn spec_item_effect(t: ImportTallies, o: ItemOutcome, secondary_failed: u32) -> ImportTallies {
    add_failed(spec_bump(t, o), secondary_failed)
}

/// The tallies after a whole sequence of item effects, each an outcome and a
/// count of failed secondary upserts.
pub open spec fn tallies_after(t: ImportTallies, effects: Seq<(ItemOutcome, u32)>) -> ImportTallies
    decreases effects.len(),
{
    if effects.len() == 0 {
        t
    } else {
        spec_item_effect(tallies_after(t, effects.drop_last()), effects.last().0, effects.last().1)
    }
}

/// An effect sequence a page's items admit: one effect per item, and an item
/// without a track can only have failed outright, with no performers tried.
pub open spec fn outcomes_admissible(items: Seq<PlaylistItem>, effects: Seq<(ItemOutcome, u32)>) -> bool {
    effects.len() == items.len() && forall|i: int|
        0 <= i < items.len() ==> ((#[trigger] items[i]).track is None ==> (effects[i].0
            is Failed && effects[i].1 == 0))
}

/// The persistence collaborator: idempotent upserts keyed by external URI and
/// the import bookkeeping. What each upsert reports is the implementation's
/// to decide; the one promise every implementation makes is that its own
/// failures surface as `Database` errors, the persistence class of the error
/// taxonomy. `MemoryRepository` is the verified in-memory implementation.
pub trait ImportRepository {
    fn create_import(
        &mut self,
        user_id: &str,
        playlist_id: &str,
        playlist_name: Option<&str>,
    ) -> (r: Result<String, ImportError>)
        ensures
            r matches Err(e) ==> e is Database,
    ;

    fn upsert_track(&mut self, track: &TrackRecord) -> (r: Result<UpsertResult, ImportError>)
        ensures
            r matches Err(e) ==> e is Database,
    ;

    fn upsert_artist(&mut self, artist: &ArtistRecord) -> (r: Result<UpsertResult, ImportError>)
        ensures
            r matches Err(e) ==> e is Database,
    ;

    fn upsert_track_artist(&mut self, track_id: &str, artist_id: &str) -> (r: Result<
        (),
        ImportError,
    >)
        ensures
            r matches Err(e) ==> e is Database,
    ;

    fn complete_import(&mut self, import_id: &str, summary: &ImportSummary) -> (r: Result<
        (),
        ImportError,
    >)
        ensures
            r matches Err(e) ==> e is Database,
    ;
}

/// One page fetch against the upstream API: a network call this library only
/// drives, so implementations live with the caller.
pub trait PageFetcher {
    fn fetch_page(
        &mut self,
        access_token: &str,
        playlist_id: &str,
        offset: u32,
        limit: u32,
    ) -> Result<PlaylistTracksResponse, SpotifyError>;
}

/// The track row an item's track maps to: the deterministic local identity
/// and the track's fields, copied verbatim.
pub fn track_record_of(track: &crate::spotify::SpotifyTrackRaw) -> (r: TrackRecord)
    ensures
        r.id@ == tail_after_last(track.uri@, ':'),
        r.title == track.name,
        r.album == Some(track.album.name),
        r.duration_ms is Some,
        track.duration_ms <= i64::MAX ==> r.duration_ms == Some(track.duration_ms as i64),
        r.spotify_uri == track.uri,
        r.spotify_preview_url == track.preview_url,
{
    TrackRecord {
        id: deterministic_id(track.uri.as_str()),
        title: clone_string(&track.name),
        album: Some(clone_string(&track.album.name)),
        duration_ms: Some(#[verifier::truncate] (track.duration_ms as i64)),
        spotify_uri: clone_string(&track.uri),
        spotify_preview_url: match &track.preview_url {
            Some(u) => Some(clone_string(u)),
            None => None,
        },
    }
}

/// The artist row a listed performer maps to: the deterministic local
/// identity and the performer's fields, copied verbatim.
pub fn artist_record_of(artist: &crate::spotify::SpotifyArtistRaw) -> (r: ArtistRecord)
    ensures
        r.id@ == tail_after_last(artist.uri@, ':'),
        r.name == artist.name,
        r.spotify_uri == artist.uri,
{
    ArtistRecord {
        id: deterministic_id(artist.uri.as_str()),
        name: clone_string(&artist.name),
        spotify_uri: clone_string(&artist.uri),
    }
}

/// Upsert every listed performer and its link to the track. Each refused
/// upsert — artist or association — counts one failure; none aborts the page
/// or the run.
fn link_artists<R: ImportRepository>(
    repo: &mut R,
    track_id: &str,
    artists: &Vec<crate::spotify::SpotifyArtistRaw>,
) -> (failures: u32)
    ensures
        failures as nat <= 2 * artists@.len(),
{
    let n = artists.len();
    let mut failures: u32 = 0;
    let mut i: usize = 0;
    while i < n
        invariant
            0 <= i <= n,
            n == artists@.len(),
            failures as nat <= 2 * i,
        decreases n - i,
    {
        let record = artist_record_of(&artists[i]);
        if repo.upsert_artist(&record).is_err() {
            failures = bump(failures);
        }
        if repo.upsert_track_artist(track_id, record.id.as_str()).is_err() {
            failures = bump(failures);
        }
        i = i + 1;
    }
    failures
}

/// Apply one page item, returning its outcome and how many secondary upserts
/// failed. An item without a track counts one `failed` and nothing else; an
/// item with one moves exactly one counter for the track — `failed` when the
/// track upsert is refused — and then adds one `failed` per refused performer
/// or association upsert, which never abort the item.
pub fn apply_playlist_item<R: ImportRepository>(
    repo: &mut R,
    tallies: &mut ImportTallies,
    item: &PlaylistItem,
) -> (r: (ItemOutcome, u32))
    ensures
        *final(tallies) == spec_item_effect(*old(tallies), r.0, r.1),
        item.track is None ==> (r.0 is Failed && r.1 == 0),
        r.0 is Failed ==> r.1 == 0,
        item.track matches Some(t) ==> r.1 as nat <= 2 * t.artists@.len(),
{
    match &item.track {
        None => {
            tallies.failed = bump(tallies.failed);
            (ItemOutcome::Failed, 0)
        },
        Some(raw) => {
            let record = track_record_of(raw);
            match repo.upsert_track(&record) {
                Ok(UpsertResult::Inserted) => {
                    tallies.inserted = bump(tallies.inserted);
                    let failures = link_artists(repo, record.id.as_str(), &raw.artists);
                    tallies.failed = bump_by(tallies.failed, failures);
                    (ItemOutcome::Inserted, failures)
                },
                Ok(UpsertResult::Updated) => {
                    tallies.updated = bump(tallies.updated);
                    let failures = link_artists(repo, record.id.as_str(), &raw.artists);
                    tallies.failed = bump_by(tallies.failed, failures);
                    (ItemOutcome::Updated, failures)
                },
                Err(_) => {
                    tallies.failed = bump(tallies.failed);
                    (ItemOutcome::Failed, 0)
                },
            }
        },
    }
}

/// Apply a whole page: the tallies move by one admissible effect per item.
pub fn apply_page<R: ImportRepository>(
    repo: &mut R,
    tallies: &mut ImportTallies,
    page: &PlaylistTracksResponse,
)
    ensures
        exists|effects: Seq<(ItemOutcome, u32)>|
            #![auto]
            outcomes_admissible(page.items@, effects) && *final(tallies) == tallies_after(
                *old(tallies),
                effects,
            ),
{
    let ghost t0 = *tallies;
    let ghost mut outs: Seq<(ItemOutcome, u32)> = Seq::empty();
    let n = page.items.len();
    let mut i: usize = 0;
    while i < n
        invariant
            0 <= i <= n,
            n == page.items@.len(),
            outs.len() == i,
            forall|j: int|
                0 <= j < i ==> ((#[trigger] page.items@[j]).track is None ==> (outs[j].0
                    is Failed && outs[j].1 == 0)),
            *tallies == tallies_after(t0, outs),
        decreases n - i,
    {
        let o = apply_playlist_item(repo, tallies, &page.items[i]);
        proof {
            let prev = outs;
            outs = outs.push(o);
            assert(outs.drop_last() =~= prev);
        }
        i = i + 1;
    }
    proof {
        assert(outcomes_admissible(page.items@, outs));
    }
}

/// Assemble a run's summary at a terminal status.
pub fn make_summary(
    import_id: String,
    total: u32,
    tallies: &ImportTallies,
    completed: bool,
) -> (s: ImportSummary)
    ensures
        s.import_id == import_id,
        s.total == total,
        s.inserted == tallies.inserted,
        s.updated == tallies.updated,
        s.failed == tallies.failed,
        s.status@ == (if completed {
            "completed"@
        } else {
            "failed"@
        }),
{
    ImportSummary {
        import_id,
        total,
        inserted: tallies.inserted,
        updated: tallies.updated,
        failed: tallies.failed,
        status: if completed {
            "completed".to_owned()
        } else {
            "failed".to_owned()
        },
    }
}

/// One page fetch driven through the backoff policy: every wait and the
/// give-up point follow `spec_retry_decision`. Returns the result and, as a
/// ghost value, the number of fetch invocations made: a surfaced error is one
/// the policy gave up on at the last invocation, so a retryable error can
/// only surface once the whole budget of `max_retries + 1` invocations is
/// spent.
fn fetch_page_with_retry<F: PageFetcher, S: Sleeper>(
    fetcher: &mut F,
    sleeper: &mut S,
    config: &RetryConfig,
    access_token: &str,
    playlist_id: &str,
    offset: u32,
    limit: u32,
) -> (r: (Result<PlaylistTracksResponse, SpotifyError>, Ghost<nat>))
    ensures
        1 <= r.1@ <= config.max_retries as nat + 1,
        r.0 matches Err(e) ==> spec_retry_decision(e, (r.1@ - 1) as u32, *config) is GiveUp,
        (r.0 matches Err(e) && crate::spotify::spec_is_retryable(e)) ==> r.1@
            == config.max_retries as nat + 1,
{
    let mut attempt: u32 = 0;
    loop
        invariant
            attempt <= config.max_retries,
        decreases config.max_retries - attempt,
    {
        match fetcher.fetch_page(access_token, playlist_id, offset, limit) {
            Ok(page) => {
                return (Ok(page), Ghost(attempt as nat + 1));
            },
            Err(e) => {
                match retry_decision(&e, attempt, config) {
                    RetryDecision::GiveUp => {
                        return (Err(e), Ghost(attempt as nat + 1));
                    },
                    RetryDecision::RetryAfterMs(ms) => {
                        sleeper.sleep_ms(ms);
                        attempt = attempt + 1;
                    },
                }
            },
        }
    }
}

/// Run a full playlist import: create the run, fetch pages of 100 in
/// increasing offset order through the backoff policy, apply each page's
/// items, and commit the summary once at a terminal status.
///
/// `total` is captured from the first page alone and is the single source of
/// truth for termination. If a page fetch exhausts its retries, the summary
/// is committed as failed with the counts accumulated so far and the
/// underlying error surfaces; items already applied stay applied. On normal
/// completion the summary is committed as completed — the returned summary
/// says so.
pub fn import_playlist<R: ImportRepository, F: PageFetcher, S: Sleeper>(
    repo: &mut R,
    fetcher: &mut F,
    sleeper: &mut S,
    config: &RetryConfig,
    access_token: &str,
    user_id: &str,
    playlist_id: &str,
) -> (r: Result<ImportSummary, ImportError>)
    ensures
        r matches Ok(s) ==> s.status@ == "completed"@,
        r matches Err(e) ==> (e is Database || e is SpotifyError),
{
    let import_id = match repo.create_import(user_id, playlist_id, None) {
        Ok(id) => id,
        Err(e) => {
            return Err(e);
        },
    };
    let limit: u32 = 100;
    let mut tallies = ImportTallies { inserted: 0, updated: 0, failed: 0 };

    let (first_fetch, _) = fetch_page_with_retry(
        fetcher,
        sleeper,
        config,
        access_token,
        playlist_id,
        0,
        limit,
    );
    let first = match first_fetch {
        Ok(page) => page,
        Err(e) => {
            let summary = make_summary(clone_string(&import_id), 0, &tallies, false);
            let _ = repo.complete_import(import_id.as_str(), &summary);
            return Err(ImportError::SpotifyError(e));
        },
    };
    let total_tracks: u32 = first.total;
    apply_page(repo, &mut tallies, &first);
    let mut offset: u32 = limit;

    while offset < total_tracks
        invariant
            limit == 100,
        decreases total_tracks - offset,
    {
        let (page_fetch, _) = fetch_page_with_retry(
            fetcher,
            sleeper,
            config,
            access_token,
            playlist_id,
            offset,
            limit,
        );
        match page_fetch {
            Err(e) => {
                let summary = make_summary(clone_string(&import_id), total_tracks, &tallies, false);
                let _ = repo.complete_import(import_id.as_str(), &summary);
                return Err(ImportError::SpotifyError(e));
            },
            Ok(page) => {
                apply_page(repo, &mut tallies, &page);
                // advance by the page size; the clamp only matters on the
                // exit step, where no further page is fetched either way
                offset = if total_tracks - offset <= limit {
                    total_tracks
                } else {
                    offset + limit
                };
            },
        }
    }

    let summary = make_summary(clone_string(&import_id), total_tracks, &tallies, true);
    match repo.complete_import(import_id.as_str(), &summary) {
        Ok(_) => Ok(summary),
        Err(e) => Err(e),
    }
}

/// An import request as the service layer receives it.
pub struct ImportRequest {
    pub playlist_url: String,
}

/// An import run's outcome as the service layer reports it.
pub struct ImportResponse {
    pub import_id: String,
    pub total: u32,
    pub inserted: u32,
    pub updated: u32,
    pub failed: u32,
    pub status: String,
}

impl From<ImportSummary> for ImportResponse {
    /// The response a summary reports as, field for field: `from_spec` below
    /// is the contract.
    fn from(s: ImportSummary) -> (r: ImportResponse) {
        ImportResponse {
            import_id: s.import_id,
            total: s.total,
            inserted: s.inserted,
            updated: s.updated,
            failed: s.failed,
            status: s.status,
        }
    }
}

impl vstd::std_specs::convert::FromSpecImpl<ImportSummary> for ImportResponse {
    open spec fn obeys_from_spec() -> bool {
        true
    }

    open spec fn from_spec(s: ImportSummary) -> ImportResponse {
        ImportResponse {
            import_id: s.import_id,
            total: s.total,
            inserted: s.inserted,
            updated: s.updated,
            failed: s.failed,
            status: s.status,
        }
    }
}

} // verus!
