//! The verified in-memory persistence collaborator, and the model-level laws
//! of repeated imports. Upserts are keyed by external URI, so repeated
//! imports converge instead of duplicating rows.

use vstd::prelude::*;

verus! {

use vstd::assert_sets_equal;
use vstd::set_lib::*;
use crate::import::{
    ArtistRecord, ImportError, ImportRepository, ImportSummary, ImportTallies, ItemOutcome,
    TrackRecord, UpsertResult, artist_record_of, bump, spec_bump, track_record_of,
};
use crate::spotify::{PlaylistItem, PlaylistTracksResponse, SpotifyArtistRaw};
use crate::text::{clone_string, str_eq, u32_to_dec_string};

/// The repository's mathematical content: which external URIs hold a track
/// row and which hold an artist row.
pub ghost struct RepoModel {
    pub tracks: Set<Seq<char>>,
    pub artists: Set<Seq<char>>,
}

fn clone_track(t: &TrackRecord) -> (r: TrackRecord)
    ensures
        r == *t,
{
    TrackRecord {
        id: t.id.clone(),
        title: t.title.clone(),
        album: match &t.album {
            Some(a) => Some(a.clone()),
            None => None,
        },
        duration_ms: t.duration_ms,
        spotify_uri: t.spotify_uri.clone(),
        spotify_preview_url: match &t.spotify_preview_url {
            Some(u) => Some(u.clone()),
            None => None,
        },
    }
}

fn clone_artist(a: &ArtistRecord) -> (r: ArtistRecord)
    ensures
        r == *a,
{
    ArtistRecord { id: a.id.clone(), name: a.name.clone(), spotify_uri: a.spotify_uri.clone() }
}

fn clone_summary(s: &ImportSummary) -> (r: ImportSummary)
    ensures
        r == *s,
{
    ImportSummary {
        import_id: s.import_id.clone(),
        total: s.total,
        inserted: s.inserted,
        updated: s.updated,
        failed: s.failed,
        status: s.status.clone(),
    }
}

/// An in-memory repository: rows live in vectors, upserts are keyed by
/// external URI, the association table ignores re-links, and committed
/// summaries are logged in order.
pub struct MemoryRepository {
    tracks: Vec<TrackRecord>,
    artists: Vec<ArtistRecord>,
    links: Vec<(String, String)>,
    completed: Vec<ImportSummary>,
    imports: Vec<String>,
    next_import: u32,
}

impl MemoryRepository {
    pub closed spec fn track_uris(self) -> Set<Seq<char>> {
        Set::new(
            |u: Seq<char>|
                exists|i: int|
                    0 <= i < self.tracks@.len() && (#[trigger] self.tracks@[i]).spotify_uri@ == u,
        )
    }

    pub closed spec fn artist_uris(self) -> Set<Seq<char>> {
        Set::new(
            |u: Seq<char>|
                exists|i: int|
                    0 <= i < self.artists@.len() && (#[trigger] self.artists@[i]).spotify_uri@
                        == u,
        )
    }

    pub open spec fn model(self) -> RepoModel {
        RepoModel { tracks: self.track_uris(), artists: self.artist_uris() }
    }

    /// The track-to-artist associations, as a set of id pairs.
    pub closed spec fn link_set(self) -> Set<(Seq<char>, Seq<char>)> {
        Set::new(
            |p: (Seq<char>, Seq<char>)|
                exists|i: int|
                    0 <= i < self.links@.len() && (#[trigger] self.links@[i]).0@ == p.0
                        && self.links@[i].1@ == p.1,
        )
    }

    /// Every summary committed so far, in commit order.
    pub closed spec fn completed_log(self) -> Seq<ImportSummary> {
        self.completed@
    }

    pub fn new() -> (r: Self)
        ensures
            r.model().tracks == Set::<Seq<char>>::empty(),
            r.model().artists == Set::<Seq<char>>::empty(),
            r.link_set() == Set::<(Seq<char>, Seq<char>)>::empty(),
            r.completed_log() == Seq::<ImportSummary>::empty(),
    {
        let r = MemoryRepository {
            tracks: Vec::new(),
            artists: Vec::new(),
            links: Vec::new(),
            completed: Vec::new(),
            imports: Vec::new(),
            next_import: 1,
        };
        proof {
            assert_sets_equal!(r.track_uris(), Set::<Seq<char>>::empty());
            assert_sets_equal!(r.artist_uris(), Set::<Seq<char>>::empty());
            assert_sets_equal!(r.link_set(), Set::<(Seq<char>, Seq<char>)>::empty());
        }
        r
    }

    fn find_track(&self, uri: &str) -> (idx: usize)
        ensures
            idx <= self.tracks@.len(),
            idx < self.tracks@.len() ==> self.tracks@[idx as int].spotify_uri@ == uri@,
            idx == self.tracks@.len() ==> !self.track_uris().contains(uri@),
    {
        let n = self.tracks.len();
        let mut i: usize = 0;
        while i < n
            invariant
                0 <= i <= n,
                n == self.tracks@.len(),
                forall|j: int| 0 <= j < i ==> (#[trigger] self.tracks@[j]).spotify_uri@ != uri@,
            decreases n - i,
        {
            if str_eq(self.tracks[i].spotify_uri.as_str(), uri) {
                return i;
            }
            i = i + 1;
        }
        n
    }

    fn find_artist(&self, uri: &str) -> (idx: usize)
        ensures
            idx <= self.artists@.len(),
            idx < self.artists@.len() ==> self.artists@[idx as int].spotify_uri@ == uri@,
            idx == self.artists@.len() ==> !self.artist_uris().contains(uri@),
    {
        let n = self.artists.len();
        let mut i: usize = 0;
        while i < n
            invariant
                0 <= i <= n,
                n == self.artists@.len(),
                forall|j: int| 0 <= j < i ==> (#[trigger] self.artists@[j]).spotify_uri@ != uri@,
            decreases n - i,
        {
            if str_eq(self.artists[i].spotify_uri.as_str(), uri) {
                return i;
            }
            i = i + 1;
        }
        n
    }

    /// How many track rows exist.
    pub fn track_count(&self) -> (n: usize)
        ensures
            n == self.tracks_list().len(),
    {
        self.tracks.len()
    }

    /// How many artist rows exist.
    pub fn artist_count(&self) -> (n: usize)
        ensures
            n == self.artists_list().len(),
    {
        self.artists.len()
    }

    pub closed spec fn links_list(self) -> Seq<(String, String)> {
        self.links@
    }

    /// How many distinct track-artist associations exist.
    pub fn link_count(&self) -> (n: usize)
        ensures
            n == self.links_list().len(),
    {
        self.links.len()
    }

    pub closed spec fn imports_log(self) -> Seq<String> {
        self.imports@
    }

    /// How many import runs were created.
    pub fn import_count(&self) -> (n: usize)
        ensures
            n == self.imports_log().len(),
    {
        self.imports.len()
    }

    /// How many summaries were committed.
    pub fn completed_count(&self) -> (n: usize)
        ensures
            n == self.completed_log().len(),
    {
        self.completed.len()
    }

    /// A committed summary, by commit order.
    pub fn completed_at(&self, i: usize) -> (s: &ImportSummary)
        requires
            i < self.completed_log().len(),
        ensures
            *s == self.completed_log()[i as int],
    {
        &self.completed[i]
    }

    /// The most recently committed summary for an import run, if any.
    pub fn find_completed(&self, import_id: &str) -> (r: Option<&ImportSummary>)
        ensures
            match r {
                Some(s) => exists|i: int|
                    0 <= i < self.completed_log().len() && *s == #[trigger] self.completed_log()[i]
                        && s.import_id@ == import_id@,
                None => forall|i: int|
                    0 <= i < self.completed_log().len() ==> (#[trigger] self.completed_log()[i]).import_id@
                        != import_id@,
            },
    {
        let n = self.completed.len();
        let mut i: usize = n;
        while i > 0
            invariant
                0 <= i <= n,
                n == self.completed@.len(),
                forall|j: int|
                    i <= j < n ==> (#[trigger] self.completed@[j]).import_id@ != import_id@,
            decreases i,
        {
            if str_eq(self.completed[i - 1].import_id.as_str(), import_id) {
                proof {
                    assert(self.completed_log()[i - 1].import_id@ == import_id@);
                }
                return Some(&self.completed[i - 1]);
            }
            i = i - 1;
        }
        None
    }

    pub closed spec fn tracks_list(self) -> Seq<TrackRecord> {
        self.tracks@
    }

    pub closed spec fn artists_list(self) -> Seq<ArtistRecord> {
        self.artists@
    }

    /// A track row, by row order.
    pub fn track_at(&self, i: usize) -> (t: &TrackRecord)
        requires
            i < self.tracks_list().len(),
        ensures
            *t == self.tracks_list()[i as int],
    {
        &self.tracks[i]
    }
}

impl ImportRepository for MemoryRepository {
    fn create_import(
        &mut self,
        user_id: &str,
        playlist_id: &str,
        playlist_name: Option<&str>,
    ) -> (r: Result<String, ImportError>)
        ensures
            r is Ok,
            final(self).model() == old(self).model(),
            final(self).link_set() == old(self).link_set(),
            final(self).completed_log() == old(self).completed_log(),
            final(self).imports_log().len() == old(self).imports_log().len() + 1,
    {
        let ghost s0 = *self;
        let mut id = String::from_str("import-");
        id.append(u32_to_dec_string(self.next_import).as_str());
        self.next_import = self.next_import.wrapping_add(1);
        self.imports.push(clone_string(&id));
        proof {
            assert_sets_equal!(self.track_uris(), s0.track_uris());
            assert_sets_equal!(self.artist_uris(), s0.artist_uris());
            assert_sets_equal!(self.link_set(), s0.link_set());
        }
        Ok(id)
    }

    /// Refined for the in-memory store: `Updated` exactly when the URI
    /// already has a row — that row is replaced by the given record in full —
    /// and `Inserted` exactly when it does not, appending the record; never
    /// refused.
    fn upsert_track(&mut self, track: &TrackRecord) -> (r: Result<UpsertResult, ImportError>)
        ensures
            final(self).artist_uris() == old(self).artist_uris(),
            final(self).link_set() == old(self).link_set(),
            final(self).completed_log() == old(self).completed_log(),
            old(self).track_uris().contains(track.spotify_uri@) ==> (r == Ok::<
                UpsertResult,
                ImportError,
            >(UpsertResult::Updated) && final(self).track_uris() == old(self).track_uris()
                && exists|i: int|
                0 <= i < old(self).tracks_list().len() && (#[trigger] old(self).tracks_list()[i]).spotify_uri@ == track.spotify_uri@ && final(self).tracks_list() == old(self).tracks_list().remove(i).push(*track)),
            !old(self).track_uris().contains(track.spotify_uri@) ==> (r == Ok::<
                UpsertResult,
                ImportError,
            >(UpsertResult::Inserted) && final(self).track_uris() == old(self).track_uris().insert(track.spotify_uri@) && final(self).tracks_list() == old(self).tracks_list().push(*track)),
    {
        let ghost s0 = *self;
        let ghost pre = self.tracks@;
        let ghost u = track.spotify_uri@;
        let idx = self.find_track(track.spotify_uri.as_str());
        if idx < self.tracks.len() {
            proof {
                assert(s0.track_uris().contains(u));
            }
            let _ = self.tracks.remove(idx);
            self.tracks.push(clone_track(track));
            proof {
                let post = self.tracks@;
                assert(post =~= pre.remove(idx as int).push(*track));
                assert_sets_equal!(self.track_uris(), s0.track_uris(), v => {
                    if exists|i: int| 0 <= i < post.len() && (#[trigger] post[i]).spotify_uri@ == v {
                        let i = choose|i: int| 0 <= i < post.len() && (#[trigger] post[i]).spotify_uri@ == v;
                        if i == post.len() - 1 {
                            assert(pre[idx as int].spotify_uri@ == v);
                        } else {
                            let pi: int = if i < idx { i } else { i + 1 };
                            assert(pre[pi].spotify_uri@ == v);
                        }
                    }
                    if exists|i: int| 0 <= i < pre.len() && (#[trigger] pre[i]).spotify_uri@ == v {
                        let i = choose|i: int| 0 <= i < pre.len() && (#[trigger] pre[i]).spotify_uri@ == v;
                        if i == idx {
                            assert(post[post.len() - 1].spotify_uri@ == v);
                        } else {
                            let ni: int = if i < idx { i } else { i - 1 };
                            assert(post[ni].spotify_uri@ == v);
                        }
                    }
                });
                assert_sets_equal!(self.artist_uris(), s0.artist_uris());
                assert_sets_equal!(self.link_set(), s0.link_set());
                assert(s0.tracks_list()[idx as int].spotify_uri@ == track.spotify_uri@);
                assert(self.tracks_list() =~= s0.tracks_list().remove(idx as int).push(*track));
            }
            Ok(UpsertResult::Updated)
        } else {
            self.tracks.push(clone_track(track));
            proof {
                let post = self.tracks@;
                assert(post =~= pre.push(*track));
                assert_sets_equal!(self.track_uris(), s0.track_uris().insert(u), v => {
                    if v == u {
                        assert(post[post.len() - 1].spotify_uri@ == v);
                    }
                    if exists|i: int| 0 <= i < post.len() && (#[trigger] post[i]).spotify_uri@ == v {
                        let i = choose|i: int| 0 <= i < post.len() && (#[trigger] post[i]).spotify_uri@ == v;
                        if i < pre.len() {
                            assert(pre[i].spotify_uri@ == v);
                        }
                    }
                    if v != u && exists|i: int| 0 <= i < pre.len() && (#[trigger] pre[i]).spotify_uri@ == v {
                        let i = choose|i: int| 0 <= i < pre.len() && (#[trigger] pre[i]).spotify_uri@ == v;
                        assert(post[i].spotify_uri@ == v);
                    }
                });
                assert_sets_equal!(self.artist_uris(), s0.artist_uris());
                assert_sets_equal!(self.link_set(), s0.link_set());
            }
            Ok(UpsertResult::Inserted)
        }
    }

    /// Refined for the in-memory store, like `upsert_track` but on the artist
    /// rows.
    fn upsert_artist(&mut self, artist: &ArtistRecord) -> (r: Result<UpsertResult, ImportError>)
        ensures
            final(self).track_uris() == old(self).track_uris(),
            final(self).link_set() == old(self).link_set(),
            final(self).completed_log() == old(self).completed_log(),
            old(self).artist_uris().contains(artist.spotify_uri@) ==> (r == Ok::<
                UpsertResult,
                ImportError,
            >(UpsertResult::Updated) && final(self).artist_uris() == old(self).artist_uris()
                && exists|i: int|
                0 <= i < old(self).artists_list().len() && (#[trigger] old(self).artists_list()[i]).spotify_uri@ == artist.spotify_uri@ && final(self).artists_list() == old(self).artists_list().remove(i).push(*artist)),
            !old(self).artist_uris().contains(artist.spotify_uri@) ==> (r == Ok::<
                UpsertResult,
                ImportError,
            >(UpsertResult::Inserted) && final(self).artist_uris() == old(self).artist_uris().insert(artist.spotify_uri@) && final(self).artists_list() == old(self).artists_list().push(*artist)),
    {
        let ghost s0 = *self;
        let ghost pre = self.artists@;
        let ghost u = artist.spotify_uri@;
        let idx = self.find_artist(artist.spotify_uri.as_str());
        if idx < self.artists.len() {
            proof {
                assert(s0.artist_uris().contains(u));
            }
            let _ = self.artists.remove(idx);
            self.artists.push(clone_artist(artist));
            proof {
                let post = self.artists@;
                assert(post =~= pre.remove(idx as int).push(*artist));
                assert_sets_equal!(self.artist_uris(), s0.artist_uris(), v => {
                    if exists|i: int| 0 <= i < post.len() && (#[trigger] post[i]).spotify_uri@ == v {
                        let i = choose|i: int| 0 <= i < post.len() && (#[trigger] post[i]).spotify_uri@ == v;
                        if i == post.len() - 1 {
                            assert(pre[idx as int].spotify_uri@ == v);
                        } else {
                            let pi: int = if i < idx { i } else { i + 1 };
                            assert(pre[pi].spotify_uri@ == v);
                        }
                    }
                    if exists|i: int| 0 <= i < pre.len() && (#[trigger] pre[i]).spotify_uri@ == v {
                        let i = choose|i: int| 0 <= i < pre.len() && (#[trigger] pre[i]).spotify_uri@ == v;
                        if i == idx {
                            assert(post[post.len() - 1].spotify_uri@ == v);
                        } else {
                            let ni: int = if i < idx { i } else { i - 1 };
                            assert(post[ni].spotify_uri@ == v);
                        }
                    }
                });
                assert_sets_equal!(self.track_uris(), s0.track_uris());
                assert_sets_equal!(self.link_set(), s0.link_set());
                assert(s0.artists_list()[idx as int].spotify_uri@ == artist.spotify_uri@);
                assert(self.artists_list() =~= s0.artists_list().remove(idx as int).push(*artist));
            }
            Ok(UpsertResult::Updated)
        } else {
            self.artists.push(clone_artist(artist));
            proof {
                let post = self.artists@;
                assert(post =~= pre.push(*artist));
                assert_sets_equal!(self.artist_uris(), s0.artist_uris().insert(u), v => {
                    if v == u {
                        assert(post[post.len() - 1].spotify_uri@ == v);
                    }
                    if exists|i: int| 0 <= i < post.len() && (#[trigger] post[i]).spotify_uri@ == v {
                        let i = choose|i: int| 0 <= i < post.len() && (#[trigger] post[i]).spotify_uri@ == v;
                        if i < pre.len() {
                            assert(pre[i].spotify_uri@ == v);
                        }
                    }
                    if v != u && exists|i: int| 0 <= i < pre.len() && (#[trigger] pre[i]).spotify_uri@ == v {
                        let i = choose|i: int| 0 <= i < pre.len() && (#[trigger] pre[i]).spotify_uri@ == v;
                        assert(post[i].spotify_uri@ == v);
                    }
                });
                assert_sets_equal!(self.track_uris(), s0.track_uris());
                assert_sets_equal!(self.link_set(), s0.link_set());
            }
            Ok(UpsertResult::Inserted)
        }
    }

    /// Refined for the in-memory store: idempotent — the association set
    /// simply gains the pair, and re-linking an existing pair is a no-op, not
    /// an error.
    fn upsert_track_artist(&mut self, track_id: &str, artist_id: &str) -> (r: Result<
        (),
        ImportError,
    >)
        ensures
            r is Ok,
            final(self).model() == old(self).model(),
            final(self).completed_log() == old(self).completed_log(),
            final(self).link_set() == old(self).link_set().insert((track_id@, artist_id@)),
    {
        let ghost p = (track_id@, artist_id@);
        let n = self.links.len();
        let mut i: usize = 0;
        while i < n
            invariant
                0 <= i <= n,
                *self == *old(self),
                n == self.links@.len(),
                forall|j: int|
                    0 <= j < i ==> !((#[trigger] self.links@[j]).0@ == track_id@
                        && self.links@[j].1@ == artist_id@),
            decreases n - i,
        {
            if str_eq(self.links[i].0.as_str(), track_id) && str_eq(
                self.links[i].1.as_str(),
                artist_id,
            ) {
                proof {
                    assert(self.links@[i as int].0@ == track_id@ && self.links@[i as int].1@
                        == artist_id@);
                    assert(self.link_set().contains((track_id@, artist_id@)));
                    assert_sets_equal!(self.link_set().insert((track_id@, artist_id@)), self.link_set());
                }
                return Ok(());
            }
            i = i + 1;
        }
        let ghost s0 = *self;
        let ghost pre = self.links@;
        self.links.push(
            (String::from_str(track_id), String::from_str(artist_id)),
        );
        proof {
            let post = self.links@;
            assert(post =~= pre.push((post.last().0, post.last().1)));
            assert(post.last().0@ == track_id@ && post.last().1@ == artist_id@);
            assert_sets_equal!(self.link_set(), s0.link_set().insert(p), v => {
                if v == p {
                    assert(post[post.len() - 1].0@ == v.0 && post[post.len() - 1].1@ == v.1);
                }
                if exists|i: int| 0 <= i < post.len() && (#[trigger] post[i]).0@ == v.0 && post[i].1@ == v.1 {
                    let i = choose|i: int| 0 <= i < post.len() && (#[trigger] post[i]).0@ == v.0 && post[i].1@ == v.1;
                    if i < pre.len() {
                        assert(pre[i].0@ == v.0 && pre[i].1@ == v.1);
                    }
                }
                if v != p && exists|i: int| 0 <= i < pre.len() && (#[trigger] pre[i]).0@ == v.0 && pre[i].1@ == v.1 {
                    let i = choose|i: int| 0 <= i < pre.len() && (#[trigger] pre[i]).0@ == v.0 && pre[i].1@ == v.1;
                    assert(post[i].0@ == v.0 && post[i].1@ == v.1);
                }
            });
            assert_sets_equal!(self.track_uris(), s0.track_uris());
            assert_sets_equal!(self.artist_uris(), s0.artist_uris());
        }
        Ok(())
    }

    /// Refined for the in-memory store: the summary is appended to the commit
    /// log; rows are untouched.
    fn complete_import(&mut self, import_id: &str, summary: &ImportSummary) -> (r: Result<
        (),
        ImportError,
    >)
        ensures
            r is Ok,
            final(self).model() == old(self).model(),
            final(self).link_set() == old(self).link_set(),
            final(self).completed_log() == old(self).completed_log().push(*summary),
    {
        let ghost s0 = *self;
        self.completed.push(clone_summary(summary));
        proof {
            assert_sets_equal!(self.track_uris(), s0.track_uris());
            assert_sets_equal!(self.artist_uris(), s0.artist_uris());
            assert_sets_equal!(self.link_set(), s0.link_set());
        }
        Ok(())
    }
}


/// A tally of outcomes over one model-level run.
pub ghost struct RunTally {
    pub inserted: nat,
    pub updated: nat,
    pub failed: nat,
}

pub open spec fn zero_tally() -> RunTally {
    RunTally { inserted: 0, updated: 0, failed: 0 }
}

pub open spec fn tally_bump(t: RunTally, o: ItemOutcome) -> RunTally {
    match o {
        ItemOutcome::Inserted => RunTally { inserted: t.inserted + 1, ..t },
        ItemOutcome::Updated => RunTally { updated: t.updated + 1, ..t },
        ItemOutcome::Failed => RunTally { failed: t.failed + 1, ..t },
    }
}

/// The external URI of an item's track, empty for an absent track.
pub open spec fn item_uri(item: PlaylistItem) -> Seq<char> {
    match item.track {
        Some(t) => t.uri@,
        None => Seq::empty(),
    }
}

/// The URIs of a track's listed performers.
pub open spec fn artist_uris_of(artists: Seq<SpotifyArtistRaw>) -> Set<Seq<char>>
    decreases artists.len(),
{
    if artists.len() == 0 {
        Set::empty()
    } else {
        artist_uris_of(artists.drop_last()).insert(artists.last().uri@)
    }
}

/// What one page item does to the repository model, per the in-memory
/// repository's upsert contracts: an absent track fails and changes nothing;
/// otherwise the track URI decides between update and insert, and every
/// listed performer's URI joins the artist rows.
pub open spec fn run_item(m: RepoModel, item: PlaylistItem) -> (RepoModel, ItemOutcome) {
    match item.track {
        None => (m, ItemOutcome::Failed),
        Some(t) => {
            let grown = m.artists.union(artist_uris_of(t.artists@));
            if m.tracks.contains(t.uri@) {
                (RepoModel { tracks: m.tracks, artists: grown }, ItemOutcome::Updated)
            } else {
                (
                    RepoModel { tracks: m.tracks.insert(t.uri@), artists: grown },
                    ItemOutcome::Inserted,
                )
            }
        },
    }
}

/// A whole page of items applied to the model, tallying outcomes.
pub open spec fn run_items(m: RepoModel, items: Seq<PlaylistItem>, t: RunTally) -> (
    RepoModel,
    RunTally,
)
    decreases items.len(),
{
    if items.len() == 0 {
        (m, t)
    } else {
        let prior = run_items(m, items.drop_last(), t);
        let step = run_item(prior.0, items.last());
        (step.0, tally_bump(prior.1, step.1))
    }
}

/// How many items carry a track.
pub open spec fn some_count(items: Seq<PlaylistItem>) -> nat
    decreases items.len(),
{
    if items.len() == 0 {
        0
    } else {
        some_count(items.drop_last()) + (if items.last().track is Some {
            1nat
        } else {
            0nat
        })
    }
}

/// The track URIs a page carries.
pub open spec fn page_track_uris(items: Seq<PlaylistItem>) -> Set<Seq<char>>
    decreases items.len(),
{
    if items.len() == 0 {
        Set::empty()
    } else {
        let rest = page_track_uris(items.drop_last());
        match items.last().track {
            Some(t) => rest.insert(t.uri@),
            None => rest,
        }
    }
}

/// The artist URIs a page carries.
pub open spec fn page_artist_uris(items: Seq<PlaylistItem>) -> Set<Seq<char>>
    decreases items.len(),
{
    if items.len() == 0 {
        Set::empty()
    } else {
        let rest = page_artist_uris(items.drop_last());
        match items.last().track {
            Some(t) => rest.union(artist_uris_of(t.artists@)),
            None => rest,
        }
    }
}

/// No track of the page has a row yet.
pub open spec fn fresh_playlist(m: RepoModel, items: Seq<PlaylistItem>) -> bool {
    forall|i: int|
        0 <= i < items.len() && (#[trigger] items[i]).track is Some ==> !m.tracks.contains(
            item_uri(items[i]),
        )
}

/// No two items of the page share a track URI.
pub open spec fn distinct_track_uris(items: Seq<PlaylistItem>) -> bool {
    forall|i: int, j: int|
        #![trigger items[i], items[j]]
        0 <= i < j < items.len() && items[i].track is Some && items[j].track is Some
            ==> item_uri(items[i]) != item_uri(items[j])
}

proof fn lemma_page_track_uris_contains(items: Seq<PlaylistItem>, u: Seq<char>)
    ensures
        page_track_uris(items).contains(u) <==> exists|i: int|
            0 <= i < items.len() && (#[trigger] items[i]).track is Some && item_uri(items[i])
                == u,
    decreases items.len(),
{
    if items.len() > 0 {
        lemma_page_track_uris_contains(items.drop_last(), u);
        if page_track_uris(items).contains(u) {
            if items.last().track is Some && item_uri(items.last()) == u {
                assert(items[items.len() - 1].track is Some && item_uri(items[items.len() - 1])
                    == u);
            } else {
                let i = choose|i: int|
                    0 <= i < items.drop_last().len() && (#[trigger] items.drop_last()[i]).track
                        is Some && item_uri(items.drop_last()[i]) == u;
                assert(items[i].track is Some && item_uri(items[i]) == u);
            }
        }
        if exists|i: int|
            0 <= i < items.len() && (#[trigger] items[i]).track is Some && item_uri(items[i])
                == u {
            let i = choose|i: int|
                0 <= i < items.len() && (#[trigger] items[i]).track is Some && item_uri(items[i])
                    == u;
            if i < items.len() - 1 {
                assert(items.drop_last()[i].track is Some && item_uri(items.drop_last()[i]) == u);
            }
        }
    }
}

/// A first run over rows none of which exist yet: every carried track is
/// inserted, nothing is updated, every absent track fails, and the model
/// gains exactly the page's URIs.
proof fn lemma_run_fresh(m: RepoModel, items: Seq<PlaylistItem>, t: RunTally)
    requires
        fresh_playlist(m, items),
        distinct_track_uris(items),
    ensures
        run_items(m, items, t).1.inserted == t.inserted + some_count(items),
        run_items(m, items, t).1.updated == t.updated,
        run_items(m, items, t).1.failed == t.failed + items.len() - some_count(items),
        run_items(m, items, t).0.tracks =~= m.tracks.union(page_track_uris(items)),
        run_items(m, items, t).0.artists =~= m.artists.union(page_artist_uris(items)),
    decreases items.len(),
{
    if items.len() == 0 {
        assert(m.tracks.union(page_track_uris(items)) =~= m.tracks);
        assert(m.artists.union(page_artist_uris(items)) =~= m.artists);
    } else {
        let prefix = items.drop_last();
        assert(fresh_playlist(m, prefix)) by {
            assert forall|i: int|
                0 <= i < prefix.len() && (#[trigger] prefix[i]).track is Some implies !m.tracks.contains(
                item_uri(prefix[i]),
            ) by {
                assert(items[i].track is Some);
            }
        }
        assert(distinct_track_uris(prefix)) by {
            assert forall|i: int, j: int|
                #![trigger prefix[i], prefix[j]]
                0 <= i < j < prefix.len() && prefix[i].track is Some && prefix[j].track
                    is Some implies item_uri(prefix[i]) != item_uri(prefix[j]) by {
                assert(items[i] == prefix[i] && items[j] == prefix[j]);
            }
        }
        lemma_run_fresh(m, prefix, t);
        let mid = run_items(m, prefix, t).0;
        let last = items.last();
        match last.track {
            None => {
                assert(run_items(m, items, t).0 == run_items(m, prefix, t).0);
            },
            Some(tr) => {
                assert(items[items.len() - 1].track is Some);
                assert(!m.tracks.contains(tr.uri@));
                assert(!page_track_uris(prefix).contains(tr.uri@)) by {
                    lemma_page_track_uris_contains(prefix, tr.uri@);
                    if exists|i: int|
                        0 <= i < prefix.len() && (#[trigger] prefix[i]).track is Some && item_uri(
                            prefix[i],
                        ) == tr.uri@ {
                        let i = choose|i: int|
                            0 <= i < prefix.len() && (#[trigger] prefix[i]).track is Some
                                && item_uri(prefix[i]) == tr.uri@;
                        assert(items[i].track is Some && item_uri(items[i]) == item_uri(
                            items[items.len() - 1],
                        ));
                    }
                }
                assert(!mid.tracks.contains(tr.uri@));
            },
        }
    }
}

/// A run over rows all of which already exist: every carried track is
/// updated, nothing is inserted, and the model does not move.
proof fn lemma_run_all_present(m: RepoModel, items: Seq<PlaylistItem>, t: RunTally)
    requires
        forall|i: int|
            0 <= i < items.len() && (#[trigger] items[i]).track is Some ==> m.tracks.contains(
                item_uri(items[i]),
            ),
        page_artist_uris(items).subset_of(m.artists),
    ensures
        run_items(m, items, t).1.updated == t.updated + some_count(items),
        run_items(m, items, t).1.inserted == t.inserted,
        run_items(m, items, t).1.failed == t.failed + items.len() - some_count(items),
        run_items(m, items, t).0.tracks =~= m.tracks,
        run_items(m, items, t).0.artists =~= m.artists,
    decreases items.len(),
{
    if items.len() > 0 {
        let prefix = items.drop_last();
        assert forall|i: int|
            0 <= i < prefix.len() && (#[trigger] prefix[i]).track is Some implies m.tracks.contains(
            item_uri(prefix[i]),
        ) by {
            assert(items[i].track is Some);
        }
        assert(page_artist_uris(prefix).subset_of(m.artists));
        lemma_run_all_present(m, prefix, t);
        let mid = run_items(m, prefix, t).0;
        match items.last().track {
            None => {
            },
            Some(tr) => {
                assert(items[items.len() - 1].track is Some);
                assert(m.tracks.contains(tr.uri@));
                assert(mid.tracks.contains(tr.uri@));
                assert(artist_uris_of(tr.artists@).subset_of(m.artists));
                assert(mid.artists.union(artist_uris_of(tr.artists@)) =~= mid.artists);
            },
        }
    }
}

/// Law: re-importing an unchanged playlist into rows it first populated
/// yields an `updated` count equal to the first run's `inserted` count,
/// inserts nothing new, fails the same items, and adds no artist rows. The
/// playlist's tracks must not pre-exist and must not repeat a URI — a
/// playlist listing one track twice updates it on the spot and breaks the
/// equality.
pub proof fn lemma_reimport_converges(m0: RepoModel, items: Seq<PlaylistItem>)
    requires
        fresh_playlist(m0, items),
        distinct_track_uris(items),
    ensures
        ({
            let first = run_items(m0, items, zero_tally());
            let second = run_items(first.0, items, zero_tally());
            &&& first.1.updated == 0
            &&& second.1.updated == first.1.inserted
            &&& second.1.inserted == 0
            &&& second.1.failed == first.1.failed
            &&& second.0.artists =~= first.0.artists
            &&& second.0.tracks =~= first.0.tracks
        }),
{
    lemma_run_fresh(m0, items, zero_tally());
    let m1 = run_items(m0, items, zero_tally()).0;
    assert forall|i: int|
        0 <= i < items.len() && (#[trigger] items[i]).track is Some implies m1.tracks.contains(
        item_uri(items[i]),
    ) by {
        lemma_page_track_uris_contains(items, item_uri(items[i]));
    }
    assert(page_artist_uris(items).subset_of(m1.artists));
    lemma_run_all_present(m1, items, zero_tally());
}


/// The outcome each page item has against a starting model, in order: the
/// deterministic sequence the in-memory repository realizes.
pub open spec fn run_outcome_seq(m: RepoModel, items: Seq<PlaylistItem>) -> Seq<ItemOutcome>
    decreases items.len(),
{
    if items.len() == 0 {
        Seq::empty()
    } else {
        run_outcome_seq(m, items.drop_last()).push(
            run_item(run_items(m, items.drop_last(), zero_tally()).0, items.last()).1,
        )
    }
}

/// Tallies folded by outcomes alone: against the in-memory repository no
/// upsert is ever refused, so no secondary failures arise.
pub open spec fn bump_fold(t: ImportTallies, outs: Seq<ItemOutcome>) -> ImportTallies
    decreases outs.len(),
{
    if outs.len() == 0 {
        t
    } else {
        spec_bump(bump_fold(t, outs.drop_last()), outs.last())
    }
}

impl MemoryRepository {
    /// Upsert every listed performer and its link to the track: the artist
    /// rows gain exactly the performers' URIs.
    fn link_item_artists(&mut self, track_id: &str, artists: &Vec<SpotifyArtistRaw>)
        ensures
            final(self).track_uris() == old(self).track_uris(),
            final(self).artist_uris() == old(self).artist_uris().union(artist_uris_of(artists@)),
            final(self).completed_log() == old(self).completed_log(),
    {
        let ghost s0 = *self;
        let n = artists.len();
        let mut i: usize = 0;
        while i < n
            invariant
                0 <= i <= n,
                n == artists@.len(),
                self.track_uris() == s0.track_uris(),
                self.artist_uris() == s0.artist_uris().union(
                    artist_uris_of(artists@.take(i as int)),
                ),
                self.completed_log() == s0.completed_log(),
            decreases n - i,
        {
            let record = artist_record_of(&artists[i]);
            let ghost before = self.artist_uris();
            let _ = ImportRepository::upsert_artist(self, &record);
            proof {
                let u = artists@[i as int].uri@;
                assert(record.spotify_uri@ == u);
                if before.contains(u) {
                    assert(self.artist_uris() =~= before.insert(u));
                }
                assert(artists@.take(i as int + 1).drop_last() =~= artists@.take(i as int));
                assert(artist_uris_of(artists@.take(i as int + 1)) == artist_uris_of(
                    artists@.take(i as int),
                ).insert(u));
                assert(s0.artist_uris().union(artist_uris_of(artists@.take(i as int + 1)))
                    =~= before.insert(u));
            }
            let _ = ImportRepository::upsert_track_artist(self, track_id, record.id.as_str());
            i = i + 1;
        }
        proof {
            assert(artists@.take(n as int) =~= artists@);
        }
    }

    /// One page item applied to the in-memory repository: exactly `run_item`
    /// of the model, with the tallies moved by the outcome. This is the
    /// orchestrator's item step realized on the one repository whose upsert
    /// contracts pin every result, and it grounds the model-level laws below
    /// in executable code.
    pub fn apply_item(&mut self, tallies: &mut ImportTallies, item: &PlaylistItem) -> (o:
        ItemOutcome)
        ensures
            final(self).model() == run_item(old(self).model(), *item).0,
            o == run_item(old(self).model(), *item).1,
            *final(tallies) == spec_bump(*old(tallies), o),
            final(self).completed_log() == old(self).completed_log(),
    {
        let ghost m0 = self.model();
        match &item.track {
            None => {
                tallies.failed = bump(tallies.failed);
                ItemOutcome::Failed
            },
            Some(raw) => {
                let record = track_record_of(raw);
                let outcome = ImportRepository::upsert_track(self, &record);
                match outcome {
                    Ok(UpsertResult::Inserted) => {
                        tallies.inserted = bump(tallies.inserted);
                        self.link_item_artists(record.id.as_str(), &raw.artists);
                        proof {
                            assert(self.model().tracks =~= run_item(m0, *item).0.tracks);
                            assert(self.model().artists =~= run_item(m0, *item).0.artists);
                        }
                        ItemOutcome::Inserted
                    },
                    Ok(UpsertResult::Updated) => {
                        tallies.updated = bump(tallies.updated);
                        self.link_item_artists(record.id.as_str(), &raw.artists);
                        proof {
                            assert(self.model().tracks =~= run_item(m0, *item).0.tracks);
                            assert(self.model().artists =~= run_item(m0, *item).0.artists);
                        }
                        ItemOutcome::Updated
                    },
                    Err(_) => {
                        proof {
                            assert(false);
                        }
                        ItemOutcome::Failed
                    },
                }
            },
        }
    }

    /// A whole page applied to the in-memory repository: the model moves by
    /// `run_items` and the tallies by the page's outcome sequence — the
    /// bridge between the generic orchestrator's page application and the
    /// model on which `lemma_reimport_converges` speaks.
    pub fn apply_page_items(&mut self, tallies: &mut ImportTallies, page: &PlaylistTracksResponse)
        ensures
            final(self).model() == run_items(old(self).model(), page.items@, zero_tally()).0,
            *final(tallies) == bump_fold(
                *old(tallies),
                run_outcome_seq(old(self).model(), page.items@),
            ),
            final(self).completed_log() == old(self).completed_log(),
    {
        let ghost m0 = self.model();
        let ghost t0 = *tallies;
        let ghost l0 = self.completed_log();
        let n = page.items.len();
        let mut i: usize = 0;
        while i < n
            invariant
                0 <= i <= n,
                n == page.items@.len(),
                self.model() == run_items(m0, page.items@.take(i as int), zero_tally()).0,
                *tallies == bump_fold(t0, run_outcome_seq(m0, page.items@.take(i as int))),
                self.completed_log() == l0,
            decreases n - i,
        {
            let ghost mid = self.model();
            let o = self.apply_item(tallies, &page.items[i]);
            proof {
                assert(page.items@.take(i as int + 1).drop_last() =~= page.items@.take(i as int));
                assert(run_outcome_seq(m0, page.items@.take(i as int + 1)).drop_last()
                    =~= run_outcome_seq(m0, page.items@.take(i as int)));
            }
            i = i + 1;
        }
        proof {
            assert(page.items@.take(n as int) =~= page.items@);
        }
    }
}

} // verus!
