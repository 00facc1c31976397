//! Playlist reference validation, deterministic identity, and the paginated
//! import orchestrator against the in-memory repository.

use playlist_import::import::{
    apply_playlist_item, deterministic_id, import_playlist, validate_playlist_url, ImportError,
    ImportRepository, ImportTallies, ItemOutcome, PageFetcher, ImportResponse, ImportSummary,
    UpsertResult, TrackRecord, ArtistRecord,
};
use playlist_import::repo::MemoryRepository;
use playlist_import::retry::{RetryConfig, Sleeper};
use playlist_import::spotify::{
    PlaylistItem, PlaylistTracksResponse, SpotifyAlbumRaw, SpotifyArtistRaw, SpotifyError,
    SpotifyTrackRaw,
};
use playlist_import::text::u32_to_dec_string;

// ---- URL validation ----

#[test]
fn test_valid_url() {
    let id = validate_playlist_url("https://open.spotify.com/playlist/37i9dQZF1DX0BcQWzuB7ZO")
        .unwrap();
    assert_eq!(id, "37i9dQZF1DX0BcQWzuB7ZO");
}

#[test]
fn test_valid_url_with_query() {
    let id = validate_playlist_url(
        "https://open.spotify.com/playlist/37i9dQZF1DX0BcQWzuB7ZO?si=abc123",
    )
    .unwrap();
    assert_eq!(id, "37i9dQZF1DX0BcQWzuB7ZO");
}

#[test]
fn test_valid_uri() {
    let id = validate_playlist_url("spotify:playlist:37i9dQZF1DX0BcQWzuB7ZO").unwrap();
    assert_eq!(id, "37i9dQZF1DX0BcQWzuB7ZO");
}

#[test]
fn test_invalid_url() {
    assert!(validate_playlist_url("https://example.com/playlist/abc").is_err());
}

#[test]
fn test_non_playlist_spotify_url() {
    assert!(
        validate_playlist_url("https://open.spotify.com/album/37i9dQZF1DX0BcQWzuB7ZO").is_err()
    );
}

#[test]
fn test_empty_input() {
    assert!(validate_playlist_url("").is_err());
}

#[test]
fn test_whitespace_trimmed() {
    let id =
        validate_playlist_url("  https://open.spotify.com/playlist/37i9dQZF1DX0BcQWzuB7ZO  ")
            .unwrap();
    assert_eq!(id, "37i9dQZF1DX0BcQWzuB7ZO");
}

#[test]
fn test_invalid_url_echoes_trimmed_input() {
    match validate_playlist_url("  not-a-url  ") {
        Err(ImportError::InvalidUrl(m)) => assert_eq!(m, "not-a-url"),
        _ => panic!("expected InvalidUrl"),
    }
}

// ---- deterministic identity ----

#[test]
fn test_deterministic_id() {
    assert_eq!(deterministic_id("spotify:track:abc123"), "abc123");
    assert_eq!(deterministic_id("spotify:artist:xyz"), "xyz");
    assert_eq!(deterministic_id("nocolon"), "nocolon");
}

// ---- raw track conversion ----

fn raw_track(name: &str, uri: &str, album: &str, duration: u64, preview: Option<&str>, artists: Vec<(&str, &str)>) -> SpotifyTrackRaw {
    SpotifyTrackRaw {
        name: name.to_string(),
        uri: uri.to_string(),
        album: SpotifyAlbumRaw { name: album.to_string() },
        duration_ms: duration,
        preview_url: preview.map(|p| p.to_string()),
        artists: artists
            .into_iter()
            .map(|(n, u)| SpotifyArtistRaw { name: n.to_string(), uri: u.to_string() })
            .collect(),
    }
}

#[test]
fn test_track_raw_into_track() {
    let raw = raw_track(
        "Test Track",
        "spotify:track:abc",
        "Test Album",
        180000,
        Some("https://example.com/preview"),
        vec![("Test Artist", "spotify:artist:xyz")],
    );

    let track = raw.into_track();
    assert_eq!(track.name, "Test Track");
    assert_eq!(track.album_name, "Test Album");
    assert_eq!(track.artists.len(), 1);
    assert_eq!(track.artists[0].name, "Test Artist");
}

// ---- orchestration helpers ----

struct NoSleeper;

impl Sleeper for NoSleeper {
    fn sleep_ms(&mut self, _duration_ms: u64) {}
}

/// Serves a scripted sequence of page results, in fetch order.
struct ScriptedFetcher {
    pages: Vec<Result<PlaylistTracksResponse, SpotifyError>>,
    calls: usize,
}

impl PageFetcher for ScriptedFetcher {
    fn fetch_page(
        &mut self,
        _access_token: &str,
        _playlist_id: &str,
        _offset: u32,
        _limit: u32,
    ) -> Result<PlaylistTracksResponse, SpotifyError> {
        let i = self.calls;
        self.calls += 1;
        match self.pages.get(i) {
            Some(Ok(p)) => Ok(p.clone()),
            Some(Err(e)) => Err(e.clone()),
            None => Err(SpotifyError::NotFound("no more pages scripted".to_string())),
        }
    }
}

fn item(track: Option<SpotifyTrackRaw>) -> PlaylistItem {
    PlaylistItem { track }
}

fn page(items: Vec<PlaylistItem>, total: u32, offset: u32) -> PlaylistTracksResponse {
    PlaylistTracksResponse { items, total, next: None, offset, limit: 100 }
}

fn single_page_fixture() -> PlaylistTracksResponse {
    page(
        vec![
            item(Some(raw_track(
                "Test Track 1",
                "spotify:track:t1",
                "Album 1",
                200000,
                None,
                vec![("Artist 1", "spotify:artist:a1")],
            ))),
            item(None),
            item(Some(raw_track(
                "Test Track 2",
                "spotify:track:t2",
                "Album 2",
                180000,
                Some("https://preview.example.com"),
                vec![("Artist 1", "spotify:artist:a1"), ("Artist 2", "spotify:artist:a2")],
            ))),
        ],
        3,
        0,
    )
}

// ---- orchestration scenarios ----

#[test]
fn test_import_playlist_single_page() {
    let mut repo = MemoryRepository::new();
    let mut fetcher = ScriptedFetcher { pages: vec![Ok(single_page_fixture())], calls: 0 };
    let mut sleeper = NoSleeper;
    let config = RetryConfig::default();

    let summary = import_playlist(
        &mut repo,
        &mut fetcher,
        &mut sleeper,
        &config,
        "token",
        "user1",
        "playlist123",
    )
    .unwrap();

    assert_eq!(summary.total, 3);
    assert_eq!(summary.inserted, 2); // 2 valid tracks
    assert_eq!(summary.updated, 0);
    assert_eq!(summary.failed, 1); // 1 null track
    assert_eq!(summary.status, "completed");

    assert_eq!(repo.track_count(), 2);
    assert_eq!(repo.artist_count(), 2); // Artist 1 + Artist 2, deduplicated
    assert_eq!(repo.link_count(), 3); // t1-a1, t2-a1, t2-a2
    assert_eq!(repo.completed_count(), 1);
    assert_eq!(repo.completed_at(0).status, "completed");
}

#[test]
fn test_import_playlist_multi_page() {
    let page1 = page(
        vec![item(Some(raw_track(
            "Track A",
            "spotify:track:a",
            "Album A",
            100000,
            None,
            vec![("Artist X", "spotify:artist:x")],
        )))],
        101,
        0,
    );
    let page2 = page(
        vec![item(Some(raw_track(
            "Track B",
            "spotify:track:b",
            "Album B",
            120000,
            None,
            vec![("Artist Y", "spotify:artist:y")],
        )))],
        101,
        100,
    );

    let mut repo = MemoryRepository::new();
    let mut fetcher = ScriptedFetcher { pages: vec![Ok(page1), Ok(page2)], calls: 0 };
    let mut sleeper = NoSleeper;
    let config = RetryConfig::default();

    let summary = import_playlist(
        &mut repo,
        &mut fetcher,
        &mut sleeper,
        &config,
        "token",
        "user1",
        "playlist456",
    )
    .unwrap();

    assert_eq!(summary.total, 101);
    assert_eq!(summary.inserted, 2);
    assert_eq!(summary.failed, 0);
    assert_eq!(summary.status, "completed");
    assert_eq!(fetcher.calls, 2);
}

#[test]
fn test_import_fetch_fails_second_page() {
    let page1 = page(
        vec![
            item(Some(raw_track(
                "Track A",
                "spotify:track:a",
                "Album A",
                100000,
                None,
                vec![("Artist X", "spotify:artist:x")],
            ))),
            item(None),
        ],
        150,
        0,
    );

    let mut repo = MemoryRepository::new();
    let mut fetcher = ScriptedFetcher {
        pages: vec![
            Ok(page1),
            Err(SpotifyError::AuthFailed("token revoked".to_string())),
        ],
        calls: 0,
    };
    let mut sleeper = NoSleeper;
    let config = RetryConfig::default();

    let result = import_playlist(
        &mut repo,
        &mut fetcher,
        &mut sleeper,
        &config,
        "token",
        "user1",
        "playlist789",
    );

    // the underlying error surfaces to the caller
    assert!(matches!(
        result,
        Err(ImportError::SpotifyError(SpotifyError::AuthFailed(_)))
    ));

    // the summary was committed as failed with page-1 progress only
    assert_eq!(repo.completed_count(), 1);
    let committed = repo.completed_at(0);
    assert_eq!(committed.status, "failed");
    assert_eq!(committed.total, 150);
    assert_eq!(committed.inserted, 1);
    assert_eq!(committed.updated, 0);
    assert_eq!(committed.failed, 1);

    // already-applied items stay applied
    assert_eq!(repo.track_count(), 1);
}

#[test]
fn test_reimport_unchanged_playlist() {
    let mut repo = MemoryRepository::new();
    let mut sleeper = NoSleeper;
    let config = RetryConfig::default();

    let mut fetcher = ScriptedFetcher { pages: vec![Ok(single_page_fixture())], calls: 0 };
    let first = import_playlist(
        &mut repo,
        &mut fetcher,
        &mut sleeper,
        &config,
        "token",
        "user1",
        "playlist123",
    )
    .unwrap();

    let artists_after_first = repo.artist_count();

    let mut fetcher2 = ScriptedFetcher { pages: vec![Ok(single_page_fixture())], calls: 0 };
    let second = import_playlist(
        &mut repo,
        &mut fetcher2,
        &mut sleeper,
        &config,
        "token",
        "user1",
        "playlist123",
    )
    .unwrap();

    // re-importing an unchanged playlist updates what the first run inserted
    assert_eq!(first.updated, 0);
    assert_eq!(second.updated, first.inserted);
    assert_eq!(second.inserted, 0);
    assert_eq!(second.failed, first.failed);

    // and adds no artist rows for previously seen artist URIs
    assert_eq!(repo.artist_count(), artists_after_first);
    assert_eq!(repo.track_count(), 2);
}

#[test]
fn test_import_retries_transient_failure_then_succeeds() {
    let mut repo = MemoryRepository::new();
    let mut fetcher = ScriptedFetcher {
        pages: vec![
            Err(SpotifyError::Api { status: 503, message: "unavailable".to_string() }),
            Ok(single_page_fixture()),
        ],
        calls: 0,
    };
    let mut sleeper = NoSleeper;
    let config = RetryConfig { max_retries: 3, base_delay_ms: 1, max_delay_ms: 2 };

    let summary = import_playlist(
        &mut repo,
        &mut fetcher,
        &mut sleeper,
        &config,
        "token",
        "user1",
        "playlist123",
    )
    .unwrap();
    assert_eq!(summary.status, "completed");
    assert_eq!(fetcher.calls, 2);
}

// ---- item application ----

#[test]
fn test_null_track_counts_failed_only() {
    let mut repo = MemoryRepository::new();
    let mut tallies = ImportTallies { inserted: 5, updated: 7, failed: 2 };
    let (outcome, secondary) = apply_playlist_item(&mut repo, &mut tallies, &item(None));
    assert_eq!(outcome, ItemOutcome::Failed);
    assert_eq!(secondary, 0);
    assert_eq!(tallies.inserted, 5);
    assert_eq!(tallies.updated, 7);
    assert_eq!(tallies.failed, 3);
}

#[test]
fn test_item_with_track_inserts_then_updates() {
    let mut repo = MemoryRepository::new();
    let mut tallies = ImportTallies { inserted: 0, updated: 0, failed: 0 };
    let entry = item(Some(raw_track(
        "Song",
        "spotify:track:s1",
        "Album",
        1000,
        None,
        vec![("Artist", "spotify:artist:a1")],
    )));
    assert_eq!(apply_playlist_item(&mut repo, &mut tallies, &entry), (ItemOutcome::Inserted, 0));
    assert_eq!(apply_playlist_item(&mut repo, &mut tallies, &entry), (ItemOutcome::Updated, 0));
    assert_eq!(tallies.inserted, 1);
    assert_eq!(tallies.updated, 1);
    assert_eq!(tallies.failed, 0);
    // the derived local IDs are the URIs' last segments
    assert_eq!(repo.track_at(0).id, "s1");
}

/// A repository whose secondary upserts are refused: artist rows and
/// associations always fail with a persistence error.
struct SecondaryFailRepo {
    inner: MemoryRepository,
}

impl ImportRepository for SecondaryFailRepo {
    fn create_import(
        &mut self,
        user_id: &str,
        playlist_id: &str,
        playlist_name: Option<&str>,
    ) -> Result<String, ImportError> {
        self.inner.create_import(user_id, playlist_id, playlist_name)
    }

    fn upsert_track(&mut self, track: &TrackRecord) -> Result<UpsertResult, ImportError> {
        self.inner.upsert_track(track)
    }

    fn upsert_artist(&mut self, _artist: &ArtistRecord) -> Result<UpsertResult, ImportError> {
        Err(ImportError::Database("artist table unavailable".to_string()))
    }

    fn upsert_track_artist(
        &mut self,
        _track_id: &str,
        _artist_id: &str,
    ) -> Result<(), ImportError> {
        Err(ImportError::Database("association table unavailable".to_string()))
    }

    fn complete_import(
        &mut self,
        import_id: &str,
        summary: &ImportSummary,
    ) -> Result<(), ImportError> {
        self.inner.complete_import(import_id, summary)
    }
}

#[test]
fn test_failed_secondary_upserts_count_against_failed() {
    let mut repo = SecondaryFailRepo { inner: MemoryRepository::new() };
    let mut tallies = ImportTallies { inserted: 0, updated: 0, failed: 0 };
    let entry = item(Some(raw_track(
        "Song",
        "spotify:track:s1",
        "Album",
        1000,
        None,
        vec![("Artist 1", "spotify:artist:a1"), ("Artist 2", "spotify:artist:a2")],
    )));
    let (outcome, secondary) = apply_playlist_item(&mut repo, &mut tallies, &entry);
    // the track row itself went in
    assert_eq!(outcome, ItemOutcome::Inserted);
    // two artists and two associations were refused, each counted once
    assert_eq!(secondary, 4);
    assert_eq!(tallies.inserted, 1);
    assert_eq!(tallies.updated, 0);
    assert_eq!(tallies.failed, 4);
}

#[test]
fn test_import_counts_secondary_failures_in_summary() {
    let mut repo = SecondaryFailRepo { inner: MemoryRepository::new() };
    let mut fetcher = ScriptedFetcher { pages: vec![Ok(single_page_fixture())], calls: 0 };
    let mut sleeper = NoSleeper;
    let config = RetryConfig::default();

    let summary = import_playlist(
        &mut repo,
        &mut fetcher,
        &mut sleeper,
        &config,
        "token",
        "user1",
        "playlist123",
    )
    .unwrap();

    // both track rows went in; the null track fails once, and each refused
    // performer or association upsert fails once more: track 1 lists one
    // performer (2 refusals), track 2 lists two (4 refusals)
    assert_eq!(summary.inserted, 2);
    assert_eq!(summary.updated, 0);
    assert_eq!(summary.failed, 1 + 2 + 4);
    assert_eq!(summary.status, "completed");
}

#[test]
fn test_memory_page_application_matches_model() {
    let mut repo = MemoryRepository::new();
    let mut tallies = ImportTallies { inserted: 0, updated: 0, failed: 0 };
    let fixture = single_page_fixture();
    repo.apply_page_items(&mut tallies, &fixture);
    assert_eq!(tallies.inserted, 2);
    assert_eq!(tallies.updated, 0);
    assert_eq!(tallies.failed, 1);
    assert_eq!(repo.track_count(), 2);
    assert_eq!(repo.artist_count(), 2);
    repo.apply_page_items(&mut tallies, &fixture);
    assert_eq!(tallies.inserted, 2);
    assert_eq!(tallies.updated, 2);
    assert_eq!(tallies.failed, 2);
    assert_eq!(repo.artist_count(), 2);
}

#[test]
fn test_import_status_lookup_by_id() {
    let mut repo = MemoryRepository::new();
    let mut fetcher = ScriptedFetcher { pages: vec![Ok(single_page_fixture())], calls: 0 };
    let mut sleeper = NoSleeper;
    let config = RetryConfig::default();
    let summary = import_playlist(
        &mut repo,
        &mut fetcher,
        &mut sleeper,
        &config,
        "token",
        "user1",
        "playlist123",
    )
    .unwrap();
    let found = repo.find_completed(&summary.import_id).expect("the committed run is found");
    assert_eq!(found.status, "completed");
    assert_eq!(found.total, 3);
    assert!(repo.find_completed("no-such-run").is_none());
}

// ---- repository semantics ----

#[test]
fn test_upsert_track_insert_then_update() {
    let mut repo = MemoryRepository::new();
    let record = TrackRecord {
        id: "t1".to_string(),
        title: "Title".to_string(),
        album: Some("Album".to_string()),
        duration_ms: Some(1000),
        spotify_uri: "spotify:track:t1".to_string(),
        spotify_preview_url: None,
    };
    assert_eq!(repo.upsert_track(&record).unwrap(), UpsertResult::Inserted);
    let renamed = TrackRecord { title: "New Title".to_string(), ..record.clone() };
    assert_eq!(repo.upsert_track(&renamed).unwrap(), UpsertResult::Updated);
    assert_eq!(repo.track_count(), 1);
    assert_eq!(repo.track_at(0).title, "New Title");
}

#[test]
fn test_upsert_artist_insert_then_update() {
    let mut repo = MemoryRepository::new();
    let record = ArtistRecord {
        id: "a1".to_string(),
        name: "Name".to_string(),
        spotify_uri: "spotify:artist:a1".to_string(),
    };
    assert_eq!(repo.upsert_artist(&record).unwrap(), UpsertResult::Inserted);
    assert_eq!(repo.upsert_artist(&record).unwrap(), UpsertResult::Updated);
    assert_eq!(repo.artist_count(), 1);
}

#[test]
fn test_upsert_track_artist_is_idempotent() {
    let mut repo = MemoryRepository::new();
    repo.upsert_track_artist("t1", "a1").unwrap();
    repo.upsert_track_artist("t1", "a1").unwrap();
    repo.upsert_track_artist("t1", "a2").unwrap();
    assert_eq!(repo.link_count(), 2);
}

#[test]
fn test_create_import_ids_are_distinct() {
    let mut repo = MemoryRepository::new();
    let a = repo.create_import("user", "pl", None).unwrap();
    let b = repo.create_import("user", "pl", None).unwrap();
    assert_ne!(a, b);
    assert!(a.starts_with("import-"));
    assert_eq!(repo.import_count(), 2);
}

// ---- plumbing ----

#[test]
fn test_http_status_per_variant() {
    assert_eq!(ImportError::InvalidUrl(String::new()).http_status(), 400);
    assert_eq!(ImportError::NotFound(String::new()).http_status(), 404);
    assert_eq!(ImportError::AccessDenied(String::new()).http_status(), 403);
    assert_eq!(
        ImportError::SpotifyError(SpotifyError::Http(String::new())).http_status(),
        502
    );
    assert_eq!(ImportError::Database(String::new()).http_status(), 500);
}

#[test]
fn test_import_response_from_summary() {
    let summary = ImportSummary {
        import_id: "imp1".to_string(),
        total: 54,
        inserted: 50,
        updated: 3,
        failed: 1,
        status: "completed".to_string(),
    };
    let response = ImportResponse::from(summary);
    assert_eq!(response.import_id, "imp1");
    assert_eq!(response.total, 54);
    assert_eq!(response.inserted, 50);
    assert_eq!(response.updated, 3);
    assert_eq!(response.failed, 1);
    assert_eq!(response.status, "completed");
}

#[test]
fn test_u32_to_dec_string_values() {
    assert_eq!(u32_to_dec_string(0), "0");
    assert_eq!(u32_to_dec_string(7), "7");
    assert_eq!(u32_to_dec_string(10), "10");
    assert_eq!(u32_to_dec_string(4294967295), "4294967295");
}
