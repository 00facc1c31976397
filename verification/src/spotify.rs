//! Typed outcomes of upstream API calls and the normalization of transport
//! status codes into them. The HTTP transport itself lives outside the
//! library; it hands status, headers and body to the classifiers here.

use vstd::prelude::*;

verus! {

use vstd::string::StrSliceExecFns;
use crate::text::{dec_value, is_decimal};
use crate::text::parse_u64_decimal;

/// Everything an upstream call can fail with. `Http` covers transport-level
/// failures before any status line was obtained; `Api` carries any status the
/// taxonomy gives no name of its own.
#[derive(Debug, Clone)]
pub enum SpotifyError {
    Http(String),
    Api { status: u16, message: String },
    RateLimited { retry_after_secs: u64 },
    AuthFailed(String),
    NotFound(String),
    AccessDenied(String),
}

/// The failures the retry layer may try again: rate limiting, the transient
/// server statuses 500 to 503, and transport errors.
pub open spec fn spec_is_retryable(e: SpotifyError) -> bool {
    match e {
        SpotifyError::RateLimited { .. } => true,
        SpotifyError::Http(_) => true,
        SpotifyError::Api { status, .. } => 500 <= status <= 503,
        _ => false,
    }
}

pub fn is_retryable(e: &SpotifyError) -> (r: bool)
    ensures
        r == spec_is_retryable(*e),
{
    match e {
        SpotifyError::RateLimited { .. } => true,
        SpotifyError::Http(_) => true,
        SpotifyError::Api { status, .. } => 500 <= *status && *status <= 503,
        _ => false,
    }
}

/// Seconds to wait after a 429: the `Retry-After` header value when it is a
/// plain decimal number of seconds, and 1 when absent or unparseable.
pub open spec fn spec_retry_after(header: Option<Seq<char>>) -> u64 {
    match header {
        None => 1,
        Some(s) => if is_decimal(s) && dec_value(s) <= u64::MAX {
            dec_value(s) as u64
        } else {
            1
        },
    }
}

pub fn parse_retry_after(header: Option<&String>) -> (r: u64)
    ensures
        r == spec_retry_after(match header {
            Some(h) => Some(h@),
            None => None,
        }),
{
    match header {
        None => 1,
        Some(h) => match parse_u64_decimal(h.as_str()) {
            Some(v) => v,
            None => 1,
        },
    }
}

/// Normalize the status of a general API response. `None` stands for the one
/// success status, 200; every other status maps to the documented taxonomy:
/// 401 authentication, 403 access denied, 404 not found, 429 rate limiting
/// with the already-parsed `Retry-After` seconds, anything else a plain API
/// error carrying status and body.
pub fn classify_api_status(status: u16, retry_after_secs: u64, body: String) -> (r: Option<
    SpotifyError,
>)
    ensures
        (r is None) <==> status == 200,
        status == 401 ==> (r matches Some(SpotifyError::AuthFailed(m)) && m@ == body@),
        status == 403 ==> (r matches Some(SpotifyError::AccessDenied(m)) && m@ == body@),
        status == 404 ==> (r matches Some(SpotifyError::NotFound(m)) && m@ == body@),
        status == 429 ==> r == Some(SpotifyError::RateLimited { retry_after_secs }),
        (status != 200 && status != 401 && status != 403 && status != 404 && status != 429) ==> (
        r matches Some(SpotifyError::Api { status: s, message: m }) && s == status && m@ == body@),
{
    if status == 200 {
        None
    } else if status == 401 {
        Some(SpotifyError::AuthFailed(body))
    } else if status == 403 {
        Some(SpotifyError::AccessDenied(body))
    } else if status == 404 {
        Some(SpotifyError::NotFound(body))
    } else if status == 429 {
        Some(SpotifyError::RateLimited { retry_after_secs })
    } else {
        Some(SpotifyError::Api { status, message: body })
    }
}

/// Normalize the status of a token-endpoint response, which knows fewer
/// shapes: 200 success, 401 authentication failure, anything else a plain API
/// error.
pub fn classify_auth_status(status: u16, body: String) -> (r: Option<SpotifyError>)
    ensures
        (r is None) <==> status == 200,
        status == 401 ==> (r matches Some(SpotifyError::AuthFailed(m)) && m@ == body@),
        (status != 200 && status != 401) ==> (r matches Some(SpotifyError::Api {
            status: s,
            message: m,
        }) && s == status && m@ == body@),
{
    if status == 200 {
        None
    } else if status == 401 {
        Some(SpotifyError::AuthFailed(body))
    } else {
        Some(SpotifyError::Api { status, message: body })
    }
}

/// A successful token exchange as the wire contract shapes it.
#[derive(Debug, Clone)]
pub struct TokenResponse {
    pub access_token: String,
    pub refresh_token: Option<String>,
    pub expires_in: u64,
    pub scope: String,
}

/// A playlist track in the normalized shape the import layer consumes.
#[derive(Debug, Clone)]
pub struct SpotifyTrack {
    pub name: String,
    pub uri: String,
    pub album_name: String,
    pub duration_ms: u64,
    pub preview_url: Option<String>,
    pub artists: Vec<SpotifyArtist>,
}

#[derive(Debug, Clone)]
pub struct SpotifyArtist {
    pub name: String,
    pub uri: String,
}

/// One page of playlist items as the wire contract shapes it.
#[derive(Debug, Clone)]
pub struct PlaylistTracksResponse {
    pub items: Vec<PlaylistItem>,
    pub total: u32,
    pub next: Option<String>,
    pub offset: u32,
    pub limit: u32,
}

/// A playlist entry; `track` is absent when the provider marks the entry
/// local or unavailable.
#[derive(Debug, Clone)]
pub struct PlaylistItem {
    pub track: Option<SpotifyTrackRaw>,
}

/// A track exactly as the provider serializes it, album still nested.
#[derive(Debug, Clone)]
pub struct SpotifyTrackRaw {
    pub name: String,
    pub uri: String,
    pub album: SpotifyAlbumRaw,
    pub duration_ms: u64,
    pub preview_url: Option<String>,
    pub artists: Vec<SpotifyArtistRaw>,
}

#[derive(Debug, Clone)]
pub struct SpotifyAlbumRaw {
    pub name: String,
}

#[derive(Debug, Clone)]
pub struct SpotifyArtistRaw {
    pub name: String,
    pub uri: String,
}

impl SpotifyTrackRaw {
    /// Flatten the raw wire shape into the normalized track.
    pub fn into_track(self) -> (t: SpotifyTrack)
        ensures
            t.name == self.name,
            t.uri == self.uri,
            t.album_name == self.album.name,
            t.duration_ms == self.duration_ms,
            t.preview_url == self.preview_url,
            t.artists@.len() == self.artists@.len(),
            forall|i: int|
                0 <= i < self.artists@.len() ==> (#[trigger] t.artists@[i]).name
                    == self.artists@[i].name && t.artists@[i].uri == self.artists@[i].uri,
    {
        let mut artists: Vec<SpotifyArtist> = Vec::new();
        let mut i: usize = 0;
        let n = self.artists.len();
        while i < n
            invariant
                0 <= i <= n,
                n == self.artists@.len(),
                artists@.len() == i,
                forall|j: int|
                    0 <= j < i ==> (#[trigger] artists@[j]).name == self.artists@[j].name
                        && artists@[j].uri == self.artists@[j].uri,
            decreases n - i,
        {
            let a = &self.artists[i];
            artists.push(SpotifyArtist { name: a.name.clone(), uri: a.uri.clone() });
            i = i + 1;
        }
        SpotifyTrack {
            name: self.name,
            uri: self.uri,
            album_name: self.album.name,
            duration_ms: self.duration_ms,
            preview_url: self.preview_url,
            artists,
        }
    }
}

} // verus!
