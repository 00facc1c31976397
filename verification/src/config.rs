//! Application settings. Loading them from the process environment is the
//! host's business; the library only defines the shape.

use vstd::prelude::*;

verus! {

/// The service's configuration values.
pub struct AppConfig {
    pub database_url: String,
    pub spotify_client_id: String,
    pub spotify_client_secret: String,
    pub spotify_redirect_uri: String,
    pub token_encryption_key: String,
    pub server_port: u16,
}

} // verus!
