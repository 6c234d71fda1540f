use vstd::prelude::*;

verus! {

/// Where the realtime channel server is and which namespace this
/// application publishes under.
#[derive(Clone)]
pub struct PikavConfig {
    pub url: String,
    pub namespace: String,
}

/// Configuration shared by every request.
#[derive(Clone)]
pub struct AppConfig {
    /// The path the application is mounted under behind a reverse proxy.
    pub base_url: Option<String>,
    pub pikav: PikavConfig,
}

/// Identity fields of a verified bearer token.
#[derive(Clone)]
pub struct JwtClaims {
    pub sub: String,
}

} // verus!
