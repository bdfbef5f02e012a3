//! Service configuration, handed in by the boundary layer as plain values.

use vstd::prelude::*;

verus! {

/// Startup configuration. The boundary layer parses it from a file and
/// converts paths to plain strings; this crate only reads the values.
pub struct Config {
    /// Base URL of the recognition back end.
    pub populator: String,
    /// Base URL of the catalog scraper.
    pub scraper: String,
    /// Base URL of the feature extractor.
    pub extractor: String,
    /// Address the plain listener binds to.
    pub bind_addr: String,
    /// TLS private key file, if TLS is enabled.
    pub tls_private_key_file: Option<String>,
    /// TLS certificate chain file, if TLS is enabled.
    pub tls_cert_chain_file: Option<String>,
    /// Address the TLS listener binds to, if TLS is enabled.
    pub tls_bind_addr: Option<String>,
    /// Path of the embedded database file.
    pub db_path: String,
    /// Number of store workers in the dispatch pool.
    pub db_threads: usize,
    /// Largest accepted upload, in bytes.
    pub max_song_size: usize,
    /// Cap on the number of songs used for initial training, if any.
    pub max_songs_to_train: Option<usize>,
}

impl Config {
    /// The dispatch pool needs at least one worker.
    pub open spec fn wf(&self) -> bool {
        self.db_threads >= 1
    }
}

} // verus!
