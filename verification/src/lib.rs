//! Liveness reconciliation for a corpus of open-directory roots and the
//! search index that mirrors it.

pub mod check_links;
pub mod chunks;
pub mod db;
pub mod elastic;
pub mod meili;
pub mod opt;
pub mod scans;
pub mod scheduler;
pub mod stats;
pub mod text;

pub use opt::Opt;
