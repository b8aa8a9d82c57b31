//! Verified core of a crawler for a paginated package-listing site.
//!
//! The library holds the crawl pipeline's decisions and the storage
//! impedance-matching layer: normalized record types with fallible
//! construction from loosely-typed field bags, listing/detail/comment
//! extraction over plain document models, comment-page fan-out and
//! order restoration, and three storage backend shapes with verified
//! denormalization on write and reconstruction on read.
//!
//! Network fetching, HTML tree access, checkpoint files and real
//! backend connections live outside the library and hand it plain
//! values.

pub mod backend;
pub mod cli;
pub mod crawl;
pub mod doc_store;
pub mod hash_store;
pub mod models;
pub mod table_store;
pub mod numbers;
pub mod scrap;
pub mod storage;
pub mod text;
