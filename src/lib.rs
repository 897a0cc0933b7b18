//! Moderation core for an image-gallery ingestion service: the forbidden-term
//! filter, the per-post verdict rules, the retry and batching policies that
//! drive downloads, and the idempotent request flow in front of the store.

pub mod filter;
pub mod batch;
pub mod mongo_db_interface;
pub mod request;
pub mod imgur_interface;
pub mod retry;
pub mod crawl;
