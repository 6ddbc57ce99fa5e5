//! Core logic of a browser client for a federated discussion platform:
//! comment-thread reconstruction from materialized paths, collapse state,
//! cursor pagination with URL-encoded navigation, infinite-scroll page
//! accumulation and an offline-aware resource fetcher.
pub mod collapse;
pub mod comment_tree;
pub mod errors;
pub mod fetcher;
pub mod infinite_scroll;
pub mod listing;
pub mod paging;
pub mod query;
pub mod text;
pub mod thread_coverage;
pub mod votes;
