//! Remote processing back end: configuration, authorisation, metadata store,
//! reliable job queue, object storage and request signing.
pub mod api;
pub mod auth;
pub mod config;
pub mod digest;
pub mod error;
pub mod queue;
pub mod rate_limit;
pub mod s3;
pub mod worker;
pub mod models;
pub mod object_store;
pub mod storage;
pub mod handlers;
