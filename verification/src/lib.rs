//! Polling pipeline core: task distribution, reply-tree flattening and
//! duplicate suppression for a forum ingest service.

pub mod config;
pub mod decode;
pub mod dedup;
pub mod document;
pub mod error;
pub mod listing;
pub mod queue_manager;
pub mod reddit_api_client;
pub mod reddit_api_task;
pub mod reddit_client;
pub mod reddit_worker;
pub mod request;
pub mod scheduler;
