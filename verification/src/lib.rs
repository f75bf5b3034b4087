pub mod address;
pub mod bls;
pub mod block;
pub mod committer;
pub mod context;
pub mod errors;
pub mod event;
pub mod event_queue;
pub mod fulfillment;
pub mod group;
pub mod listener;
pub mod retry;
pub mod sig_cache;
pub mod subscriber;
pub mod task_cache;
pub mod types;
