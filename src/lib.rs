//! Core of an AI-provider gateway: the account and egress-proxy scheduler
//! with sticky sessions and one-shot failover, the rewriting of requests for
//! the chosen upstream, the delivery-mode decisions between client and
//! upstream, the punctuation normalization of response text, configuration
//! snapshots, and the admission checks on inbound requests.

mod chars;
pub mod adapter;
pub mod admission;
pub mod config;
pub mod failover;
pub mod proxy_pool;
pub mod punctuation;
pub mod scheduler;
pub mod stream_features;
pub mod streaming;
pub mod user_agent;
