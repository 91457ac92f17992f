//! A newsletter delivery core: idempotent publishing of an issue to
//! every confirmed subscriber, a persistent delivery queue consumed by
//! a retrying worker, and the validated domain types around them.
//!
//! The relational store that owns all pipeline state is modelled by
//! [`store::PipelineStore`]; the publish side lives in [`newsletter`]
//! and [`idempotency`], the consuming side in
//! [`issue_delivery_workers`].

pub mod authentication;
pub mod configuration;
pub mod domain;
pub mod email_client;
pub mod idempotency;
pub mod issue_delivery_workers;
pub mod newsletter;
pub mod response;
pub mod store;
pub mod subscriptions;
pub mod utils;
