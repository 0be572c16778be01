//! The name service: what it knows about brokers, and its processor.

pub mod metadata;
pub mod table;
pub mod processor;
