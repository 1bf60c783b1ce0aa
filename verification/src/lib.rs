//! Order relay pipeline: the verified core of a three-stage handoff that
//! accepts order-placement requests, serializes them for broker transport,
//! reconstructs them on the subscribe side, and flattens them for a
//! persistent-store upsert.
//!
//! The library owns the data model (`order`), the JSON wire codec (`codec`),
//! the flat store record (`flatten`), and the per-stage decision logic
//! (`ingress`, `relay`). All network, broker and HTTP plumbing lives outside
//! the library and exchanges plain values with it.

pub mod codec;
pub mod flatten;
pub mod ingress;
pub mod laws;
pub mod order;
pub mod relay;
pub mod text;
