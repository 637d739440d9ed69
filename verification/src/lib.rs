//! Generation of portable contract descriptors.
//!
//! This library turns a resolved smart-contract program model (types,
//! functions, events, storage slot assignments) into a self-sufficient
//! descriptor document: a deduplicated portable type registry, a storage
//! layout, a contract specification with selectors, and provenance data,
//! serialized as JSON. The registry assigns each distinct structural type
//! shape one stable integer identifier; resolution of source types into
//! registry entries is memoized and proven to preserve the registry's
//! structural-dedup invariant.

pub mod model;
pub mod registry;
pub mod resolve;
pub mod contract;
pub mod layout;
pub mod specs;
pub mod assemble;
pub mod json;
pub mod laws;
pub mod outputs;
