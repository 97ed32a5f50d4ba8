//! A schema-driven generator for record storage code: an annotated record
//! declaration is extracted into an entity descriptor, its key tags are
//! grouped into composite lookup keys, and a capability trait with a
//! direct-store and a transactional implementation is synthesized from it.
//! Around the generator stand the plain message-queue, topology,
//! authorization and composition types that the surrounding services share.

pub mod auth;
pub mod casing;
pub mod descriptor;
pub mod func;
pub mod grouping;
pub mod metrics;
pub mod mq;
pub mod mq_setup;
pub mod numeral;
pub mod schema;
pub mod synth;
