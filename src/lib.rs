//! Instance lifecycle engine of a container-based build workspace manager:
//! namespace-name derivation, boot and status detection, and the decision
//! logic of the readiness and termination protocols.

pub mod commands;
pub mod layers;
pub mod listing;
pub mod mounts;
pub mod naming;
pub mod path;
pub mod readiness;
pub mod workspace;
pub mod status;
pub mod termination;
