//! Public state of an MLS group: the ratchet tree, the group context, the
//! transcript hashes and the staged-diff merge protocol, together with the
//! checks that a commit must pass before it may change that state.

pub mod codec;
pub mod commit;
pub mod crypto;
pub mod group_context;
pub mod proposals;
pub mod public_group;
pub mod tree;
pub mod types;
