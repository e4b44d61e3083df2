//! Parsing of vote-program instructions into a readable form, and the
//! decision logic of the shred-sample request listener.

pub mod json;
pub mod keys;
pub mod parse_instruction;
pub mod parse_vote;
pub mod vote_instruction;
pub mod vote_laws;
pub mod shred_sample;
pub mod vote_state;
pub mod wire;
