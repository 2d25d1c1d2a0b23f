//! Witness generation for the Blake2s round component of a Cairo STARK prover:
//! every row of the component's trace holds one Blake2s round over a 16-word
//! state, the message words read from memory through the round's sigma
//! permutation, and the lookups that tie the row to the sub-components.

pub mod blake;
pub mod component;
pub mod interaction;
pub mod m31;
pub mod memory;
pub mod message;
pub mod qm31;
pub mod round;
