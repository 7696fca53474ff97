//! The parts of a contact card.

pub mod identity;
pub mod parameter;
pub mod property;
pub mod values;
