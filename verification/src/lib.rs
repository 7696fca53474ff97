//! Property lines of contact cards: reading one line into a record and writing
//! the record back as its canonical line.

pub mod error;
pub mod text;
pub mod vcard;

pub use error::VcardError;
