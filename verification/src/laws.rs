//! What the library does, as relations between what goes in and what comes out.
//!
//! Each law reads a result the way its receiver does, by the keys and the positions that the
//! receiver looks at, and says what stands there.

pub mod conversion;
pub mod listing;
pub mod reading;
pub mod requests;
pub mod signing;
pub mod streaming;
pub mod wording;
