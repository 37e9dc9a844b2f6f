//! What the library is for, in terms of what goes in and what comes out.
//!
//! The laws of these modules say what holds of results, and how inputs and results relate, over
//! characters, bytes and literal texts. They do not go by the way in which a result is computed.

pub mod addresses;
pub mod connecting;
pub mod endpoints;
pub mod errors;
pub mod listening;
pub mod registry;
pub mod releasing;
pub mod serving;
pub mod values;
