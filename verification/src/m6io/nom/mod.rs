//! Recognisers over bytes: single bytes of a class, runs of them, and the
//! combinators that repeat a recogniser.

pub mod byte;
pub mod combinator;
pub mod traits;
