//! Byte strings, flat copy-on-write slices, cursors over raw buffers and
//! byte-level recognisers.

pub mod bstr;
pub mod cow;
pub mod cow_order;
pub mod nom;
pub mod order;
pub mod range;
pub mod rawbuf;
pub mod utf8;
