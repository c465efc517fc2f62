//! Offsets of the header fields.
use vstd::prelude::*;

verus! {

pub const MAGIC: usize = 0;

pub const VERSION: usize = 2;

pub const FLAGS: usize = 3;

pub const MSG_TYPE: usize = 4;

pub const RESERVED: usize = 5;

pub const SESSION_ID: usize = 8;

pub const SEQUENCE: usize = 12;

pub const TIMESTAMP: usize = 16;

pub const HEADER_END: usize = 24;

} // verus!
