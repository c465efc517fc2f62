//! Marker types for interfaces that carry the session state in a type.
use vstd::prelude::*;

verus! {

#[derive(Debug)]
pub struct Idle;

#[derive(Debug)]
pub struct Handshaking;

#[derive(Debug)]
pub struct Active;

#[derive(Debug)]
pub struct Paused;

#[derive(Debug)]
pub struct Closing;

#[derive(Debug)]
pub struct Closed;

#[derive(Debug)]
pub struct Error;

#[derive(Debug)]
pub struct Reconnecting;

} // verus!
