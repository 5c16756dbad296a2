//! Typed values of a chat bot API: incoming messages and the commands read
//! from them, videos to send, and payment order details.
use vstd::prelude::*;

pub mod command;
pub mod media;
pub mod message;
pub mod order;
pub mod text;
pub mod utf16;

verus! {

} // verus!
