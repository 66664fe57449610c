use vstd::prelude::*;

pub mod headers;
pub mod http;
pub mod inbound;
pub mod order;
pub mod queue;
pub mod roundtrip;
pub mod routes;
pub mod signature;
pub mod store;
pub mod text;
pub mod verify;

verus! {

} // verus!
