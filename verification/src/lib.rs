use vstd::prelude::*;

pub mod app_base;
pub mod apps;
pub mod constants;
pub mod envelope;
pub mod errors;
pub mod fields;
pub mod json;
pub mod msgpack;
pub mod router;
pub mod session;
pub mod store;
pub mod text;
pub mod transport;
pub mod value;

verus! {
} // verus!
