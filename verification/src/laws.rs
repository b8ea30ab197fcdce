//! What holds of the gateway: each law relates what an operation is given to what it gives.

pub mod calls;
pub mod frames;
pub mod headers;
pub mod payload;
pub mod proxy;
pub mod requests;
pub mod responses;
pub mod sse;
pub mod store;
pub mod tools;
pub mod values;
pub mod views;
