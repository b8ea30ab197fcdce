//! The logic of a gateway between clients of the OpenAI interface and the suppliers behind it.
//!
//! A client comes with an access key, which leads to a pool of suppliers. The suppliers and their
//! keys are tried in turn; a key that fails too often is banned for some minutes, then for the
//! day. Where a supplier speaks another protocol than the client, requests and answers are
//! converted between Chat Completions and Responses, streamed answers among them.
//!
//! What is done with the network, the database and the clock stands outside: it hands plain values
//! in and takes decisions back.

pub mod access;
pub mod admin;
pub mod answer;
pub mod clock;
pub mod config;
pub mod headers;
pub mod json;
pub mod laws;
pub mod models;
pub mod payload;
pub mod probe;
pub mod proxy;
pub mod requests;
pub mod responses;
pub mod runtime;
pub mod save;
pub mod sse;
pub mod store;
pub mod text;
pub mod tools;
pub mod upstream;
pub mod usage;
pub mod views;
