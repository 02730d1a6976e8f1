//! Verified core of a streaming chat client: server-sent-event decoding,
//! terminal render planning, keyboard-driven session control and the static
//! model registry.

pub mod chat;
pub mod decoder;
pub mod frame;
pub mod input;
pub mod json;
pub mod lines;
pub mod models;
pub mod render;
pub mod session;
pub mod text;
pub mod transport;
pub mod turn;
