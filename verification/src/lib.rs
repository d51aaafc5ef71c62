//! The core of a terminal client for a chat service: the frames of its
//! gateway protocol, the session that speaks it (handshake, heartbeat,
//! dispatch), the events that reach the consumer, and the state behind the
//! screen. Sockets, requests and drawing are left to the program that uses
//! this library.

pub mod data;
pub mod decimal;
pub mod error;
pub mod frame;
pub mod gateway;
pub mod json;
pub mod payload;
pub mod sink;
pub mod text;
pub mod ui;
