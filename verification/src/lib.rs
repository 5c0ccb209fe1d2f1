//! Core of a networked door-lock controller: an incremental HTTP/1.1 request
//! parser, a typestate HTTP response builder, a WebSocket framing codec, a
//! broadcast state bus with retained values, the binary configuration record,
//! and the decision logic of the door, web and MQTT session loops.

pub mod ascii;
pub mod bus;
pub mod config;
pub mod door;
pub mod error;
pub mod hass;
pub mod header;
pub mod light;
pub mod request;
pub mod response;
pub mod server;
pub mod state;
pub mod web;
pub mod weblite;
pub mod websocket;
