//! The chat relay: protocol, groups and the connection state machine.
pub mod codec;
pub mod group;
pub mod handler;
pub mod json;
pub mod relay;
pub mod request;
pub mod response;
pub mod table;
pub mod text;
