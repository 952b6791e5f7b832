//! A verified core for the VRPN protocol: identifiers, messages, their wire
//! format, the connection handshake cookie, translation tables and type
//! dispatch.
pub mod byte_buffer;
pub mod encoding;
pub mod wire;
pub mod constants;
pub mod cookie;
pub mod types;
pub mod text;
pub mod time;
pub mod message;
pub mod length_prefixed;
pub mod descriptions;
pub mod log;
pub mod error;
pub mod system;
pub mod translation_table;
pub mod type_dispatcher;
pub mod codec;
pub mod stream;
pub mod endpoint;
pub mod connect;
pub mod connection;
pub mod tracker;
