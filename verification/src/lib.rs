//! Verified core of a WebTransport client: error classification, event
//! construction, the bounded event queue, the client's session and stream
//! registry, the C ABI value mapping and the development tools' argument rules.

pub mod text;

pub mod error;
pub mod event;
pub mod queue;
pub mod options;
pub mod tls;
pub mod registry;
pub mod client;
pub mod ffi;
pub mod devserver;
pub mod abi;
pub mod laws;
