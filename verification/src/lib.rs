//! A minimal HTTP/1.1 connection-handling engine: request framing, routing,
//! response writing, an entry store and a bounded worker-pool model.

pub mod clock;
pub mod connection;
pub mod cookies;
pub mod decode;
pub mod endpoints;
pub mod pool;
pub mod request;
pub mod response;
pub mod router;
pub mod store;
pub mod text;
pub mod text_map;
