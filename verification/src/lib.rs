//! Persistence core of a small imageboard server.
//!
//! The library holds the verified heart of the server: the task protocol
//! spoken between request handlers and the single storage worker, the
//! store state that worker owns with its invariants, and the pure helpers
//! around it (image signature sniffing, colour and WHOIS parsing,
//! submission validation). All I/O — the HTTP layer, the durable SQLite
//! mirror, the image directory, the WHOIS TCP client — lives outside,
//! in the application shell.

pub mod actor;
pub mod admin;
pub mod content;
pub mod decode;
pub mod http;
pub mod images;
pub mod laws;
pub mod models;
pub mod store;
pub mod templates;
pub mod text;
pub mod timestamps;
pub mod whois;
