//! The core of a minimal HTTP/1.1 server: reading one request from the bytes
//! of a connection, routing it by path, answering it, and writing the answer
//! in wire form.
//!
//! Nothing here touches a socket or a file. [`request::parse_request`] takes
//! the bytes a connection delivered (and [`request::is_incomplete`] says when
//! to stop reading); [`handlers::handle`] turns the request into an
//! [`handlers::Action`], which is either a response or a file to read or
//! write under the serving root; [`response::serialize`] gives the bytes to
//! send.
pub mod text;
pub mod request;
pub mod response;
pub mod handlers;
pub mod laws;

pub use request::Request;
