//! A minimal HTTP/1.1 request-handling library: request parsing,
//! route dispatch and response serialization, stated over byte
//! sequences and verified.  Sockets, threads and the filesystem stay
//! outside; callers hand in the bytes read from a connection and carry
//! out the file action the router decides on.

pub mod ascii;
pub mod config;
pub mod laws;
pub mod request;
pub mod response;
pub mod route;
pub mod text;
