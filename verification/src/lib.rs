//! The core of a minimal IP-echo service: request-line parsing,
//! forwarding-header resolution, routing between plain IP echo and
//! geo-lookup relay, the shared request-counting store, and HTTP response
//! formatting. The surrounding program supplies the transport: it reads
//! lines off a connection, performs the geo-lookup round trip, writes the
//! formatted response back, and logs each completed request.
pub mod args;
pub mod chars;
pub mod counter;
pub mod handler;
pub mod parse;
pub mod resolve;
pub mod response;
