//! A minimal HTTP greeting server, as a verified library.
//!
//! The library holds the two decisions the server makes: which port to
//! listen on, resolved from the optional `PORT` environment text with a
//! default of 8080, and what to answer a request, a fixed greeting for
//! `GET /`. Binding the socket and speaking HTTP are left to the host
//! program around the library.

pub mod config;
pub mod routing;
