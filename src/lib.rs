//! A small landing page and signup forwarder: the rules that decide what
//! each request gets back and what is sent on to the forwarding endpoint.

pub mod text;
pub mod year;
pub mod reply;
pub mod config;
pub mod signup;
