//! A minimal static-file HTTP server library: request-line parsing, lookup of
//! a requested name among the entries of a flat document root, content-type
//! classification and response serialisation.
//!
//! Everything that touches a socket or the filesystem lives outside this
//! library; the functions here take plain values and are verified against
//! their contracts.
use vstd::prelude::*;

pub mod text;
pub mod mime;
pub mod request;
pub mod response;
pub mod server;
pub mod pipeline;

verus! {

} // verus!
