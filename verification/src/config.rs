//! Configuration of the API server.
use vstd::prelude::*;

verus! {

/// Configuration for the API server.
pub struct Config {
    /// Port to run the server on.
    pub port: u16,
}

} // verus!
