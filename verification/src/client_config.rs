//! Configuration of the UDP echo client.
//!
//! Reading and deserialising the file is input plumbing and happens
//! outside this crate; the client loops are handed this typed record.

use vstd::prelude::*;

verus! {

/// The typed configuration of the UDP echo client.
pub struct ClientConfig {
    /// The client's IP address.
    pub client_ip: String,
    /// The server's IP address.
    pub server_ip: String,
    /// The number of tenants the client generates requests for.
    pub num_tenants: u64,
    /// The number of requests the client must generate.
    pub num_reqs: u64,
    /// The number of responses to receive before terminating.
    pub num_resps: u64,
    /// The request rate per second.
    pub req_rate: u64,
}

} // verus!
