//! A verified core for an HTTP gateway that serves a few local routes,
//! reverse-proxies everything else to a fixed upstream, and emits
//! incremental Server-Sent-Event output through a bounded channel.
//!
//! The pieces that touch the network, the clock or the executor live
//! outside this crate; what is here is the logic they drive: SSE framing,
//! the streaming-versus-buffering decision of the proxy, the routing
//! table, and the staged event pipeline.
use vstd::prelude::*;

pub mod channel;
pub mod dec;
pub mod forwarder;
pub mod pipeline;
pub mod router;
pub mod sse;
pub mod text;

verus! {

use vstd::string::StringExecFns;

/// Builds the canonical greeting for `name`.
pub fn greet(name: &str) -> (r: String)
    ensures
        r@ == "Hello, "@ + name@ + "! from core"@,
{
    let mut s = String::from_str("Hello, ");
    s.append(name);
    s.append("! from core");
    s
}

} // verus!
