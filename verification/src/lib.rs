//! Core logic of a line-oriented multi-user chat room: display-name
//! validation, the shared name registry, the broadcast bus with bounded
//! per-subscriber lag, the per-session state machine, and the exact wire
//! lines each step produces. A sibling module holds the binary
//! time-series protocol's frame decoder and price store.
use vstd::prelude::*;

pub mod bus;
pub mod event;
pub mod means;
pub mod name;
pub mod registry;
pub mod render;
pub mod session;
pub mod text;

verus! {

/// Joins a host and a port into a `host:port` address string.
pub fn build_addr(host: String, port: usize) -> (r: String)
    ensures
        r@ == host@ + ":"@ + crate::text::dec_rep(port as nat),
{
    let mut s = host;
    s.append(":");
    let p = crate::text::usize_to_string(port);
    s.append(p.as_str());
    s
}

} // verus!
