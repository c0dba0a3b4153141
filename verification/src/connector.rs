//! Adapter over Tor connect operations.
use vstd::prelude::*;

use crate::error::ChatError;

pub mod mock;

verus! {

/// Opens streams to onion services.
pub trait TorConnector: Sized {
    /// What carries the bytes of a connection.
    type Stream;

    /// Whether a connector that is asked for a port of an onion address may give that
    /// reply, and be left as `after`. It may do anything, unless it says more.
    open spec fn dials(
        &self,
        addr: Seq<char>,
        port: u16,
        reply: Result<Self::Stream, ChatError>,
        after: Self,
    ) -> bool {
        true
    }

    /// Opens a stream to a port of an onion address. Whether that works, the
    /// network decides.
    fn connect(&mut self, addr: &str, port: u16) -> (r: Result<Self::Stream, ChatError>)
        ensures
            old(self).dials(addr@, port, r, *final(self)),
    ;
}

} // verus!
