//! Stand-ins for the network, for tests.
use vstd::prelude::*;

use crate::connector::TorConnector;
use crate::error::{connection_error, ChatError, ErrorView};

verus! {

/// A stream that was asked for: where to, and what came of it.
pub struct Call<S> {
    pub address: Seq<char>,
    pub port: u16,
    pub reply: Result<S, ChatError>,
}

/// Configurable mock for [`TorConnector`]: answers the first call with a result
/// that was set beforehand, and counts.
pub struct MockTorConnector<S> {
    connect_result: Option<Result<S, ChatError>>,
    connect_calls: usize,
    last_connect_target: Option<(String, u16)>,
    log: Ghost<Seq<Call<S>>>,
}

impl<S> MockTorConnector<S> {
    /// The count and the last target agree with the calls that were made.
    #[verifier::type_invariant]
    spec fn inv(&self) -> bool {
        &&& self.connect_calls == self.log@.len() % (usize::MAX + 1) as nat
        &&& match self.last_connect_target {
            None => self.log@.len() == 0,
            Some((addr, port)) => self.log@.len() > 0 && self.log@.last().address == addr@
                && self.log@.last().port == port,
        }
    }

    /// The streams that were asked for, in order.
    pub closed spec fn calls(&self) -> Seq<Call<S>> {
        self.log@
    }

    /// The result that the next call gets, if it was not handed out yet.
    pub closed spec fn prepared(&self) -> Option<Result<S, ChatError>> {
        self.connect_result
    }

    /// A mock whose first call fails, because nothing was configured.
    pub fn new() -> (m: Self)
        ensures
            m.calls() == Seq::<Call<S>>::empty(),
            m.prepared() matches Some(Err(e)) && e@ == ErrorView::Connection(
                "mock: connect not configured"@,
            ),
    {
        Self::with_connect_result(Err(connection_error("mock: connect not configured")))
    }

    /// A mock whose first call gets the given result.
    pub fn with_connect_result(result: Result<S, ChatError>) -> (m: Self)
        ensures
            m.calls() == Seq::<Call<S>>::empty(),
            m.prepared() == Some(result),
    {
        proof {
            vstd::arithmetic::div_mod::lemma_small_mod(0, (usize::MAX + 1) as nat);
        }
        MockTorConnector {
            connect_result: Some(result),
            connect_calls: 0,
            last_connect_target: None,
            log: Ghost(Seq::empty()),
        }
    }

    /// How many calls were made. The count wraps around.
    pub fn call_count(&self) -> (n: usize)
        ensures
            n == self.calls().len() % (usize::MAX + 1) as nat,
    {
        proof {
            use_type_invariant(self);
        }
        self.connect_calls
    }

    /// The target of the last call.
    pub fn last_target(&self) -> (t: Option<(String, u16)>)
        ensures
            match t {
                None => self.calls().len() == 0,
                Some((addr, port)) => self.calls().len() > 0 && self.calls().last().address
                    == addr@ && self.calls().last().port == port,
            },
    {
        proof {
            use_type_invariant(self);
        }
        match &self.last_connect_target {
            None => None,
            Some((addr, port)) => Some((addr.clone(), *port)),
        }
    }
}

impl<S> Default for MockTorConnector<S> {
    fn default() -> (m: Self)
        ensures
            m.calls() == Seq::<Call<S>>::empty(),
            m.prepared() matches Some(Err(e)) && e@ == ErrorView::Connection(
                "mock: connect not configured"@,
            ),
    {
        Self::new()
    }
}

impl<S> TorConnector for MockTorConnector<S> {
    type Stream = S;

    /// The prepared result is handed out once, and every call is noted.
    open spec fn dials(
        &self,
        addr: Seq<char>,
        port: u16,
        reply: Result<S, ChatError>,
        after: Self,
    ) -> bool {
        &&& after.calls() == self.calls().push(Call { address: addr, port, reply })
        &&& after.prepared() is None
        &&& match self.prepared() {
            Some(result) => reply == result,
            None => reply matches Err(e) && e@ == ErrorView::Connection("mock: result consumed"@),
        }
    }

    fn connect(&mut self, addr: &str, port: u16) -> (r: Result<S, ChatError>) {
        proof {
            use_type_invariant(&*self);
        }
        let ghost n = self.log@.len();
        let connect_calls: usize = self.connect_calls.wrapping_add(1);
        proof {
            let m = (usize::MAX + 1) as nat;
            vstd::arithmetic::div_mod::lemma_add_mod_noop(n as int, 1, m as int);
            if n % m == usize::MAX {
                vstd::arithmetic::div_mod::lemma_mod_self_0(m as int);
            } else {
                vstd::arithmetic::div_mod::lemma_small_mod((n % m + 1) as nat, m);
            }
            vstd::arithmetic::div_mod::lemma_small_mod(1, m);
        }
        let mut prepared: Option<Result<S, ChatError>> = None;
        std::mem::swap(&mut prepared, &mut self.connect_result);
        let reply = match prepared {
            Some(result) => result,
            None => Err(connection_error("mock: result consumed")),
        };
        let log = Ghost(self.log@.push(Call { address: addr@, port, reply }));
        *self =
        MockTorConnector {
            connect_result: None,
            connect_calls,
            last_connect_target: Some((addr.to_owned(), port)),
            log,
        };
        reply
    }
}

/// Mock acceptor for testing: hands out streams in the order in which they were
/// given, in place of a room's onion service.
pub struct MockAcceptor<S> {
    streams: Vec<S>,
}

impl<S> MockAcceptor<S> {
    /// The streams that were not accepted yet.
    pub closed spec fn waiting(&self) -> Seq<S> {
        self.streams@
    }

    /// A new `MockAcceptor` over the given streams.
    pub fn new(streams: Vec<S>) -> (a: Self)
        ensures
            a.waiting() == streams@,
    {
        MockAcceptor { streams }
    }

    /// Accept the next mock stream, or `None` if there is none left.
    pub fn accept(&mut self) -> (r: Option<S>)
        ensures
            match r {
                Some(s) => {
                    &&& old(self).waiting().len() > 0
                    &&& s == old(self).waiting()[0]
                    &&& final(self).waiting() == old(self).waiting().skip(1)
                },
                None => {
                    &&& old(self).waiting().len() == 0
                    &&& final(self).waiting() == old(self).waiting()
                },
            },
    {
        if self.streams.len() == 0 {
            return None;
        }
        let s = self.streams.remove(0);
        assert(self.streams@ =~= old(self).streams@.skip(1));
        Some(s)
    }
}

} // verus!
