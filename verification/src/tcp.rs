//! The TCP side's own bookkeeping, apart from the user-space stack that
//! terminates the connections: which hijacked destinations already have a
//! listener, and which flows have already been reported as accepted. The
//! stack and its sockets live with the runtime; these decisions are what
//! keep it from listening twice on one destination or dispatching one flow
//! twice.

use crate::net::EndpointRepr;
use vstd::prelude::*;

verus! {

/// One hijacked TCP flow: the client endpoint and its intended destination.
#[derive(Clone, Copy, PartialEq, Eq, Structural, Debug)]
pub struct TcpFlow {
    pub src: EndpointRepr,
    pub dst: EndpointRepr,
}

pub open spec fn spec_contains_endpoint(s: Seq<EndpointRepr>, e: EndpointRepr) -> bool {
    exists|i: int| 0 <= i < s.len() && (#[trigger] s[i]) == e
}

pub open spec fn spec_contains_flow(s: Seq<TcpFlow>, f: TcpFlow) -> bool {
    exists|i: int| 0 <= i < s.len() && (#[trigger] s[i]) == f
}

pub open spec fn spec_endpoints_unique(s: Seq<EndpointRepr>) -> bool {
    forall|i: int, j: int| 0 <= i < j < s.len() ==> s[i] != s[j]
}

pub open spec fn spec_flows_unique(s: Seq<TcpFlow>) -> bool {
    forall|i: int, j: int| 0 <= i < j < s.len() ==> s[i] != s[j]
}

/// The listener and accept bookkeeping of the user-space TCP side.
pub struct TcpTun {
    listening: Vec<EndpointRepr>,
    established: Vec<TcpFlow>,
}

impl TcpTun {
    /// The destinations a listener has been opened for.
    pub closed spec fn listening_view(self) -> Seq<EndpointRepr> {
        self.listening@
    }

    /// The flows already reported as accepted.
    pub closed spec fn established_view(self) -> Seq<TcpFlow> {
        self.established@
    }

    /// The invariant: one listener per destination, one accept per flow.
    pub open spec fn wf(self) -> bool {
        &&& spec_endpoints_unique(self.listening_view())
        &&& spec_flows_unique(self.established_view())
    }

    pub fn new() -> (r: TcpTun)
        ensures
            r.wf(),
            r.listening_view() == Seq::<EndpointRepr>::empty(),
            r.established_view() == Seq::<TcpFlow>::empty(),
    {
        TcpTun { listening: Vec::new(), established: Vec::new() }
    }

    /// The decision for one received segment: a listener must be opened for
    /// `dst` exactly when the segment is an initial SYN and no listener for
    /// `dst` exists yet, and then that destination is recorded, so the same
    /// destination is never opened twice.
    pub fn handle_packet(&mut self, src: EndpointRepr, dst: EndpointRepr, syn: bool, ack: bool)
        -> (open: bool)
        requires
            old(self).wf(),
        ensures
            final(self).wf(),
            final(self).established_view() == old(self).established_view(),
            open == (syn && !ack && !spec_contains_endpoint(old(self).listening_view(), dst)),
            open ==> final(self).listening_view() == old(self).listening_view().push(dst),
            !open ==> final(self).listening_view() == old(self).listening_view(),
    {
        if !(syn && !ack) {
            return false;
        }
        let n = self.listening.len();
        let mut i: usize = 0;
        while i < n
            invariant
                old(self).wf(),
                self.listening@ == old(self).listening_view(),
                self.established@ == old(self).established_view(),
                n == self.listening@.len(),
                i <= n,
                forall|j: int| 0 <= j < i ==> #[trigger] self.listening@[j] != dst,
            decreases n - i,
        {
            if self.listening[i] == dst {
                proof {
                    assert((#[trigger] old(self).listening_view()[i as int]) == dst);
                }
                return false;
            }
            i = i + 1;
        }
        self.listening.push(dst);
        let _ = src;
        true
    }

    /// Records one accepted hijacked flow: true exactly on the first report
    /// of that flow, so the proxy core observes each accepted connection
    /// once. A repeated report of the same flow is refused.
    pub fn accept(&mut self, src: EndpointRepr, dst: EndpointRepr) -> (fresh: bool)
        requires
            old(self).wf(),
        ensures
            final(self).wf(),
            final(self).listening_view() == old(self).listening_view(),
            fresh == !spec_contains_flow(
                old(self).established_view(),
                TcpFlow { src, dst },
            ),
            fresh ==> final(self).established_view() == old(self).established_view().push(
                TcpFlow { src, dst },
            ),
            !fresh ==> final(self).established_view() == old(self).established_view(),
    {
        let flow = TcpFlow { src, dst };
        let n = self.established.len();
        let mut i: usize = 0;
        while i < n
            invariant
                old(self).wf(),
                self.listening@ == old(self).listening_view(),
                self.established@ == old(self).established_view(),
                n == self.established@.len(),
                i <= n,
                forall|j: int| 0 <= j < i ==> #[trigger] self.established@[j] != flow,
                flow == (TcpFlow { src, dst }),
            decreases n - i,
        {
            if self.established[i].src == src && self.established[i].dst == dst {
                proof {
                    assert(old(self).established_view()[i as int] == (TcpFlow { src, dst }));
                    assert(spec_contains_flow(
                        old(self).established_view(),
                        (TcpFlow { src, dst }),
                    ));
                }
                return false;
            }
            i = i + 1;
        }
        self.established.push(flow);
        true
    }

    /// Whether a listener for `dst` has been opened.
    pub fn is_listening(&self, dst: &EndpointRepr) -> (r: bool)
        ensures
            r == spec_contains_endpoint(self.listening_view(), *dst),
    {
        let n = self.listening.len();
        let mut i: usize = 0;
        while i < n
            invariant
                n == self.listening@.len(),
                i <= n,
                forall|j: int| 0 <= j < i ==> #[trigger] self.listening@[j] != *dst,
            decreases n - i,
        {
            if self.listening[i] == *dst {
                proof {
                    assert((#[trigger] self.listening_view()[i as int]) == *dst);
                }
                return true;
            }
            i = i + 1;
        }
        false
    }
}

} // verus!
