//! The UDP association table: one entry per client endpoint, created on the
//! first datagram, refreshed by traffic or keep-alive, and evicted when idle
//! longer than the configured timeout. Socket and task handling around the
//! table is the runtime's business; the table records the decisions.

use crate::net::EndpointRepr;
use vstd::prelude::*;

verus! {

/// One UDP association: the client endpoint it is keyed by, the target its
/// outbound socket is bound to, the destination the client declared (which
/// DNS interception may have overridden, and which reply frames carry as
/// their source), and the last-activity timestamp in milliseconds of wall
/// time.
#[derive(Clone, Copy, PartialEq, Eq, Structural, Debug)]
pub struct UdpAssoc {
    pub client: EndpointRepr,
    pub target: EndpointRepr,
    pub declared_dst: EndpointRepr,
    pub last_activity: u64,
}

/// What handling one datagram asks of the surrounding runtime: whether a new
/// outbound socket must be opened, the target the payload goes to, and the
/// declared destination that reply frames must carry as their source.
#[derive(Clone, Copy, PartialEq, Eq, Structural, Debug)]
pub struct UdpDispatch {
    pub created: bool,
    pub target: EndpointRepr,
    pub declared_dst: EndpointRepr,
}

pub open spec fn spec_contains_client(s: Seq<UdpAssoc>, c: EndpointRepr) -> bool {
    exists|i: int| 0 <= i < s.len() && s[i].client == c
}

/// Well-formed table contents: client endpoints key the entries uniquely.
pub open spec fn spec_assoc_wf(s: Seq<UdpAssoc>) -> bool {
    forall|i: int, j: int| 0 <= i < j < s.len() ==> s[i].client != s[j].client
}

/// An association is stale at wall time `now` when its last activity lies
/// more than `idle_timeout` in the past.
pub open spec fn spec_stale(last_activity: u64, idle_timeout: u64, now: u64) -> bool {
    last_activity + idle_timeout < now
}

/// Where a datagram is forwarded: port-53 traffic is rewritten to the DNS
/// interception endpoint when one is configured, anything else keeps its
/// declared destination.
pub open spec fn spec_effective_target(
    intercept_dns: Option<EndpointRepr>,
    dst: EndpointRepr,
) -> EndpointRepr {
    match intercept_dns {
        Some(redirect) => if dst.port == 53 {
            redirect
        } else {
            dst
        },
        None => dst,
    }
}

/// At any moment there is at most one association keyed by a given client
/// endpoint: two entries with the same client are the same entry.
pub proof fn lemma_at_most_one_association(s: Seq<UdpAssoc>, c: EndpointRepr, i: int, j: int)
    requires
        spec_assoc_wf(s),
        0 <= i < s.len(),
        0 <= j < s.len(),
        s[i].client == c,
        s[j].client == c,
    ensures
        i == j,
{
}

proof fn lemma_filter_push<A>(s: Seq<A>, x: A, p: spec_fn(A) -> bool)
    ensures
        s.push(x).filter(p) == if p(x) {
            s.filter(p).push(x)
        } else {
            s.filter(p)
        },
{
    reveal(Seq::filter);
    assert(s.push(x).drop_last() =~= s);
    assert(s.push(x).last() == x);
}

proof fn lemma_filter_wf(s: Seq<UdpAssoc>, p: spec_fn(UdpAssoc) -> bool)
    requires
        spec_assoc_wf(s),
    ensures
        spec_assoc_wf(s.filter(p)),
        forall|j: int|
            0 <= j < s.filter(p).len() ==> spec_contains_client(
                s,
                #[trigger] s.filter(p)[j].client,
            ),
    decreases s.len(),
{
    reveal(Seq::filter);
    if s.len() > 0 {
        let dl = s.drop_last();
        assert(spec_assoc_wf(dl)) by {
            assert(forall|i: int| 0 <= i < dl.len() ==> dl[i] == s[i]);
        }
        lemma_filter_wf(dl, p);
        assert(forall|j: int|
            0 <= j < dl.filter(p).len() ==> spec_contains_client(
                s,
                #[trigger] dl.filter(p)[j].client,
            )) by {
            assert forall|j: int| 0 <= j < dl.filter(p).len() implies spec_contains_client(
                s,
                #[trigger] dl.filter(p)[j].client,
            ) by {
                let c = dl.filter(p)[j].client;
                let k = choose|k: int| 0 <= k < dl.len() && dl[k].client == c;
                assert(s[k].client == c);
            }
        }
        if p(s.last()) {
            assert(s.filter(p) == dl.filter(p).push(s.last()));
            assert(spec_assoc_wf(s.filter(p))) by {
                assert forall|i: int, j: int|
                    0 <= i < j < s.filter(p).len() implies s.filter(p)[i].client != s.filter(
                    p,
                )[j].client by {
                    if j == s.filter(p).len() - 1 {
                        let c = dl.filter(p)[i].client;
                        let k = choose|k: int| 0 <= k < dl.len() && dl[k].client == c;
                        assert(s[k].client == c);
                        assert(s[s.len() - 1].client != c);
                    }
                }
            }
        } else {
            assert(s.filter(p) == dl.filter(p));
        }
    }
}


/// The exact effect of handling one datagram on the table: a present client
/// keeps its entry (target and declared destination included) with
/// last-activity refreshed; an absent client gains one entry targeting the
/// effective destination and recording the destination the datagram
/// declared. The dispatch reports which happened, where the payload goes,
/// and the declared destination that replies are emitted from.
pub open spec fn spec_udp_effect(
    udp0: UdpTun,
    udp1: UdpTun,
    src: EndpointRepr,
    dst: EndpointRepr,
    now: u64,
    r: UdpDispatch,
) -> bool {
    &&& udp1.spec_idle_timeout() == udp0.spec_idle_timeout()
    &&& udp1.spec_intercept_dns() == udp0.spec_intercept_dns()
    &&& spec_contains_client(udp1.entries_view(), src)
    &&& spec_contains_client(udp0.entries_view(), src) ==> {
        let s0 = udp0.entries_view();
        let s1 = udp1.entries_view();
        &&& !r.created
        &&& s1.len() == s0.len()
        &&& forall|i: int|
            0 <= i < s0.len() && s0[i].client != src ==> #[trigger] s1[i] == s0[i]
        &&& forall|i: int|
            0 <= i < s0.len() && s0[i].client == src ==> #[trigger] s1[i] == (UdpAssoc {
                client: src,
                target: s0[i].target,
                declared_dst: s0[i].declared_dst,
                last_activity: now,
            }) && r.target == s0[i].target && r.declared_dst == s0[i].declared_dst
    }
    &&& !spec_contains_client(udp0.entries_view(), src) ==> {
        &&& r.created
        &&& r.target == spec_effective_target(udp0.spec_intercept_dns(), dst)
        &&& r.declared_dst == dst
        &&& udp1.entries_view() == udp0.entries_view().push(
            UdpAssoc { client: src, target: r.target, declared_dst: dst, last_activity: now },
        )
    }
}

/// The exact effect of one cleanup pass at wall time `now`: the fresh
/// entries remain in order, the stale ones are gone, and the evicted client
/// endpoints are reported in table order.
pub open spec fn spec_cleanup_effect(
    udp0: UdpTun,
    udp1: UdpTun,
    now: u64,
    evicted: Seq<EndpointRepr>,
) -> bool {
    &&& udp1.spec_idle_timeout() == udp0.spec_idle_timeout()
    &&& udp1.spec_intercept_dns() == udp0.spec_intercept_dns()
    &&& udp1.entries_view() == udp0.entries_view().filter(
        |e: UdpAssoc| !spec_stale(e.last_activity, udp0.spec_idle_timeout(), now),
    )
    &&& evicted == udp0.entries_view().filter(
        |e: UdpAssoc| spec_stale(e.last_activity, udp0.spec_idle_timeout(), now),
    ).map_values(|e: UdpAssoc| e.client)
    &&& forall|i: int|
        0 <= i < udp1.entries_view().len() ==> !spec_stale(
            (#[trigger] udp1.entries_view()[i]).last_activity,
            udp1.spec_idle_timeout(),
            now,
        )
}

/// The exact effect of a keep-alive for `peer` at wall time `now`: the
/// association for `peer`, when present, has its last-activity set to `now`;
/// every other entry is untouched.
pub open spec fn spec_keepalive_effect(
    udp0: UdpTun,
    udp1: UdpTun,
    peer: EndpointRepr,
    now: u64,
) -> bool {
    &&& udp1.spec_idle_timeout() == udp0.spec_idle_timeout()
    &&& udp1.spec_intercept_dns() == udp0.spec_intercept_dns()
    &&& udp1.entries_view().len() == udp0.entries_view().len()
    &&& forall|i: int|
        0 <= i < udp0.entries_view().len() && udp0.entries_view()[i].client != peer
            ==> #[trigger] udp1.entries_view()[i] == udp0.entries_view()[i]
    &&& forall|i: int|
        0 <= i < udp0.entries_view().len() && udp0.entries_view()[i].client == peer
            ==> #[trigger] udp1.entries_view()[i] == (UdpAssoc {
            client: peer,
            target: udp0.entries_view()[i].target,
            declared_dst: udp0.entries_view()[i].declared_dst,
            last_activity: now,
        })
}

/// Table of UDP associations with DNS interception and timed eviction.
pub struct UdpTun {
    entries: Vec<UdpAssoc>,
    idle_timeout: u64,
    intercept_dns: Option<EndpointRepr>,
}

impl UdpTun {
    /// The table contents, oldest entry first.
    pub closed spec fn entries_view(self) -> Seq<UdpAssoc> {
        self.entries@
    }

    pub closed spec fn spec_idle_timeout(self) -> u64 {
        self.idle_timeout
    }

    pub closed spec fn spec_intercept_dns(self) -> Option<EndpointRepr> {
        self.intercept_dns
    }

    /// The table's invariant: at most one association per client endpoint.
    pub open spec fn wf(self) -> bool {
        spec_assoc_wf(self.entries_view())
    }

    pub fn new(intercept_dns: Option<EndpointRepr>, idle_timeout: u64) -> (r: UdpTun)
        ensures
            r.wf(),
            r.entries_view() == Seq::<UdpAssoc>::empty(),
            r.spec_idle_timeout() == idle_timeout,
            r.spec_intercept_dns() == intercept_dns,
    {
        UdpTun { entries: Vec::new(), idle_timeout, intercept_dns }
    }

    /// Records one client datagram at wall time `now`: looks the client up,
    /// creates the association (with DNS interception applied to the
    /// destination) when it is absent, refreshes last-activity, and says
    /// whether an outbound socket must be opened and where the payload goes.
    pub fn handle_packet(&mut self, src: EndpointRepr, dst: EndpointRepr, now: u64) -> (r:
        UdpDispatch)
        requires
            old(self).wf(),
        ensures
            final(self).wf(),
            spec_udp_effect(*old(self), *final(self), src, dst, now, r),
    {
        let n = self.entries.len();
        let mut i: usize = 0;
        while i < n
            invariant
                old(self).wf(),
                self.entries@ == old(self).entries_view(),
                self.idle_timeout == old(self).spec_idle_timeout(),
                self.intercept_dns == old(self).spec_intercept_dns(),
                n == self.entries@.len(),
                i <= n,
                forall|j: int| 0 <= j < i ==> (#[trigger] self.entries@[j]).client != src,
            decreases n - i,
        {
            if self.entries[i].client == src {
                let refreshed = UdpAssoc {
                    client: src,
                    target: self.entries[i].target,
                    declared_dst: self.entries[i].declared_dst,
                    last_activity: now,
                };
                self.entries[i] = refreshed;
                return UdpDispatch {
                    created: false,
                    target: refreshed.target,
                    declared_dst: refreshed.declared_dst,
                };
            }
            i = i + 1;
        }
        let target = if let Some(redirect) = self.intercept_dns {
            if dst.port == 53 {
                redirect
            } else {
                dst
            }
        } else {
            dst
        };
        self.entries.push(UdpAssoc { client: src, target, declared_dst: dst, last_activity: now });
        proof {
            let s1 = self.entries@;
            assert((#[trigger] s1[s1.len() - 1]).client == src);
        }
        UdpDispatch { created: true, target, declared_dst: dst }
    }

    /// Removes every association whose last activity is older than the idle
    /// timeout at wall time `now`, and returns the evicted client endpoints
    /// (whose forwarding tasks the runtime must shut down). Afterwards no
    /// stale association remains.
    pub fn cleanup_expired(&mut self, now: u64) -> (evicted: Vec<EndpointRepr>)
        requires
            old(self).wf(),
        ensures
            final(self).wf(),
            spec_cleanup_effect(*old(self), *final(self), now, evicted@),
    {
        let ghost s0 = old(self).entries_view();
        let ghost keep_p = |e: UdpAssoc|
            !spec_stale(e.last_activity, old(self).spec_idle_timeout(), now);
        let ghost stale_p = |e: UdpAssoc|
            spec_stale(e.last_activity, old(self).spec_idle_timeout(), now);
        let n = self.entries.len();
        let mut kept: Vec<UdpAssoc> = Vec::new();
        let mut evicted: Vec<EndpointRepr> = Vec::new();
        let mut i: usize = 0;
        proof {
            assert(s0.subrange(0, 0) =~= Seq::<UdpAssoc>::empty());
            reveal(Seq::filter);
        }
        while i < n
            invariant
                n == s0.len(),
                self.entries@ == s0,
                self.idle_timeout == old(self).spec_idle_timeout(),
                self.intercept_dns == old(self).spec_intercept_dns(),
                i <= n,
                kept@ == s0.subrange(0, i as int).filter(keep_p),
                evicted@ == s0.subrange(0, i as int).filter(stale_p).map_values(
                    |e: UdpAssoc| e.client,
                ),
                keep_p == (|e: UdpAssoc|
                    !spec_stale(e.last_activity, old(self).spec_idle_timeout(), now)),
                stale_p == (|e: UdpAssoc|
                    spec_stale(e.last_activity, old(self).spec_idle_timeout(), now)),
            decreases n - i,
        {
            let e = self.entries[i];
            proof {
                assert(s0.subrange(0, i + 1 as int) =~= s0.subrange(0, i as int).push(s0[i as int]));
                lemma_filter_push(s0.subrange(0, i as int), s0[i as int], keep_p);
                lemma_filter_push(s0.subrange(0, i as int), s0[i as int], stale_p);
            }
            let stale = now > self.idle_timeout && e.last_activity < now - self.idle_timeout;
            proof {
                assert(stale == spec_stale(e.last_activity, self.idle_timeout, now));
            }
            if stale {
                evicted.push(e.client);
                proof {
                    assert(evicted@ =~= s0.subrange(0, i + 1 as int).filter(stale_p).map_values(
                        |x: UdpAssoc| x.client,
                    ));
                }
            } else {
                kept.push(e);
            }
            i = i + 1;
        }
        proof {
            assert(s0.subrange(0, n as int) =~= s0);
            lemma_filter_wf(s0, keep_p);
        }
        self.entries = kept;
        evicted
    }

    /// Refreshes the association for `peer` at wall time `now` without a
    /// datagram; afterwards its last-activity equals `now`. Absent peers are
    /// left alone.
    pub fn keep_alive(&mut self, peer: &EndpointRepr, now: u64)
        requires
            old(self).wf(),
        ensures
            final(self).wf(),
            spec_keepalive_effect(*old(self), *final(self), *peer, now),
    {
        let n = self.entries.len();
        let mut i: usize = 0;
        while i < n
            invariant
                old(self).wf(),
                n == self.entries@.len(),
                self.entries@.len() == old(self).entries_view().len(),
                self.idle_timeout == old(self).spec_idle_timeout(),
                self.intercept_dns == old(self).spec_intercept_dns(),
                i <= n,
                forall|j: int|
                    0 <= j < n ==> #[trigger] self.entries@[j] == old(self).entries_view()[j],
                forall|j: int|
                    0 <= j < i ==> (#[trigger] self.entries@[j]).client != *peer,
            decreases n - i,
        {
            if self.entries[i].client == *peer {
                let refreshed = UdpAssoc {
                    client: *peer,
                    target: self.entries[i].target,
                    declared_dst: self.entries[i].declared_dst,
                    last_activity: now,
                };
                self.entries[i] = refreshed;
                proof {
                    assert forall|k: int|
                        0 <= k < old(self).entries_view().len() && old(self).entries_view()[k].client
                            == *peer implies #[trigger] self.entries@[k] == (UdpAssoc {
                        client: *peer,
                        target: old(self).entries_view()[k].target,
                        declared_dst: old(self).entries_view()[k].declared_dst,
                        last_activity: now,
                    }) by {
                        lemma_at_most_one_association(
                            old(self).entries_view(),
                            *peer,
                            k,
                            i as int,
                        );
                    }
                }
                return ;
            }
            i = i + 1;
        }
    }


    /// Removes the association for `client`, when present: the runtime calls
    /// this when the outbound dial fails, so a client whose socket could not
    /// be opened holds no entry. Every other entry is untouched.
    pub fn remove(&mut self, client: &EndpointRepr)
        requires
            old(self).wf(),
        ensures
            final(self).wf(),
            final(self).spec_idle_timeout() == old(self).spec_idle_timeout(),
            final(self).spec_intercept_dns() == old(self).spec_intercept_dns(),
            final(self).entries_view() == old(self).entries_view().filter(
                |e: UdpAssoc| e.client != *client,
            ),
            !spec_contains_client(final(self).entries_view(), *client),
    {
        let ghost s0 = old(self).entries_view();
        let ghost keep_p = |e: UdpAssoc| e.client != *client;
        let n = self.entries.len();
        let mut kept: Vec<UdpAssoc> = Vec::new();
        let mut i: usize = 0;
        proof {
            assert(s0.subrange(0, 0) =~= Seq::<UdpAssoc>::empty());
            reveal(Seq::filter);
        }
        while i < n
            invariant
                n == s0.len(),
                self.entries@ == s0,
                self.idle_timeout == old(self).spec_idle_timeout(),
                self.intercept_dns == old(self).spec_intercept_dns(),
                i <= n,
                kept@ == s0.subrange(0, i as int).filter(keep_p),
                keep_p == (|e: UdpAssoc| e.client != *client),
            decreases n - i,
        {
            let e = self.entries[i];
            proof {
                assert(s0.subrange(0, i + 1 as int) =~= s0.subrange(0, i as int).push(
                    s0[i as int],
                ));
                lemma_filter_push(s0.subrange(0, i as int), s0[i as int], keep_p);
            }
            if !(e.client == *client) {
                kept.push(e);
            }
            i = i + 1;
        }
        proof {
            assert(s0.subrange(0, n as int) =~= s0);
            lemma_filter_wf(s0, keep_p);
            assert forall|j: int|
                0 <= j < s0.filter(keep_p).len() implies (#[trigger] s0.filter(
                keep_p,
            )[j]).client != *client by {
                Seq::lemma_filter_pred(s0, keep_p, j);
            }
        }
        self.entries = kept;
    }

    /// How many associations the table holds.
    pub fn len(&self) -> (r: usize)
        ensures
            r == self.entries_view().len(),
    {
        self.entries.len()
    }

    /// Whether an association for `client` is present.
    pub fn contains(&self, client: &EndpointRepr) -> (r: bool)
        ensures
            r == spec_contains_client(self.entries_view(), *client),
    {
        let n = self.entries.len();
        let mut i: usize = 0;
        while i < n
            invariant
                n == self.entries@.len(),
                i <= n,
                forall|j: int| 0 <= j < i ==> (#[trigger] self.entries@[j]).client != *client,
            decreases n - i,
        {
            if self.entries[i].client == *client {
                return true;
            }
            i = i + 1;
        }
        false
    }

    /// The last-activity timestamp recorded for `client`, when present.
    pub fn activity_of(&self, client: &EndpointRepr) -> (r: Option<u64>)
        ensures
            match r {
                Some(t) => exists|i: int|
                    0 <= i < self.entries_view().len() && (#[trigger] self.entries_view()[i]).client
                        == *client && self.entries_view()[i].last_activity == t,
                None => !spec_contains_client(self.entries_view(), *client),
            },
    {
        let n = self.entries.len();
        let mut i: usize = 0;
        while i < n
            invariant
                n == self.entries@.len(),
                i <= n,
                forall|j: int| 0 <= j < i ==> (#[trigger] self.entries@[j]).client != *client,
            decreases n - i,
        {
            if self.entries[i].client == *client {
                proof {
                    assert((#[trigger] self.entries_view()[i as int]).client == *client);
                    assert(self.entries_view()[i as int].last_activity == self.entries@[
                        i as int
                    ].last_activity);
                }
                return Some(self.entries[i].last_activity);
            }
            i = i + 1;
        }
        None
    }
}

} // verus!
