//! Virtual-host routing for HTTP tunnels.
//!
//! One shared listener terminates HTTP for every HTTP tunnel.  Each
//! tunnel claims a routing key: the exact domain when one was given,
//! otherwise `<subdomain>.<server default domain>`, otherwise a plain
//! allocated port served directly.  The claim table maps each claimed
//! host to the owning tunnel; claiming a host twice fails with
//! `AlreadyExists`, and a request whose `Host` matches no claim is
//! answered with not-found by the caller.
use vstd::prelude::*;

use crate::status::TunnelStatus;

verus! {

/// The routing key an HTTP tunnel registration resolves to.
pub enum HostClaim {
    /// Served through the shared virtual-host listener under this host.
    Host(Vec<u8>),
    /// Served directly on a dedicated port, not through virtual hosting.
    Port(u16),
}

/// Compares two byte strings.
pub fn bytes_eq(a: &Vec<u8>, b: &Vec<u8>) -> (r: bool)
    ensures
        r == (a@ == b@),
{
    if a.len() != b.len() {
        return false;
    }
    let mut i: usize = 0;
    while i < a.len()
        invariant
            a@.len() == b@.len(),
            i <= a@.len(),
            forall|j: int| 0 <= j < i ==> a@[j] == b@[j],
        decreases a@.len() - i,
    {
        if a[i] != b[i] {
            return false;
        }
        i = i + 1;
    }
    proof {
        assert(a@ =~= b@);
    }
    true
}

/// `<subdomain>.<domain>`: the host a subdomain claim resolves to.
pub fn join_host(sub: &Vec<u8>, domain: &Vec<u8>) -> (r: Vec<u8>)
    ensures
        r@ == sub@ + seq![46u8] + domain@,
{
    let mut r: Vec<u8> = Vec::new();
    let mut i: usize = 0;
    while i < sub.len()
        invariant
            i <= sub@.len(),
            r@ == sub@.subrange(0, i as int),
        decreases sub@.len() - i,
    {
        r.push(sub[i]);
        proof {
            assert(r@ =~= sub@.subrange(0, i + 1));
        }
        i = i + 1;
    }
    proof {
        assert(r@ =~= sub@);
    }
    r.push(46u8);
    let mut j: usize = 0;
    while j < domain.len()
        invariant
            j <= domain@.len(),
            r@ == sub@ + seq![46u8] + domain@.subrange(0, j as int),
        decreases domain@.len() - j,
    {
        r.push(domain[j]);
        proof {
            assert(r@ =~= sub@ + seq![46u8] + domain@.subrange(0, j + 1));
        }
        j = j + 1;
    }
    proof {
        assert(r@ =~= sub@ + seq![46u8] + domain@);
    }
    r
}

/// Resolves an HTTP registration to its routing key: the exact domain
/// when one was given, else the subdomain under the server's default
/// domain, else the dedicated port.
pub fn routing_key(port: u16, subdomain: &Vec<u8>, domain: &Vec<u8>, default_domain: &Vec<u8>) -> (r:
    HostClaim)
    ensures
        domain@.len() > 0 ==> (r matches HostClaim::Host(h) && h@ == domain@),
        domain@.len() == 0 && subdomain@.len() > 0 ==> (r matches HostClaim::Host(h) && h@
            == subdomain@ + seq![46u8] + default_domain@),
        domain@.len() == 0 && subdomain@.len() == 0 ==> r == HostClaim::Port(port),
{
    if domain.len() > 0 {
        let mut h: Vec<u8> = Vec::new();
        let mut i: usize = 0;
        while i < domain.len()
            invariant
                i <= domain@.len(),
                h@ == domain@.subrange(0, i as int),
            decreases domain@.len() - i,
        {
            h.push(domain[i]);
            proof {
                assert(h@ =~= domain@.subrange(0, i + 1));
            }
            i = i + 1;
        }
        proof {
            assert(h@ =~= domain@);
        }
        HostClaim::Host(h)
    } else if subdomain.len() > 0 {
        HostClaim::Host(join_host(subdomain, default_domain))
    } else {
        HostClaim::Port(port)
    }
}

/// The claim table of the shared virtual-host listener: each claimed
/// host with the tunnel that owns it.
pub struct HostRegistry {
    claims: Vec<(Vec<u8>, u64)>,
}

impl HostRegistry {
    /// Whether some tunnel has claimed `h`.
    pub closed spec fn claimed(self, h: Seq<u8>) -> bool {
        exists|i: int| 0 <= i < self.claims@.len() && self.claims@[i].0@ == h
    }

    /// Index of the claim on `h`.
    spec fn idx_of(self, h: Seq<u8>) -> int {
        choose|i: int| 0 <= i < self.claims@.len() && self.claims@[i].0@ == h
    }

    /// The tunnel owning the claim on `h`.
    pub closed spec fn owner_of(self, h: Seq<u8>) -> u64 {
        self.claims@[self.idx_of(h)].1
    }

    /// No host is claimed twice.
    pub closed spec fn wf(self) -> bool {
        forall|i: int, j: int|
            0 <= i < j < self.claims@.len() ==> self.claims@[i].0@ != self.claims@[j].0@
    }

    /// An empty claim table.
    pub fn new() -> (r: HostRegistry)
        ensures
            r.wf(),
            forall|h: Seq<u8>| !r.claimed(h),
    {
        HostRegistry { claims: Vec::new() }
    }

    /// Index of the claim on `h`, if any.
    fn find(&self, h: &Vec<u8>) -> (r: Option<usize>)
        ensures
            r matches Some(i) ==> i < self.claims@.len() && self.claims@[i as int].0@ == h@,
            r is None ==> !self.claimed(h@),
    {
        let mut i: usize = 0;
        while i < self.claims.len()
            invariant
                i <= self.claims@.len(),
                forall|j: int| 0 <= j < i ==> self.claims@[j].0@ != h@,
            decreases self.claims@.len() - i,
        {
            if bytes_eq(&self.claims[i].0, h) {
                return Some(i);
            }
            i = i + 1;
        }
        None
    }

    /// Claims `host` for `tunnel`.  The claim succeeds exactly when the
    /// host is not yet claimed; a collision fails with `AlreadyExists`
    /// and leaves the table unchanged.
    pub fn register(&mut self, host: Vec<u8>, tunnel: u64) -> (r: Result<(), TunnelStatus>)
        requires
            old(self).wf(),
        ensures
            final(self).wf(),
            r is Ok <==> !old(self).claimed(host@),
            r is Err ==> r == Err::<(), TunnelStatus>(TunnelStatus::AlreadyExists) && *final(self)
                == *old(self),
            r is Ok ==> final(self).claimed(host@) && final(self).owner_of(host@) == tunnel,
            forall|h: Seq<u8>|
                h != host@ ==> final(self).claimed(h) == old(self).claimed(h),
            forall|h: Seq<u8>|
                h != host@ && old(self).claimed(h) ==> final(self).owner_of(h) == old(
                    self,
                ).owner_of(h),
    {
        match self.find(&host) {
            Some(_) => Err(TunnelStatus::AlreadyExists),
            None => {
                let ghost pre = self.claims@;
                let ghost hv = host@;
                self.claims.push((host, tunnel));
                proof {
                    assert(self.claims@ == pre.push(self.claims@.last()));
                    assert(self.claims@.last().0@ == hv && self.claims@.last().1 == tunnel);
                    assert forall|h: Seq<u8>|
                        self.claimed(h) == (old(self).claimed(h) || h == hv) by {
                        if old(self).claimed(h) {
                            let i = choose|i: int| 0 <= i < pre.len() && pre[i].0@ == h;
                            assert(self.claims@[i].0@ == h);
                        }
                        if self.claimed(h) && h != hv {
                            let i = choose|i: int|
                                0 <= i < self.claims@.len() && self.claims@[i].0@ == h;
                            assert(i < pre.len());
                            assert(pre[i].0@ == h);
                        }
                        if h == hv {
                            assert(self.claims@[pre.len() as int].0@ == hv);
                        }
                    }
                    assert(self.wf()) by {
                        assert(forall|i: int| 0 <= i < pre.len() ==> self.claims@[i] == pre[i]);
                        assert(!old(self).claimed(hv));
                    }
                    assert(self.claimed(hv));
                    assert(self.claims@[self.idx_of(hv)].0@ == hv);
                    assert(self.idx_of(hv) == pre.len() as int);
                    assert forall|h: Seq<u8>|
                        h != hv && old(self).claimed(h) implies self.owner_of(h) == old(
                        self,
                    ).owner_of(h) by {
                        let i = old(self).idx_of(h);
                        assert(pre[i].0@ == h);
                        assert(self.claims@[i].0@ == h);
                        assert(self.claimed(h));
                        let k = self.idx_of(h);
                        assert(self.claims@[k].0@ == h);
                        if k < pre.len() {
                            assert(pre[k].0@ == h);
                            assert(k == i);
                        } else {
                            assert(self.claims@[k].0@ == hv);
                        }
                        assert(self.claims@[i] == pre[i]);
                    }
                }
                Ok(())
            },
        }
    }

    /// Resolves a request's `Host` to the owning tunnel; `None` means
    /// no tunnel claims it and the request is answered with not-found.
    pub fn resolve(&self, host: &Vec<u8>) -> (r: Option<u64>)
        requires
            self.wf(),
        ensures
            r matches Some(t) ==> self.claimed(host@) && self.owner_of(host@) == t,
            r is None <==> !self.claimed(host@),
    {
        match self.find(host) {
            None => None,
            Some(i) => {
                proof {
                    assert(self.claimed(host@));
                    let k = self.idx_of(host@);
                    assert(self.claims@[k].0@ == host@);
                    assert(k == i as int);
                }
                Some(self.claims[i].1)
            },
        }
    }

    /// Withdraws the claim on `host`, as tunnel teardown does; a host
    /// nobody claims is left as is.
    pub fn unregister(&mut self, host: &Vec<u8>)
        requires
            old(self).wf(),
        ensures
            final(self).wf(),
            !final(self).claimed(host@),
            forall|h: Seq<u8>| h != host@ ==> final(self).claimed(h) == old(self).claimed(h),
            forall|h: Seq<u8>|
                h != host@ && old(self).claimed(h) ==> final(self).owner_of(h) == old(
                    self,
                ).owner_of(h),
    {
        match self.find(host) {
            None => {
                proof {
                    assert(!self.claimed(host@));
                }
            },
            Some(i) => {
                let ghost pre = self.claims@;
                let ghost hv = host@;
                self.claims.remove(i);
                proof {
                    assert(self.claims@ == pre.remove(i as int));
                    pre.remove_ensures(i as int);
                    assert(pre[i as int].0@ == hv);
                    assert forall|h: Seq<u8>|
                        self.claimed(h) == (old(self).claimed(h) && h != hv) by {
                        if self.claimed(h) {
                            let j = choose|j: int|
                                0 <= j < self.claims@.len() && self.claims@[j].0@ == h;
                            let j0: int = if j < i {
                                j
                            } else {
                                j + 1
                            };
                            assert(self.claims@[j] == pre[j0]);
                            assert(pre[j0].0@ == h);
                            assert(j0 != i);
                        }
                        if old(self).claimed(h) && h != hv {
                            let j = choose|j: int| 0 <= j < pre.len() && pre[j].0@ == h;
                            assert(j != i);
                            if j < i {
                                assert(self.claims@[j] == pre[j]);
                            } else {
                                assert(self.claims@[j - 1] == pre[j]);
                            }
                        }
                    }
                    assert(self.wf()) by {
                        assert forall|j: int, k: int|
                            0 <= j < k < self.claims@.len() implies self.claims@[j].0@
                            != self.claims@[k].0@ by {
                            let j0: int = if j < i {
                                j
                            } else {
                                j + 1
                            };
                            let k0: int = if k < i {
                                k
                            } else {
                                k + 1
                            };
                            assert(self.claims@[j] == pre[j0] && self.claims@[k] == pre[k0]);
                            assert(j0 < k0);
                        }
                    }
                    assert forall|h: Seq<u8>|
                        h != hv && old(self).claimed(h) implies self.owner_of(h) == old(
                        self,
                    ).owner_of(h) by {
                        let j = old(self).idx_of(h);
                        assert(pre[j].0@ == h);
                        assert(self.claimed(h));
                        let k = self.idx_of(h);
                        let k0: int = if k < i {
                            k
                        } else {
                            k + 1
                        };
                        assert(self.claims@[k] == pre[k0]);
                        assert(pre[k0].0@ == h);
                        assert(k0 == j);
                    }
                }
            },
        }
    }
}

} // verus!
