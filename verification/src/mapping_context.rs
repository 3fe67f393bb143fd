//! The mapping context: local interfaces and registered echo servers.
//!
//! Interfaces are enumerated once, at construction, from plain values the
//! surrounding code read off the machine; loopback interfaces are dropped
//! here, and a failed gateway probe becomes a per-interface warning
//! rather than an error. Echo-server lists only ever grow, and mapping
//! reads them in registration order.

use vstd::prelude::*;

use crate::addr::{ip_is_loopback, spec_ip_loopback, Endpoint, Ip};

verus! {

/// A local IPv4 interface with the gateway its probe found, if any.
#[derive(Clone, Copy, PartialEq, Eq, Structural, Debug)]
pub struct InterfaceV4 {
    pub addr: u32,
    pub gateway: Option<Endpoint>,
}

/// A local IPv6 interface.
#[derive(Clone, Copy, PartialEq, Eq, Structural, Debug)]
pub struct InterfaceV6 {
    pub addr: u128,
}

/// What the gateway probe of one IPv4 interface reported.
#[derive(Clone, Copy, PartialEq, Eq, Structural, Debug)]
pub enum GatewayProbe {
    /// A gateway answered at this address.
    Found(Endpoint),
    /// The search failed or timed out.
    SearchFailed,
}

/// One enumerated IPv4 interface together with its gateway probe result.
#[derive(Clone, Copy, PartialEq, Eq, Structural, Debug)]
pub struct InterfaceV4Probe {
    pub addr: u32,
    pub gateway: GatewayProbe,
}

/// Warnings raised while building a context. None is fatal: construction
/// always yields a usable context.
#[derive(Clone, Copy, PartialEq, Eq, Structural, Debug)]
pub enum MappingContextWarning {
    /// Local interfaces could not be enumerated; the context is empty.
    InterfaceEnumeration,
    /// The gateway search on one interface failed.
    FindGateway { iface_addr: u32 },
}

/// Registry of local interfaces and of user-supplied echo servers.
pub struct MappingContext {
    pub ifaces_v4: Vec<InterfaceV4>,
    pub ifaces_v6: Vec<InterfaceV6>,
    pub simple_udp_servers: Vec<Endpoint>,
    pub simple_tcp_servers: Vec<Endpoint>,
}

/// The non-loopback IPv4 interfaces kept from `probes`, in order, each
/// with its gateway when the probe found one.
pub open spec fn spec_kept_ifaces_v4(probes: Seq<InterfaceV4Probe>) -> Seq<InterfaceV4>
    decreases probes.len(),
{
    if probes.len() == 0 {
        Seq::empty()
    } else {
        let rest = spec_kept_ifaces_v4(probes.drop_last());
        let p = probes.last();
        if spec_ip_loopback(Ip::V4(p.addr)) {
            rest
        } else {
            rest.push(
                InterfaceV4 {
                    addr: p.addr,
                    gateway: match p.gateway {
                        GatewayProbe::Found(g) => Some(g),
                        GatewayProbe::SearchFailed => None,
                    },
                },
            )
        }
    }
}

/// One FindGateway warning for each kept interface whose probe failed,
/// in order.
pub open spec fn spec_probe_warnings(probes: Seq<InterfaceV4Probe>) -> Seq<MappingContextWarning>
    decreases probes.len(),
{
    if probes.len() == 0 {
        Seq::empty()
    } else {
        let rest = spec_probe_warnings(probes.drop_last());
        let p = probes.last();
        if !spec_ip_loopback(Ip::V4(p.addr)) && p.gateway is SearchFailed {
            rest.push(MappingContextWarning::FindGateway { iface_addr: p.addr })
        } else {
            rest
        }
    }
}

/// The non-loopback IPv6 interfaces kept from `addrs`, in order.
pub open spec fn spec_kept_ifaces_v6(addrs: Seq<u128>) -> Seq<InterfaceV6>
    decreases addrs.len(),
{
    if addrs.len() == 0 {
        Seq::empty()
    } else {
        let rest = spec_kept_ifaces_v6(addrs.drop_last());
        let a = addrs.last();
        if spec_ip_loopback(Ip::V6(a)) {
            rest
        } else {
            rest.push(InterfaceV6 { addr: a })
        }
    }
}

impl MappingContext {
    /// Every interface the context holds is non-loopback.
    pub open spec fn wf(&self) -> bool {
        &&& forall|i: int|
            0 <= i < self.ifaces_v4@.len() ==> !spec_ip_loopback(
                Ip::V4(#[trigger] self.ifaces_v4@[i].addr),
            )
        &&& forall|i: int|
            0 <= i < self.ifaces_v6@.len() ==> !spec_ip_loopback(
                Ip::V6(#[trigger] self.ifaces_v6@[i].addr),
            )
    }

    /// Build a context from one round of interface enumeration, or from
    /// none when enumeration failed (`discovery` empty).
    ///
    /// Never fatal: a failed enumeration gives an empty context and one
    /// warning, and each kept interface whose gateway probe failed gives
    /// a FindGateway warning. Loopback interfaces are dropped.
    pub fn new(discovery: Option<(Vec<InterfaceV4Probe>, Vec<u128>)>) -> (r: (
        Self,
        Vec<MappingContextWarning>,
    ))
        ensures
            r.0.wf(),
            r.0.simple_udp_servers@ == Seq::<Endpoint>::empty(),
            r.0.simple_tcp_servers@ == Seq::<Endpoint>::empty(),
            match discovery {
                Some(d) => {
                    &&& r.0.ifaces_v4@ == spec_kept_ifaces_v4(d.0@)
                    &&& r.0.ifaces_v6@ == spec_kept_ifaces_v6(d.1@)
                    &&& r.1@ == spec_probe_warnings(d.0@)
                },
                None => {
                    &&& r.0.ifaces_v4@ == Seq::<InterfaceV4>::empty()
                    &&& r.0.ifaces_v6@ == Seq::<InterfaceV6>::empty()
                    &&& r.1@ == seq![MappingContextWarning::InterfaceEnumeration]
                },
            },
    {
        let mut ifaces_v4: Vec<InterfaceV4> = Vec::new();
        let mut ifaces_v6: Vec<InterfaceV6> = Vec::new();
        let mut warnings: Vec<MappingContextWarning> = Vec::new();
        match discovery {
            None => {
                warnings.push(MappingContextWarning::InterfaceEnumeration);
                assert(warnings@ =~= seq![MappingContextWarning::InterfaceEnumeration]);
            },
            Some((probes, v6_addrs)) => {
                let mut k: usize = 0;
                while k < probes.len()
                    invariant
                        k <= probes.len(),
                        ifaces_v4@ == spec_kept_ifaces_v4(probes@.take(k as int)),
                        warnings@ == spec_probe_warnings(probes@.take(k as int)),
                        forall|i: int|
                            0 <= i < ifaces_v4@.len() ==> !spec_ip_loopback(
                                Ip::V4(#[trigger] ifaces_v4@[i].addr),
                            ),
                    decreases probes.len() - k,
                {
                    let p = probes[k];
                    if !ip_is_loopback(&Ip::V4(p.addr)) {
                        match p.gateway {
                            GatewayProbe::Found(g) => {
                                ifaces_v4.push(InterfaceV4 { addr: p.addr, gateway: Some(g) });
                            },
                            GatewayProbe::SearchFailed => {
                                ifaces_v4.push(InterfaceV4 { addr: p.addr, gateway: None });
                                warnings.push(
                                    MappingContextWarning::FindGateway { iface_addr: p.addr },
                                );
                            },
                        }
                    }
                    proof {
                        assert(probes@.take(k + 1).drop_last() =~= probes@.take(k as int));
                        assert(probes@.take(k + 1).last() == probes@[k as int]);
                    }
                    k = k + 1;
                }
                proof {
                    assert(probes@.take(probes@.len() as int) =~= probes@);
                }
                let mut j: usize = 0;
                while j < v6_addrs.len()
                    invariant
                        j <= v6_addrs.len(),
                        ifaces_v6@ == spec_kept_ifaces_v6(v6_addrs@.take(j as int)),
                        forall|i: int|
                            0 <= i < ifaces_v6@.len() ==> !spec_ip_loopback(
                                Ip::V6(#[trigger] ifaces_v6@[i].addr),
                            ),
                    decreases v6_addrs.len() - j,
                {
                    let a = v6_addrs[j];
                    if !ip_is_loopback(&Ip::V6(a)) {
                        ifaces_v6.push(InterfaceV6 { addr: a });
                    }
                    proof {
                        assert(v6_addrs@.take(j + 1).drop_last() =~= v6_addrs@.take(j as int));
                        assert(v6_addrs@.take(j + 1).last() == v6_addrs@[j as int]);
                    }
                    j = j + 1;
                }
                proof {
                    assert(v6_addrs@.take(v6_addrs@.len() as int) =~= v6_addrs@);
                }
            },
        }
        let ctx = MappingContext {
            ifaces_v4,
            ifaces_v6,
            simple_udp_servers: Vec::new(),
            simple_tcp_servers: Vec::new(),
        };
        (ctx, warnings)
    }

    /// Register more simple UDP echo servers; the list only grows.
    pub fn add_simple_udp_servers(&mut self, addrs: &Vec<Endpoint>)
        ensures
            final(self).simple_udp_servers@ == old(self).simple_udp_servers@ + addrs@,
            final(self).simple_tcp_servers@ == old(self).simple_tcp_servers@,
            final(self).ifaces_v4@ == old(self).ifaces_v4@,
            final(self).ifaces_v6@ == old(self).ifaces_v6@,
    {
        let mut k: usize = 0;
        while k < addrs.len()
            invariant
                k <= addrs.len(),
                self.simple_udp_servers@ == old(self).simple_udp_servers@ + addrs@.take(k as int),
                self.simple_tcp_servers@ == old(self).simple_tcp_servers@,
                self.ifaces_v4@ == old(self).ifaces_v4@,
                self.ifaces_v6@ == old(self).ifaces_v6@,
            decreases addrs.len() - k,
        {
            self.simple_udp_servers.push(addrs[k]);
            proof {
                assert(old(self).simple_udp_servers@ + addrs@.take(k + 1) =~= (old(
                    self,
                ).simple_udp_servers@ + addrs@.take(k as int)).push(addrs@[k as int]));
            }
            k = k + 1;
        }
        proof {
            assert(addrs@.take(addrs@.len() as int) =~= addrs@);
        }
    }

    /// Register more simple TCP echo servers; the list only grows.
    pub fn add_simple_tcp_servers(&mut self, addrs: &Vec<Endpoint>)
        ensures
            final(self).simple_tcp_servers@ == old(self).simple_tcp_servers@ + addrs@,
            final(self).simple_udp_servers@ == old(self).simple_udp_servers@,
            final(self).ifaces_v4@ == old(self).ifaces_v4@,
            final(self).ifaces_v6@ == old(self).ifaces_v6@,
    {
        let mut k: usize = 0;
        while k < addrs.len()
            invariant
                k <= addrs.len(),
                self.simple_tcp_servers@ == old(self).simple_tcp_servers@ + addrs@.take(k as int),
                self.simple_udp_servers@ == old(self).simple_udp_servers@,
                self.ifaces_v4@ == old(self).ifaces_v4@,
                self.ifaces_v6@ == old(self).ifaces_v6@,
            decreases addrs.len() - k,
        {
            self.simple_tcp_servers.push(addrs[k]);
            proof {
                assert(old(self).simple_tcp_servers@ + addrs@.take(k + 1) =~= (old(
                    self,
                ).simple_tcp_servers@ + addrs@.take(k as int)).push(addrs@[k as int]));
            }
            k = k + 1;
        }
        proof {
            assert(addrs@.take(addrs@.len() as int) =~= addrs@);
        }
    }
}

/// Registering the same address set twice leaves the context functionally
/// equivalent: the set of registered servers after the second call equals
/// the set after the first, so duplicates change at most how many workers
/// probe a server, never which servers are probed.
pub proof fn lemma_add_servers_twice_same_set(base: Seq<Endpoint>, addrs: Seq<Endpoint>)
    ensures
        (base + addrs + addrs).to_set() == (base + addrs).to_set(),
{
    let once = base + addrs;
    let twice = base + addrs + addrs;
    assert forall|x: Endpoint| #[trigger] twice.contains(x) implies once.contains(x) by {
        let i = choose|i: int| 0 <= i < twice.len() && twice[i] == x;
        if i < once.len() {
            assert(once[i] == x);
        } else {
            assert(once[i - addrs.len()] == x);
        }
    }
    assert forall|x: Endpoint| #[trigger] once.contains(x) implies twice.contains(x) by {
        let i = choose|i: int| 0 <= i < once.len() && once[i] == x;
        assert(twice[i] == x);
    }
    assert(twice.to_set() =~= once.to_set());
}

} // verus!
