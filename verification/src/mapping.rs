//! The protocol-neutral core of socket mapping.
//!
//! UDP and TCP mapping make the same decisions: which candidate
//! endpoints follow from the socket's local address and the context's
//! interfaces, which gateway requests to make, and how each outcome
//! folds into the endpoint list. This module holds those decisions and
//! their laws; the per-protocol modules add their warning taxonomies and
//! pick the matching echo-server list.

use vstd::prelude::*;

use crate::addr::{Endpoint, Ip, MappedSocketAddr};
use crate::mapping_context::{InterfaceV4, MappingContext};

verus! {

/// A gateway request a mapping run asks the surrounding code to make.
#[derive(Clone, Copy, PartialEq, Eq, Structural, Debug)]
pub enum IgdTask {
    /// Ask the known gateway to map an external port for `internal`.
    MapViaKnownGateway { gateway: Endpoint, internal: Endpoint },
    /// No gateway is known for this address: search for one first, then
    /// ask it to map an external port for `internal`.
    SearchThenMap { internal: Endpoint },
}

/// What one gateway request came back with.
#[derive(Clone, Copy, PartialEq, Eq, Structural, Debug)]
pub enum IgdOutcome {
    /// The gateway granted this external address.
    Mapped { external: Endpoint },
    /// The gateway search failed.
    SearchFailed,
    /// The gateway at `gateway_addr` refused the mapping.
    MapFailed { gateway_addr: Endpoint },
}

/// One step of a mapping run, as the endpoint list sees it: a gateway
/// outcome, an echo reply (already parsed, or not a reply at all), or a
/// worker failure.
#[derive(Clone, Copy, PartialEq, Eq, Structural, Debug)]
pub enum MapStep {
    Igd(IgdOutcome),
    Echo(Option<Endpoint>),
    Failure,
}

/// The endpoint list after a run of steps, starting from `init`: a
/// granted gateway address joins as unrestricted, a parsed echo reply as
/// restricted, everything else leaves the list alone.
pub open spec fn spec_endpoints_after(
    init: Seq<MappedSocketAddr>,
    steps: Seq<MapStep>,
) -> Seq<MappedSocketAddr>
    decreases steps.len(),
{
    if steps.len() == 0 {
        init
    } else {
        let rest = spec_endpoints_after(init, steps.drop_last());
        match steps.last() {
            MapStep::Igd(IgdOutcome::Mapped { external }) => rest.push(
                (MappedSocketAddr { addr: external, nat_restricted: false }),
            ),
            MapStep::Igd(_) => rest,
            MapStep::Echo(Some(a)) => rest.push(
                (MappedSocketAddr { addr: a, nat_restricted: true }),
            ),
            MapStep::Echo(None) => rest,
            MapStep::Failure => rest,
        }
    }
}

/// The candidate endpoints read directly off the local address: every
/// interface of the socket's family at the socket's port when the local
/// address is unspecified, and the local address itself otherwise. All
/// are advertised as unrestricted.
pub open spec fn spec_local_candidates(local: Endpoint, ctx: MappingContext) -> Seq<
    MappedSocketAddr,
> {
    match local.ip {
        Ip::V4(a) => if a == 0 {
            Seq::new(
                ctx.ifaces_v4@.len(),
                |i: int|
                    MappedSocketAddr {
                        addr: Endpoint { ip: Ip::V4(ctx.ifaces_v4@[i].addr), port: local.port },
                        nat_restricted: false,
                    },
            )
        } else {
            seq![MappedSocketAddr { addr: local, nat_restricted: false }]
        },
        Ip::V6(a) => if a == 0 {
            Seq::new(
                ctx.ifaces_v6@.len(),
                |i: int|
                    MappedSocketAddr {
                        addr: Endpoint { ip: Ip::V6(ctx.ifaces_v6@[i].addr), port: local.port },
                        nat_restricted: false,
                    },
            )
        } else {
            seq![MappedSocketAddr { addr: local, nat_restricted: false }]
        },
    }
}

/// One gateway request per interface that has a gateway, in interface
/// order, each for the interface's address at `port`.
pub open spec fn spec_igd_tasks_all_ifaces(ifaces: Seq<InterfaceV4>, port: u16) -> Seq<IgdTask>
    decreases ifaces.len(),
{
    if ifaces.len() == 0 {
        Seq::empty()
    } else {
        let rest = spec_igd_tasks_all_ifaces(ifaces.drop_last(), port);
        match ifaces.last().gateway {
            Some(g) => rest.push(
                IgdTask::MapViaKnownGateway {
                    gateway: g,
                    internal: Endpoint { ip: Ip::V4(ifaces.last().addr), port },
                },
            ),
            None => rest,
        }
    }
}

/// The first interface with the given address, if any.
pub open spec fn spec_find_iface(ifaces: Seq<InterfaceV4>, addr: u32) -> Option<InterfaceV4>
    decreases ifaces.len(),
{
    if ifaces.len() == 0 {
        None
    } else if ifaces[0].addr == addr {
        Some(ifaces[0])
    } else {
        spec_find_iface(ifaces.drop_first(), addr)
    }
}

/// The gateway requests of a mapping run. For an unspecified IPv4
/// address, one per interface that has a gateway. For a specific IPv4
/// address, the matching interface's gateway result is reused when there
/// is one, and otherwise a fresh search is requested. IPv6 gateways are
/// not probed.
pub open spec fn spec_igd_tasks(local: Endpoint, ctx: MappingContext) -> Seq<IgdTask> {
    match local.ip {
        Ip::V4(a) => if a == 0 {
            spec_igd_tasks_all_ifaces(ctx.ifaces_v4@, local.port)
        } else {
            match spec_find_iface(ctx.ifaces_v4@, a) {
                Some(iface) => match iface.gateway {
                    Some(g) => seq![IgdTask::MapViaKnownGateway { gateway: g, internal: local }],
                    None => Seq::empty(),
                },
                None => seq![IgdTask::SearchThenMap { internal: local }],
            }
        },
        Ip::V6(_) => Seq::empty(),
    }
}

/// Finding at `k` after no earlier match reads the whole list from `k`.
proof fn lemma_find_iface_skip(ifaces: Seq<InterfaceV4>, addr: u32, k: int)
    requires
        0 <= k <= ifaces.len(),
        forall|i: int| 0 <= i < k ==> ifaces[i].addr != addr,
    ensures
        spec_find_iface(ifaces, addr) == spec_find_iface(ifaces.skip(k), addr),
    decreases k,
{
    if k == 0 {
        assert(ifaces.skip(0) =~= ifaces);
    } else {
        assert(ifaces.len() > 0);
        assert(ifaces[0].addr != addr);
        lemma_find_iface_skip(ifaces.drop_first(), addr, k - 1);
        assert(ifaces.drop_first().skip(k - 1) =~= ifaces.skip(k));
    }
}

/// Compute the candidate endpoints and gateway requests for a socket
/// bound to `local`, from the context's interfaces.
pub fn plan_candidates(local: Endpoint, ctx: &MappingContext) -> (r: (
    Vec<MappedSocketAddr>,
    Vec<IgdTask>,
))
    ensures
        r.0@ == spec_local_candidates(local, *ctx),
        r.1@ == spec_igd_tasks(local, *ctx),
{
    let mut endpoints: Vec<MappedSocketAddr> = Vec::new();
    let mut igd_tasks: Vec<IgdTask> = Vec::new();
    match local.ip {
        Ip::V4(a) => {
            if a == 0 {
                let mut k: usize = 0;
                while k < ctx.ifaces_v4.len()
                    invariant
                        k <= ctx.ifaces_v4@.len(),
                        endpoints@.len() == k,
                        forall|i: int|
                            0 <= i < k ==> endpoints@[i] == spec_local_candidates(local, *ctx)[i],
                        igd_tasks@ == spec_igd_tasks_all_ifaces(
                            ctx.ifaces_v4@.take(k as int),
                            local.port,
                        ),
                        local.ip == Ip::V4(0u32),
                    decreases ctx.ifaces_v4@.len() - k,
                {
                    let iface = ctx.ifaces_v4[k];
                    endpoints.push(
                        MappedSocketAddr {
                            addr: Endpoint { ip: Ip::V4(iface.addr), port: local.port },
                            nat_restricted: false,
                        },
                    );
                    match iface.gateway {
                        Some(g) => {
                            igd_tasks.push(
                                IgdTask::MapViaKnownGateway {
                                    gateway: g,
                                    internal: Endpoint { ip: Ip::V4(iface.addr), port: local.port },
                                },
                            );
                        },
                        None => {},
                    }
                    proof {
                        assert(ctx.ifaces_v4@.take(k + 1).drop_last() =~= ctx.ifaces_v4@.take(
                            k as int,
                        ));
                        assert(ctx.ifaces_v4@.take(k + 1).last() == ctx.ifaces_v4@[k as int]);
                    }
                    k = k + 1;
                }
                proof {
                    assert(ctx.ifaces_v4@.take(ctx.ifaces_v4@.len() as int) =~= ctx.ifaces_v4@);
                    assert(endpoints@ =~= spec_local_candidates(local, *ctx));
                }
            } else {
                endpoints.push(MappedSocketAddr { addr: local, nat_restricted: false });
                assert(endpoints@ =~= spec_local_candidates(local, *ctx));
                let mut k: usize = 0;
                while k < ctx.ifaces_v4.len() && ctx.ifaces_v4[k].addr != a
                    invariant
                        k <= ctx.ifaces_v4@.len(),
                        forall|i: int| 0 <= i < k ==> ctx.ifaces_v4@[i].addr != a,
                    decreases ctx.ifaces_v4@.len() - k,
                {
                    k = k + 1;
                }
                let found: Option<InterfaceV4> = if k < ctx.ifaces_v4.len() {
                    Some(ctx.ifaces_v4[k])
                } else {
                    None
                };
                proof {
                    lemma_find_iface_skip(ctx.ifaces_v4@, a, k as int);
                    match found {
                        Some(iface) => {
                            assert(ctx.ifaces_v4@.skip(k as int)[0] == iface);
                        },
                        None => {
                            assert(ctx.ifaces_v4@.skip(k as int) =~= Seq::<InterfaceV4>::empty());
                        },
                    }
                }
                match found {
                    Some(iface) => {
                        match iface.gateway {
                            Some(g) => {
                                igd_tasks.push(
                                    IgdTask::MapViaKnownGateway { gateway: g, internal: local },
                                );
                                assert(igd_tasks@ =~= spec_igd_tasks(local, *ctx));
                            },
                            None => {
                                assert(igd_tasks@ =~= spec_igd_tasks(local, *ctx));
                            },
                        }
                    },
                    None => {
                        igd_tasks.push(IgdTask::SearchThenMap { internal: local });
                        assert(igd_tasks@ =~= spec_igd_tasks(local, *ctx));
                    },
                }
            }
        },
        Ip::V6(a) => {
            if a == 0 {
                let mut k: usize = 0;
                while k < ctx.ifaces_v6.len()
                    invariant
                        k <= ctx.ifaces_v6@.len(),
                        endpoints@.len() == k,
                        forall|i: int|
                            0 <= i < k ==> endpoints@[i] == spec_local_candidates(local, *ctx)[i],
                        local.ip == Ip::V6(0u128),
                    decreases ctx.ifaces_v6@.len() - k,
                {
                    let iface = ctx.ifaces_v6[k];
                    endpoints.push(
                        MappedSocketAddr {
                            addr: Endpoint { ip: Ip::V6(iface.addr), port: local.port },
                            nat_restricted: false,
                        },
                    );
                    k = k + 1;
                }
                proof {
                    assert(endpoints@ =~= spec_local_candidates(local, *ctx));
                }
            } else {
                endpoints.push(MappedSocketAddr { addr: local, nat_restricted: false });
                assert(endpoints@ =~= spec_local_candidates(local, *ctx));
            }
        },
    }
    (endpoints, igd_tasks)
}

/// Copy an endpoint list, so a mapping run can take the context's echo
/// servers without consuming the context.
pub fn copy_endpoint_list(v: &Vec<Endpoint>) -> (r: Vec<Endpoint>)
    ensures
        r@ == v@,
{
    let mut out: Vec<Endpoint> = Vec::new();
    let mut k: usize = 0;
    while k < v.len()
        invariant
            k <= v@.len(),
            out@ == v@.take(k as int),
        decreases v@.len() - k,
    {
        out.push(v[k]);
        proof {
            assert(v@.take(k + 1) =~= v@.take(k as int).push(v@[k as int]));
        }
        k = k + 1;
    }
    proof {
        assert(v@.take(v@.len() as int) =~= v@);
    }
    out
}

/// Whenever the socket is bound to a specific address, or to the
/// unspecified address on a context with at least one interface of the
/// socket's family, the candidate list is non-empty and every candidate
/// is advertised as unrestricted.
pub proof fn lemma_candidates_unrestricted(local: Endpoint, ctx: MappingContext)
    requires
        match local.ip {
            Ip::V4(a) => a == 0 ==> ctx.ifaces_v4@.len() > 0,
            Ip::V6(a) => a == 0 ==> ctx.ifaces_v6@.len() > 0,
        },
    ensures
        spec_local_candidates(local, ctx).len() > 0,
        forall|i: int|
            0 <= i < spec_local_candidates(local, ctx).len() ==> !spec_local_candidates(
                local,
                ctx,
            )[i].nat_restricted,
{
}

/// A mapping run only appends: whatever its steps, the initial
/// candidates stay, in place, at the front of the endpoint list.
pub proof fn lemma_run_keeps_initial(init: Seq<MappedSocketAddr>, steps: Seq<MapStep>)
    ensures
        init.is_prefix_of(spec_endpoints_after(init, steps)),
    decreases steps.len(),
{
    if steps.len() == 0 {
        assert(init =~= init.subrange(0, init.len() as int));
    } else {
        lemma_run_keeps_initial(init, steps.drop_last());
        let rest = spec_endpoints_after(init, steps.drop_last());
        let all = spec_endpoints_after(init, steps);
        assert(rest.is_prefix_of(all)) by {
            if all.len() == rest.len() + 1 {
                assert(rest =~= all.subrange(0, rest.len() as int));
            } else {
                assert(all == rest);
                assert(rest =~= all.subrange(0, rest.len() as int));
            }
        }
        assert(init =~= all.subrange(0, init.len() as int)) by {
            assert forall|i: int| 0 <= i < init.len() implies all.subrange(
                0,
                init.len() as int,
            )[i] == init[i] by {
                assert(all.subrange(0, init.len() as int)[i] == all[i]);
                assert(rest.subrange(0, init.len() as int)[i] == rest[i]);
                assert(all.subrange(0, rest.len() as int)[i] == all[i]);
                assert(init.subrange(0, init.len() as int)[i] == init[i]);
            }
        }
    }
}

/// Whenever the socket is bound to a specific address, or to the
/// unspecified address on a context with at least one interface of its
/// family, the endpoint list of a whole mapping run — the initial
/// candidates followed by any sequence of gateway, echo and failure
/// steps — contains an entry advertised as unrestricted.
pub proof fn lemma_map_run_has_unrestricted(
    local: Endpoint,
    ctx: MappingContext,
    steps: Seq<MapStep>,
)
    requires
        match local.ip {
            Ip::V4(a) => a == 0 ==> ctx.ifaces_v4@.len() > 0,
            Ip::V6(a) => a == 0 ==> ctx.ifaces_v6@.len() > 0,
        },
    ensures
        exists|i: int|
            0 <= i < spec_endpoints_after(spec_local_candidates(local, ctx), steps).len()
                && !spec_endpoints_after(spec_local_candidates(local, ctx), steps)[i].nat_restricted,
{
    let init = spec_local_candidates(local, ctx);
    let all = spec_endpoints_after(init, steps);
    lemma_candidates_unrestricted(local, ctx);
    lemma_run_keeps_initial(init, steps);
    assert(all.subrange(0, init.len() as int)[0] == all[0]);
    assert(!all[0].nat_restricted);
}

/// Mapping a socket bound to the unspecified address on a machine with
/// no interfaces starts with no endpoints, no gateway requests and no
/// warnings: with no echo servers registered, the run ends empty and
/// warning-free.
pub proof fn lemma_unspecified_no_interfaces_empty(local: Endpoint, ctx: MappingContext)
    requires
        crate::addr::spec_ip_unspecified(local.ip),
        ctx.ifaces_v4@.len() == 0,
        ctx.ifaces_v6@.len() == 0,
    ensures
        spec_local_candidates(local, ctx).len() == 0,
        spec_igd_tasks(local, ctx).len() == 0,
{
}

} // verus!
