//! TCP socket mapping: discovering the external endpoints of a socket.
//!
//! The decisions of a TCP mapping run live here: the candidate
//! endpoints and gateway requests come from the shared mapping core,
//! the echo servers from the context's TCP list, and every gateway,
//! echo and worker outcome folds into the endpoint and warning lists.
//! The surrounding code performs the gateway and echo exchanges and
//! reports every outcome back as a plain value.

use vstd::prelude::*;

use crate::addr::{Endpoint, MappedSocketAddr};
use crate::listener_message::{decode_echo_external_addr, spec_parse_echo_response};
use crate::mapping::{
    copy_endpoint_list, plan_candidates, spec_endpoints_after, spec_igd_tasks,
    spec_local_candidates, IgdOutcome, IgdTask, MapStep,
};
use crate::mapping_context::MappingContext;

verus! {

/// Ways building a reusably bound socket fails. Fatal for the attempt at
/// hand; the mapping fan-out degrades it to a warning.
#[derive(Clone, Copy, PartialEq, Eq, Structural, Debug)]
pub enum NewReusablyBoundSocketError {
    Create,
    EnableReuseAddr,
    EnableReusePort,
    Bind,
}

/// The one fatal error of a mapping run: the socket's local address
/// could not be read (the socket was likely never bound).
#[derive(Clone, Copy, PartialEq, Eq, Structural, Debug)]
pub enum MappedTcpSocketMapError {
    SocketLocalAddr,
}

/// Non-fatal failures of a mapping run, accumulated and returned beside
/// the endpoints.
#[derive(Clone, PartialEq, Eq, Debug)]
pub enum MappedTcpSocketMapWarning {
    /// The gateway search at the socket's address failed.
    FindGateway,
    /// A gateway refused to map an external port.
    GetExternalPort { gateway_addr: Endpoint },
    /// A worker could not build its reusably bound socket.
    NewReusablyBoundSocket { err: NewReusablyBoundSocketError },
    /// A worker could not connect to its echo server.
    MappingSocketConnect { addr: Endpoint },
    /// A worker could not write the echo request.
    MappingSocketWrite,
    /// A worker could not read the echo reply.
    MappingSocketRead,
    /// An echo reply was not a well-formed response message.
    Deserialise { addr: Endpoint, response: Vec<u8> },
}

/// Ways creating and mapping a fresh socket fails.
#[derive(Clone, Copy, PartialEq, Eq, Structural, Debug)]
pub enum MappedTcpSocketNewError {
    CreateSocket,
    EnableReuseAddr,
    EnableReusePort,
    Bind,
    MapFailed { err: MappedTcpSocketMapError },
}

/// The state of one TCP mapping run: the endpoints and warnings
/// gathered so far, and the gateway requests and echo servers still to
/// be tried.
pub struct TcpMapping {
    pub endpoints: Vec<MappedSocketAddr>,
    pub warnings: Vec<MappedTcpSocketMapWarning>,
    pub igd_tasks: Vec<IgdTask>,
    pub echo_servers: Vec<Endpoint>,
}

impl TcpMapping {
    /// Start a mapping run for a socket bound to `local`.
    ///
    /// The run begins with the candidate endpoints the local address
    /// yields by itself, no warnings, the gateway requests to make, and
    /// the context's simple TCP echo servers to query.
    pub fn start(local: Endpoint, ctx: &MappingContext) -> (m: TcpMapping)
        ensures
            m.endpoints@ == spec_local_candidates(local, *ctx),
            m.warnings@ == Seq::<MappedTcpSocketMapWarning>::empty(),
            m.igd_tasks@ == spec_igd_tasks(local, *ctx),
            m.echo_servers@ == ctx.simple_tcp_servers@,
    {
        let (endpoints, igd_tasks) = plan_candidates(local, ctx);
        let echo_servers = copy_endpoint_list(&ctx.simple_tcp_servers);
        TcpMapping { endpoints, warnings: Vec::new(), igd_tasks, echo_servers }
    }

    /// Fold in what one gateway request came back with: a granted
    /// address joins the endpoints as unrestricted, a failure becomes
    /// the matching warning.
    pub fn on_igd_outcome(&mut self, outcome: IgdOutcome)
        ensures
            final(self).igd_tasks@ == old(self).igd_tasks@,
            final(self).echo_servers@ == old(self).echo_servers@,
            old(self).endpoints@.is_prefix_of(final(self).endpoints@),
            final(self).endpoints@ == spec_endpoints_after(
                old(self).endpoints@,
                seq![MapStep::Igd(outcome)],
            ),
            match outcome {
                IgdOutcome::Mapped { external } => {
                    &&& final(self).endpoints@ == old(self).endpoints@.push(
                        (MappedSocketAddr { addr: external, nat_restricted: false }),
                    )
                    &&& final(self).warnings@ == old(self).warnings@
                },
                IgdOutcome::SearchFailed => {
                    &&& final(self).endpoints@ == old(self).endpoints@
                    &&& final(self).warnings@ == old(self).warnings@.push(
                        MappedTcpSocketMapWarning::FindGateway,
                    )
                },
                IgdOutcome::MapFailed { gateway_addr } => {
                    &&& final(self).endpoints@ == old(self).endpoints@
                    &&& final(self).warnings@ == old(self).warnings@.push(
                        (MappedTcpSocketMapWarning::GetExternalPort { gateway_addr }),
                    )
                },
            },
    {
        match outcome {
            IgdOutcome::Mapped { external } => {
                self.endpoints.push(MappedSocketAddr { addr: external, nat_restricted: false });
            },
            IgdOutcome::SearchFailed => {
                self.warnings.push(MappedTcpSocketMapWarning::FindGateway);
            },
            IgdOutcome::MapFailed { gateway_addr } => {
                self.warnings.push(MappedTcpSocketMapWarning::GetExternalPort { gateway_addr });
            },
        }
        proof {
            assert(seq![MapStep::Igd(outcome)].drop_last() =~= Seq::<MapStep>::empty());
            assert(spec_endpoints_after(old(self).endpoints@, Seq::<MapStep>::empty()) == old(
                self,
            ).endpoints@);
        }
    }

    /// Fold in the bytes one echo server replied with. A well-formed
    /// reply contributes its observed address as a restricted endpoint;
    /// anything else becomes a Deserialise warning carrying the bytes.
    pub fn on_echo_response(&mut self, server: Endpoint, response: Vec<u8>)
        ensures
            final(self).igd_tasks@ == old(self).igd_tasks@,
            final(self).echo_servers@ == old(self).echo_servers@,
            old(self).endpoints@.is_prefix_of(final(self).endpoints@),
            final(self).endpoints@ == spec_endpoints_after(
                old(self).endpoints@,
                seq![MapStep::Echo(spec_parse_echo_response(response@))],
            ),
            match spec_parse_echo_response(response@) {
                Some(a) => {
                    &&& final(self).endpoints@ == old(self).endpoints@.push(
                        (MappedSocketAddr { addr: a, nat_restricted: true }),
                    )
                    &&& final(self).warnings@ == old(self).warnings@
                },
                None => {
                    &&& final(self).endpoints@ == old(self).endpoints@
                    &&& final(self).warnings@ == old(self).warnings@.push(
                        (MappedTcpSocketMapWarning::Deserialise { addr: server, response }),
                    )
                },
            },
    {
        proof {
            assert(seq![MapStep::Echo(spec_parse_echo_response(response@))].drop_last() =~= Seq::<
                MapStep,
            >::empty());
            assert(spec_endpoints_after(old(self).endpoints@, Seq::<MapStep>::empty()) == old(
                self,
            ).endpoints@);
        }
        match decode_echo_external_addr(&response) {
            Some(a) => {
                self.endpoints.push(MappedSocketAddr { addr: a, nat_restricted: true });
            },
            None => {
                self.warnings.push(
                    MappedTcpSocketMapWarning::Deserialise { addr: server, response },
                );
            },
        }
    }

    /// Record a worker failure that produced no reply bytes.
    pub fn on_worker_failure(&mut self, warning: MappedTcpSocketMapWarning)
        ensures
            final(self).endpoints@ == old(self).endpoints@,
            final(self).warnings@ == old(self).warnings@.push(warning),
            final(self).igd_tasks@ == old(self).igd_tasks@,
            final(self).echo_servers@ == old(self).echo_servers@,
            final(self).endpoints@ == spec_endpoints_after(
                old(self).endpoints@,
                seq![MapStep::Failure],
            ),
    {
        self.warnings.push(warning);
        proof {
            assert(seq![MapStep::Failure].drop_last() =~= Seq::<MapStep>::empty());
            assert(spec_endpoints_after(old(self).endpoints@, Seq::<MapStep>::empty()) == old(
                self,
            ).endpoints@);
        }
    }

    /// End the run, handing out the endpoints and warnings gathered.
    pub fn finish(self) -> (r: (Vec<MappedSocketAddr>, Vec<MappedTcpSocketMapWarning>))
        ensures
            r.0@ == self.endpoints@,
            r.1@ == self.warnings@,
    {
        (self.endpoints, self.warnings)
    }
}

} // verus!
