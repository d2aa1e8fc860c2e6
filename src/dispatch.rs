use vstd::prelude::*;
use crate::host::{endpoint_of, extract};
use crate::pool::{take_spec, Client};
use crate::registry::ClientManager;

verus! {

/// The status an agent answers with when it accepts a protocol upgrade.
pub const SWITCHING_PROTOCOLS: u16 = 101;

/// Why a public request could not be handed to an agent.
#[derive(PartialEq, Eq, Structural, Debug, Clone, Copy)]
pub enum DispatchError {
    /// No endpoint is registered under the requested name.
    EndpointNotFound,
    /// The endpoint's agent has no idle connection at the moment.
    NoAvailableConnection,
    /// The request carries no `Host` header, or one that cannot be read.
    MalformedRequest,
}

impl DispatchError {
    /// The HTTP status the public client is answered with.
    pub open spec fn status_spec(self) -> u16 {
        match self {
            DispatchError::EndpointNotFound => 404,
            DispatchError::NoAvailableConnection => 503,
            DispatchError::MalformedRequest => 400,
        }
    }

    pub fn status_code(&self) -> (r: u16)
        ensures
            r == self.status_spec(),
    {
        match self {
            DispatchError::EndpointNotFound => 404,
            DispatchError::NoAvailableConnection => 503,
            DispatchError::MalformedRequest => 400,
        }
    }
}

/// What routing a request whose `Host` value is `host` comes to on a
/// registry `m`: the endpoint name, or the error it fails with.
pub open spec fn route_spec<H>(m: Map<Seq<char>, (u16, H)>, host: Option<Seq<char>>) -> Result<
    Seq<char>,
    DispatchError,
> {
    match host {
        None => Err(DispatchError::MalformedRequest),
        Some(h) => {
            let name = endpoint_of(h);
            if !m.contains_key(name) {
                Err(DispatchError::EndpointNotFound)
            } else {
                Ok(name)
            }
        },
    }
}

/// Resolves a request's `Host` value (`None` when the header is missing or
/// unreadable) to the handle of the endpoint it addresses.
pub fn route<'a, H>(manager: &'a ClientManager<H>, host: Option<&str>) -> (r: Result<&'a H, DispatchError>)
    ensures
        match route_spec(
            manager@,
            match host {
                Some(h) => Some(h@),
                None => None,
            },
        ) {
            Ok(name) => r matches Ok(handle) && *handle == manager@[name].1,
            Err(e) => r == Err::<&H, DispatchError>(e),
        },
{
    match host {
        None => Err(DispatchError::MalformedRequest),
        Some(h) => {
            let name = extract(h.to_owned());
            match manager.get(&name) {
                Some((_, handle)) => Ok(handle),
                None => Err(DispatchError::EndpointNotFound),
            }
        },
    }
}

/// Takes the connection that will carry one request from an endpoint's
/// pool: the most recently pushed one. An empty pool is no fault: it gives
/// `NoAvailableConnection` and stays empty.
pub fn acquire<C>(client: &mut Client<C>) -> (r: Result<C, DispatchError>)
    ensures
        old(client)@.len() == 0 ==> r == Err::<C, DispatchError>(DispatchError::NoAvailableConnection)
            && final(client)@ == old(client)@,
        old(client)@.len() > 0 ==> r == Ok::<C, DispatchError>(old(client)@.last())
            && final(client)@ == old(client)@.drop_last(),
{
    match client.take() {
        Some(c) => Ok(c),
        None => Err(DispatchError::NoAvailableConnection),
    }
}

/// How an agent's response is relayed to the public client.
#[derive(PartialEq, Eq, Structural, Debug, Clone, Copy)]
pub enum RelayMode {
    /// The response is relayed as it is and the exchange ends.
    Respond,
    /// The response is relayed, then both sides are upgraded and bytes are
    /// copied between them until either closes.
    Bidirectional,
}

/// The relay mode for a request whose `Upgrade` value is `request_upgrade`
/// and an agent response with status `status` and `Upgrade` value
/// `response_upgrade`. Only an agent that switches protocols to the very
/// protocol asked for opens a bidirectional relay; any other answer,
/// a mismatched one included, is relayed as a plain response.
pub fn relay_mode(request_upgrade: Option<&String>, status: u16, response_upgrade: Option<&String>) -> (r:
    RelayMode)
    ensures
        (r == RelayMode::Bidirectional) == (request_upgrade is Some && status == SWITCHING_PROTOCOLS
            && response_upgrade is Some && request_upgrade->0@ == response_upgrade->0@),
{
    match (request_upgrade, response_upgrade) {
        (Some(asked), Some(given)) => {
            if status == SWITCHING_PROTOCOLS && *asked == *given {
                RelayMode::Bidirectional
            } else {
                RelayMode::Respond
            }
        },
        _ => RelayMode::Respond,
    }
}

} // verus!
