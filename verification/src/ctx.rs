//! Shared context state that the app should store and pass to the
//! various servers when they are started

use vstd::prelude::*;

use crate::weburl::{host, text_option, url_host};

verus! {

/// Shared context
#[derive(Debug)]
pub struct ClientContext {
    /// Base URL of the connected server
    pub base_url: String,
    /// Optional association token
    pub association: Option<String>,
}

/// Where a UDP tunnel is created
#[derive(Debug)]
pub struct TunnelTarget {
    /// The host for connecting the tunnel
    pub host: String,
    /// The client association token
    pub association: String,
}

/// Provides where a UDP tunnel is created. Without a host a tunnel cannot be
/// formed, and without an association token it is not tried.
///
/// ## Arguments
/// * `host`        - The host of the server
/// * `association` - The client association token
pub fn tunnel_target(host: Option<String>, association: &Option<String>) -> (target: Option<
    TunnelTarget,
>)
    ensures
        target is Some <==> host is Some && association is Some,
        target is Some ==> {
            &&& (target->0).host == host->0
            &&& (target->0).association@ == association->0@
        },
{
    match (host, association) {
        (Some(host), Some(association)) => Some(
            TunnelTarget { host, association: association.clone() },
        ),
        _ => None,
    }
}

impl ClientContext {
    /// Provides the token that tunnels are created with. Tunnels are not tried
    /// without one.
    pub fn tunnel_association(&self) -> (association: Option<&String>)
        ensures
            match association {
                Some(association) => self.association == Some(*association),
                None => self.association is None,
            },
    {
        match &self.association {
            Some(association) => Some(association),
            None => None,
        }
    }

    /// Provides where a UDP tunnel is created, if one can be
    pub fn udp_tunnel_target(&self) -> (target: Option<TunnelTarget>)
        ensures
            target is Some <==> url_host(self.base_url@) is Some && self.association is Some,
            target is Some ==> {
                &&& (target->0).host@ == url_host(self.base_url@)->0
                &&& (target->0).association@ == self.association->0@
            },
    {
        let host = host(&self.base_url);
        assert(text_option(host) == url_host(self.base_url@));
        tunnel_target(host, &self.association)
    }
}

} // verus!
