//! Shared backend of the Pocket Relay clients: fire packet framing, tunnel
//! framing, telemetry decoding, server lookup and the decisions of the local
//! servers, each with a contract that is proved.

use vstd::prelude::*;

pub mod address;
pub mod api;
pub mod buffer;
pub mod ctx;
pub mod fire;
pub mod servers;
pub mod tagged;
pub mod text;
pub mod update;
pub mod version;
pub mod weburl;
pub mod wire;

verus! {

/// Version constant for the backend
pub const SHARED_BACKEND_VERSION: &'static str = "0.2.0";

/// The minimum server version supported by this client: its major, minor and
/// patch number
pub const MIN_SERVER_VERSION: (u64, u64, u64) = (0, 5, 0);

} // verus!
