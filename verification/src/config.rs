//! Server configuration decisions: worker-pool sizing, WebRTC listen
//! addressing, and whether the WebSocket listener runs with TLS.
//!
//! Environment variables and CLI flags are read by the binary; the raw values
//! are handed to the functions here, which make the verified decisions.

use vstd::prelude::*;
use crate::text::{spec_parse_i32, parse_i32};

verus! {

/// Environment variable announcing the server's public address in ICE
/// candidates.
pub const ANNOUNCED_ADDRESS_ENV_KEY: &'static str = "PUBLIC_IP";

/// Environment variable enabling TLS when set to an integer greater than zero.
pub const TLS_MODE_ENV_KEY: &'static str = "TLS_MODE";

/// Environment variable holding the TLS certificate path.
pub const TLS_CERT_PATH_ENV_KEY: &'static str = "TLS_CERT_PATH";

/// Environment variable holding the TLS private-key path.
pub const TLS_KEY_PATH_ENV_KEY: &'static str = "TLS_KEY_PATH";

/// Sizing of the worker pool.
pub struct RouterDispatchConfig {
    /// How many media workers may exist at once.
    pub max_workers: usize,
    /// Advisory target of consumers per worker; routing prefers the
    /// least-loaded worker but never refuses a request over this.
    pub consumers_per_worker: u32,
}

impl Default for RouterDispatchConfig {
    /// One worker, five hundred consumers per worker.
    fn default() -> (r: Self)
        ensures
            r.max_workers == 1,
            r.consumers_per_worker == 500,
    {
        RouterDispatchConfig { max_workers: 1, consumers_per_worker: 500 }
    }
}

/// Configuration of the WebSocket listener.
pub struct SFUServerConfig {
    /// The WebSocket listen port.
    pub port: u16,
    /// Worker-pool sizing; the default sizing when absent.
    pub router_dispatch_config: Option<RouterDispatchConfig>,
}

impl Default for SFUServerConfig {
    /// Port 8000, default worker-pool sizing.
    fn default() -> (r: Self)
        ensures
            r.port == 8000,
            r.router_dispatch_config is None,
    {
        SFUServerConfig { port: 8000, router_dispatch_config: None }
    }
}

/// The worker-pool bound that a requested bound yields on a machine with
/// `logical_cpus` logical CPUs: zero and values above the CPU count clamp to
/// the CPU count.
pub open spec fn spec_effective_max_workers(requested: usize, logical_cpus: usize) -> usize {
    if requested == 0 || requested > logical_cpus {
        logical_cpus
    } else {
        requested
    }
}

/// Clamps the requested worker-pool bound to the number of logical CPUs;
/// a request of zero means the CPU count.
pub fn effective_max_workers(requested: usize, logical_cpus: usize) -> (r: usize)
    ensures
        r == spec_effective_max_workers(requested, logical_cpus),
{
    if requested == 0 || requested > logical_cpus {
        logical_cpus
    } else {
        requested
    }
}

/// Where a worker's WebRTC server binds its UDP socket.
#[derive(Debug, PartialEq, Eq, Structural, Clone, Copy)]
pub enum ListenAddress {
    /// All interfaces, for a server with a public address to announce.
    Unspecified,
    /// Loopback only.
    Localhost,
}

/// The UDP listen decision for a worker's WebRTC server.
pub struct WebRtcListenPlan {
    pub address: ListenAddress,
    /// The address announced in ICE candidates, when one is published.
    pub announced_address: Option<String>,
}

/// Decides the WebRTC listen addressing from the published public address:
/// with one, listen on all interfaces and announce it; without one, listen on
/// loopback and announce nothing.
pub fn webrtc_listen_plan(public_ip: Option<String>) -> (r: WebRtcListenPlan)
    ensures
        public_ip matches Some(ip) ==> {
            &&& r.address == ListenAddress::Unspecified
            &&& r.announced_address matches Some(a) && a@ == ip@
        },
        public_ip is None ==> {
            &&& r.address == ListenAddress::Localhost
            &&& r.announced_address is None
        },
{
    match public_ip {
        Some(ip) => WebRtcListenPlan {
            address: ListenAddress::Unspecified,
            announced_address: Some(ip),
        },
        None => WebRtcListenPlan { address: ListenAddress::Localhost, announced_address: None },
    }
}

/// The paths TLS needs when it is enabled.
pub struct TLSModeSettings {
    pub cert_path: String,
    pub key_path: String,
}

/// Whether a TLS-mode variable value asks for TLS: it parses as a 32-bit
/// integer greater than zero.
pub open spec fn spec_tls_requested(mode: Option<String>) -> bool {
    match mode {
        Some(m) => match spec_parse_i32(m@) {
            Some(v) => v > 0,
            None => false,
        },
        None => false,
    }
}

/// Decides whether to serve TLS from the raw environment values: TLS runs
/// exactly when the mode value parses to a positive integer and both paths
/// are present; a missing or unparsable mode, or a missing path, falls back
/// to plain TCP.
pub fn get_tls_mode_settings(
    tls_mode: Option<String>,
    cert_path: Option<String>,
    key_path: Option<String>,
) -> (r: Option<TLSModeSettings>)
    ensures
        r is Some <==> spec_tls_requested(tls_mode) && cert_path is Some && key_path is Some,
        r matches Some(settings) ==> {
            &&& cert_path matches Some(c) && settings.cert_path@ == c@
            &&& key_path matches Some(k) && settings.key_path@ == k@
        },
{
    let secure_mode = match tls_mode {
        Some(val) => match parse_i32(val.as_str()) {
            Some(v) => v > 0,
            None => false,
        },
        None => false,
    };
    if !secure_mode {
        return None;
    }
    let cert_path = match cert_path {
        Some(path) => path,
        None => {
            return None;
        },
    };
    let key_path = match key_path {
        Some(path) => path,
        None => {
            return None;
        },
    };
    Some(TLSModeSettings { cert_path, key_path })
}

} // verus!
