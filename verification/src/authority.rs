//! Where the command authority meets its four trust domains.

use vstd::prelude::*;

verus! {

/// The endpoints of the command authority. Browsers and vehicles never share one.
#[derive(Clone, Debug, PartialEq, Eq)]
pub struct CommandAuthorityConfig {
    /// The trusted local website.
    pub browser_listen: String,
    /// Checked requests from the local network.
    pub lan_request_listen: String,
    /// The autopilot.
    pub vehicle_listen: String,
    /// A vehicle router to dial, if any.
    pub vehicle_connect: Option<String>,
    /// A telemetry router to dial, if any.
    pub telemetry_connect: Option<String>,
}

impl Default for CommandAuthorityConfig {
    fn default() -> (config: Self)
        ensures
            config.browser_listen@ == "ws/127.0.0.1:7447"@,
            config.lan_request_listen@ == "ws/0.0.0.0:7448"@,
            config.vehicle_listen@ == "udp/127.0.0.1:7447"@,
            config.vehicle_connect is None,
            config.telemetry_connect is None,
    {
        CommandAuthorityConfig {
            browser_listen: "ws/127.0.0.1:7447".to_owned(),
            lan_request_listen: "ws/0.0.0.0:7448".to_owned(),
            vehicle_listen: "udp/127.0.0.1:7447".to_owned(),
            vehicle_connect: None,
            telemetry_connect: None,
        }
    }
}

} // verus!
