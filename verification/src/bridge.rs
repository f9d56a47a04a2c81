//! The bridge between the message network and browsers: how it joins the network, what it has
//! discovered there, and what it forwards.

use crate::settings::setting;
use crate::tables::optional_view;
use crate::text::{equal_ignoring_case, lowercase, lowercase_text, same_ignoring_case, text_bytes};
use vstd::prelude::*;

verus! {

// ---------------------------------------------------------------------------------------------
// Joining the network
// ---------------------------------------------------------------------------------------------

/// How the bridge joins the network.
#[derive(Debug, Clone)]
pub struct ZenohConfig {
    /// `client` to dial a router, `peer` to host the network.
    pub mode: String,
    /// The locator to dial; empty for a peer that only listens.
    pub connect: String,
    /// The locator that hardware connects to.
    pub listen: Option<String>,
    /// The locator that browsers connect to. It stands apart because a WebSocket listener and a
    /// TCP listener on one port would collide.
    pub ws_listen: Option<String>,
    /// The keys to discover.
    pub keyexpr: String,
    /// Forward topics that can be decoded as soon as they appear.
    pub auto_select_known: bool,
    /// The vehicle that forwarded frames are stamped with.
    pub vehicle_id: String,
}

/// The values of the bridge's variables.
#[derive(Debug)]
pub struct BridgeSettings {
    pub mode: Option<String>,
    pub connect: Option<String>,
    pub listen: Option<String>,
    pub ws_listen: Option<String>,
    pub keyexpr: Option<String>,
    pub autoselect: Option<String>,
}

/// What a configuration holds.
pub ghost struct Joining {
    pub mode: Seq<char>,
    pub connect: Seq<char>,
    pub listen: Option<Seq<char>>,
    pub ws_listen: Option<Seq<char>>,
    pub keyexpr: Seq<char>,
    pub auto_select_known: bool,
    pub vehicle_id: Seq<char>,
}

impl View for ZenohConfig {
    type V = Joining;

    open spec fn view(&self) -> Joining {
        Joining {
            mode: self.mode@,
            connect: self.connect@,
            listen: optional_view(self.listen),
            ws_listen: optional_view(self.ws_listen),
            keyexpr: self.keyexpr@,
            auto_select_known: self.auto_select_known,
            vehicle_id: self.vehicle_id@,
        }
    }
}

/// The value, or a default where there is none.
pub open spec fn value_or(value: Option<Seq<char>>, default: Seq<char>) -> Seq<char> {
    match value {
        Some(text) => text,
        None => default,
    }
}

/// How the bridge joins the network in a given mode. A peer without a locator to listen on hosts
/// the network on the standard endpoints and dials nobody; a peer always listens for browsers,
/// unless that was switched off by an empty locator.
pub open spec fn joining(
    mode: Seq<char>,
    connect: Option<Seq<char>>,
    listen: Option<Seq<char>>,
    ws_listen: Option<Seq<char>>,
    keyexpr: Option<Seq<char>>,
    autoselect: Option<Seq<char>>,
    vehicle_id: Seq<char>,
) -> Joining {
    let hosts = mode == "peer"@ && listen is None;
    let browsers = if mode == "peer"@ && ws_listen is None {
        Some("ws/0.0.0.0:7447"@)
    } else {
        ws_listen
    };
    Joining {
        mode,
        connect: if hosts {
            Seq::empty()
        } else {
            value_or(connect, "udp/127.0.0.1:7447"@)
        },
        listen: if hosts {
            Some(value_or(connect, "udp/0.0.0.0:7447"@))
        } else {
            listen
        },
        ws_listen: if browsers == Some(Seq::<char>::empty()) {
            None
        } else {
            browsers
        },
        keyexpr: value_or(keyexpr, "**"@),
        auto_select_known: match autoselect {
            Some(text) => text != "0"@ && !same_ignoring_case(text, "false"@),
            None => true,
        },
        vehicle_id,
    }
}

fn or_default(value: Option<String>, default: &str) -> (text: String)
    ensures
        text@ == value_or(setting(value), default@),
{
    match value {
        Some(text) => text,
        None => default.to_owned(),
    }
}

impl ZenohConfig {
    /// The configuration in a given mode.
    pub fn in_mode(mode: String, vehicle_id: String, settings: BridgeSettings) -> (config: Self)
        ensures
            config@ == joining(
                mode@,
                setting(settings.connect),
                setting(settings.listen),
                setting(settings.ws_listen),
                setting(settings.keyexpr),
                setting(settings.autoselect),
                vehicle_id@,
            ),
    {
        let peer = *mode.as_str() == *"peer";
        let hosts = peer && settings.listen.is_none();
        let connect;
        let listen;
        if hosts {
            connect = String::new();
            listen = Some(or_default(settings.connect, "udp/0.0.0.0:7447"));
        } else {
            connect = or_default(settings.connect, "udp/127.0.0.1:7447");
            listen = settings.listen;
        }
        let browsers = if peer && settings.ws_listen.is_none() {
            Some("ws/0.0.0.0:7447".to_owned())
        } else {
            settings.ws_listen
        };
        let ws_listen = match browsers {
            Some(locator) => if text_bytes(locator.as_str()) == 0 {
                assert(locator@ =~= Seq::<char>::empty());
                None
            } else {
                Some(locator)
            },
            None => None,
        };
        let auto_select_known = match settings.autoselect {
            Some(text) => *text.as_str() != *"0" && !equal_ignoring_case(text.as_str(), "false"),
            None => true,
        };
        let config = ZenohConfig {
            mode,
            connect,
            listen,
            ws_listen,
            keyexpr: or_default(settings.keyexpr, "**"),
            auto_select_known,
            vehicle_id,
        };
        proof {
            let expected = joining(
                config.mode@,
                setting(settings.connect),
                setting(settings.listen),
                setting(settings.ws_listen),
                setting(settings.keyexpr),
                setting(settings.autoselect),
                config.vehicle_id@,
            );
            assert(config@.connect =~= expected.connect);
            assert(config@.listen == expected.listen);
            assert(config@.ws_listen == expected.ws_listen);
        }
        config
    }

    /// The configuration that the variables describe; the mode is read without regard to case.
    pub fn from_settings(vehicle_id: String, settings: BridgeSettings) -> (config: Self)
        ensures
            config@ == joining(
                lowercase_text(value_or(setting(settings.mode), "client"@)),
                setting(settings.connect),
                setting(settings.listen),
                setting(settings.ws_listen),
                setting(settings.keyexpr),
                setting(settings.autoselect),
                vehicle_id@,
            ),
    {
        let mut settings = settings;
        let named = or_default(settings.mode, "client");
        settings.mode = None;
        let mode = lowercase(named.as_str());
        ZenohConfig::in_mode(mode, vehicle_id, settings)
    }

    /// The locator to show: where the bridge listens, or else whom it dials.
    pub fn endpoint_label(&self) -> (label: &str)
        ensures
            label@ == value_or(self@.listen, self@.connect),
    {
        match &self.listen {
            Some(listen) => listen.as_str(),
            None => self.connect.as_str(),
        }
    }
}

/// A peer that is given no endpoint hosts the network and dials nobody, and a peer always listens
/// for browsers, unless that was switched off.
pub proof fn lemma_peers_host_the_network(
    connect: Option<Seq<char>>,
    listen: Option<Seq<char>>,
    ws_listen: Option<Seq<char>>,
    keyexpr: Option<Seq<char>>,
    autoselect: Option<Seq<char>>,
    vehicle_id: Seq<char>,
)
    ensures
        ({
            let peer = joining(
                "peer"@,
                connect,
                listen,
                ws_listen,
                keyexpr,
                autoselect,
                vehicle_id,
            );
            &&& peer.listen is Some
            &&& listen is None ==> peer.connect.len() == 0
            &&& peer.ws_listen is None <==> ws_listen == Some(Seq::<char>::empty())
        }),
{
    reveal_strlit("ws/0.0.0.0:7447");
    assert("ws/0.0.0.0:7447"@.len() == 15);
}

} // verus!
