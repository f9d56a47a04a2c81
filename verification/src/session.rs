//! The settings with which network sessions are opened.

use crate::bridge::ZenohConfig;
use crate::text::{joined, text_bytes, trim, trimmed, views};
use vstd::prelude::*;

verus! {

/// One setting: its key, and its value in JSON5 notation.
#[derive(Clone, Debug, PartialEq, Eq)]
pub struct SessionSetting {
    pub key: String,
    pub value: String,
}

/// The streams that the simulated vehicle publishes.
#[derive(Clone, Copy, Debug, PartialEq, Eq, Structural)]
pub struct ActiveStreams {
    pub mocap: bool,
    pub autopilot: bool,
}

/// The keys and values of the settings.
pub open spec fn setting_views(settings: Seq<SessionSetting>) -> Seq<(Seq<char>, Seq<char>)> {
    settings.map_values(|setting: SessionSetting| (setting.key@, setting.value@))
}

/// A text between double quotes.
pub open spec fn in_quotes(text: Seq<char>) -> Seq<char> {
    "\""@ + text + "\""@
}

/// The texts between double quotes, separated by commas.
pub open spec fn quoted_items(texts: Seq<Seq<char>>) -> Seq<char>
    decreases texts.len(),
{
    if texts.len() == 0 {
        Seq::empty()
    } else if texts.len() == 1 {
        in_quotes(texts[0])
    } else {
        quoted_items(texts.drop_last()) + ","@ + in_quotes(texts.last())
    }
}

/// The texts as a list.
pub open spec fn text_list(texts: Seq<Seq<char>>) -> Seq<char> {
    "["@ + quoted_items(texts) + "]"@
}

/// The settings of a session that dials and listens on the given endpoints.
pub open spec fn settings_of(
    mode: Seq<char>,
    connect: Seq<Seq<char>>,
    listen: Seq<Seq<char>>,
    without_multicast: bool,
) -> Seq<(Seq<char>, Seq<char>)> {
    let first = seq![("mode"@, in_quotes(mode))];
    let second = if connect.len() > 0 {
        first.push(("connect/endpoints"@, text_list(connect)))
    } else {
        first
    };
    let third = if listen.len() > 0 {
        second.push(("listen/endpoints"@, text_list(listen)))
    } else {
        second
    };
    if without_multicast {
        third.push(("scouting/multicast/enabled"@, "false"@))
    } else {
        third
    }
}

fn quote(text: &str) -> (quoted: String)
    ensures
        quoted@ == in_quotes(text@),
{
    joined(joined("\"", text).as_str(), "\"")
}

fn list_of(texts: &Vec<String>) -> (list: String)
    ensures
        list@ == text_list(views(texts@)),
{
    let mut items = String::new();
    assert(views(texts@).take(0) =~= Seq::empty());
    assert(items@ =~= quoted_items(views(texts@).take(0)));
    for index in 0..texts.len()
        invariant
            items@ == quoted_items(views(texts@).take(index as int)),
    {
        let ghost next = views(texts@).take(index + 1);
        assert(next.drop_last() =~= views(texts@).take(index as int));
        assert(next.last() == texts@[index as int]@);
        let quoted = quote(texts[index].as_str());
        items = if index == 0 {
            quoted
        } else {
            joined(joined(items.as_str(), ",").as_str(), quoted.as_str())
        };
    }
    assert(views(texts@).take(texts@.len() as int) =~= views(texts@));
    joined(joined("[", items.as_str()).as_str(), "]")
}

fn add_setting(settings: &mut Vec<SessionSetting>, key: &str, value: String)
    ensures
        setting_views(final(settings)@) == setting_views(old(settings)@).push((key@, value@)),
{
    let ghost before = settings@;
    settings.push(SessionSetting { key: key.to_owned(), value });
    assert(setting_views(settings@) =~= setting_views(before).push((key@, value@)));
}

/// The settings of a session that dials and listens on the given endpoints.
pub fn session_settings(
    mode: &str,
    connect: &Vec<String>,
    listen: &Vec<String>,
    without_multicast: bool,
) -> (settings: Vec<SessionSetting>)
    ensures
        setting_views(settings@) == settings_of(
            mode@,
            views(connect@),
            views(listen@),
            without_multicast,
        ),
{
    let mut settings: Vec<SessionSetting> = Vec::new();
    add_setting(&mut settings, "mode", quote(mode));
    assert(setting_views(settings@) =~= seq![("mode"@, in_quotes(mode@))]);
    if connect.len() > 0 {
        add_setting(&mut settings, "connect/endpoints", list_of(connect));
    }
    if listen.len() > 0 {
        add_setting(&mut settings, "listen/endpoints", list_of(listen));
    }
    if without_multicast {
        add_setting(&mut settings, "scouting/multicast/enabled", "false".to_owned());
    }
    settings
}

/// The text, unless it is empty.
pub open spec fn unless_empty(text: Seq<char>) -> Seq<Seq<char>> {
    if text.len() == 0 {
        Seq::empty()
    } else {
        seq![text]
    }
}

/// The texts that are there and not empty.
pub open spec fn present(first: Option<Seq<char>>, second: Option<Seq<char>>) -> Seq<Seq<char>> {
    let head = match first {
        Some(text) => unless_empty(text),
        None => Seq::empty(),
    };
    match second {
        Some(text) => head + unless_empty(text),
        None => head,
    }
}

fn push_unless_empty(texts: &mut Vec<String>, text: &str)
    ensures
        views(final(texts)@) == views(old(texts)@) + unless_empty(text@),
{
    let ghost before = texts@;
    if text_bytes(text) > 0 {
        texts.push(text.to_owned());
        assert(views(texts@) =~= views(before) + unless_empty(text@));
    } else {
        assert(views(texts@) =~= views(before) + unless_empty(text@));
    }
}

/// The settings of the bridge's session.
pub fn bridge_session(config: &ZenohConfig) -> (settings: Vec<SessionSetting>)
    ensures
        setting_views(settings@) == settings_of(
            config@.mode,
            unless_empty(config@.connect),
            present(config@.listen, config@.ws_listen),
            true,
        ),
{
    let mut connect: Vec<String> = Vec::new();
    push_unless_empty(&mut connect, config.connect.as_str());
    assert(views(connect@) =~= unless_empty(config@.connect));
    let mut listen: Vec<String> = Vec::new();
    assert(views(listen@) =~= Seq::empty());
    if let Some(locator) = &config.listen {
        push_unless_empty(&mut listen, locator.as_str());
    }
    if let Some(locator) = &config.ws_listen {
        push_unless_empty(&mut listen, locator.as_str());
    }
    assert(views(listen@) =~= present(config@.listen, config@.ws_listen));
    session_settings(config.mode.as_str(), &connect, &listen, true)
}

/// The endpoints that the simulated vehicle listens on: its network locator, and the browsers'
/// locator where that is another one.
pub open spec fn vehicle_listeners(endpoint: Seq<char>, ws_endpoint: Seq<char>) -> Seq<Seq<char>> {
    let ws = trimmed(ws_endpoint);
    if ws.len() > 0 && ws != endpoint {
        seq![endpoint, ws]
    } else {
        seq![endpoint]
    }
}

/// The settings of the simulated vehicle's session.
pub fn vehicle_session(mode: &str, endpoint: &str, ws_endpoint: &str) -> (settings: Vec<
    SessionSetting,
>)
    ensures
        setting_views(settings@) == if mode@ == "client"@ {
            settings_of(mode@, seq![endpoint@], Seq::empty(), true)
        } else {
            settings_of(mode@, Seq::empty(), vehicle_listeners(endpoint@, ws_endpoint@), true)
        },
{
    let mut endpoints: Vec<String> = Vec::new();
    endpoints.push(endpoint.to_owned());
    let none: Vec<String> = Vec::new();
    assert(views(none@) =~= Seq::empty());
    assert(views(endpoints@) =~= seq![endpoint@]);
    if *mode == *"client" {
        return session_settings(mode, &endpoints, &none, true);
    }
    let ws = trim(ws_endpoint);
    if text_bytes(ws.as_str()) > 0 && *ws.as_str() != *endpoint {
        endpoints.push(ws);
    }
    assert(views(endpoints@) =~= vehicle_listeners(endpoint@, ws_endpoint@));
    session_settings(mode, &none, &endpoints, true)
}

/// The settings of a session that only dials.
pub fn client_session(endpoint: &str) -> (settings: Vec<SessionSetting>)
    ensures
        setting_views(settings@) == settings_of("client"@, seq![endpoint@], Seq::empty(), true),
{
    let mut endpoints: Vec<String> = Vec::new();
    endpoints.push(endpoint.to_owned());
    let none: Vec<String> = Vec::new();
    assert(views(none@) =~= Seq::empty());
    assert(views(endpoints@) =~= seq![endpoint@]);
    session_settings("client", &endpoints, &none, true)
}

/// The settings of a probe's session: `peer` joins the network by discovery, anything else is an
/// endpoint to dial.
pub fn probe_session(endpoint: &str) -> (settings: Vec<SessionSetting>)
    ensures
        setting_views(settings@) == if endpoint@ == "peer"@ {
            settings_of("peer"@, Seq::empty(), Seq::empty(), false)
        } else {
            settings_of("client"@, seq![endpoint@], Seq::empty(), true)
        },
{
    if *endpoint == *"peer" {
        let none: Vec<String> = Vec::new();
        assert(views(none@) =~= Seq::empty());
        return session_settings("peer", &none, &none, false);
    }
    client_session(endpoint)
}

/// The settings of the session between the ground station and the simulated plant.
pub fn plant_session(endpoint: &str) -> (settings: Vec<SessionSetting>)
    ensures
        setting_views(settings@) == settings_of(
            "peer"@,
            unless_empty(trimmed(endpoint@)),
            Seq::empty(),
            false,
        ),
{
    let mut endpoints: Vec<String> = Vec::new();
    push_unless_empty(&mut endpoints, trim(endpoint).as_str());
    let none: Vec<String> = Vec::new();
    assert(views(none@) =~= Seq::empty());
    assert(views(endpoints@) =~= unless_empty(trimmed(endpoint@)));
    session_settings("peer", &endpoints, &none, false)
}

/// Which streams a role publishes.
pub fn active_streams(role: &str) -> (streams: ActiveStreams)
    ensures
        streams == (ActiveStreams {
            mocap: role@ == "mocap"@ || role@ == "both"@,
            autopilot: role@ == "autopilot"@ || role@ == "both"@,
        }),
{
    ActiveStreams {
        mocap: *role == *"mocap" || *role == *"both",
        autopilot: *role == *"autopilot" || *role == *"both",
    }
}

} // verus!
