//! The network: locators and sessions, what the bridge discovers and forwards, the host's devices,
//! and settings.

use crate::autopilot::{STOP_POLL_MS, STOP_TIMEOUT_MS};
use crate::bridge::{joining, value_or};
use crate::devices::{
    is_joystick, joystick_at, joysticks_in, kernel_name, lists, serial_in, Device, Found,
    InputNode,
};
use crate::discovery::{
    keys_in, with_rate, CatalogEntry, Topic, TopicRegistry, CATALOG_INTERVAL_MS,
};
use crate::laws::texts::{
    all_space, lemma_decimal_notation, lemma_first_piece, lemma_last_piece, lemma_one_piece,
    lemma_trimmed_text,
};
use crate::listeners::{
    endpoint, expected, is_bound, row_matches, table_has, tables_have, unbound, BIND_ATTEMPTS,
    BIND_PAUSE_MS,
};
use crate::session::{
    present, settings_of, text_list, unless_empty, vehicle_listeners,
};
use crate::settings::{clamped, means_true, number_or};
use crate::sim_bridge::{
    PRIVATE_MOCAP_TOPIC, PRIVATE_RADIO_PWM_TOPIC, PUBLIC_MANUAL_TOPIC, PUBLIC_MOCAP_TOPIC,
    PUBLIC_PWM_TOPIC,
};
use crate::tables::optional_view;
use crate::telemetry::{MessageHeader, Priority};
use crate::text::{
    begins_with, decimal_text, first_position, hex_word, last_piece, lemma_decimal_is_read_back,
    lemma_first_position_is, lemma_nothing_to_trim, lower, parsed_unsigned, pieces, trimmed, words,
};
use vstd::prelude::*;

verus! {

// ---------------------------------------------------------------------------------------------
// Locators
// ---------------------------------------------------------------------------------------------

/// A locator is a transport, a slash, a host, a colon and a port, and perhaps parameters behind a
/// question mark; without a slash it is none.
pub proof fn lemma_locators(
    transport: Seq<char>,
    host: Seq<char>,
    port: nat,
    parameters: Seq<char>,
)
    requires
        !transport.contains('/'),
        !host.contains('?'),
        port <= 65535,
    ensures
        ({
            let plain = transport.push('/') + (host.push(':') + decimal_text(port));
            let full = transport.push('/') + ((host.push(':') + decimal_text(port)).push('?')
                + parameters);
            &&& endpoint(transport) is None
            &&& endpoint(plain) is Some
            &&& endpoint(plain)->0.transport == transport
            &&& endpoint(plain)->0.port == port
            &&& endpoint(full) == endpoint(plain)
        }),
{
    let number = decimal_text(port);
    let address = host.push(':') + number;
    let plain = transport.push('/') + address;
    let full = transport.push('/') + (address.push('?') + parameters);
    lemma_decimal_notation(port);
    assert(!number.contains(':') && !number.contains('?'));
    assert(!address.contains('?')) by {
        assert forall|i: int| 0 <= i < address.len() implies address[i] != '?' by {
            if i < host.len() {
                assert(address[i] == host[i]);
                assert(host.contains(host[i]));
            } else if i > host.len() {
                assert(address[i] == number[i - host.len() - 1]);
                assert(number.contains(number[i - host.len() - 1]));
            }
        }
    }
    lemma_last_piece(host, ':', number);
    lemma_nothing_to_trim(number);
    lemma_decimal_is_read_back(port, u16::MAX as nat);
    lemma_one_piece(address, '?');
    lemma_first_piece(address, '?', parameters);
    lemma_slash(transport, address);
    lemma_slash(transport, address.push('?') + parameters);
    assert forall|i: int| 0 <= i < transport.len() implies transport[i] != '/' by {
        assert(transport.contains(transport[i]));
    }
    lemma_first_position_is(transport, '/', transport.len() as int);
}

proof fn lemma_slash(transport: Seq<char>, rest: Seq<char>)
    requires
        !transport.contains('/'),
    ensures
        ({
            let locator = transport.push('/') + rest;
            &&& first_position(locator, '/') == transport.len()
            &&& first_position(locator, '/') < locator.len()
            &&& locator.take(transport.len() as int) == transport
            &&& locator.skip(transport.len() as int + 1) == rest
        }),
{
    let locator = transport.push('/') + rest;
    assert forall|i: int| 0 <= i < transport.len() implies locator[i] != '/' by {
        assert(locator[i] == transport[i]);
        assert(transport.contains(transport[i]));
    }
    lemma_first_position_is(locator, '/', transport.len() as int);
    assert(locator.take(transport.len() as int) =~= transport);
    assert(locator.skip(transport.len() as int + 1) =~= rest);
}

/// A row of the kernel's tables is that of a socket on the port: its second column ends, behind a
/// colon, in the port's four hexadecimal digits, in capitals or small letters.
pub open spec fn row_of(line: Seq<char>, port: int) -> bool {
    let columns = words(line);
    &&& columns.len() > 3
    &&& columns[1].contains(':')
    &&& lower(last_piece(columns[1], ':')) == lower(hex_word(port))
}

/// The row's fourth column says that the socket listens.
pub open spec fn row_listens(line: Seq<char>) -> bool {
    lower(words(line)[3]) == lower("0A"@)
}

/// A table has such a row below its title.
pub open spec fn shows(table: Seq<char>, port: int, listening: bool) -> bool {
    exists|line: int|
        1 <= line < pieces(table, '\n').len() && row_of(
            #[trigger] pieces(table, '\n')[line],
            port,
        ) && (listening ==> row_listens(pieces(table, '\n')[line]))
}

proof fn lemma_shows(table: Seq<char>, port: int, state: Option<Seq<char>>)
    requires
        state is Some ==> state->0 == "0A"@,
    ensures
        table_has(table, hex_word(port), state) == shows(table, port, state is Some),
{
    let lines = pieces(table, '\n');
    if shows(table, port, state is Some) {
        let line = choose|line: int|
            1 <= line < lines.len() && row_of(#[trigger] lines[line], port) && (state is Some
                ==> row_listens(lines[line]));
        assert(row_matches(words(lines[line]), hex_word(port), state));
    }
    if table_has(table, hex_word(port), state) {
        let line = choose|line: int|
            1 <= line < lines.len() && #[trigger] row_matches(
                words(lines[line]),
                hex_word(port),
                state,
            );
        assert(row_of(lines[line], port));
    }
}

/// A datagram locator is bound when the kernel has a socket on its port; one that takes connections
/// when a socket listens there. Locators of other transports, and texts that are no locators, are
/// taken to be bound.
pub proof fn lemma_bound_locators(
    locator: Seq<char>,
    udp: Seq<Seq<char>>,
    tcp: Seq<Seq<char>>,
)
    ensures
        endpoint(locator) is None ==> is_bound(locator, udp, tcp),
        endpoint(locator) is Some && endpoint(locator)->0.transport == "udp"@ ==> (is_bound(
            locator,
            udp,
            tcp,
        ) <==> exists|i: int|
            0 <= i < udp.len() && shows(#[trigger] udp[i], endpoint(locator)->0.port, false)),
        endpoint(locator) is Some && (endpoint(locator)->0.transport == "tcp"@ || endpoint(
            locator,
        )->0.transport == "ws"@ || endpoint(locator)->0.transport == "tls"@ || endpoint(
            locator,
        )->0.transport == "quic"@) ==> (is_bound(locator, udp, tcp) <==> exists|i: int|
            0 <= i < tcp.len() && shows(#[trigger] tcp[i], endpoint(locator)->0.port, true)),
        endpoint(locator) is Some && endpoint(locator)->0.transport != "udp"@ && endpoint(
            locator,
        )->0.transport != "tcp"@ && endpoint(locator)->0.transport != "ws"@ && endpoint(
            locator,
        )->0.transport != "tls"@ && endpoint(locator)->0.transport != "quic"@ ==> is_bound(
            locator,
            udp,
            tcp,
        ),
{
    reveal_strlit("udp");
    reveal_strlit("tcp");
    reveal_strlit("ws");
    reveal_strlit("tls");
    reveal_strlit("quic");
    assert("udp"@[0] == 'u' && "tcp"@[0] == 't' && "ws"@[0] == 'w' && "tls"@[0] == 't'
        && "quic"@[0] == 'q');
    if endpoint(locator) is Some {
        let port = endpoint(locator)->0.port;
        lemma_tables(udp, port, None);
        lemma_tables(tcp, port, Some("0A"@));
    }
}

proof fn lemma_tables(tables: Seq<Seq<char>>, port: int, state: Option<Seq<char>>)
    requires
        state is Some ==> state->0 == "0A"@,
    ensures
        tables_have(tables, hex_word(port), state) <==> exists|i: int|
            0 <= i < tables.len() && shows(#[trigger] tables[i], port, state is Some),
{
    assert forall|i: int| 0 <= i < tables.len() implies #[trigger] table_has(
        tables[i],
        hex_word(port),
        state,
    ) == shows(tables[i], port, state is Some) by {
        lemma_shows(tables[i], port, state);
    }
    if exists|i: int|
        0 <= i < tables.len() && shows(#[trigger] tables[i], port, state is Some) {
        let i = choose|i: int|
            0 <= i < tables.len() && shows(#[trigger] tables[i], port, state is Some);
        assert(table_has(tables[i], hex_word(port), state));
    }
}

/// The locators found missing are those that are not bound, in their order.
pub proof fn lemma_missing_locators(
    locators: Seq<Seq<char>>,
    udp: Seq<Seq<char>>,
    tcp: Seq<Seq<char>>,
)
    ensures
        unbound(locators, udp, tcp) == locators.filter(
            |locator: Seq<char>| !is_bound(locator, udp, tcp),
        ),
    decreases locators.len(),
{
    reveal(Seq::filter);
    if locators.len() > 0 {
        lemma_missing_locators(locators.drop_last(), udp, tcp);
    }
}

/// The locators that must be bound are those that are set and not blank, in their order.
pub proof fn lemma_expected_locators(first: Option<Seq<char>>, second: Option<Seq<char>>)
    ensures
        ({
            let wanted = expected(first, second);
            let one = first is Some && !all_space(first->0);
            let two = second is Some && !all_space(second->0);
            &&& wanted.len() == if one && two {
                2int
            } else if one || two {
                1
            } else {
                0
            }
            &&& one ==> wanted[0] == first->0
            &&& two ==> wanted.last() == second->0
        }),
{
    if first is Some {
        lemma_trimmed_text(first->0);
    }
    if second is Some {
        lemma_trimmed_text(second->0);
    }
}

// ---------------------------------------------------------------------------------------------
// Sessions
// ---------------------------------------------------------------------------------------------

/// A session is set up with its mode, then with what it dials and what it listens on, where there
/// is anything, and with multicast switched off where that is asked for.
pub proof fn lemma_session_settings(
    mode: Seq<char>,
    connect: Seq<Seq<char>>,
    listen: Seq<Seq<char>>,
    without_multicast: bool,
)
    ensures
        ({
            let settings = settings_of(mode, connect, listen, without_multicast);
            let dials = if connect.len() > 0 {
                1int
            } else {
                0
            };
            let listens = if listen.len() > 0 {
                1int
            } else {
                0
            };
            &&& settings.len() == 1 + dials + listens + if without_multicast {
                1int
            } else {
                0
            }
            &&& settings[0] == ("mode"@, seq!['"'] + mode + seq!['"'])
            &&& connect.len() > 0 ==> settings[1] == ("connect/endpoints"@, text_list(connect))
            &&& listen.len() > 0 ==> settings[1 + dials] == (
                "listen/endpoints"@,
                text_list(listen),
            )
            &&& without_multicast ==> settings.last() == (
                "scouting/multicast/enabled"@,
                "false"@,
            )
        }),
{
    reveal_strlit("\"");
    assert("\""@ =~= seq!['"']);
}

/// A list of texts is written in brackets, each text in quotes, with commas between them.
pub proof fn lemma_text_lists(texts: Seq<Seq<char>>, text: Seq<char>)
    ensures
        text_list(seq![text]) == seq!['[', '"'] + text + seq!['"', ']'],
        texts.len() > 0 ==> text_list(texts.push(text)) == text_list(texts).drop_last() + seq![
            ',',
            '"',
        ] + text + seq!['"', ']'],
{
    reveal_strlit("\"");
    reveal_strlit(",");
    reveal_strlit("[");
    reveal_strlit("]");
    assert(seq![text].len() == 1);
    assert(text_list(seq![text]) =~= seq!['[', '"'] + text + seq!['"', ']']);
    if texts.len() > 0 {
        let longer = texts.push(text);
        assert(longer.drop_last() =~= texts);
        assert(text_list(longer) =~= text_list(texts).drop_last() + seq![',', '"'] + text + seq![
            '"',
            ']',
        ]);
    }
}

/// An endpoint that is empty is not dialled or listened on.
pub proof fn lemma_present_endpoints(first: Option<Seq<char>>, second: Option<Seq<char>>)
    ensures
        ({
            let there = present(first, second);
            let one = first is Some && first->0.len() > 0;
            let two = second is Some && second->0.len() > 0;
            &&& there.len() == if one && two {
                2int
            } else if one || two {
                1
            } else {
                0
            }
            &&& one ==> there[0] == first->0
            &&& two ==> there.last() == second->0
        }),
        first is Some && first->0.len() > 0 ==> unless_empty(first->0) == seq![first->0],
        first is Some && first->0.len() == 0 ==> unless_empty(first->0).len() == 0,
{
}

/// The simulated vehicle listens on its own endpoint, and on the browsers' where that is another
/// one.
pub proof fn lemma_vehicle_endpoints(endpoint: Seq<char>, ws_endpoint: Seq<char>)
    ensures
        vehicle_listeners(endpoint, ws_endpoint)[0] == endpoint,
        all_space(ws_endpoint) || trimmed(ws_endpoint) == endpoint ==> vehicle_listeners(
            endpoint,
            ws_endpoint,
        ).len() == 1,
        !all_space(ws_endpoint) && trimmed(ws_endpoint) != endpoint ==> vehicle_listeners(
            endpoint,
            ws_endpoint,
        ) == seq![endpoint, trimmed(ws_endpoint)],
{
    lemma_trimmed_text(ws_endpoint);
}

/// How the bridge joins the network: a peer that is given nothing to listen on listens where it was
/// told to dial, or on the standard endpoint, and dials nobody; any other bridge dials and listens
/// as it was told. A peer listens for browsers unless that was switched off by an empty endpoint.
pub proof fn lemma_joining(
    mode: Seq<char>,
    connect: Option<Seq<char>>,
    listen: Option<Seq<char>>,
    ws_listen: Option<Seq<char>>,
    keyexpr: Option<Seq<char>>,
    autoselect: Option<Seq<char>>,
    vehicle_id: Seq<char>,
)
    ensures
        ({
            let joined = joining(
                mode,
                connect,
                listen,
                ws_listen,
                keyexpr,
                autoselect,
                vehicle_id,
            );
            let hosts = mode == "peer"@ && listen is None;
            &&& joined.mode == mode
            &&& joined.vehicle_id == vehicle_id
            &&& hosts ==> joined.connect.len() == 0
            &&& hosts && connect is Some ==> joined.listen == connect
            &&& hosts && connect is None ==> joined.listen == Some("udp/0.0.0.0:7447"@)
            &&& !hosts ==> joined.listen == listen
            &&& !hosts && connect is Some ==> joined.connect == connect->0
            &&& !hosts && connect is None ==> joined.connect == "udp/127.0.0.1:7447"@
            &&& mode == "peer"@ && ws_listen is None ==> joined.ws_listen == Some(
                "ws/0.0.0.0:7447"@,
            )
            &&& mode != "peer"@ && ws_listen is None ==> joined.ws_listen is None
            &&& ws_listen is Some && ws_listen->0.len() == 0 ==> joined.ws_listen is None
            &&& ws_listen is Some && ws_listen->0.len() > 0 ==> joined.ws_listen == ws_listen
            &&& keyexpr is Some ==> joined.keyexpr == keyexpr->0
            &&& keyexpr is None ==> joined.keyexpr == "**"@
            &&& joined.auto_select_known <==> autoselect is None || (autoselect->0 != "0"@
                && lower(autoselect->0) != lower("false"@))
        }),
{
    reveal_strlit("ws/0.0.0.0:7447");
    assert("ws/0.0.0.0:7447"@.len() == 15);
    if ws_listen is Some && ws_listen->0.len() == 0 {
        assert(ws_listen->0 =~= Seq::<char>::empty());
    }
}

/// A value that is set is used, and the default otherwise.
pub proof fn lemma_defaults(value: Seq<char>, default: Seq<char>)
    ensures
        value_or(Some(value), default) == value,
        value_or(None, default) == default,
{
}

// ---------------------------------------------------------------------------------------------
// Topics
// ---------------------------------------------------------------------------------------------

/// A sample is counted under its key: its topic has one more, its size and its time, and keeps what
/// it was recognized as; a new topic starts with this one. No other topic changes. A new topic is
/// forwarded from then on exactly when it can be decoded and that was asked for; what is forwarded
/// stays so.
pub proof fn lemma_counted_samples(
    registry: TopicRegistry,
    key: Seq<char>,
    schema: Seq<char>,
    size: usize,
    now_ms: u64,
)
    ensures
        ({
            let before = registry.known();
            let after = registry.known_after(key, schema, size, now_ms);
            let topic = after[key];
            let seen = before.dom().contains(key);
            &&& after.dom() == before.dom().insert(key)
            &&& forall|other: Seq<char>|
                other != key && before.dom().contains(other) ==> #[trigger] after[other]
                    == before[other]
            &&& topic.last_bytes == size
            &&& topic.last_seen_ms == now_ms
            &&& !seen ==> topic.count == 1 && topic.schema == schema && topic.prev_count == 0
                && topic.recent == 0 && (topic.decodable <==> schema != "Raw"@)
            &&& seen ==> topic.schema == before[key].schema && topic.decodable
                == before[key].decodable && topic.prev_count == before[key].prev_count
                && topic.recent == before[key].recent
            &&& seen && before[key].count < u64::MAX ==> topic.count == before[key].count + 1
        }),
        forall|other: Seq<char>| #[trigger]
            registry.forwarded_after(key, schema).contains(other)
                <==> registry.forwarded().contains(other) || (other == key
                && !registry.known().dom().contains(key) && registry.auto_select_known && schema
                != "Raw"@),
{
    let after = registry.known_after(key, schema, size, now_ms);
    assert(after.dom() =~= registry.known().dom().insert(key));
}

/// The header of a frame: the next number, the time of its receipt as both of its times, no expiry,
/// the vehicle, version one, the type and the key; the number after it is one more.
pub proof fn lemma_frame_headers(
    registry: TopicRegistry,
    header: MessageHeader,
    key: Seq<char>,
    schema: Seq<char>,
    now_ms: u64,
)
    requires
        registry.heads(header, key, schema, now_ms),
    ensures
        header.sequence == registry.sequence,
        header.source_time_ns == now_ms * 1_000_000,
        header.receive_time_ns == now_ms * 1_000_000,
        header.expire_time_ns == 0,
        header.vehicle_id@ == registry.vehicle_id@,
        header.schema_version == 1,
        header.message_type@ == schema,
        header.priority == Priority::Normal,
        header.stream_id@ == key,
        registry.sequence < u64::MAX ==> registry.sequence_after() == registry.sequence + 1,
{
}

/// The rate of a topic is the number of samples since it was last computed; nothing else changes.
pub proof fn lemma_rates(topic: Topic)
    ensures
        topic.prev_count <= topic.count ==> with_rate(topic).recent == topic.count
            - topic.prev_count,
        with_rate(topic).prev_count == topic.count,
        with_rate(topic).count == topic.count,
        with_rate(topic).schema == topic.schema,
        with_rate(topic).decodable == topic.decodable,
        with_rate(topic).last_bytes == topic.last_bytes,
        with_rate(topic).last_seen_ms == topic.last_seen_ms,
{
}

/// A row of the catalog tells what is known of its topic.
pub proof fn lemma_catalog_rows(row: CatalogEntry, topic: Topic, selected: bool)
    requires
        row.tells(topic, selected),
    ensures
        row.schema@ == topic.schema,
        row.decodable == topic.decodable,
        row.selected == selected,
        row.count == topic.count,
        row.recent == topic.recent,
        row.last_bytes == topic.last_bytes,
        row.last_seen_ms == topic.last_seen_ms,
{
}

// ---------------------------------------------------------------------------------------------
// Devices
// ---------------------------------------------------------------------------------------------

/// The joystick of an entry: `js` and a number below the input directory, under the name that the
/// kernel gives it, or as a joystick where there is none.
pub open spec fn joystick_of(entry: InputNode, device: Found) -> bool {
    let node = entry.node@;
    let name = entry.name_text;
    &&& node.len() > 2 && node[0] == 'j' && node[1] == 's'
    &&& forall|i: int| 2 <= i < node.len() ==> '0' <= #[trigger] node[i] <= '9'
    &&& device.kind == "joystick"@
    &&& device.path == "/dev/input/"@ + node
    &&& device.name == if name is Some && !all_space(name->0@) {
        trimmed(name->0@)
    } else {
        "Joystick"@
    }
}

/// The serial port of an entry: one on USB, below the device directory, under its own name.
pub open spec fn serial_of(node: Seq<char>, device: Found) -> bool {
    &&& begins_with(node, "ttyACM"@) || begins_with(node, "ttyUSB"@)
    &&& device.kind == "serial"@
    &&& device.path == "/dev/"@ + node
    &&& device.name == node
}

proof fn lemma_joystick(entry: InputNode)
    ensures
        is_joystick(entry.node@) <==> joystick_of(
            entry,
            joystick_at(entry.node@, optional_view(entry.name_text)),
        ),
        forall|device: Found| #[trigger]
            joystick_of(entry, device) ==> device == joystick_at(
                entry.node@,
                optional_view(entry.name_text),
            ),
{
    let node = entry.node@;
    reveal_strlit("js");
    if entry.name_text is Some {
        lemma_trimmed_text(entry.name_text->0@);
    }
    if begins_with(node, "js"@) {
        assert(node.take(2)[0] == "js"@[0] && node.take(2)[1] == "js"@[1]);
    }
    if node.len() > 2 && node[0] == 'j' && node[1] == 's' {
        assert(node.take(2) =~= "js"@);
    }
    if is_joystick(node) {
        assert forall|i: int| 2 <= i < node.len() implies '0' <= #[trigger] node[i] <= '9' by {
            assert(crate::text::is_digit(node[i]));
        }
    }
}

/// The joysticks found are those of the entries, each once for its entry.
pub proof fn lemma_joysticks(nodes: Seq<InputNode>, device: Found)
    ensures
        joysticks_in(nodes).contains(device) <==> exists|i: int|
            0 <= i < nodes.len() && joystick_of(#[trigger] nodes[i], device),
        joysticks_in(nodes).len() <= nodes.len(),
    decreases nodes.len(),
{
    if nodes.len() > 0 {
        let shorter = nodes.drop_last();
        let before = joysticks_in(shorter);
        let all = joysticks_in(nodes);
        lemma_joysticks(shorter, device);
        lemma_joystick(nodes.last());
        if all.contains(device) {
            let k = choose|k: int| 0 <= k < all.len() && all[k] == device;
            if k < before.len() {
                assert(before[k] == device);
                let i = choose|i: int|
                    0 <= i < shorter.len() && joystick_of(#[trigger] shorter[i], device);
                assert(joystick_of(nodes[i], device));
            } else {
                assert(joystick_of(nodes[nodes.len() - 1], device));
            }
        }
        if exists|i: int| 0 <= i < nodes.len() && joystick_of(#[trigger] nodes[i], device) {
            let i = choose|i: int|
                0 <= i < nodes.len() && joystick_of(#[trigger] nodes[i], device);
            if i < shorter.len() {
                assert(joystick_of(shorter[i], device));
                let k = choose|k: int| 0 <= k < before.len() && before[k] == device;
                assert(all[k] == device);
            } else {
                assert(all[before.len() as int] == device);
            }
        }
    }
}

/// The serial ports found are those of the entries, each once for its entry.
pub proof fn lemma_serial_ports(nodes: Seq<String>, device: Found)
    ensures
        serial_in(nodes).contains(device) <==> exists|i: int|
            0 <= i < nodes.len() && serial_of((#[trigger] nodes[i])@, device),
        serial_in(nodes).len() <= nodes.len(),
    decreases nodes.len(),
{
    if nodes.len() > 0 {
        let shorter = nodes.drop_last();
        let before = serial_in(shorter);
        let all = serial_in(nodes);
        lemma_serial_ports(shorter, device);
        if all.contains(device) {
            let k = choose|k: int| 0 <= k < all.len() && all[k] == device;
            if k < before.len() {
                assert(before[k] == device);
                let i = choose|i: int|
                    0 <= i < shorter.len() && serial_of((#[trigger] shorter[i])@, device);
                assert(serial_of(nodes[i]@, device));
            } else {
                assert(serial_of(nodes[nodes.len() - 1]@, device));
            }
        }
        if exists|i: int| 0 <= i < nodes.len() && serial_of((#[trigger] nodes[i])@, device) {
            let i = choose|i: int|
                0 <= i < nodes.len() && serial_of((#[trigger] nodes[i])@, device);
            if i < shorter.len() {
                assert(serial_of(shorter[i]@, device));
                let k = choose|k: int| 0 <= k < before.len() && before[k] == device;
                assert(all[k] == device);
            } else {
                assert(all[before.len() as int] == device);
            }
        }
    }
}

/// A list of devices holds every device that was found and no other, by their paths.
pub proof fn lemma_device_lists(devices: Seq<Device>, found: Seq<Found>)
    requires
        lists(devices, found),
    ensures
        devices.len() == found.len(),
        forall|i: int| 0 <= i < devices.len() ==> found.contains((#[trigger] devices[i])@),
        forall|device: Found| #[trigger]
            found.contains(device) ==> exists|i: int|
                0 <= i < devices.len() && (#[trigger] devices[i])@ == device,
        forall|i: int, j: int|
            0 <= i < j < devices.len() ==> crate::text::text_not_after(
                (#[trigger] devices[i]).path@,
                (#[trigger] devices[j]).path@,
            ),
{
    let listed = crate::devices::device_views(devices);
    listed.to_multiset_ensures();
    found.to_multiset_ensures();
    crate::parameters::lemma_same_items(listed, found);
    crate::parameters::lemma_same_items(found, listed);
    assert forall|i: int| 0 <= i < devices.len() implies found.contains(
        (#[trigger] devices[i])@,
    ) by {
        assert(found.contains(listed[i]));
    }
    assert forall|device: Found| #[trigger] found.contains(device) implies exists|i: int|
        0 <= i < devices.len() && (#[trigger] devices[i])@ == device by {
        let k = choose|k: int| 0 <= k < found.len() && found[k] == device;
        assert(listed.contains(found[k]));
        let i = choose|i: int| 0 <= i < listed.len() && listed[i] == found[k];
        assert(devices[i]@ == device);
    }
    assert forall|i: int, j: int| 0 <= i < j < devices.len() implies crate::text::text_not_after(
        (#[trigger] devices[i]).path@,
        (#[trigger] devices[j]).path@,
    ) by {
        assert(crate::sorting::Ranked::not_after(devices[i], devices[j]));
    }
}

/// The name that the kernel gives a device counts without the white space around it, unless it is
/// blank.
pub proof fn lemma_kernel_names(text: Option<Seq<char>>)
    ensures
        kernel_name(text) is Some <==> text is Some && !all_space(text->0),
        kernel_name(text) is Some ==> kernel_name(text)->0 == trimmed(text->0),
{
    if text is Some {
        lemma_trimmed_text(text->0);
    }
}

// ---------------------------------------------------------------------------------------------
// Settings
// ---------------------------------------------------------------------------------------------

/// A setting that holds a number in decimal notation is that number, if it is no greater than
/// allowed; one that holds none, or is not set, is the default.
pub proof fn lemma_number_settings(number: nat, text: Seq<char>, default: int, max: int)
    requires
        0 <= max,
    ensures
        number <= max ==> number_or(Some(decimal_text(number)), default, max) == number,
        parsed_unsigned(text, max as nat) is None ==> number_or(Some(text), default, max)
            == default,
        parsed_unsigned(text, max as nat) is Some ==> number_or(Some(text), default, max)
            == parsed_unsigned(text, max as nat)->0,
        number_or(None, default, max) == default,
{
    if number <= max {
        lemma_decimal_is_read_back(number, max as nat);
    }
}

/// A number that is brought into a range lies in it, and is itself if it did before.
pub proof fn lemma_ranges(number: int, min: int, max: int)
    requires
        min <= max,
    ensures
        min <= clamped(number, min, max) <= max,
        min <= number <= max ==> clamped(number, min, max) == number,
        number < min ==> clamped(number, min, max) == min,
        number > max ==> clamped(number, min, max) == max,
{
}

/// A setting says yes by a one or by the word true, in capitals or small letters.
pub proof fn lemma_flags_in_settings(value: Option<Seq<char>>)
    ensures
        means_true(value) <==> value is Some && (value->0 == "1"@ || lower(value->0) == lower(
            "true"@,
        )),
{
}

/// A selection forwards the keys in it, and no others; what else the registry was set up with
/// stays.
pub proof fn lemma_selections(
    keys: Seq<Seq<char>>,
    key: Seq<char>,
    before: TopicRegistry,
    after: TopicRegistry,
)
    requires
        after.same_identity(before),
    ensures
        keys_in(keys).contains(key) <==> exists|i: int|
            0 <= i < keys.len() && #[trigger] keys[i] == key,
        after.vehicle_id@ == before.vehicle_id@,
        after.auto_select_known == before.auto_select_known,
        after.connected == before.connected,
        after.endpoint@ == before.endpoint@,
{
    if exists|i: int| 0 <= i < keys.len() && #[trigger] keys[i] == key {
        assert(keys.contains(key));
    }
}

/// The rows of the catalog stand in the order of their keys.
pub proof fn lemma_catalog_order(rows: Seq<CatalogEntry>)
    requires
        crate::sorting::is_sorted(rows),
    ensures
        forall|i: int, j: int|
            0 <= i < j < rows.len() ==> crate::text::text_not_after(
                (#[trigger] rows[i]).key@,
                (#[trigger] rows[j]).key@,
            ),
{
    assert forall|i: int, j: int| 0 <= i < j < rows.len() implies crate::text::text_not_after(
        (#[trigger] rows[i]).key@,
        (#[trigger] rows[j]).key@,
    ) by {
        assert(crate::sorting::Ranked::not_after(rows[i], rows[j]));
    }
}

/// How long is waited: for listeners, five attempts with pauses that grow by 400 milliseconds; for
/// a killed process, two seconds, looking every twenty milliseconds; between catalogs, half a
/// second.
pub proof fn lemma_waiting_times()
    ensures
        BIND_ATTEMPTS == 5,
        BIND_PAUSE_MS == 400,
        STOP_TIMEOUT_MS == 2000,
        STOP_POLL_MS == 20,
        CATALOG_INTERVAL_MS == 500,
{
}

/// The topics on either side of the simulated plant.
pub proof fn lemma_plant_topics()
    ensures
        PRIVATE_RADIO_PWM_TOPIC@ == "electrode/sim/rumoca/radio_pwm_signal_outputs"@,
        PRIVATE_MOCAP_TOPIC@ == "electrode/sim/rumoca/mocap_frame"@,
        PUBLIC_PWM_TOPIC@ == "synapse/v1/topic/pwm_signal_outputs"@,
        PUBLIC_MANUAL_TOPIC@ == "synapse/v1/topic/manual_control_command"@,
        PUBLIC_MOCAP_TOPIC@ == "synapse/mocap/rigid_body/cub1/pose"@,
{
}

} // verus!
