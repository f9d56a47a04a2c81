//! Whether the endpoints that a session was asked to listen on are really bound.

use crate::text::{
    blank, characters, equal_ignoring_case, first_position, hex_word, hex_word_text, is_blank,
    last_piece, lemma_pieces_nonempty, parse_unsigned, parsed_unsigned, pieces,
    same_ignoring_case, split, split_once, split_words, trim, trimmed, views, words,
};
use vstd::prelude::*;

verus! {

/// The kernel's socket tables: the contents of those that could be read.
#[derive(Debug)]
pub struct SocketTables {
    pub udp: Vec<String>,
    pub tcp: Vec<String>,
}

/// What to do about listeners after a session was opened.
#[derive(Clone, Copy, Debug, PartialEq, Eq, Structural)]
pub enum BindStep {
    Ready,
    Retry { pause_ms: u64 },
    GiveUp,
}

/// How often a session is opened before its listeners are given up.
pub const BIND_ATTEMPTS: u64 = 5;

/// How much longer each pause between attempts is than the one before.
pub const BIND_PAUSE_MS: u64 = 400;

/// The state of a socket that listens for connections.
pub const LISTEN_STATE: &'static str = "0A";

/// What a locator asks for: the transport and the port.
pub ghost struct Endpoint {
    pub transport: Seq<char>,
    pub port: int,
}

/// The address of a locator: what stands between its first slash and any parameters.
pub open spec fn address(locator: Seq<char>) -> Seq<char> {
    pieces(locator.skip(first_position(locator, '/') as int + 1), '?')[0]
}

/// What a locator of the form `transport/host:port?parameters` asks for, if it has that form.
pub open spec fn endpoint(locator: Seq<char>) -> Option<Endpoint> {
    let slash = first_position(locator, '/');
    if slash >= locator.len() {
        None
    } else {
        match parsed_unsigned(trimmed(last_piece(address(locator), ':')), u16::MAX as nat) {
            None => None,
            Some(port) => Some(
                Endpoint { transport: locator.take(slash as int), port: port as int },
            ),
        }
    }
}

/// The columns describe a socket on the port, in the state where one is asked for.
pub open spec fn row_matches(
    columns: Seq<Seq<char>>,
    port: Seq<char>,
    state: Option<Seq<char>>,
) -> bool {
    &&& columns.len() > 3
    &&& columns[1].contains(':')
    &&& same_ignoring_case(last_piece(columns[1], ':'), port)
    &&& state is Some ==> same_ignoring_case(columns[3], state->0)
}

/// A table has a row, below its title, for a socket on the port.
pub open spec fn table_has(table: Seq<char>, port: Seq<char>, state: Option<Seq<char>>) -> bool {
    exists|line: int|
        1 <= line < pieces(table, '\n').len() && #[trigger] row_matches(
            words(pieces(table, '\n')[line]),
            port,
            state,
        )
}

/// One of the tables has a row for a socket on the port.
pub open spec fn tables_have(
    tables: Seq<Seq<char>>,
    port: Seq<char>,
    state: Option<Seq<char>>,
) -> bool {
    exists|i: int| 0 <= i < tables.len() && #[trigger] table_has(tables[i], port, state)
}

/// A transport that rides on TCP.
pub open spec fn rides_tcp(transport: Seq<char>) -> bool {
    transport == "tcp"@ || transport == "ws"@ || transport == "tls"@ || transport == "quic"@
}

/// The kernel has a socket for the locator. A locator of another form, or with another transport,
/// is taken to be bound.
pub open spec fn is_bound(locator: Seq<char>, udp: Seq<Seq<char>>, tcp: Seq<Seq<char>>) -> bool {
    match endpoint(locator) {
        None => true,
        Some(endpoint) => if endpoint.transport == "udp"@ {
            tables_have(udp, hex_word(endpoint.port), None)
        } else if rides_tcp(endpoint.transport) {
            tables_have(tcp, hex_word(endpoint.port), Some(LISTEN_STATE@))
        } else {
            true
        },
    }
}

/// The locators without a socket, in their order.
pub open spec fn unbound(
    locators: Seq<Seq<char>>,
    udp: Seq<Seq<char>>,
    tcp: Seq<Seq<char>>,
) -> Seq<Seq<char>>
    decreases locators.len(),
{
    if locators.len() == 0 {
        Seq::empty()
    } else {
        let before = unbound(locators.drop_last(), udp, tcp);
        if is_bound(locators.last(), udp, tcp) {
            before
        } else {
            before.push(locators.last())
        }
    }
}

fn contains_char(text: &str, wanted: char) -> (result: bool)
    ensures
        result == text@.contains(wanted),
{
    let chars = characters(text);
    for at in 0..chars.len()
        invariant
            chars@ == text@,
            forall|i: int| 0 <= i < at ==> text@[i] != wanted,
    {
        if chars[at] == wanted {
            assert(text@[at as int] == wanted);
            return true;
        }
    }
    false
}

fn last_part(text: &str, separator: char) -> (part: String)
    ensures
        part@ == last_piece(text@, separator),
{
    let parts = split(text, separator);
    proof {
        lemma_pieces_nonempty(text@, separator);
        assert(views(parts@)[parts@.len() - 1] == parts@[parts@.len() - 1]@);
    }
    parts[parts.len() - 1].clone()
}

fn matches_row(line: &str, port: &str, state: Option<&'static str>) -> (result: bool)
    ensures
        result == row_matches(
            words(line@),
            port@,
            match state {
                Some(state) => Some(state@),
                None => None,
            },
        ),
{
    let columns = split_words(line);
    proof {
        assert(views(columns@).len() == columns@.len());
        assert(columns@.len() > 1 ==> views(columns@)[1] == columns@[1]@);
        assert(columns@.len() > 3 ==> views(columns@)[3] == columns@[3]@);
    }
    if columns.len() <= 3 || !contains_char(columns[1].as_str(), ':') {
        return false;
    }
    if !equal_ignoring_case(last_part(columns[1].as_str(), ':').as_str(), port) {
        return false;
    }
    match state {
        Some(state) => equal_ignoring_case(columns[3].as_str(), state),
        None => true,
    }
}

/// Whether one of the tables has a row for a socket on the port.
pub fn proc_has_port(
    tables: &Vec<String>,
    port: &str,
    state: Option<&'static str>,
) -> (result: bool)
    ensures
        result == tables_have(
            views(tables@),
            port@,
            match state {
                Some(state) => Some(state@),
                None => None,
            },
        ),
{
    let ghost wanted = match state {
        Some(state) => Some(state@),
        None => None,
    };
    for index in 0..tables.len()
        invariant
            wanted == (match state {
                Some(state) => Some(state@),
                None => None,
            }),
            forall|i: int| 0 <= i < index ==> !#[trigger] table_has(
                views(tables@)[i],
                port@,
                wanted,
            ),
    {
        let lines = split(tables[index].as_str(), '\n');
        let ghost table = tables@[index as int]@;
        assert(views(tables@)[index as int] == table);
        proof {
            lemma_pieces_nonempty(table, '\n');
        }
        let total: usize = lines.len();
        let mut line: usize = 1;
        while line < total
            invariant
                wanted == (match state {
                    Some(state) => Some(state@),
                    None => None,
                }),
                total == lines@.len(),
                1 <= line,
                index < tables@.len(),
                table == tables@[index as int]@,
                views(tables@)[index as int] == table,
                views(lines@) == pieces(table, '\n'),
                forall|i: int|
                    1 <= i < line && i < total ==> !#[trigger] row_matches(
                        words(pieces(table, '\n')[i]),
                        port@,
                        wanted,
                    ),
            decreases total - line,
        {
            assert(views(lines@)[line as int] == lines@[line as int]@);
            if matches_row(lines[line].as_str(), port, state) {
                assert(row_matches(words(pieces(table, '\n')[line as int]), port@, wanted));
                assert(table_has(views(tables@)[index as int], port@, wanted));
                return true;
            }
            line += 1;
        }
        assert(views(lines@).len() == lines@.len());
        assert(!table_has(views(tables@)[index as int], port@, wanted));
    }
    assert(views(tables@).len() == tables@.len());
    false
}

/// Whether the kernel has a socket for the locator.
pub fn locator_is_bound(locator: &str, tables: &SocketTables) -> (result: bool)
    ensures
        result == is_bound(locator@, views(tables.udp@), views(tables.tcp@)),
{
    let (transport, rest) = match split_once(locator, '/') {
        Some(parts) => parts,
        None => return true,
    };
    let parameters = split(rest.as_str(), '?');
    proof {
        lemma_pieces_nonempty(rest@, '?');
        assert(views(parameters@)[0] == parameters@[0]@);
    }
    let port_text = last_part(parameters[0].as_str(), ':');
    let port: u16 = match parse_unsigned(trim(port_text.as_str()).as_str(), u16::MAX as u64) {
        Some(port) => {
            assert(port <= u16::MAX);
            port as u16
        },
        None => return true,
    };
    let hex_port = hex_word_text(port);
    let name = transport.as_str();
    if *name == *"udp" {
        proc_has_port(&tables.udp, hex_port.as_str(), None)
    } else if *name == *"tcp" || *name == *"ws" || *name == *"tls" || *name == *"quic" {
        proc_has_port(&tables.tcp, hex_port.as_str(), Some(LISTEN_STATE))
    } else {
        true
    }
}

/// The locators for which the kernel has no socket; none means that all is well.
pub fn unbound_listeners(locators: &[String], tables: &SocketTables) -> (missing: Vec<String>)
    ensures
        views(missing@) == unbound(views(locators@), views(tables.udp@), views(tables.tcp@)),
{
    let mut missing: Vec<String> = Vec::new();
    assert(views(missing@) =~= Seq::empty());
    assert(views(locators@).take(0) =~= Seq::empty());
    for index in 0..locators.len()
        invariant
            views(missing@) == unbound(
                views(locators@).take(index as int),
                views(tables.udp@),
                views(tables.tcp@),
            ),
    {
        let ghost before = missing@;
        let ghost next = views(locators@).take(index + 1);
        assert(next.drop_last() =~= views(locators@).take(index as int));
        assert(next.last() == locators@[index as int]@);
        if !locator_is_bound(locators[index].as_str(), tables) {
            missing.push(locators[index].clone());
            assert(views(missing@) =~= views(before).push(locators@[index as int]@));
        }
    }
    assert(views(locators@).take(locators@.len() as int) =~= views(locators@));
    missing
}

/// The locators that a session must have bound: those that are set and not blank.
pub open spec fn expected(first: Option<Seq<char>>, second: Option<Seq<char>>) -> Seq<Seq<char>> {
    let head = if first is Some && !is_blank(first->0) {
        seq![first->0]
    } else {
        Seq::empty()
    };
    if second is Some && !is_blank(second->0) {
        head.push(second->0)
    } else {
        head
    }
}

/// The locators that a session must have bound.
pub fn expected_listeners(first: &Option<String>, second: &Option<String>) -> (locators: Vec<
    String,
>)
    ensures
        views(locators@) == expected(
            crate::tables::optional_view(*first),
            crate::tables::optional_view(*second),
        ),
{
    let mut locators: Vec<String> = Vec::new();
    if let Some(locator) = first {
        if !blank(locator.as_str()) {
            locators.push(locator.clone());
        }
    }
    if let Some(locator) = second {
        if !blank(locator.as_str()) {
            locators.push(locator.clone());
        }
    }
    assert(views(locators@) =~= expected(
        crate::tables::optional_view(*first),
        crate::tables::optional_view(*second),
    ));
    locators
}

/// The locators that the simulated vehicle's session must have bound: a client listens on none.
pub fn vehicle_expected(mode: &str, endpoint: &str, ws_endpoint: &str) -> (locators: Vec<String>)
    ensures
        views(locators@) == if mode@ == "client"@ {
            Seq::empty()
        } else {
            expected(Some(endpoint@), Some(ws_endpoint@))
        },
{
    if *mode == *"client" {
        let none: Vec<String> = Vec::new();
        assert(views(none@) =~= Seq::empty());
        return none;
    }
    expected_listeners(&Some(endpoint.to_owned()), &Some(ws_endpoint.to_owned()))
}

/// What to do when, after this many attempts, `missing` listeners are not bound.
pub fn bind_step(missing: usize, attempt: u64) -> (step: BindStep)
    ensures
        step == if missing == 0 {
            BindStep::Ready
        } else if attempt >= BIND_ATTEMPTS {
            BindStep::GiveUp
        } else {
            BindStep::Retry { pause_ms: (BIND_PAUSE_MS * attempt) as u64 }
        },
{
    if missing == 0 {
        BindStep::Ready
    } else if attempt >= BIND_ATTEMPTS {
        BindStep::GiveUp
    } else {
        BindStep::Retry { pause_ms: BIND_PAUSE_MS * attempt }
    }
}

/// The locators found missing are some of those asked about, each without a socket; and every
/// locator without a socket is found.
pub proof fn lemma_unbound(locators: Seq<Seq<char>>, udp: Seq<Seq<char>>, tcp: Seq<Seq<char>>)
    ensures
        forall|locator: Seq<char>| #[trigger]
            unbound(locators, udp, tcp).contains(locator) <==> locators.contains(locator)
                && !is_bound(locator, udp, tcp),
    decreases locators.len(),
{
    if locators.len() > 0 {
        let shorter = locators.drop_last();
        let before = unbound(shorter, udp, tcp);
        let missing = unbound(locators, udp, tcp);
        lemma_unbound(shorter, udp, tcp);
        assert forall|locator: Seq<char>| #[trigger] missing.contains(locator)
            <==> locators.contains(locator) && !is_bound(locator, udp, tcp) by {
            assert(before.contains(locator) <==> shorter.contains(locator) && !is_bound(
                locator,
                udp,
                tcp,
            ));
            if missing.contains(locator) {
                let i = choose|i: int| 0 <= i < missing.len() && missing[i] == locator;
                if i < before.len() {
                    assert(before[i] == locator);
                    assert(before.contains(locator));
                    let k = choose|k: int| 0 <= k < shorter.len() && shorter[k] == locator;
                    assert(locators[k] == locator);
                } else {
                    assert(locators[locators.len() - 1] == locator);
                }
            }
            if locators.contains(locator) && !is_bound(locator, udp, tcp) {
                let k = choose|k: int| 0 <= k < locators.len() && locators[k] == locator;
                if k < shorter.len() {
                    assert(shorter[k] == locator);
                    assert(before.contains(locator));
                    let i = choose|i: int| 0 <= i < before.len() && before[i] == locator;
                    assert(missing[i] == locator);
                } else {
                    assert(missing[missing.len() - 1] == locator);
                }
            }
        }
    }
}

} // verus!
