//! How many velocity attempts each team has left.

use crate::json::{field_views, number_field, object_json, write_object, Json, JsonField};
use crate::text::{
    alphanumeric, byte_length, characters, decimal, decimal_text, first_position, is_alphanumeric,
    is_digit, joined, lemma_decimal_digits, lemma_decimal_is_read_back, lemma_first_position_is,
    lemma_lower_idempotent, lemma_nothing_to_trim, lower, parse_unsigned, parsed_unsigned, pieces,
    split, split_once, text_bytes, to_lower, trim, trimmed, views,
};
use crate::text_map::{has_key, keys_differ, lemma_map_of, lemma_pushed, map_of, Entry, TextMap};
use vstd::prelude::*;

verus! {

/// How a team stands.
#[derive(Clone, Debug, PartialEq, Eq)]
pub struct BudgetState {
    pub device_id: String,
    pub credential_id: String,
    pub limit: u32,
    pub used: u32,
    pub remaining: u32,
    pub budget_version: String,
}

/// The ledger of attempts. Teams are told apart by their normalized names; nothing authenticates
/// them.
#[derive(Debug)]
pub struct VelocityBudget {
    pub limit: u32,
    pub used: TextMap<u32>,
}

/// What the ledger says of a team.
pub ghost struct Budget {
    pub team: Seq<char>,
    pub limit: u32,
    pub used: u32,
}

/// The longest team name.
pub const TEAM_NAME_MAX_BYTES: usize = 64;

/// The form of the ledger's entries.
pub const BUDGET_VERSION: &'static str = "velocity-budget.v1";

/// What is said when no attempt is left.
pub const BUDGET_EXHAUSTED: &'static str = "velocity budget is exhausted";

/// A letter, a digit, a dot, an underscore, a colon or a hyphen.
pub open spec fn is_team_char(c: char) -> bool {
    is_alphanumeric(c) || c == '.' || c == '_' || c == ':' || c == '-'
}

/// A name that a team may go by.
pub open spec fn is_team_name(name: Seq<char>) -> bool {
    &&& 0 < byte_length(name) <= TEAM_NAME_MAX_BYTES
    &&& forall|i: int| 0 <= i < name.len() ==> is_team_char(#[trigger] name[i])
}

/// Whether a team may go by the name.
pub fn safe_device_id(name: &str) -> (result: bool)
    ensures
        result == is_team_name(name@),
{
    let length: usize = text_bytes(name);
    if length == 0 || length > TEAM_NAME_MAX_BYTES {
        return false;
    }
    let chars = characters(name);
    for index in 0..chars.len()
        invariant
            chars@ == name@,
            forall|i: int| 0 <= i < index ==> is_team_char(#[trigger] chars@[i]),
    {
        let c = chars[index];
        if !(alphanumeric(c) || c == '.' || c == '_' || c == ':' || c == '-') {
            assert(!is_team_char(name@[index as int]));
            return false;
        }
    }
    true
}

/// The identifier of a team: its name in small letters.
pub fn credential_id(team: &str) -> (id: String)
    ensures
        id@ == lower(team@),
{
    to_lower(team)
}

/// The attempts that a team has used.
pub open spec fn used_by(ledger: Map<Seq<char>, u32>, team: Seq<char>) -> u32 {
    if ledger.dom().contains(team) {
        ledger[team]
    } else {
        0
    }
}

impl BudgetState {
    /// The state says how the ledger stands.
    pub open spec fn tells(self, budget: Budget) -> bool {
        &&& self.device_id@ == budget.team
        &&& self.credential_id@ == budget.team
        &&& self.limit == budget.limit
        &&& self.used == budget.used
        &&& self.remaining == budget.limit - budget.used
        &&& self.budget_version@ == BUDGET_VERSION@
    }
}

impl VelocityBudget {
    /// No team has used more than the limit.
    pub open spec fn well_formed(self) -> bool {
        &&& self.used.well_formed()
        &&& forall|team: Seq<char>| #[trigger]
            self.used@.dom().contains(team) ==> self.used@[team] <= self.limit
    }

    /// How a team stands, by its normalized name.
    pub open spec fn budget_of(self, team: Seq<char>) -> Budget {
        Budget { team, limit: self.limit, used: used_by(self.used@, team) }
    }

    /// A ledger without entries.
    pub fn new(limit: u32) -> (ledger: Self)
        ensures
            ledger.well_formed(),
            ledger.limit == limit,
            ledger.used@ == Map::<Seq<char>, u32>::empty(),
    {
        VelocityBudget { limit, used: TextMap::new() }
    }

    /// How a team stands.
    pub fn state(&self, team: &str) -> (state: BudgetState)
        requires
            self.well_formed(),
        ensures
            state.tells(self.budget_of(lower(team@))),
    {
        let id = credential_id(team);
        let used: u32 = match self.used.get(id.as_str()) {
            Some(used) => *used,
            None => 0,
        };
        BudgetState {
            device_id: id.clone(),
            credential_id: id,
            limit: self.limit,
            used,
            remaining: self.limit - used,
            budget_version: BUDGET_VERSION.to_owned(),
        }
    }

    /// Takes one attempt of a team, or says that none is left.
    pub fn consume(&mut self, team: &str) -> (result: Result<BudgetState, String>)
        requires
            old(self).well_formed(),
        ensures
            final(self).well_formed(),
            final(self).limit == old(self).limit,
            result is Ok == (old(self).budget_of(lower(team@)).used < old(self).limit),
            result is Ok ==> {
                &&& final(self).used@ == old(self).used@.insert(
                    lower(team@),
                    (old(self).budget_of(lower(team@)).used + 1) as u32,
                )
                &&& result->Ok_0.tells(final(self).budget_of(lower(team@)))
            },
            result is Err ==> {
                &&& final(self).used@ == old(self).used@
                &&& result->Err_0@ == BUDGET_EXHAUSTED@
            },
    {
        let before = self.state(team);
        if before.used >= self.limit {
            return Err(BUDGET_EXHAUSTED.to_owned());
        }
        self.used.set(before.credential_id.as_str(), before.used + 1);
        Ok(self.state(team))
    }

    /// Gives one attempt back to a team; a team that has used none stays as it is.
    pub fn refund(&mut self, team: &str) -> (state: BudgetState)
        requires
            old(self).well_formed(),
        ensures
            final(self).well_formed(),
            final(self).limit == old(self).limit,
            state.tells(final(self).budget_of(lower(team@))),
            final(self).used@ == if old(self).budget_of(lower(team@)).used == 0 {
                old(self).used@
            } else {
                old(self).used@.insert(
                    lower(team@),
                    (old(self).budget_of(lower(team@)).used - 1) as u32,
                )
            },
    {
        let before = self.state(team);
        if before.used > 0 {
            self.used.set(before.credential_id.as_str(), before.used - 1);
        }
        self.state(team)
    }
}

/// A refund after an attempt leaves every team where it stood.
pub proof fn lemma_refund_undoes_consume(
    before: Map<Seq<char>, u32>,
    consumed: Map<Seq<char>, u32>,
    refunded: Map<Seq<char>, u32>,
    team: Seq<char>,
)
    requires
        used_by(before, team) < u32::MAX,
        consumed == before.insert(team, (used_by(before, team) + 1) as u32),
        refunded == consumed.insert(team, (used_by(consumed, team) - 1) as u32),
    ensures
        forall|other: Seq<char>| #[trigger] used_by(refunded, other) == used_by(before, other),
{
}

// ---------------------------------------------------------------------------------------------
// The ledger as a file
// ---------------------------------------------------------------------------------------------

/// The line of a team: its name, a comma, and the attempts that it has used.
pub open spec fn ledger_line(team: Seq<char>, used: u32) -> Seq<char> {
    team + ","@ + decimal_text(used as nat)
}

/// One line for each team, in the order in which they came in.
pub open spec fn ledger_text(entries: Seq<Entry<u32>>) -> Seq<char>
    decreases entries.len(),
{
    if entries.len() == 0 {
        Seq::empty()
    } else {
        ledger_line(entries[0].key@, entries[0].value) + "\n"@ + ledger_text(entries.drop_first())
    }
}

/// What a line says of a team, if it has a comma and a number behind it: no team has used more than
/// the limit.
pub open spec fn line_entry(line: Seq<char>, limit: u32) -> Option<(Seq<char>, u32)> {
    let comma = first_position(line, ',');
    if comma >= line.len() {
        None
    } else {
        match parsed_unsigned(trimmed(line.skip(comma as int + 1)), u32::MAX as nat) {
            None => None,
            Some(used) => Some(
                (
                    lower(trimmed(line.take(comma as int))),
                    if used < limit {
                        used as u32
                    } else {
                        limit
                    },
                ),
            ),
        }
    }
}

/// What the lines say of the teams: the last line on a team counts, and lines that say nothing are
/// passed over.
pub open spec fn ledger_read(lines: Seq<Seq<char>>, limit: u32) -> Map<Seq<char>, u32>
    decreases lines.len(),
{
    if lines.len() == 0 {
        Map::empty()
    } else {
        let before = ledger_read(lines.drop_last(), limit);
        match line_entry(lines.last(), limit) {
            Some((team, used)) => before.insert(team, used),
            None => before,
        }
    }
}

/// A name that a line can hold: normalized, and without the characters that a line is told apart
/// by.
pub open spec fn is_ledger_name(team: Seq<char>) -> bool {
    &&& lower(team) == team
    &&& trimmed(team) == team
    &&& !team.contains(',')
    &&& !team.contains('\n')
}

fn read_line(line: &str, limit: u32) -> (entry: Option<(String, u32)>)
    ensures
        match line_entry(line@, limit) {
            None => entry is None,
            Some((team, used)) => entry is Some && (entry->0).0@ == team && (entry->0).1 == used,
        },
{
    let (team, count) = match split_once(line, ',') {
        Some(parts) => parts,
        None => return None,
    };
    match parse_unsigned(trim(count.as_str()).as_str(), u32::MAX as u64) {
        None => None,
        Some(used) => {
            let bounded: u32 = if used < limit as u64 {
                used as u32
            } else {
                limit
            };
            Some((credential_id(trim(team.as_str()).as_str()), bounded))
        },
    }
}

/// The ledger that a file holds.
pub fn ledger_from_csv(text: &str, limit: u32) -> (ledger: VelocityBudget)
    ensures
        ledger.well_formed(),
        ledger.limit == limit,
        ledger.used@ == ledger_read(pieces(text@, '\n'), limit),
{
    let lines = split(text, '\n');
    let mut ledger = VelocityBudget::new(limit);
    let ghost all = pieces(text@, '\n');
    assert(all.take(0) =~= Seq::empty());
    for index in 0..lines.len()
        invariant
            views(lines@) == all,
            ledger.well_formed(),
            ledger.limit == limit,
            ledger.used@ == ledger_read(all.take(index as int), limit),
    {
        let ghost next = all.take(index + 1);
        assert(next.drop_last() =~= all.take(index as int));
        assert(next.last() == lines@[index as int]@);
        if let Some((team, used)) = read_line(lines[index].as_str(), limit) {
            ledger.used.set(team.as_str(), used);
        }
    }
    assert(views(lines@).len() == lines@.len());
    assert(all.take(lines@.len() as int) =~= all);
    ledger
}

/// The file that holds a ledger.
pub fn ledger_csv(ledger: &VelocityBudget) -> (text: String)
    ensures
        text@ == ledger_text(ledger.used.entries@),
{
    let mut text = String::new();
    let mut index: usize = ledger.used.entries.len();
    let ghost entries = ledger.used.entries@;
    assert(entries.skip(index as int) =~= Seq::empty());
    assert(text@ =~= Seq::empty());
    while index > 0
        invariant
            entries == ledger.used.entries@,
            index <= entries.len(),
            text@ == ledger_text(entries.skip(index as int)),
        decreases index,
    {
        let ghost rest = entries.skip(index - 1);
        assert(rest.drop_first() =~= entries.skip(index as int));
        index -= 1;
        let entry = &ledger.used.entries[index];
        assert(rest[0] == *entry);
        let named = joined(entry.key.as_str(), ",");
        let line = joined(named.as_str(), decimal(entry.value as u64).as_str());
        text = joined(joined(line.as_str(), "\n").as_str(), text.as_str());
    }
    assert(entries.skip(0) =~= entries);
    text
}

/// The teams and their attempts, as the fields of a document.
pub open spec fn ledger_fields(entries: Seq<Entry<u32>>) -> Seq<(Seq<char>, Json)> {
    entries.map_values(|entry: Entry<u32>| (entry.key@, Json::Number(entry.value as u64)))
}

/// The document in which a ledger can be inspected.
pub fn ledger_json(ledger: &VelocityBudget) -> (text: String)
    ensures
        text@ == object_json(ledger_fields(ledger.used.entries@)),
{
    let mut fields: Vec<JsonField> = Vec::new();
    let ghost entries = ledger.used.entries@;
    assert(field_views(fields@) =~= ledger_fields(entries.take(0)));
    for index in 0..ledger.used.entries.len()
        invariant
            entries == ledger.used.entries@,
            field_views(fields@) == ledger_fields(entries.take(index as int)),
    {
        let ghost before = fields@;
        let entry = &ledger.used.entries[index];
        let field = number_field(entry.key.as_str(), entry.value as u64);
        fields.push(field);
        assert(field_views(fields@) =~= field_views(before).push((field.name@, field.value@)));
        assert(entries.take(index + 1) =~= entries.take(index as int).push(*entry));
        assert(ledger_fields(entries.take(index + 1)) =~= ledger_fields(
            entries.take(index as int),
        ).push((field.name@, field.value@)));
    }
    assert(entries.take(entries.len() as int) =~= entries);
    write_object(fields)
}

proof fn lemma_line_is_read_back(team: Seq<char>, used: u32, limit: u32)
    requires
        is_ledger_name(team),
        used <= limit,
    ensures
        line_entry(ledger_line(team, used), limit) == Some((team, used)),
        !ledger_line(team, used).contains('\n'),
{
    let line = ledger_line(team, used);
    let count = decimal_text(used as nat);
    reveal_strlit(",");
    lemma_decimal_digits(used as nat);
    assert(line.len() == team.len() + 1 + count.len());
    assert forall|i: int| 0 <= i < team.len() implies line[i] != ',' by {
        assert(line[i] == team[i]);
        assert(team.contains(team[i]));
    }
    assert(line[team.len() as int] == ',');
    lemma_first_position_is(line, ',', team.len() as int);
    assert(line.take(team.len() as int) =~= team);
    assert(line.skip(team.len() as int + 1) =~= count);
    assert(is_digit(count[0]) && is_digit(count.last()));
    lemma_nothing_to_trim(count);
    lemma_decimal_is_read_back(used as nat, u32::MAX as nat);
    assert forall|i: int| 0 <= i < line.len() implies line[i] != '\n' by {
        if i < team.len() {
            assert(line[i] == team[i]);
            assert(team.contains(team[i]));
        } else if i > team.len() {
            assert(line[i] == count[i - team.len() - 1]);
            assert(is_digit(count[i - team.len() - 1]));
        }
    }
}

/// The lines of the entries.
spec fn entry_lines(entries: Seq<Entry<u32>>) -> Seq<Seq<char>> {
    entries.map_values(|entry: Entry<u32>| ledger_line(entry.key@, entry.value))
}

proof fn lemma_ledger_pieces(entries: Seq<Entry<u32>>, limit: u32)
    requires
        forall|i: int|
            0 <= i < entries.len() ==> is_ledger_name((#[trigger] entries[i]).key@)
                && entries[i].value <= limit,
    ensures
        pieces(ledger_text(entries), '\n') == entry_lines(entries).push(Seq::empty()),
    decreases entries.len(),
{
    let text = ledger_text(entries);
    reveal_strlit("\n");
    if entries.len() == 0 {
        assert(pieces(text, '\n') =~= seq![text]);
        assert(entry_lines(entries).push(Seq::empty()) =~= seq![text]);
    } else {
        let rest = entries.drop_first();
        let line = ledger_line(entries[0].key@, entries[0].value);
        assert forall|i: int| 0 <= i < rest.len() implies is_ledger_name(
            (#[trigger] rest[i]).key@,
        ) && rest[i].value <= limit by {
            assert(rest[i] == entries[i + 1]);
        }
        lemma_ledger_pieces(rest, limit);
        assert(is_ledger_name(entries[0].key@));
        lemma_line_is_read_back(entries[0].key@, entries[0].value, limit);
        assert forall|i: int| 0 <= i < line.len() implies text[i] != '\n' by {
            assert(text[i] == line[i]);
            assert(line.contains(line[i]));
        }
        assert(text[line.len() as int] == '\n');
        lemma_first_position_is(text, '\n', line.len() as int);
        assert(text.take(line.len() as int) =~= line);
        assert(text.skip(line.len() as int + 1) =~= ledger_text(rest));
        assert(seq![line] + entry_lines(rest).push(Seq::empty()) =~= entry_lines(entries).push(
            Seq::empty(),
        ));
    }
}

proof fn lemma_lines_are_read_back(entries: Seq<Entry<u32>>, limit: u32)
    requires
        keys_differ(entries),
        forall|i: int|
            0 <= i < entries.len() ==> is_ledger_name((#[trigger] entries[i]).key@)
                && entries[i].value <= limit,
    ensures
        ledger_read(entry_lines(entries), limit) == map_of(entries),
    decreases entries.len(),
{
    if entries.len() == 0 {
        assert(map_of(entries) =~= Map::<Seq<char>, u32>::empty());
    } else {
        let shorter = entries.drop_last();
        let last = entries.last();
        assert forall|i: int, j: int| 0 <= i < j < shorter.len() implies (
        #[trigger] shorter[i]).key@ != (#[trigger] shorter[j]).key@ by {
            assert(entries[i].key@ != entries[j].key@);
        }
        assert forall|i: int| 0 <= i < shorter.len() implies is_ledger_name(
            (#[trigger] shorter[i]).key@,
        ) && shorter[i].value <= limit by {
            assert(shorter[i] == entries[i]);
        }
        lemma_lines_are_read_back(shorter, limit);
        assert(entries[entries.len() - 1] == last);
        lemma_line_is_read_back(last.key@, last.value, limit);
        assert(entry_lines(entries).drop_last() =~= entry_lines(shorter));
        assert(!has_key(shorter, last.key@)) by {
            if has_key(shorter, last.key@) {
                let i = choose|i: int|
                    0 <= i < shorter.len() && (#[trigger] shorter[i]).key@ == last.key@;
                assert(entries[i].key@ != entries[entries.len() - 1].key@);
            }
        }
        lemma_pushed(shorter, last);
        assert(entries =~= shorter.push(last));
    }
}

/// A ledger that is written and read again is the same ledger.
pub proof fn lemma_ledger_is_read_back(ledger: VelocityBudget)
    requires
        ledger.well_formed(),
        forall|team: Seq<char>| #[trigger]
            ledger.used@.dom().contains(team) ==> is_ledger_name(team),
    ensures
        ledger_read(pieces(ledger_text(ledger.used.entries@), '\n'), ledger.limit) == ledger.used@,
{
    let entries = ledger.used.entries@;
    let lines = entry_lines(entries);
    lemma_map_of(entries);
    assert forall|i: int| 0 <= i < entries.len() implies is_ledger_name(
        (#[trigger] entries[i]).key@,
    ) && entries[i].value <= ledger.limit by {
        assert(ledger.used@.dom().contains(entries[i].key@));
    }
    lemma_ledger_pieces(entries, ledger.limit);
    lemma_lines_are_read_back(entries, ledger.limit);
    assert(lines.push(Seq::empty()).drop_last() =~= lines);
    assert(line_entry(Seq::empty(), ledger.limit) is None);
}

/// The identifier of a team can stand in the ledger's file.
pub proof fn lemma_team_names_fit_the_ledger(name: Seq<char>)
    requires
        is_team_name(name),
    ensures
        is_ledger_name(lower(name)),
{
    let team = lower(name);
    lemma_lower_idempotent(name);
    assert forall|i: int| 0 <= i < team.len() implies is_team_char(#[trigger] team[i]) by {
        assert(is_team_char(name[i]));
    }
    assert(team.len() > 0);
    assert(is_team_char(team[0]) && is_team_char(team[team.len() - 1]));
    lemma_nothing_to_trim(team);
    assert forall|i: int| 0 <= i < team.len() implies team[i] != ',' && team[i] != '\n' by {
        assert(is_team_char(team[i]));
    }
}

} // verus!
