//! The ledger of velocity attempts: how teams stand, and how the ledger is written and read.

use crate::json::Json;
use crate::laws::commands::attempts_of;
use crate::text::{decimal_text, lemma_first_position_is, lower, parsed_unsigned, trimmed};
use crate::text_map::Entry;
use crate::velocity_budget::{
    ledger_fields, ledger_line, ledger_read, ledger_text, line_entry, BudgetState, VelocityBudget,
};
use vstd::prelude::*;

verus! {

/// How a team stands: the attempts that the ledger has for it, none for a team that it does not
/// know, out of the same limit for all.
pub proof fn lemma_team_states(ledger: VelocityBudget, team: Seq<char>, state: BudgetState)
    requires
        ledger.well_formed(),
        state.tells(ledger.budget_of(team)),
    ensures
        state.device_id@ == team,
        state.credential_id@ == team,
        state.limit == ledger.limit,
        state.used == attempts_of(ledger.used@, team),
        state.used <= state.limit,
        state.remaining == state.limit - state.used,
        state.budget_version@ == "velocity-budget.v1"@,
{
}

/// A line of the ledger's file: what stands before its first comma names the team, in small letters
/// and without the white space around it, and what stands behind it is the number of attempts,
/// which counts as far as the limit. Lines without a comma or a number say nothing.
pub proof fn lemma_ledger_lines(head: Seq<char>, tail: Seq<char>, limit: u32)
    requires
        !head.contains(','),
    ensures
        line_entry(head, limit) is None,
        ({
            let line = head.push(',') + tail;
            let number = parsed_unsigned(trimmed(tail), 0xffff_ffff);
            &&& line_entry(line, limit) is Some <==> number is Some
            &&& number is Some ==> (line_entry(line, limit)->0).0 == lower(trimmed(head))
            &&& number is Some && number->0 <= limit ==> (line_entry(line, limit)->0).1
                == number->0
            &&& number is Some && number->0 > limit ==> (line_entry(line, limit)->0).1 == limit
        }),
{
    assert forall|i: int| 0 <= i < head.len() implies head[i] != ',' by {
        assert(head.contains(head[i]));
    }
    lemma_first_position_is(head, ',', head.len() as int);
    let line = head.push(',') + tail;
    assert forall|i: int| 0 <= i < head.len() implies line[i] != ',' by {
        assert(line[i] == head[i]);
    }
    lemma_first_position_is(line, ',', head.len() as int);
    assert(line.take(head.len() as int) =~= head);
    assert(line.skip(head.len() as int + 1) =~= tail);
}

/// The lines of a file are read one after the other: a line that says something of a team replaces
/// what was said of it before, and touches no other team.
pub proof fn lemma_ledger_files(lines: Seq<Seq<char>>, line: Seq<char>, limit: u32)
    ensures
        ledger_read(Seq::empty(), limit).dom() == Set::<Seq<char>>::empty(),
        line_entry(line, limit) is None ==> ledger_read(lines.push(line), limit) == ledger_read(
            lines,
            limit,
        ),
        line_entry(line, limit) is Some ==> {
            let (team, used) = line_entry(line, limit)->0;
            let before = ledger_read(lines, limit);
            let after = ledger_read(lines.push(line), limit);
            &&& attempts_of(after, team) == used
            &&& after.dom().contains(team)
            &&& forall|other: Seq<char>|
                other != team ==> (#[trigger] after.dom().contains(other)
                    <==> before.dom().contains(other))
            &&& forall|other: Seq<char>|
                other != team ==> #[trigger] attempts_of(after, other) == attempts_of(
                    before,
                    other,
                )
        },
{
    assert(lines.push(line).drop_last() =~= lines);
    assert(Map::<Seq<char>, u32>::empty().dom() =~= Set::<Seq<char>>::empty());
}

/// The ledger is written with one line for each team: its name, a comma, its attempts in decimal
/// notation, and a line feed. The document to look at has a number under each team's name.
pub proof fn lemma_written_ledgers(entries: Seq<Entry<u32>>)
    ensures
        entries.len() == 0 ==> ledger_text(entries).len() == 0,
        entries.len() > 0 ==> ledger_text(entries) == entries[0].key@.push(',') + decimal_text(
            entries[0].value as nat,
        ).push('\n') + ledger_text(entries.drop_first()),
        ledger_fields(entries).len() == entries.len(),
        forall|i: int|
            0 <= i < entries.len() ==> #[trigger] ledger_fields(entries)[i] == (
                entries[i].key@,
                Json::Number(entries[i].value as u64),
            ),
{
    reveal_strlit(",");
    reveal_strlit("\n");
    if entries.len() > 0 {
        let team = entries[0].key@;
        let number = decimal_text(entries[0].value as nat);
        assert(ledger_line(team, entries[0].value) + "\n"@ =~= team.push(',') + number.push('\n'));
    }
}

} // verus!
