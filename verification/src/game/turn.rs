//! Closing a turn: its summary in the history, and the report of it.

use vstd::prelude::*;
use super::state::{EconomicChange, GameState, TurnSummary, WarUpdate};
use crate::text::{decimal, push_decimal, push_signed_decimal, signed_decimal};

verus! {

/// The position from which the last `count` of `len` items start.
pub open spec fn tail_start_spec(len: usize, count: usize) -> usize {
    if len > count { (len - count) as usize } else { 0 }
}

/// The position from which the last `count` of `len` items start.
#[verifier::when_used_as_spec(tail_start_spec)]
pub fn tail_start(len: usize, count: usize) -> (r: usize)
    ensures
        r == tail_start_spec(len, count),
{
    if len > count { len - count } else { 0 }
}

/// The descriptions of the economic changes.
pub open spec fn change_descriptions(changes: Seq<EconomicChange>) -> Seq<Seq<char>> {
    changes.map_values(|c: EconomicChange| c.description@)
}

/// The descriptions of the war updates.
pub open spec fn update_descriptions(updates: Seq<WarUpdate>) -> Seq<Seq<char>> {
    updates.map_values(|u: WarUpdate| u.description@)
}

/// Each item on a line of its own, indented by two spaces.
pub open spec fn indented_lines(items: Seq<Seq<char>>) -> Seq<char>
    decreases items.len(),
{
    if items.len() == 0 {
        Seq::empty()
    } else {
        indented_lines(items.drop_last()) + "  "@ + items.last() + "\n"@
    }
}

/// The report of a turn that `turn_report` writes.
pub open spec fn turn_report_text(s: GameState, changes: Seq<EconomicChange>, updates: Seq<WarUpdate>) -> Seq<char> {
    "=== Turn "@ + decimal(s.turn_number as nat) + " Complete ===\nDate: "@
        + signed_decimal(s.current_month as int) + "/"@ + signed_decimal(s.current_year as int) + "\n\n"@
        + "-- Economic Changes --\n"@ + indented_lines(change_descriptions(changes))
        + "\n-- War Updates --\n"@
        + if updates.len() == 0 { "  No changes on active fronts.\n"@ } else { indented_lines(update_descriptions(updates)) }
}

/// Appends each description on a line of its own, indented by two spaces.
fn push_indented(out: &mut String, items: &Vec<String>)
    ensures
        final(out)@ == old(out)@ + indented_lines(items@.map_values(|s: String| s@)),
{
    let ghost all = items@.map_values(|s: String| s@);
    let mut i: usize = 0;
    while i < items.len()
        invariant
            i <= items@.len(),
            all == items@.map_values(|s: String| s@),
            out@ == old(out)@ + indented_lines(all.take(i as int)),
        decreases items.len() - i,
    {
        proof {
            assert(all.take(i + 1).drop_last() =~= all.take(i as int));
        }
        out.append("  ");
        out.append(items[i].as_str());
        out.append("\n");
        i = i + 1;
    }
    assert(all.take(items@.len() as int) =~= all);
}

/// The descriptions of the economic changes, in order.
fn describe_changes(changes: &Vec<EconomicChange>) -> (r: Vec<String>)
    ensures
        r@.map_values(|s: String| s@) == change_descriptions(changes@),
{
    let mut out: Vec<String> = Vec::new();
    let mut i: usize = 0;
    while i < changes.len()
        invariant
            i <= changes@.len(),
            out@.len() == i,
            forall|j: int| 0 <= j < i ==> (#[trigger] out@[j])@ == changes@[j].description@,
        decreases changes.len() - i,
    {
        out.push(changes[i].description.clone());
        i = i + 1;
    }
    assert(out@.map_values(|s: String| s@) =~= change_descriptions(changes@));
    out
}

/// The descriptions of the war updates, in order.
fn describe_updates(updates: &Vec<WarUpdate>) -> (r: Vec<String>)
    ensures
        r@.map_values(|s: String| s@) == update_descriptions(updates@),
{
    let mut out: Vec<String> = Vec::new();
    let mut i: usize = 0;
    while i < updates.len()
        invariant
            i <= updates@.len(),
            out@.len() == i,
            forall|j: int| 0 <= j < i ==> (#[trigger] out@[j])@ == updates@[j].description@,
        decreases updates.len() - i,
    {
        out.push(updates[i].description.clone());
        i = i + 1;
    }
    assert(out@.map_values(|s: String| s@) =~= update_descriptions(updates@));
    out
}

impl GameState {
    /// Records the turn that just ended in the history: its date, the
    /// economic changes (and their descriptions as the results) and the war
    /// updates.
    pub fn record_turn(&mut self, economic_changes: Vec<EconomicChange>, war_updates: Vec<WarUpdate>)
        ensures
            final(self).turn_history@.len() == old(self).turn_history@.len() + 1,
            final(self).turn_history@.drop_last() == old(self).turn_history@,
            ({
                let t = final(self).turn_history@.last();
                &&& t.turn == old(self).turn_number
                &&& t.year == old(self).current_year
                &&& t.month == old(self).current_month
                &&& t.player_action@ == "Turn advanced"@
                &&& t.results@.map_values(|s: String| s@) == change_descriptions(economic_changes@)
                &&& t.territory_changes@.len() == 0
                &&& t.war_updates@ == war_updates@
                &&& t.economic_changes@ == economic_changes@
                &&& t.new_events@.len() == 0
            }),
            *final(self) == (GameState { turn_history: final(self).turn_history, ..*old(self) }),
            old(self).well_formed() ==> final(self).well_formed(),
    {
        let results = describe_changes(&economic_changes);
        let summary = TurnSummary {
            turn: self.turn_number,
            year: self.current_year,
            month: self.current_month,
            player_action: "Turn advanced".to_owned(),
            results,
            territory_changes: Vec::new(),
            war_updates,
            economic_changes,
            new_events: Vec::new(),
        };
        self.turn_history.push(summary);
        assert(self.turn_history@.drop_last() =~= old(self).turn_history@);
    }

    /// The report of the turn: its number and date, the economic changes and
    /// the war updates, one per line.
    pub fn turn_report(&self, economic_changes: &Vec<EconomicChange>, war_updates: &Vec<WarUpdate>) -> (r: String)
        ensures
            r@ == turn_report_text(*self, economic_changes@, war_updates@),
    {
        let mut out = "=== Turn ".to_owned();
        push_decimal(&mut out, self.turn_number);
        out.append(" Complete ===\nDate: ");
        push_signed_decimal(&mut out, self.current_month);
        out.append("/");
        push_signed_decimal(&mut out, self.current_year);
        out.append("\n\n");
        out.append("-- Economic Changes --\n");
        let descriptions = describe_changes(economic_changes);
        push_indented(&mut out, &descriptions);
        out.append("\n-- War Updates --\n");
        if war_updates.len() == 0 {
            out.append("  No changes on active fronts.\n");
        } else {
            let lines = describe_updates(war_updates);
            push_indented(&mut out, &lines);
        }
        out
    }
}

} // verus!
