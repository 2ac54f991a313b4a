//! The instructions that set up the simulation engine for a game.

use vstd::prelude::*;
use crate::game::state::{country_pos, country_with_id, GameState};
use crate::search::{is_first_match, lemma_first_match, lemma_first_match_at};
use crate::tools::executors::name_or;
use crate::text::{decimal, push_decimal, push_signed_decimal, signed_decimal};

verus! {

/// The name of the player's country, or "Unknown" when none is selected or
/// present.
pub open spec fn player_name_or_unknown(s: GameState) -> Seq<char> {
    match s.player_country_id {
        Some(id) => name_or(s.countries@, id@, "Unknown"@),
        None => "Unknown"@,
    }
}

/// The system prompt of a game in state `s`.
pub open spec fn system_prompt_text(s: GameState) -> Seq<char> {
    P0@ + s.scenario_name@ + P1@ + signed_decimal(s.current_month as int) + P2@
        + signed_decimal(s.current_year as int) + P3@ + decimal(s.turn_number as nat) + P4@
        + player_name_or_unknown(s) + P5@
}

/// The opening of the system prompt, up to the scenario.
pub const P0: &'static str = "You are the simulation engine for an alternate history grand strategy game.\n\nCurrent Scenario: ";

/// What follows the scenario, up to the month.
pub const P1: &'static str = "\nDate: ";

/// Between the month and the year.
pub const P2: &'static str = "/";

/// What follows the year, up to the turn.
pub const P3: &'static str = "\nTurn: ";

/// What follows the turn, up to the player's country.
pub const P4: &'static str = "\nPlayer Country: ";

/// The rules that close the system prompt.
pub const P5: &'static str = "\n\nYou control the world's response to the player's decisions. You must simulate realistic geopolitical, economic, and military outcomes. Use the provided tools to interact with the game state — query information, declare wars, negotiate, pass policies, and advance turns.\n\nIMPORTANT RULES:\n1. Always use tools to interact with the game state, do not make up outcomes\n2. When the player issues a directive, determine what tools to call to execute it\n3. After executing tools, provide a narrative summary of what happened\n4. Be realistic — consider military strength, economy, geography, and diplomacy\n5. AI-controlled countries act in their own strategic interest\n6. Call advance_turn when the player wants to see results of their actions\n7. Territory changes happen when war progress reaches 100% on a front\n8. Always respond with the narrative of events, not just raw tool output";

/// The text `t` ends with `suffix`.
pub open spec fn ends_with(t: Seq<char>, suffix: Seq<char>) -> bool {
    suffix.len() <= t.len() && t.subrange(t.len() - suffix.len(), t.len() as int) == suffix
}

/// The system prompt names the player's country: when the player's
/// identifier is that of a country (the first that has it), the prompt ends
/// with the player-country line giving that country's name, then the rules;
/// when no country is selected, or none has the identifier, the line says
/// "Unknown".
pub proof fn lemma_prompt_names_player(s: GameState, prompt: Seq<char>)
    requires
        prompt == system_prompt_text(s),
    ensures
        forall|k: int| 0 <= k < s.countries@.len() && s.player_country_id is Some
            && (#[trigger] s.countries@[k]).id@ == s.player_country_id->0@
            && (forall|j: int| 0 <= j < k ==> s.countries@[j].id@ != s.player_country_id->0@)
            ==> ends_with(prompt, P4@ + s.countries@[k].name@ + P5@),
        (s.player_country_id is None || forall|k: int| 0 <= k < s.countries@.len()
            ==> (#[trigger] s.countries@[k]).id@ != s.player_country_id->0@)
            ==> ends_with(prompt, P4@ + "Unknown"@ + P5@),
{
    let head = P0@ + s.scenario_name@ + P1@ + signed_decimal(s.current_month as int) + P2@
        + signed_decimal(s.current_year as int) + P3@ + decimal(s.turn_number as nat);
    let name = player_name_or_unknown(s);
    let tail = P4@ + name + P5@;
    assert(prompt =~= head + tail);
    assert(prompt.subrange(prompt.len() - tail.len(), prompt.len() as int) =~= tail);
    assert(ends_with(prompt, tail));
    if let Some(id) = s.player_country_id {
        let p = country_with_id(id@);
        lemma_first_match(s.countries@, p);
        assert forall|k: int| 0 <= k < s.countries@.len()
            && (#[trigger] s.countries@[k]).id@ == id@
            && (forall|j: int| 0 <= j < k ==> s.countries@[j].id@ != id@)
            implies name == s.countries@[k].name@ by {
            assert(is_first_match(s.countries@, p, k));
            lemma_first_match_at(s.countries@, p, k);
        }
        if forall|k: int| 0 <= k < s.countries@.len() ==> (#[trigger] s.countries@[k]).id@ != id@ {
            assert(country_pos(s.countries@, id@) is None) by {
                if country_pos(s.countries@, id@) is Some {
                    let k = country_pos(s.countries@, id@)->0;
                    assert(p(s.countries@[k]));
                }
            }
        }
    }
}

/// The system prompt for a game in this state: the scenario, date, turn and
/// player's country, then the rules of the simulation.
pub fn build_system_prompt(state: &GameState) -> (r: String)
    ensures
        r@ == system_prompt_text(*state),
{
    let player_name = match &state.player_country_id {
        Some(id) => state.name_or(id.as_str(), "Unknown"),
        None => "Unknown".to_owned(),
    };
    let mut out = P0.to_owned();
    out.append(state.scenario_name.as_str());
    out.append(P1);
    push_signed_decimal(&mut out, state.current_month);
    out.append(P2);
    push_signed_decimal(&mut out, state.current_year);
    out.append(P3);
    push_decimal(&mut out, state.turn_number);
    out.append(P4);
    out.append(player_name.as_str());
    out.append(P5);
    out
}

} // verus!
