//! The strategic advisor, which reviews a directive before it is carried out.

use vstd::prelude::*;
use crate::context::player_name_or_unknown;
use crate::game::state::GameState;

verus! {

/// The opening of the advisor's instructions, up to the player's country.
pub const ADVISOR_OPENING: &'static str = "You are a strategic advisor to the leader of ";

/// The rest of the advisor's instructions.
pub const ADVISOR_BRIEF: &'static str = ". Your role is to analyze the proposed course of action and provide:\n\n1. RISK ASSESSMENT: What could go wrong?\n2. STRATEGIC CONTEXT: What factors should be considered?\n3. ALTERNATIVE APPROACHES: What other options exist?\n4. REFINED DIRECTIVE: A clearer, more strategic version of the directive.\n\nBe concise but thorough. The player will see your advice before executing the directive.";

/// The advisor's instructions for a game in state `s`.
pub open spec fn advisor_prompt_text(s: GameState) -> Seq<char> {
    ADVISOR_OPENING@ + player_name_or_unknown(s) + ADVISOR_BRIEF@
}

/// The advisor's instructions: it advises the leader of the player's country.
pub fn advisor_system_prompt(state: &GameState) -> (r: String)
    ensures
        r@ == advisor_prompt_text(*state),
{
    let player_name = match &state.player_country_id {
        Some(id) => state.name_or(id.as_str(), "Unknown"),
        None => "Unknown".to_owned(),
    };
    let mut out = ADVISOR_OPENING.to_owned();
    out.append(player_name.as_str());
    out.append(ADVISOR_BRIEF);
    out
}

} // verus!
