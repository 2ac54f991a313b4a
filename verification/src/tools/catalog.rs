//! The tools that the simulation engine may call, by name.

use vstd::prelude::*;

verus! {

#[derive(Clone, Copy, PartialEq, Eq, Structural, Debug)]
pub enum Tool {
    GetCountryStatus,
    GetPlayerStatus,
    GetNeighbors,
    GetWorldSituation,
    DeclareWar,
    MobilizeForces,
    SueForPeace,
    NegotiateTrade,
    FormAlliance,
    PassPolicy,
    SetBudget,
    AdvanceTurn,
}

/// The name under which the tool is called.
pub open spec fn tool_name(t: Tool) -> Seq<char> {
    match t {
        Tool::GetCountryStatus => "get_country_status"@,
        Tool::GetPlayerStatus => "get_player_status"@,
        Tool::GetNeighbors => "get_neighbors"@,
        Tool::GetWorldSituation => "get_world_situation"@,
        Tool::DeclareWar => "declare_war"@,
        Tool::MobilizeForces => "mobilize_forces"@,
        Tool::SueForPeace => "sue_for_peace"@,
        Tool::NegotiateTrade => "negotiate_trade"@,
        Tool::FormAlliance => "form_alliance"@,
        Tool::PassPolicy => "pass_policy"@,
        Tool::SetBudget => "set_budget"@,
        Tool::AdvanceTurn => "advance_turn"@,
    }
}

/// What the tool does, as offered to the simulation engine.
pub open spec fn tool_description(t: Tool) -> Seq<char> {
    match t {
        Tool::GetCountryStatus => "Get full information about a country by its ID."@,
        Tool::GetPlayerStatus => "Get information about the player's own country."@,
        Tool::GetNeighbors => "Get a list of neighboring countries and their diplomatic stances."@,
        Tool::GetWorldSituation => "Get a summary of all active wars, world events, and global economy."@,
        Tool::DeclareWar => "Declare war on a target country with a justification and military resource allocation."@,
        Tool::MobilizeForces => "Mobilize military forces to a target border with a specified force size and focus (land, air, or naval)."@,
        Tool::SueForPeace => "Offer peace terms to a country you are at war with."@,
        Tool::NegotiateTrade => "Propose a trade deal with another country, offering and requesting resources."@,
        Tool::FormAlliance => "Form an alliance pact with another country (defensive, full, or economic)."@,
        Tool::PassPolicy => "Enact a domestic policy affecting your country."@,
        Tool::SetBudget => "Allocate the national budget across military, infrastructure, welfare, and research as percentages of GDP."@,
        Tool::AdvanceTurn => "Advance the game by one turn, resolving all pending actions, wars, and economic updates."@,
    }
}

/// Every tool, in the order in which they are offered.
pub open spec fn all_tools() -> Seq<Tool> {
    seq![
        Tool::GetCountryStatus,
        Tool::GetPlayerStatus,
        Tool::GetNeighbors,
        Tool::GetWorldSituation,
        Tool::DeclareWar,
        Tool::MobilizeForces,
        Tool::SueForPeace,
        Tool::NegotiateTrade,
        Tool::FormAlliance,
        Tool::PassPolicy,
        Tool::SetBudget,
        Tool::AdvanceTurn,
    ]
}

impl Tool {
    /// The name under which the tool is called.
    pub fn name(&self) -> (r: &'static str)
        ensures
            r@ == tool_name(*self),
    {
        match self {
            Tool::GetCountryStatus => "get_country_status",
            Tool::GetPlayerStatus => "get_player_status",
            Tool::GetNeighbors => "get_neighbors",
            Tool::GetWorldSituation => "get_world_situation",
            Tool::DeclareWar => "declare_war",
            Tool::MobilizeForces => "mobilize_forces",
            Tool::SueForPeace => "sue_for_peace",
            Tool::NegotiateTrade => "negotiate_trade",
            Tool::FormAlliance => "form_alliance",
            Tool::PassPolicy => "pass_policy",
            Tool::SetBudget => "set_budget",
            Tool::AdvanceTurn => "advance_turn",
        }
    }

    /// What the tool does, as offered to the simulation engine.
    pub fn description(&self) -> (r: &'static str)
        ensures
            r@ == tool_description(*self),
    {
        match self {
            Tool::GetCountryStatus => "Get full information about a country by its ID.",
            Tool::GetPlayerStatus => "Get information about the player's own country.",
            Tool::GetNeighbors => "Get a list of neighboring countries and their diplomatic stances.",
            Tool::GetWorldSituation => "Get a summary of all active wars, world events, and global economy.",
            Tool::DeclareWar => "Declare war on a target country with a justification and military resource allocation.",
            Tool::MobilizeForces => "Mobilize military forces to a target border with a specified force size and focus (land, air, or naval).",
            Tool::SueForPeace => "Offer peace terms to a country you are at war with.",
            Tool::NegotiateTrade => "Propose a trade deal with another country, offering and requesting resources.",
            Tool::FormAlliance => "Form an alliance pact with another country (defensive, full, or economic).",
            Tool::PassPolicy => "Enact a domestic policy affecting your country.",
            Tool::SetBudget => "Allocate the national budget across military, infrastructure, welfare, and research as percentages of GDP.",
            Tool::AdvanceTurn => "Advance the game by one turn, resolving all pending actions, wars, and economic updates.",
        }
    }

    /// Every tool, in the order in which they are offered.
    pub fn all() -> (r: Vec<Tool>)
        ensures
            r@ == all_tools(),
    {
        let r = vec![
            Tool::GetCountryStatus,
            Tool::GetPlayerStatus,
            Tool::GetNeighbors,
            Tool::GetWorldSituation,
            Tool::DeclareWar,
            Tool::MobilizeForces,
            Tool::SueForPeace,
            Tool::NegotiateTrade,
            Tool::FormAlliance,
            Tool::PassPolicy,
            Tool::SetBudget,
            Tool::AdvanceTurn,
        ];
        assert(r@ =~= all_tools());
        r
    }

    /// The tool called `name`; for any other name, the error that reports it
    /// as unknown.
    pub fn from_name(name: &str) -> (r: Result<Tool, String>)
        ensures
            match r {
                Ok(t) => tool_name(t) == name@,
                Err(e) => (forall|t: Tool| tool_name(t) != name@) && e@ == "Unknown tool: "@ + name@,
            },
    {
        let tools = Tool::all();
        let mut i: usize = 0;
        while i < tools.len()
            invariant
                tools@ == all_tools(),
                i <= tools@.len(),
                forall|j: int| 0 <= j < i ==> tool_name(#[trigger] tools@[j]) != name@,
            decreases tools.len() - i,
        {
            if crate::text::same_text(tools[i].name(), name) {
                return Ok(tools[i]);
            }
            i = i + 1;
        }
        proof {
            assert forall|t: Tool| tool_name(t) != name@ by {
                match t {
                    Tool::GetCountryStatus => assert(tools@[0] == t),
                    Tool::GetPlayerStatus => assert(tools@[1] == t),
                    Tool::GetNeighbors => assert(tools@[2] == t),
                    Tool::GetWorldSituation => assert(tools@[3] == t),
                    Tool::DeclareWar => assert(tools@[4] == t),
                    Tool::MobilizeForces => assert(tools@[5] == t),
                    Tool::SueForPeace => assert(tools@[6] == t),
                    Tool::NegotiateTrade => assert(tools@[7] == t),
                    Tool::FormAlliance => assert(tools@[8] == t),
                    Tool::PassPolicy => assert(tools@[9] == t),
                    Tool::SetBudget => assert(tools@[10] == t),
                    Tool::AdvanceTurn => assert(tools@[11] == t),
                }
            }
        }
        Err(crate::text::join2("Unknown tool: ", name))
    }
}

/// Distinct tools have distinct names, so a tool is found again by its name.
pub proof fn lemma_tool_names_distinct(a: Tool, b: Tool)
    requires
        a != b,
    ensures
        tool_name(a) != tool_name(b),
{
    reveal_strlit("get_country_status");
    reveal_strlit("get_player_status");
    reveal_strlit("get_neighbors");
    reveal_strlit("get_world_situation");
    reveal_strlit("declare_war");
    reveal_strlit("mobilize_forces");
    reveal_strlit("sue_for_peace");
    reveal_strlit("negotiate_trade");
    reveal_strlit("form_alliance");
    reveal_strlit("pass_policy");
    reveal_strlit("set_budget");
    reveal_strlit("advance_turn");
    let na = tool_name(a);
    let nb = tool_name(b);
    if na.len() == nb.len() {
        assert(na[0] != nb[0] || na[1] != nb[1] || na[2] != nb[2] || na[4] != nb[4] || na[5] != nb[5]
            || na[6] != nb[6] || na[7] != nb[7] || na[9] != nb[9]);
    }
}

} // verus!
