//! Wars, their fronts and battles.

use vstd::prelude::*;
use super::country::Real;
use crate::search::{contains_text, has_text};

verus! {

#[derive(Clone, Debug)]
pub struct War {
    pub id: String,
    pub name: String,
    pub attackers: Vec<String>,
    pub defenders: Vec<String>,
    pub start_turn: u64,
    pub start_year: i32,
    pub start_month: i32,
    pub end_turn: Option<u64>,
    pub status: WarStatus,
    pub fronts: Vec<Front>,
    pub war_type: WarType,
    pub justification: String,
    pub war_score: Real,
    pub battles: Vec<Battle>,
}

#[derive(Clone, Copy, PartialEq, Eq, Structural, Debug)]
pub enum WarStatus {
    Ongoing,
    AttackerVictory,
    DefenderVictory,
    Stalemate,
    Ceasefire,
}

#[derive(Clone, Copy, PartialEq, Eq, Structural, Debug)]
pub enum WarType {
    TotalWar,
    LimitedWar,
    ProxyWar,
    NavalWar,
    BorderConflict,
}

#[derive(Clone, Debug)]
pub struct Front {
    pub name: String,
    pub location: String,
    pub attacker_progress: Real,
    pub involved_countries: Vec<String>,
    pub terrain: TerrainType,
    pub active: bool,
}

#[derive(Clone, Copy, PartialEq, Eq, Structural, Debug)]
pub enum TerrainType {
    Plains,
    Mountains,
    Desert,
    Forest,
    Urban,
    Naval,
    Coastal,
}

#[derive(Clone, Debug)]
pub struct Battle {
    pub name: String,
    pub location: String,
    pub turn: u64,
    pub attacker: String,
    pub defender: String,
    pub outcome: BattleOutcome,
    pub casualties_attacker: u64,
    pub casualties_defender: u64,
}

#[derive(Clone, Copy, PartialEq, Eq, Structural, Debug)]
pub enum BattleOutcome {
    AttackerVictory,
    DefenderVictory,
    PyrrhicAttacker,
    PyrrhicDefender,
    Stalemate,
    Ongoing,
}

/// The country takes part in the war, on either side.
pub open spec fn involves(w: War, country: Seq<char>) -> bool {
    contains_text(w.attackers@, country) || contains_text(w.defenders@, country)
}

impl War {
    /// Whether the country is among the attackers or the defenders.
    pub fn is_involved(&self, country_id: &str) -> (r: bool)
        ensures
            r == involves(*self, country_id@),
    {
        has_text(&self.attackers, country_id) || has_text(&self.defenders, country_id)
    }
}

} // verus!
