//! Countries and the relations between them.

use vstd::prelude::*;
use crate::search::any_match;

verus! {

/// A real-valued quantity of the game (money, a percentage, a strength),
/// held as the bit pattern of an IEEE-754 binary64 number. The library
/// carries such quantities from place to place and never computes with them.
#[derive(Clone, Copy, PartialEq, Eq, Structural, Debug)]
pub struct Real {
    pub bits: u64,
}

/// The binary64 bit pattern of 1.
pub const ONE_BITS: u64 = 0x3FF0_0000_0000_0000u64;

/// The binary64 bit pattern of 10.
pub const TEN_BITS: u64 = 0x4024_0000_0000_0000u64;

impl Real {
    /// The quantity whose binary64 bit pattern is `bits`.
    pub fn from_bits(bits: u64) -> (r: Real)
        ensures
            r.bits == bits,
    {
        Real { bits }
    }

    /// The quantity zero (`+0.0`).
    pub open spec fn zero_spec() -> Real {
        Real { bits: 0 }
    }

    /// The quantity zero (`+0.0`).
    #[verifier::when_used_as_spec(zero_spec)]
    pub fn zero() -> (r: Real)
        ensures
            r == Real::zero_spec(),
    {
        Real { bits: 0 }
    }
}

#[derive(Clone, Debug)]
pub struct Country {
    pub id: String,
    pub name: String,
    pub capital: String,
    pub continent: String,
    pub population: u64,
    pub gdp: Real,
    pub gdp_growth: Real,
    pub military_power: MilitaryPower,
    pub tech_level: TechLevel,
    pub government_type: String,
    pub ideology: String,
    pub stability: Real,
    pub resources: Vec<String>,
    pub neighbors: Vec<String>,
    pub active_wars: Vec<String>,
    pub alliances: Vec<String>,
    pub trade_partners: Vec<TradeRelation>,
    pub controlled_territory: Vec<String>,
    pub is_player_controlled: bool,
    pub color: String,
}

#[derive(Clone, Copy, PartialEq, Eq, Structural, Debug)]
pub struct MilitaryPower {
    pub army_strength: Real,
    pub navy_strength: Real,
    pub air_force_strength: Real,
    pub mobilization_pct: Real,
    pub manpower_reserves: u64,
    pub technology_bonus: Real,
    pub morale: Real,
}

#[derive(Clone, Copy, PartialEq, Eq, Structural, Debug)]
pub enum TechLevel {
    PreIndustrial,
    EarlyIndustrial,
    Industrial,
    Modern,
    Advanced,
    Futuristic,
}

#[derive(Clone, Debug)]
pub struct TradeRelation {
    pub partner_id: String,
    pub export_goods: Vec<String>,
    pub import_goods: Vec<String>,
    pub trade_volume: Real,
    pub status: TradeStatus,
}

#[derive(Clone, Copy, PartialEq, Eq, Structural, Debug)]
pub enum TradeStatus {
    Active,
    Strained,
    Embargoed,
}

#[derive(Clone, Debug)]
pub struct DiplomaticRelation {
    pub country_a: String,
    pub country_b: String,
    pub stance: DiplomaticStance,
    pub trust: Real,
    pub treaties: Vec<Treaty>,
}

#[derive(Clone, Copy, PartialEq, Eq, Structural, Debug)]
pub enum DiplomaticStance {
    Allied,
    Friendly,
    Neutral,
    Wary,
    Hostile,
    AtWar,
}

#[derive(Clone, Debug, PartialEq, Eq)]
pub enum Treaty {
    NonAggressionPact,
    TradeAgreement,
    MilitaryAlliance,
    PeaceTreaty { conditions: String },
}

/// The trade relation is embargoed.
pub open spec fn is_embargoed(t: TradeRelation) -> bool {
    t.status == TradeStatus::Embargoed
}

impl Country {
    /// The country takes part in at least one war.
    pub fn is_at_war(&self) -> (r: bool)
        ensures
            r == (self.active_wars@.len() > 0),
    {
        self.active_wars.len() > 0
    }

    /// Some trade relation of the country is embargoed.
    pub fn has_embargoed_trade(&self) -> (r: bool)
        ensures
            r == any_match(self.trade_partners@, |t: TradeRelation| is_embargoed(t)),
    {
        let mut i: usize = 0;
        while i < self.trade_partners.len()
            invariant
                i <= self.trade_partners@.len(),
                forall|j: int| 0 <= j < i ==> !is_embargoed(#[trigger] self.trade_partners@[j]),
            decreases self.trade_partners.len() - i,
        {
            if self.trade_partners[i].status == TradeStatus::Embargoed {
                return true;
            }
            i = i + 1;
        }
        false
    }
}

} // verus!
