//! Diplomatic actions between countries.

use vstd::prelude::*;
use super::country::Real;

verus! {

#[derive(Clone, Debug)]
pub struct DiplomaticAction {
    pub actor: String,
    pub target: String,
    pub action_type: DiplomaticActionType,
    pub timestamp_turn: u64,
    pub accepted: Option<bool>,
    pub description: String,
}

#[derive(Clone, Copy, PartialEq, Eq, Structural, Debug)]
pub enum DiplomaticActionType {
    ProposeAlliance,
    BreakAlliance,
    ProposeTrade,
    DeclareWar,
    SueForPeace,
    NonAggressionPact,
    GuaranteeIndependence,
    SendAid { amount: Real },
    ImposeEmbargo,
    LiftEmbargo,
}

} // verus!
