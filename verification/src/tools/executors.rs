//! The handlers of the tools: each checks its arguments in order, answers
//! the first that fails with its error, and otherwise acts on the game state.
//! Reading arguments out of a call and writing answers back is left to the
//! caller; numbers arrive as `Real` quantities (with the text that renders
//! them where a handler writes them into the record).

use vstd::prelude::*;
use crate::game::country::{Country, DiplomaticRelation, DiplomaticStance, Real, TradeRelation, TradeStatus, Treaty, ONE_BITS, TEN_BITS};
use crate::game::state::{at_war, country_ids_kept, country_pos, lemma_country_ids_kept, lemma_war_ids_kept, relation_between, relation_pos, stance_between, stance_set, war_ids_distinct, war_ids_kept, war_pos, war_with_id, GameState, GlobalEvent};
use crate::game::war::{War, WarStatus, WarType};
use crate::search::{add_text_once, contains_text, first_match, has_text, is_first_match, lemma_first_match, lemma_first_match_at, remove_text, without_text};
use crate::text::{join2, join3};
use super::ids::new_war_id;

verus! {

/// A number handed to a tool: its value, and its text as the caller renders it.
#[derive(Clone, Debug)]
pub struct Amount {
    pub value: Real,
    pub text: String,
}

/// The texts of a list of strings.
pub open spec fn texts(v: Seq<String>) -> Seq<Seq<char>> {
    v.map_values(|s: String| s@)
}

/// The name shown for the country `id`: its name, or `fallback` when no
/// country has that identifier.
pub open spec fn name_or(countries: Seq<Country>, id: Seq<char>, fallback: Seq<char>) -> Seq<char> {
    match country_pos(countries, id) {
        Some(i) => countries[i].name@,
        None => fallback,
    }
}

/// The event `e` was recorded in state `s`, of kind `kind`, with the given
/// description and countries.
pub open spec fn event_is(e: GlobalEvent, s: GameState, kind: Seq<char>, description: Seq<char>, involved: Seq<Seq<char>>) -> bool {
    &&& e.turn == s.turn_number
    &&& e.year == s.current_year
    &&& e.month == s.current_month
    &&& e.event_type@ == kind
    &&& e.description@ == description
    &&& texts(e.involved_countries@) == involved
}

/// `after` is `before` with one more event at the end, as described.
pub open spec fn event_added(before: GameState, after: Seq<GlobalEvent>, kind: Seq<char>, description: Seq<char>, involved: Seq<Seq<char>>) -> bool {
    &&& after.len() == before.global_events@.len() + 1
    &&& after.drop_last() == before.global_events@
    &&& event_is(after.last(), before, kind, description, involved)
}

/// The text of an optional argument.
pub open spec fn opt_text(o: Option<&str>) -> Option<Seq<char>> {
    match o {
        Some(s) => Some(s@),
        None => None,
    }
}

/// The country `after` is `before` with `war_id` added at the end of its wars.
pub open spec fn war_added_to(before: Country, after: Country, war_id: Seq<char>) -> bool {
    &&& after == (Country { active_wars: after.active_wars, ..before })
    &&& after.active_wars@.len() == before.active_wars@.len() + 1
    &&& after.active_wars@.drop_last() == before.active_wars@
    &&& after.active_wars@.last()@ == war_id
}

/// `w` is the war that the player `attacker` declares on `target` in state
/// `s`, under the identifier `id`.
pub open spec fn is_declared_war(w: War, s: GameState, id: Seq<char>, attacker: Seq<char>, target: Seq<char>, justification: Seq<char>) -> bool {
    &&& w.id@ == id
    &&& w.name@ == name_or(s.countries@, attacker, attacker) + " vs "@ + name_or(s.countries@, target, target)
    &&& texts(w.attackers@) == seq![attacker]
    &&& texts(w.defenders@) == seq![target]
    &&& w.start_turn == s.turn_number
    &&& w.start_year == s.current_year
    &&& w.start_month == s.current_month
    &&& w.end_turn is None
    &&& w.status == WarStatus::Ongoing
    &&& w.fronts@.len() == 0
    &&& w.war_type == WarType::TotalWar
    &&& w.justification@ == justification
    &&& w.war_score == Real::zero_spec()
    &&& w.battles@.len() == 0
}

/// `after` is `before` with `w` stored under its identifier: in place of the
/// war that had it, else at the end.
pub open spec fn war_stored(before: Seq<War>, after: Seq<War>, w: War) -> bool {
    match war_pos(before, w.id@) {
        Some(i) => after == before.update(i, w),
        None => after == before.push(w),
    }
}

/// Storing a war under its identifier keeps the wars' identifiers distinct.
pub proof fn lemma_war_stored_distinct(before: Seq<War>, after: Seq<War>, w: War)
    requires
        war_ids_distinct(before),
        war_stored(before, after, w),
    ensures
        war_ids_distinct(after),
{
    let p = war_with_id(w.id@);
    lemma_first_match(before, p);
    match war_pos(before, w.id@) {
        Some(i) => {
            assert(p(before[i]));
            assert forall|k: int| 0 <= k < before.len() implies (#[trigger] after[k]).id@ == before[k].id@ by {
                if k == i {
                    assert(after[k] == w);
                }
            }
            lemma_war_ids_kept(before, after);
        },
        None => {
            assert forall|i: int, j: int| 0 <= i < j < after.len() implies
                (#[trigger] after[i]).id@ != (#[trigger] after[j]).id@ by {
                assert(after[i] == before[i]);
                if j == before.len() {
                    assert(!p(before[i]));
                } else {
                    assert(after[j] == before[j]);
                }
            }
        },
    }
}

/// The error that `declare_war` answers in state `s`, if any.
pub open spec fn declare_war_error(
    s: GameState,
    target: Option<Seq<char>>,
    justification: Option<Seq<char>>,
    has_allocation: bool,
) -> Option<Seq<char>> {
    match (target, justification) {
        (None, _) => Some("Missing 'target_country'"@),
        (Some(_), None) => Some("Missing 'justification'"@),
        (Some(t), Some(_)) => if !has_allocation {
            Some("Missing 'military_allocation_pct'"@)
        } else {
            match s.player_country_id {
                None => Some("No player country selected"@),
                Some(p) => if p@ == t {
                    Some("Cannot declare war on yourself"@)
                } else if country_pos(s.countries@, t) is None {
                    Some("Target country not found: "@ + t)
                } else if at_war(s.wars@, p@, t) {
                    Some("Already at war with this country"@)
                } else {
                    None
                },
            }
        },
    }
}

/// What a declaration of war reports back.
#[derive(Clone, Debug)]
pub struct WarDeclaration {
    pub war_id: String,
    pub attacker_id: String,
    pub target_name: String,
    pub allocation_pct: Real,
}

/// The error that `mobilize_forces` answers in state `s`, if any.
pub open spec fn mobilize_error(
    s: GameState,
    border: Option<Seq<char>>,
    has_force: bool,
    focus: Option<Seq<char>>,
) -> Option<Seq<char>> {
    if border is None {
        Some("Missing 'target_border'"@)
    } else if !has_force {
        Some("Missing 'force_size_pct'"@)
    } else if focus is None {
        Some("Missing 'focus'"@)
    } else if !(focus->0 == "land"@ || focus->0 == "air"@ || focus->0 == "naval"@) {
        Some("Invalid focus '"@ + focus->0 + "'. Must be one of: land, air, naval"@)
    } else if s.player_country_id is None {
        Some("No player country selected"@)
    } else if country_pos(s.countries@, s.player_country_id->0@) is None {
        Some("Player country not found"@)
    } else {
        None
    }
}

/// What a mobilization reports back.
#[derive(Clone, Debug)]
pub struct MobilizationOrder {
    pub border_name: String,
    pub mobilization_pct: Real,
}

/// The error that `pass_policy` answers in state `s`, if any.
pub open spec fn policy_error(s: GameState, policy_name: Option<Seq<char>>, description: Option<Seq<char>>) -> Option<Seq<char>> {
    if policy_name is None {
        Some("Missing 'policy_name'"@)
    } else if description is None {
        Some("Missing 'description'"@)
    } else if s.player_country_id is None {
        Some("No player country selected"@)
    } else {
        None
    }
}

/// What an enacted policy reports back, with the position of the player's
/// country, whose stability the caller raises.
#[derive(Clone, Debug)]
pub struct PolicyEnacted {
    pub player_name: String,
    pub player_index: Option<usize>,
}

/// The error that `set_budget` answers in state `s`, if any.
pub open spec fn budget_error(s: GameState, military: bool, infrastructure: bool, welfare: bool, research: bool) -> Option<Seq<char>> {
    if !military {
        Some("Missing 'military_pct'"@)
    } else if !infrastructure {
        Some("Missing 'infrastructure_pct'"@)
    } else if !welfare {
        Some("Missing 'welfare_pct'"@)
    } else if !research {
        Some("Missing 'research_pct'"@)
    } else if s.player_country_id is None {
        Some("No player country selected"@)
    } else {
        None
    }
}

/// The war is ongoing and the two countries fight on opposite sides of it.
pub open spec fn war_between(p: Seq<char>, t: Seq<char>) -> spec_fn(War) -> bool {
    |w: War| crate::game::state::enemy_in_war(w, p, t)
}

/// The error that `peace_talks` answers in state `s`, if any.
pub open spec fn peace_error(s: GameState, target: Option<Seq<char>>, terms: Option<Seq<char>>) -> Option<Seq<char>> {
    if target is None {
        Some("Missing 'target_country'"@)
    } else if terms is None {
        Some("Missing 'terms'"@)
    } else if s.player_country_id is None {
        Some("No player country selected"@)
    } else if s.player_country_id->0@ == target->0 {
        Some("Cannot negotiate peace with yourself"@)
    } else if !at_war(s.wars@, s.player_country_id->0@, target->0) {
        Some("No active war found between you and "@ + target->0)
    } else {
        None
    }
}

/// An offer of peace under way: who offers it to whom, in which war, on
/// what terms, with the war's score and the player's side in it.
#[derive(Clone, Debug)]
pub struct PeaceTalks {
    pub player_id: String,
    pub target_id: String,
    pub war_id: String,
    pub war_score: Real,
    pub player_is_attacker: bool,
    pub terms: String,
}

/// The country `after` is `before` with `war_id` gone from its wars.
pub open spec fn war_left_by(before: Country, after: Country, war_id: Seq<char>) -> bool {
    &&& after == (Country { active_wars: after.active_wars, ..before })
    &&& after.active_wars@ == without_text(before.active_wars@, war_id)
}

/// The trade relations of `v` with partners other than `partner`, in order.
pub open spec fn trades_without(v: Seq<TradeRelation>, partner: Seq<char>) -> Seq<TradeRelation> {
    v.filter(partner_differs(partner))
}

/// The trade relation is with a partner other than `partner`.
pub open spec fn partner_differs(partner: Seq<char>) -> spec_fn(TradeRelation) -> bool {
    |t: TradeRelation| t.partner_id@ != partner
}

/// The texts of `items` joined by `sep`.
pub open spec fn text_join(items: Seq<Seq<char>>, sep: Seq<char>) -> Seq<char>
    decreases items.len(),
{
    if items.len() == 0 {
        Seq::empty()
    } else if items.len() == 1 {
        items[0]
    } else {
        text_join(items.drop_last(), sep) + sep + items.last()
    }
}

/// The country `after` is `before` whose trade with `partner` is replaced by
/// one active relation, at the end, exporting `exports` and importing `imports`
/// at a volume of 1.
pub open spec fn trade_replaced(before: Country, after: Country, partner: Seq<char>, exports: Seq<String>, imports: Seq<String>) -> bool {
    let t = after.trade_partners@.last();
    &&& after == (Country { trade_partners: after.trade_partners, ..before })
    &&& after.trade_partners@.len() == trades_without(before.trade_partners@, partner).len() + 1
    &&& after.trade_partners@.drop_last() == trades_without(before.trade_partners@, partner)
    &&& t.partner_id@ == partner
    &&& t.export_goods@ == exports
    &&& t.import_goods@ == imports
    &&& t.trade_volume.bits == ONE_BITS
    &&& t.status == TradeStatus::Active
    &&& forall|j: int| 0 <= j < after.trade_partners@.len() - 1 ==> (#[trigger] after.trade_partners@[j]).partner_id@ != partner
}

/// `after` is `before` where the relation between `a` and `b` holds the
/// treaty `treaty` once: it is added to their relation when missing there,
/// or, when they have no relation, a new friendly one with trust 10 holding
/// just that treaty is added at the end.
pub open spec fn treaty_ensured(before: Seq<DiplomaticRelation>, after: Seq<DiplomaticRelation>, a: Seq<char>, b: Seq<char>, treaty: Treaty) -> bool {
    match relation_pos(before, a, b) {
        Some(i) => if before[i].treaties@.contains(treaty) {
            after == before
        } else {
            &&& after.len() == before.len()
            &&& forall|j: int| 0 <= j < before.len() && j != i ==> #[trigger] after[j] == before[j]
            &&& after[i] == (DiplomaticRelation { treaties: after[i].treaties, ..before[i] })
            &&& after[i].treaties@ == before[i].treaties@.push(treaty)
        },
        None => {
            &&& after.len() == before.len() + 1
            &&& after.drop_last() == before
            &&& after.last().country_a@ == a
            &&& after.last().country_b@ == b
            &&& after.last().stance == DiplomaticStance::Friendly
            &&& after.last().trust.bits == TEN_BITS
            &&& after.last().treaties@ == seq![treaty]
        },
    }
}

/// `after` is `before` once the player has made a trade deal with `t`,
/// offering `offer` and requesting `request`: each of the two countries
/// keeps one trade relation with the other, a new one at the end; their
/// stance becomes `Friendly` unless they are allied; their relation holds a
/// trade agreement; and the deal is recorded.
pub open spec fn trade_deal_made(before: GameState, after: GameState, t: Seq<char>, offer: Seq<String>, request: Seq<String>) -> bool {
    let p = before.player_country_id->0@;
    let a = country_pos(before.countries@, p);
    let b = country_pos(before.countries@, t)->0;
    let allied = stance_between(before.diplomatic_relations@, p, t) == DiplomaticStance::Allied;
    &&& after.countries@.len() == before.countries@.len()
    &&& forall|k: int| 0 <= k < before.countries@.len() ==>
        if Some(k) == a {
            trade_replaced(before.countries@[k], #[trigger] after.countries@[k], t, offer, request)
        } else if k == b {
            trade_replaced(before.countries@[k], after.countries@[k], p, request, offer)
        } else {
            after.countries@[k] == before.countries@[k]
        }
    &&& exists|mid: Seq<DiplomaticRelation>| {
        &&& (if allied { mid == before.diplomatic_relations@ } else {
            stance_set(before.diplomatic_relations@, mid, p, t, DiplomaticStance::Friendly)
        })
        &&& #[trigger] treaty_ensured(mid, after.diplomatic_relations@, p, t, Treaty::TradeAgreement)
    }
    &&& stance_between(after.diplomatic_relations@, p, t)
        == if allied { DiplomaticStance::Allied } else { DiplomaticStance::Friendly }
    &&& event_added(before, after.global_events@, "trade_deal"@,
        "Trade deal established with "@ + name_or(before.countries@, t, t) + ": offering ["@ + text_join(texts(offer), ", "@)
            + "], requesting ["@ + text_join(texts(request), ", "@) + "]"@,
        seq![p, t])
    &&& after == (GameState {
        countries: after.countries,
        diplomatic_relations: after.diplomatic_relations,
        global_events: after.global_events,
        ..before
    })
}

/// The error that `negotiate_trade` answers in state `s`, if any.
pub open spec fn trade_error(s: GameState, target: Option<Seq<char>>, has_offer: bool, has_request: bool) -> Option<Seq<char>> {
    if target is None {
        Some("Missing 'target_country'"@)
    } else if !has_offer {
        Some("Missing 'offer_resources' array"@)
    } else if !has_request {
        Some("Missing 'request_resources' array"@)
    } else if s.player_country_id is None {
        Some("No player country selected"@)
    } else if s.player_country_id->0@ == target->0 {
        Some("Cannot trade with yourself"@)
    } else if country_pos(s.countries@, target->0) is None {
        Some("Target country not found: "@ + target->0)
    } else {
        None
    }
}

/// The error that `form_alliance` answers in state `s`, if any.
pub open spec fn alliance_error(s: GameState, target: Option<Seq<char>>, alliance_type: Option<Seq<char>>) -> Option<Seq<char>> {
    if target is None {
        Some("Missing 'target_country'"@)
    } else if alliance_type is None {
        Some("Missing 'alliance_type'"@)
    } else if !(alliance_type->0 == "defensive"@ || alliance_type->0 == "full"@ || alliance_type->0 == "economic"@) {
        Some("Invalid alliance_type '"@ + alliance_type->0 + "'. Must be one of: defensive, full, economic"@)
    } else if s.player_country_id is None {
        Some("No player country selected"@)
    } else if s.player_country_id->0@ == target->0 {
        Some("Cannot ally with yourself"@)
    } else if country_pos(s.countries@, target->0) is None {
        Some("Target country not found: "@ + target->0)
    } else {
        None
    }
}

/// What an alliance reports back, with the position of the relation whose
/// trust the caller raises.
#[derive(Clone, Debug)]
pub struct AllianceFormed {
    pub target_name: String,
    pub relation_index: usize,
}

/// The country `after` is `before` with `ally` added at the end of its
/// alliances unless it is listed there already.
pub open spec fn ally_added(before: Country, after: Country, ally: Seq<char>) -> bool {
    &&& after == (Country { alliances: after.alliances, ..before })
    &&& contains_text(before.alliances@, ally) ==> after.alliances@ == before.alliances@
    &&& !contains_text(before.alliances@, ally) ==> after.alliances@.len() == before.alliances@.len() + 1
        && after.alliances@.drop_last() == before.alliances@ && after.alliances@.last()@ == ally
}

/// The names of the countries among `ids` that exist, in order.
pub open spec fn known_names(countries: Seq<Country>, ids: Seq<String>) -> Seq<Seq<char>>
    decreases ids.len(),
{
    if ids.len() == 0 {
        Seq::empty()
    } else {
        let rest = known_names(countries, ids.drop_last());
        match country_pos(countries, ids.last()@) {
            Some(i) => rest.push(countries[i].name@),
            None => rest,
        }
    }
}

/// The ongoing wars, in order.
pub open spec fn ongoing_wars(wars: Seq<War>) -> Seq<War> {
    wars.filter(war_is_ongoing())
}

/// The war is ongoing.
pub open spec fn war_is_ongoing() -> spec_fn(War) -> bool {
    |w: War| w.status == WarStatus::Ongoing
}

/// A war as the tool `get_world_situation` reports it.
#[derive(Clone, Debug)]
pub struct WarSummary {
    pub war_id: String,
    pub name: String,
    pub attackers: Vec<String>,
    pub defenders: Vec<String>,
    pub justification: String,
    pub war_score: Real,
    pub war_type: WarType,
    pub status: WarStatus,
}

/// `ws` reports the war `w`, naming the sides by the countries that exist.
pub open spec fn summarizes(ws: WarSummary, w: War, countries: Seq<Country>) -> bool {
    &&& ws.war_id@ == w.id@
    &&& ws.name@ == w.name@
    &&& texts(ws.attackers@) == known_names(countries, w.attackers@)
    &&& texts(ws.defenders@) == known_names(countries, w.defenders@)
    &&& ws.justification@ == w.justification@
    &&& ws.war_score == w.war_score
    &&& ws.war_type == w.war_type
    &&& ws.status == w.status
}

/// The state of the world as the tool `get_world_situation` reports it:
/// the date and scenario, the ongoing wars, where the five most recent
/// events start, the player's country and the number of countries.
#[derive(Clone, Debug)]
pub struct WorldSituation {
    pub turn: u64,
    pub month: i32,
    pub year: i32,
    pub scenario: String,
    pub active_wars: Vec<WarSummary>,
    pub recent_events_start: usize,
    pub player_country: Option<usize>,
    pub total_countries: usize,
}

/// A neighbour of a country, as the tool `get_neighbors` reports it.
#[derive(Clone, Debug)]
pub struct NeighborInfo {
    pub country_id: String,
    pub name: String,
    pub diplomatic_stance: DiplomaticStance,
}

impl GameState {
    /// The name of the country `id`, or `fallback` when there is none.
    pub fn name_or(&self, id: &str, fallback: &str) -> (r: String)
        ensures
            r@ == name_or(self.countries@, id@, fallback@),
    {
        match self.country_index(id) {
            Some(i) => self.countries[i].name.clone(),
            None => fallback.to_owned(),
        }
    }

    /// Records an event of this turn at the end of the list of events.
    pub fn record_event(&mut self, event_type: &str, description: String, involved_countries: Vec<String>)
        ensures
            event_added(*old(self), final(self).global_events@, event_type@, description@, texts(involved_countries@)),
            *final(self) == (GameState { global_events: final(self).global_events, ..*old(self) }),
            old(self).well_formed() ==> final(self).well_formed(),
    {
        let event = GlobalEvent {
            turn: self.turn_number,
            year: self.current_year,
            month: self.current_month,
            event_type: event_type.to_owned(),
            description,
            involved_countries,
        };
        self.global_events.push(event);
        assert(self.global_events@.drop_last() =~= old(self).global_events@);
    }

    /// The tool `get_country_status`: the country with the given identifier.
    pub fn get_country_status(&self, country_id: Option<&str>) -> (r: Result<&Country, String>)
        ensures
            match country_id {
                None => r matches Err(e) && e@ == "Missing 'country_id'"@,
                Some(id) => match country_pos(self.countries@, id@) {
                    Some(i) => r == Ok::<&Country, String>(&self.countries@[i]),
                    None => r matches Err(e) && e@ == "Country not found: "@ + id@,
                },
            },
    {
        let id = match country_id {
            Some(id) => id,
            None => return Err("Missing 'country_id'".to_owned()),
        };
        match self.country_index(id) {
            Some(i) => Ok(&self.countries[i]),
            None => Err(join2("Country not found: ", id)),
        }
    }

    /// The tool `get_player_status`: the country that the player controls.
    pub fn get_player_status(&self) -> (r: Result<&Country, String>)
        ensures
            match self.player_country_id {
                None => r matches Err(e) && e@ == "No player country selected"@,
                Some(pid) => match country_pos(self.countries@, pid@) {
                    Some(i) => r == Ok::<&Country, String>(&self.countries@[i]),
                    None => r matches Err(e) && e@ == "Player country not found in state"@,
                },
            },
    {
        let pid = match &self.player_country_id {
            Some(pid) => pid,
            None => return Err("No player country selected".to_owned()),
        };
        match self.country_index(pid.as_str()) {
            Some(i) => Ok(&self.countries[i]),
            None => Err("Player country not found in state".to_owned()),
        }
    }

    /// The tool `get_neighbors`: each neighbour of the country, in order, with
    /// its name (its identifier when no country has it) and its stance
    /// towards the country.
    pub fn get_neighbors(&self, country_id: Option<&str>) -> (r: Result<Vec<NeighborInfo>, String>)
        ensures
            match country_id {
                None => r matches Err(e) && e@ == "Missing 'country_id'"@,
                Some(id) => match country_pos(self.countries@, id@) {
                    Some(c) => r matches Ok(v) && {
                        let neighbors = self.countries@[c].neighbors@;
                        &&& v@.len() == neighbors.len()
                        &&& forall|k: int| 0 <= k < v@.len() ==> {
                            &&& (#[trigger] v@[k]).country_id@ == neighbors[k]@
                            &&& v@[k].name@ == name_or(self.countries@, neighbors[k]@, neighbors[k]@)
                            &&& v@[k].diplomatic_stance == stance_between(self.diplomatic_relations@, id@, neighbors[k]@)
                        }
                    },
                    None => r matches Err(e) && e@ == "Country not found: "@ + id@,
                },
            },
    {
        let id = match country_id {
            Some(id) => id,
            None => return Err("Missing 'country_id'".to_owned()),
        };
        let c = match self.country_index(id) {
            Some(c) => c,
            None => return Err(join2("Country not found: ", id)),
        };
        let country = &self.countries[c];
        let mut out: Vec<NeighborInfo> = Vec::new();
        let mut k: usize = 0;
        while k < country.neighbors.len()
            invariant
                country == &self.countries@[c as int],
                k <= country.neighbors@.len(),
                out@.len() == k,
                forall|j: int| 0 <= j < k ==> {
                    &&& (#[trigger] out@[j]).country_id@ == country.neighbors@[j]@
                    &&& out@[j].name@ == name_or(self.countries@, country.neighbors@[j]@, country.neighbors@[j]@)
                    &&& out@[j].diplomatic_stance == stance_between(self.diplomatic_relations@, id@, country.neighbors@[j]@)
                },
            decreases country.neighbors.len() - k,
        {
            let nid = country.neighbors[k].as_str();
            let stance = self.get_diplomatic_stance(id, nid);
            let name = self.name_or(nid, nid);
            out.push(NeighborInfo { country_id: nid.to_owned(), name, diplomatic_stance: stance });
            k = k + 1;
        }
        Ok(out)
    }

    /// Selects the country that the player controls and marks it as
    /// player-controlled. The selection is kept even when no country has the
    /// identifier, and that case is answered with an error.
    pub fn select_country(&mut self, country_id: &str) -> (r: Result<(), String>)
        ensures
            final(self).player_country_id matches Some(p) && p@ == country_id@,
            match country_pos(old(self).countries@, country_id@) {
                Some(i) => {
                    &&& r is Ok
                    &&& final(self).countries@ == old(self).countries@.update(i, Country {
                        is_player_controlled: true,
                        ..old(self).countries@[i]
                    })
                },
                None => r matches Err(e) && e@ == "Country with id '"@ + country_id@ + "' not found"@
                    && final(self).countries == old(self).countries,
            },
            *final(self) == (GameState {
                player_country_id: final(self).player_country_id,
                countries: final(self).countries,
                ..*old(self)
            }),
            old(self).well_formed() ==> final(self).well_formed(),
    {
        self.player_country_id = Some(country_id.to_owned());
        match self.country_index(country_id) {
            Some(i) => {
                self.countries[i].is_player_controlled = true;
                assert(self.countries@ =~= old(self).countries@.update(i as int, Country {
                    is_player_controlled: true,
                    ..old(self).countries@[i as int]
                }));
                proof {
                    if old(self).well_formed() {
                        assert(country_ids_kept(old(self).countries@, self.countries@));
                        lemma_country_ids_kept(old(self).countries@, self.countries@);
                    }
                }
                Ok(())
            },
            None => Err(join3("Country with id '", country_id, "' not found")),
        }
    }

    /// The country with the given identifier, for the player's view.
    pub fn get_country_info(&self, country_id: &str) -> (r: Result<&Country, String>)
        ensures
            match country_pos(self.countries@, country_id@) {
                Some(i) => r == Ok::<&Country, String>(&self.countries@[i]),
                None => r matches Err(e) && e@ == "Country with id '"@ + country_id@ + "' not found"@,
            },
    {
        match self.country_index(country_id) {
            Some(i) => Ok(&self.countries[i]),
            None => Err(join3("Country with id '", country_id, "' not found")),
        }
    }

    /// Stores a war under its identifier, replacing the war that had it.
    pub fn insert_war(&mut self, war: War)
        ensures
            war_stored(old(self).wars@, final(self).wars@, war),
            *final(self) == (GameState { wars: final(self).wars, ..*old(self) }),
            old(self).well_formed() ==> final(self).well_formed(),
    {
        let ghost w = war;
        match self.war_index(war.id.as_str()) {
            Some(i) => {
                self.wars.set(i, war);
            },
            None => {
                self.wars.push(war);
            },
        }
        proof {
            if old(self).well_formed() {
                lemma_war_stored_distinct(old(self).wars@, self.wars@, w);
            }
        }
    }

    /// The tool `declare_war`: the player declares war on the target. Their
    /// stance becomes `AtWar`, a new ongoing war with a fresh identifier
    /// joins the wars, both countries list it among their wars, and the
    /// declaration is recorded. Raising the player's mobilization to the
    /// allocation is left to the caller.
    pub fn declare_war(
        &mut self,
        target_country: Option<&str>,
        justification: Option<&str>,
        military_allocation_pct: Option<Real>,
    ) -> (r: Result<WarDeclaration, String>)
        ensures
            match declare_war_error(*old(self), opt_text(target_country), opt_text(justification), military_allocation_pct is Some) {
                Some(msg) => r matches Err(e) && e@ == msg && *final(self) == *old(self),
                None => r matches Ok(d) && {
                    let p = old(self).player_country_id->0@;
                    let t = target_country->0@;
                    let j = justification->0@;
                    let attacker_name = name_or(old(self).countries@, p, p);
                    let target_name = name_or(old(self).countries@, t, t);
                    let a = country_pos(old(self).countries@, p);
                    let b = country_pos(old(self).countries@, t)->0;
                    &&& super::ids::is_v4_uuid_text(d.war_id@)
                    &&& d.attacker_id@ == p
                    &&& d.target_name@ == target_name
                    &&& d.allocation_pct == military_allocation_pct->0
                    &&& stance_set(old(self).diplomatic_relations@, final(self).diplomatic_relations@, p, t, DiplomaticStance::AtWar)
                    &&& exists|w: War| #[trigger] war_stored(old(self).wars@, final(self).wars@, w)
                        && is_declared_war(w, *old(self), d.war_id@, p, t, j)
                    &&& final(self).countries@.len() == old(self).countries@.len()
                    &&& war_added_to(old(self).countries@[b], final(self).countries@[b], d.war_id@)
                    &&& forall|k: int| 0 <= k < old(self).countries@.len() && Some(k) != a && k != b
                        ==> #[trigger] final(self).countries@[k] == old(self).countries@[k]
                    &&& (a matches Some(ai) ==> war_added_to(old(self).countries@[ai], final(self).countries@[ai], d.war_id@))
                    &&& event_added(*old(self), final(self).global_events@, "war_declared"@,
                        attacker_name + " declared war on "@ + target_name + ": "@ + j, seq![p, t])
                    &&& *final(self) == (GameState {
                        countries: final(self).countries,
                        wars: final(self).wars,
                        diplomatic_relations: final(self).diplomatic_relations,
                        global_events: final(self).global_events,
                        ..*old(self)
                    })
                    &&& at_war(final(self).wars@, p, t)
                    &&& stance_between(final(self).diplomatic_relations@, p, t) == DiplomaticStance::AtWar
                },
            },
            old(self).well_formed() ==> final(self).well_formed(),
    {
        let target_id = match target_country {
            Some(t) => t,
            None => return Err("Missing 'target_country'".to_owned()),
        };
        let justification = match justification {
            Some(j) => j,
            None => return Err("Missing 'justification'".to_owned()),
        };
        let allocation_pct = match military_allocation_pct {
            Some(a) => a,
            None => return Err("Missing 'military_allocation_pct'".to_owned()),
        };
        let attacker_id = match &self.player_country_id {
            Some(p) => p.clone(),
            None => return Err("No player country selected".to_owned()),
        };
        if crate::text::same_text(attacker_id.as_str(), target_id) {
            return Err("Cannot declare war on yourself".to_owned());
        }
        let target_pos = match self.country_index(target_id) {
            Some(b) => b,
            None => return Err(join2("Target country not found: ", target_id)),
        };
        let enemies = self.find_countries_at_war_with(attacker_id.as_str());
        if has_text(&enemies, target_id) {
            return Err("Already at war with this country".to_owned());
        }
        let attacker_pos = self.country_index(attacker_id.as_str());
        let ghost s0 = *self;

        self.set_diplomatic_stance(attacker_id.as_str(), target_id, DiplomaticStance::AtWar);
        proof {
            crate::game::laws::lemma_stance_read_after_write(
                s0.diplomatic_relations@, self.diplomatic_relations@, attacker_id@, target_id@,
                DiplomaticStance::AtWar, attacker_id@, target_id@);
        }

        let war_id = new_war_id();
        let target_name = self.name_or(target_id, target_id);
        let attacker_name = self.name_or(attacker_id.as_str(), attacker_id.as_str());

        let mut war_name = attacker_name.clone();
        war_name.append(" vs ");
        war_name.append(target_name.as_str());
        let mut attackers: Vec<String> = Vec::new();
        attackers.push(attacker_id.clone());
        let mut defenders: Vec<String> = Vec::new();
        defenders.push(target_id.to_owned());
        let war = War {
            id: war_id.clone(),
            name: war_name,
            attackers,
            defenders,
            start_turn: self.turn_number,
            start_year: self.current_year,
            start_month: self.current_month,
            end_turn: None,
            status: WarStatus::Ongoing,
            fronts: Vec::new(),
            war_type: WarType::TotalWar,
            justification: justification.to_owned(),
            war_score: Real::zero(),
            battles: Vec::new(),
        };
        proof {
            assert(texts(war.attackers@) =~= seq![attacker_id@]);
            assert(texts(war.defenders@) =~= seq![target_id@]);
        }
        let ghost w = war;
        self.insert_war(war);
        proof {
            crate::search::lemma_first_match(s0.wars@, crate::game::state::war_with_id(w.id@));
            assert(war_stored(s0.wars@, self.wars@, w));
            let k = match war_pos(s0.wars@, w.id@) { Some(i) => i, None => s0.wars@.len() as int };
            assert(self.wars@[k] == w);
            assert(contains_text(w.attackers@, attacker_id@)) by { assert(w.attackers@[0]@ == attacker_id@); }
            assert(contains_text(w.defenders@, target_id@)) by { assert(w.defenders@[0]@ == target_id@); }
            assert(crate::game::state::enemy_in_war(self.wars@[k], attacker_id@, target_id@));
        }

        let ghost c0 = self.countries@;
        proof {
            crate::search::lemma_first_match(c0, crate::game::state::country_with_id(attacker_id@));
            crate::search::lemma_first_match(c0, crate::game::state::country_with_id(target_id@));
            if let Some(ai) = attacker_pos {
                assert(ai != target_pos);
            }
        }
        if let Some(ai) = attacker_pos {
            self.countries[ai].active_wars.push(war_id.clone());
        }
        self.countries[target_pos].active_wars.push(war_id.clone());
        proof {
            assert(self.countries@[target_pos as int].active_wars@.drop_last() =~= c0[target_pos as int].active_wars@);
            if let Some(ai) = attacker_pos {
                assert(ai != target_pos);
                assert(self.countries@[ai as int].active_wars@.drop_last() =~= c0[ai as int].active_wars@);
            }
            if old(self).well_formed() {
                assert(country_ids_kept(c0, self.countries@));
                lemma_country_ids_kept(c0, self.countries@);
            }
        }

        let mut description = attacker_name.clone();
        description.append(" declared war on ");
        description.append(target_name.as_str());
        description.append(": ");
        description.append(justification);
        let mut involved: Vec<String> = Vec::new();
        involved.push(attacker_id.clone());
        involved.push(target_id.to_owned());
        proof {
            assert(texts(involved@) =~= seq![attacker_id@, target_id@]);
        }
        self.record_event("war_declared", description, involved);

        Ok(WarDeclaration { war_id, attacker_id, target_name, allocation_pct })
    }

    /// The tool `mobilize_forces`: the player's mobilization becomes the
    /// force size, and the order is recorded.
    pub fn mobilize_forces(
        &mut self,
        target_border: Option<&str>,
        force_size_pct: Option<Amount>,
        focus: Option<&str>,
    ) -> (r: Result<MobilizationOrder, String>)
        ensures
            match mobilize_error(*old(self), opt_text(target_border), force_size_pct is Some, opt_text(focus)) {
                Some(msg) => r matches Err(e) && e@ == msg && *final(self) == *old(self),
                None => r matches Ok(m) && {
                    let p = old(self).player_country_id->0@;
                    let i = country_pos(old(self).countries@, p)->0;
                    let border = target_border->0@;
                    let force = force_size_pct->0;
                    let border_name = name_or(old(self).countries@, border, border);
                    let before = old(self).countries@[i];
                    &&& m.border_name@ == border_name
                    &&& m.mobilization_pct == force.value
                    &&& final(self).countries@ == old(self).countries@.update(i, Country {
                        military_power: crate::game::country::MilitaryPower {
                            mobilization_pct: force.value,
                            ..before.military_power
                        },
                        ..before
                    })
                    &&& event_added(*old(self), final(self).global_events@, "mobilization"@,
                        before.name@ + " mobilized "@ + force.text@ + "% of forces toward the "@ + border_name
                            + " border (focus: "@ + focus->0@ + ")"@,
                        seq![p, border])
                    &&& *final(self) == (GameState {
                        countries: final(self).countries,
                        global_events: final(self).global_events,
                        ..*old(self)
                    })
                },
            },
            old(self).well_formed() ==> final(self).well_formed(),
    {
        let border = match target_border {
            Some(b) => b,
            None => return Err("Missing 'target_border'".to_owned()),
        };
        let force = match force_size_pct {
            Some(f) => f,
            None => return Err("Missing 'force_size_pct'".to_owned()),
        };
        let focus = match focus {
            Some(f) => f,
            None => return Err("Missing 'focus'".to_owned()),
        };
        if !(crate::text::same_text(focus, "land") || crate::text::same_text(focus, "air")
            || crate::text::same_text(focus, "naval")) {
            return Err(join3("Invalid focus '", focus, "'. Must be one of: land, air, naval"));
        }
        let pid = match &self.player_country_id {
            Some(p) => p.clone(),
            None => return Err("No player country selected".to_owned()),
        };
        let i = match self.country_index(pid.as_str()) {
            Some(i) => i,
            None => return Err("Player country not found".to_owned()),
        };
        let border_name = self.name_or(border, border);
        self.countries[i].military_power.mobilization_pct = force.value;
        proof {
            if old(self).well_formed() {
                assert(country_ids_kept(old(self).countries@, self.countries@));
                lemma_country_ids_kept(old(self).countries@, self.countries@);
            }
        }

        let mut description = self.countries[i].name.clone();
        description.append(" mobilized ");
        description.append(force.text.as_str());
        description.append("% of forces toward the ");
        description.append(border_name.as_str());
        description.append(" border (focus: ");
        description.append(focus);
        description.append(")");
        let mut involved: Vec<String> = Vec::new();
        involved.push(pid);
        involved.push(border.to_owned());
        proof {
            assert(texts(involved@) =~= seq![old(self).player_country_id->0@, border@]);
        }
        self.record_event("mobilization", description, involved);
        Ok(MobilizationOrder { border_name, mobilization_pct: force.value })
    }

    /// The tool `pass_policy`: the policy is recorded. Raising the player's
    /// stability is left to the caller, at the position reported back.
    pub fn pass_policy(&mut self, policy_name: Option<&str>, description: Option<&str>) -> (r: Result<PolicyEnacted, String>)
        ensures
            match policy_error(*old(self), opt_text(policy_name), opt_text(description)) {
                Some(msg) => r matches Err(e) && e@ == msg && *final(self) == *old(self),
                None => r matches Ok(o) && {
                    let p = old(self).player_country_id->0@;
                    let player_name = name_or(old(self).countries@, p, "Your country"@);
                    &&& o.player_name@ == player_name
                    &&& o.player_index == crate::search::as_index(country_pos(old(self).countries@, p))
                    &&& event_added(*old(self), final(self).global_events@, "policy_passed"@,
                        player_name + " enacted policy '"@ + policy_name->0@ + "': "@ + description->0@, seq![p])
                    &&& *final(self) == (GameState { global_events: final(self).global_events, ..*old(self) })
                },
            },
            old(self).well_formed() ==> final(self).well_formed(),
    {
        let policy_name = match policy_name {
            Some(n) => n,
            None => return Err("Missing 'policy_name'".to_owned()),
        };
        let text = match description {
            Some(d) => d,
            None => return Err("Missing 'description'".to_owned()),
        };
        let pid = match &self.player_country_id {
            Some(p) => p.clone(),
            None => return Err("No player country selected".to_owned()),
        };
        let player_name = self.name_or(pid.as_str(), "Your country");
        let player_index = self.country_index(pid.as_str());
        let mut line = player_name.clone();
        line.append(" enacted policy '");
        line.append(policy_name);
        line.append("': ");
        line.append(text);
        let mut involved: Vec<String> = Vec::new();
        involved.push(pid);
        proof {
            assert(texts(involved@) =~= seq![old(self).player_country_id->0@]);
        }
        self.record_event("policy_passed", line, involved);
        Ok(PolicyEnacted { player_name, player_index })
    }

    /// The tool `set_budget`: the allocation is recorded.
    pub fn set_budget(
        &mut self,
        military_pct: Option<Amount>,
        infrastructure_pct: Option<Amount>,
        welfare_pct: Option<Amount>,
        research_pct: Option<Amount>,
    ) -> (r: Result<String, String>)
        ensures
            match budget_error(*old(self), military_pct is Some, infrastructure_pct is Some, welfare_pct is Some, research_pct is Some) {
                Some(msg) => r matches Err(e) && e@ == msg && *final(self) == *old(self),
                None => r matches Ok(player_name) && {
                    let p = old(self).player_country_id->0@;
                    &&& player_name@ == name_or(old(self).countries@, p, "Your country"@)
                    &&& event_added(*old(self), final(self).global_events@, "budget_set"@,
                        player_name@ + " set budget allocation: Military "@ + military_pct->0.text@
                            + "%, Infrastructure "@ + infrastructure_pct->0.text@
                            + "%, Welfare "@ + welfare_pct->0.text@
                            + "%, Research "@ + research_pct->0.text@ + "%"@,
                        seq![p])
                    &&& *final(self) == (GameState { global_events: final(self).global_events, ..*old(self) })
                },
            },
            old(self).well_formed() ==> final(self).well_formed(),
    {
        let military = match military_pct {
            Some(a) => a,
            None => return Err("Missing 'military_pct'".to_owned()),
        };
        let infrastructure = match infrastructure_pct {
            Some(a) => a,
            None => return Err("Missing 'infrastructure_pct'".to_owned()),
        };
        let welfare = match welfare_pct {
            Some(a) => a,
            None => return Err("Missing 'welfare_pct'".to_owned()),
        };
        let research = match research_pct {
            Some(a) => a,
            None => return Err("Missing 'research_pct'".to_owned()),
        };
        let pid = match &self.player_country_id {
            Some(p) => p.clone(),
            None => return Err("No player country selected".to_owned()),
        };
        let player_name = self.name_or(pid.as_str(), "Your country");
        let mut line = player_name.clone();
        line.append(" set budget allocation: Military ");
        line.append(military.text.as_str());
        line.append("%, Infrastructure ");
        line.append(infrastructure.text.as_str());
        line.append("%, Welfare ");
        line.append(welfare.text.as_str());
        line.append("%, Research ");
        line.append(research.text.as_str());
        line.append("%");
        let mut involved: Vec<String> = Vec::new();
        involved.push(pid);
        proof {
            assert(texts(involved@) =~= seq![old(self).player_country_id->0@]);
        }
        self.record_event("budget_set", line, involved);
        Ok(player_name)
    }

    /// The tool `sue_for_peace`, up to the target's answer: finds the first
    /// ongoing war in which the player and the target fight on opposite
    /// sides; without one, there is no war to end. Whether the target
    /// accepts is decided by the caller from the war's score, and
    /// `conclude_peace` carries out the answer.
    pub fn peace_talks(&self, target_country: Option<&str>, terms: Option<&str>) -> (r: Result<PeaceTalks, String>)
        ensures
            match peace_error(*self, opt_text(target_country), opt_text(terms)) {
                Some(msg) => r matches Err(e) && e@ == msg,
                None => r matches Ok(talks) && {
                    let p = self.player_country_id->0@;
                    let t = target_country->0@;
                    let k = first_match(self.wars@, war_between(p, t))->0;
                    let w = self.wars@[k];
                    &&& talks.player_id@ == p
                    &&& talks.target_id@ == t
                    &&& talks.terms@ == terms->0@
                    &&& talks.war_id@ == w.id@
                    &&& talks.war_score == w.war_score
                    &&& talks.player_is_attacker == match crate::game::state::war_pos(self.wars@, w.id@) {
                        Some(i) => contains_text(self.wars@[i].attackers@, p),
                        None => false,
                    }
                    &&& self.well_formed() ==> war_pos(self.wars@, talks.war_id@) == Some(k)
                },
            },
    {
        let target_id = match target_country {
            Some(t) => t,
            None => return Err("Missing 'target_country'".to_owned()),
        };
        let terms = match terms {
            Some(t) => t,
            None => return Err("Missing 'terms'".to_owned()),
        };
        let pid = match &self.player_country_id {
            Some(p) => p.clone(),
            None => return Err("No player country selected".to_owned()),
        };
        if crate::text::same_text(pid.as_str(), target_id) {
            return Err("Cannot negotiate peace with yourself".to_owned());
        }
        let ghost pred = war_between(pid@, target_id@);
        let mut k: usize = 0;
        while k < self.wars.len()
            invariant
                k <= self.wars@.len(),
                pred == war_between(pid@, target_id@),
                forall|j: int| 0 <= j < k ==> !pred(#[trigger] self.wars@[j]),
            ensures
                k <= self.wars@.len(),
                forall|j: int| 0 <= j < k ==> !pred(#[trigger] self.wars@[j]),
                k < self.wars@.len() ==> pred(self.wars@[k as int]),
            decreases self.wars.len() - k,
        {
            let war = &self.wars[k];
            let opposed = (has_text(&war.attackers, pid.as_str()) && has_text(&war.defenders, target_id))
                || (has_text(&war.defenders, pid.as_str()) && has_text(&war.attackers, target_id));
            if war.status == WarStatus::Ongoing && opposed {
                break;
            }
            k = k + 1;
        }
        if k == self.wars.len() {
            proof {
                lemma_first_match(self.wars@, pred);
                assert(!at_war(self.wars@, pid@, target_id@)) by {
                    if at_war(self.wars@, pid@, target_id@) {
                        let w = choose|w: int| 0 <= w < self.wars@.len()
                            && crate::game::state::enemy_in_war(#[trigger] self.wars@[w], pid@, target_id@);
                        assert(pred(self.wars@[w]));
                    }
                }
            }
            return Err(join2("No active war found between you and ", target_id));
        }
        proof {
            lemma_first_match_at(self.wars@, pred, k as int);
            assert(at_war(self.wars@, pid@, target_id@)) by {
                assert(crate::game::state::enemy_in_war(self.wars@[k as int], pid@, target_id@));
            }
            if self.well_formed() {
                let same = war_with_id(self.wars@[k as int].id@);
                assert(is_first_match(self.wars@, same, k as int));
                lemma_first_match_at(self.wars@, same, k as int);
            }
        }
        let war_id = self.wars[k].id.clone();
        let war_score = self.wars[k].war_score;
        let player_is_attacker = match self.war_index(war_id.as_str()) {
            Some(i) => has_text(&self.wars[i].attackers, pid.as_str()),
            None => false,
        };
        Ok(PeaceTalks {
            player_id: pid,
            target_id: target_id.to_owned(),
            war_id,
            war_score,
            player_is_attacker,
            terms: terms.to_owned(),
        })
    }

    /// Carries out the target's answer to an offer of peace. When it accepts,
    /// the war ends in a ceasefire this turn, their stance becomes `Wary`,
    /// and neither country lists the war among its wars any more; either way
    /// the answer is recorded. Reports back the target's name.
    pub fn conclude_peace(&mut self, talks: &PeaceTalks, accepted: bool) -> (r: String)
        requires
            talks.player_id@ != talks.target_id@,
        ensures
            ({
                let p = talks.player_id@;
                let t = talks.target_id@;
                let id = talks.war_id@;
                let target_name = name_or(old(self).countries@, t, t);
                let player_name = name_or(old(self).countries@, p, "You"@);
                &&& r@ == target_name
                &&& if accepted {
                    &&& match crate::game::state::war_pos(old(self).wars@, id) {
                        Some(i) => final(self).wars@ == old(self).wars@.update(i, War {
                            status: WarStatus::Ceasefire,
                            end_turn: Some(old(self).turn_number),
                            ..old(self).wars@[i]
                        }),
                        None => final(self).wars == old(self).wars,
                    }
                    &&& stance_set(old(self).diplomatic_relations@, final(self).diplomatic_relations@, p, t, DiplomaticStance::Wary)
                    &&& final(self).countries@.len() == old(self).countries@.len()
                    &&& forall|k: int| 0 <= k < old(self).countries@.len() ==>
                        if Some(k) == country_pos(old(self).countries@, p) || Some(k) == country_pos(old(self).countries@, t) {
                            war_left_by(old(self).countries@[k], #[trigger] final(self).countries@[k], id)
                        } else {
                            final(self).countries@[k] == old(self).countries@[k]
                        }
                    &&& event_added(*old(self), final(self).global_events@, "peace_accepted"@,
                        target_name + " accepted peace terms from "@ + player_name + ": "@ + talks.terms@, seq![p, t])
                    &&& *final(self) == (GameState {
                        countries: final(self).countries,
                        wars: final(self).wars,
                        diplomatic_relations: final(self).diplomatic_relations,
                        global_events: final(self).global_events,
                        ..*old(self)
                    })
                    &&& stance_between(final(self).diplomatic_relations@, p, t) == DiplomaticStance::Wary
                } else {
                    &&& event_added(*old(self), final(self).global_events@, "peace_rejected"@,
                        target_name + " rejected peace overtures from "@ + player_name, seq![p, t])
                    &&& *final(self) == (GameState { global_events: final(self).global_events, ..*old(self) })
                }
                &&& old(self).well_formed() ==> final(self).well_formed()
            }),
    {
        let pid = talks.player_id.as_str();
        let target_id = talks.target_id.as_str();
        let target_name = self.name_or(target_id, target_id);
        let player_name = self.name_or(pid, "You");
        let mut involved: Vec<String> = Vec::new();
        involved.push(pid.to_owned());
        involved.push(target_id.to_owned());
        proof {
            assert(texts(involved@) =~= seq![pid@, target_id@]);
        }
        if accepted {
            let ghost s0 = *self;
            if let Some(i) = self.war_index(talks.war_id.as_str()) {
                self.wars[i].status = WarStatus::Ceasefire;
                self.wars[i].end_turn = Some(self.turn_number);
                assert(self.wars@ =~= s0.wars@.update(i as int, War {
                    status: WarStatus::Ceasefire,
                    end_turn: Some(s0.turn_number),
                    ..s0.wars@[i as int]
                }));
            }
            self.set_diplomatic_stance(pid, target_id, DiplomaticStance::Wary);
            proof {
                crate::game::laws::lemma_stance_read_after_write(
                    s0.diplomatic_relations@, self.diplomatic_relations@, pid@, target_id@,
                    DiplomaticStance::Wary, pid@, target_id@);
            }
            let a = self.country_index(pid);
            let b = self.country_index(target_id);
            proof {
                lemma_first_match(s0.countries@, crate::game::state::country_with_id(pid@));
                lemma_first_match(s0.countries@, crate::game::state::country_with_id(target_id@));
                if a is Some && b is Some {
                    assert(a->0 != b->0);
                }
            }
            if let Some(ai) = a {
                remove_text(&mut self.countries[ai].active_wars, talks.war_id.as_str());
            }
            if let Some(bi) = b {
                remove_text(&mut self.countries[bi].active_wars, talks.war_id.as_str());
            }
            proof {
                if s0.well_formed() {
                    assert(war_ids_kept(s0.wars@, self.wars@));
                    lemma_war_ids_kept(s0.wars@, self.wars@);
                    assert(country_ids_kept(s0.countries@, self.countries@));
                    lemma_country_ids_kept(s0.countries@, self.countries@);
                }
            }
            let mut line = target_name.clone();
            line.append(" accepted peace terms from ");
            line.append(player_name.as_str());
            line.append(": ");
            line.append(talks.terms.as_str());
            self.record_event("peace_accepted", line, involved);
        } else {
            let mut line = target_name.clone();
            line.append(" rejected peace overtures from ");
            line.append(player_name.as_str());
            self.record_event("peace_rejected", line, involved);
        }
        target_name
    }

}

/// Removes the trade relations with `partner`, keeping the others in order.
pub fn drop_trade_with(v: &mut Vec<TradeRelation>, partner: &str)
    ensures
        final(v)@ == trades_without(old(v)@, partner@),
{
    let mut rest: Vec<TradeRelation> = Vec::new();
    std::mem::swap(v, &mut rest);
    let ghost all = rest@;
    let ghost mut k: int = 0;
    while rest.len() > 0
        invariant
            0 <= k <= all.len(),
            rest@ == all.skip(k),
            v@ == trades_without(all.take(k), partner@),
        decreases rest.len(),
    {
        proof {
            reveal_with_fuel(Seq::<_>::filter, 1);
            assert(all.take(k + 1).drop_last() =~= all.take(k));
            assert(all.skip(k)[0] == all[k]);
            assert(all.skip(k).drop_first() =~= all.skip(k + 1));
        }
        let t = rest.remove(0);
        if !crate::text::same_text(t.partner_id.as_str(), partner) {
            v.push(t);
        }
        proof { k = k + 1; }
    }
    assert(all.take(k) =~= all);
}

/// A copy of a list of texts.
pub fn copy_texts(v: &Vec<String>) -> (r: Vec<String>)
    ensures
        r@ == v@,
{
    let mut r: Vec<String> = Vec::new();
    let mut i: usize = 0;
    while i < v.len()
        invariant
            i <= v@.len(),
            r@ == v@.take(i as int),
        decreases v.len() - i,
    {
        r.push(v[i].clone());
        assert(r@ =~= v@.take(i + 1));
        i = i + 1;
    }
    assert(v@.take(v@.len() as int) =~= v@);
    r
}

/// The texts of `v` joined by `sep`.
pub fn join_texts(v: &Vec<String>, sep: &str) -> (r: String)
    ensures
        r@ == text_join(texts(v@), sep@),
{
    let mut out = String::new();
    let mut i: usize = 0;
    while i < v.len()
        invariant
            i <= v@.len(),
            out@ == text_join(texts(v@.take(i as int)), sep@),
        decreases v.len() - i,
    {
        proof {
            assert(texts(v@.take(i + 1)).drop_last() =~= texts(v@.take(i as int)));
            assert(texts(v@.take(i + 1)).last() == v@[i as int]@);
            if i == 0 {
                assert(texts(v@.take(0)) =~= Seq::<Seq<char>>::empty());
            }
        }
        if i > 0 {
            out.append(sep);
        }
        out.append(v[i].as_str());
        proof {
            if i == 0 {
                assert(out@ =~= v@[0]@);
            }
        }
        i = i + 1;
    }
    assert(v@.take(v@.len() as int) =~= v@);
    out
}

/// Adds `treaty` (one without conditions) at the end of `v` unless `v`
/// holds it already.
pub fn add_treaty_once(v: &mut Vec<Treaty>, treaty: Treaty)
    requires
        !(treaty is PeaceTreaty),
    ensures
        if old(v)@.contains(treaty) { *final(v) == *old(v) } else { final(v)@ == old(v)@.push(treaty) },
{
    let mut i: usize = 0;
    while i < v.len()
        invariant
            i <= v@.len(),
            !(treaty is PeaceTreaty),
            forall|j: int| 0 <= j < i ==> v@[j] != treaty,
        decreases v.len() - i,
    {
        let same = match (&v[i], &treaty) {
            (Treaty::NonAggressionPact, Treaty::NonAggressionPact) => true,
            (Treaty::TradeAgreement, Treaty::TradeAgreement) => true,
            (Treaty::MilitaryAlliance, Treaty::MilitaryAlliance) => true,
            _ => false,
        };
        if same {
            assert(v@.contains(treaty)) by { assert(v@[i as int] == treaty); }
            return;
        }
        i = i + 1;
    }
    v.push(treaty);
}

impl GameState {
    /// Ensures that the relation between `a` and `b` holds `treaty`: adds it
    /// to their relation when missing there, or adds a new friendly relation
    /// with trust 10 holding just that treaty.
    fn ensure_treaty(&mut self, a: &str, b: &str, treaty: Treaty)
        requires
            !(treaty is PeaceTreaty),
        ensures
            treaty_ensured(old(self).diplomatic_relations@, final(self).diplomatic_relations@, a@, b@, treaty),
            *final(self) == (GameState { diplomatic_relations: final(self).diplomatic_relations, ..*old(self) }),
    {
        match self.relation_index(a, b) {
            Some(i) => {
                let ghost r0 = self.diplomatic_relations@;
                add_treaty_once(&mut self.diplomatic_relations[i].treaties, treaty);
                proof {
                    assert(self.diplomatic_relations@[i as int] == (DiplomaticRelation {
                        treaties: self.diplomatic_relations@[i as int].treaties,
                        ..r0[i as int]
                    }));
                    if r0[i as int].treaties@.contains(treaty) {
                        assert(self.diplomatic_relations@ =~= r0);
                    }
                }
            },
            None => {
                let mut treaties: Vec<Treaty> = Vec::new();
                treaties.push(treaty);
                self.diplomatic_relations.push(DiplomaticRelation {
                    country_a: a.to_owned(),
                    country_b: b.to_owned(),
                    stance: DiplomaticStance::Friendly,
                    trust: Real::from_bits(TEN_BITS),
                    treaties,
                });
                assert(self.diplomatic_relations@.drop_last() =~= old(self).diplomatic_relations@);
                assert(self.diplomatic_relations@.last().treaties@ =~= seq![treaty]);
            },
        }
    }

    /// The tool `negotiate_trade`: each of the two countries keeps one trade
    /// relation with the other, a new active one at volume 1 (the player
    /// exports the offer and imports the request; the target the reverse);
    /// their stance becomes `Friendly` unless they are allied; their relation
    /// holds a trade agreement; and the deal is recorded. Reports back the
    /// target's name.
    pub fn negotiate_trade(
        &mut self,
        target_country: Option<&str>,
        offer_resources: Option<Vec<String>>,
        request_resources: Option<Vec<String>>,
    ) -> (r: Result<String, String>)
        ensures
            match trade_error(*old(self), opt_text(target_country), offer_resources is Some, request_resources is Some) {
                Some(msg) => r matches Err(e) && e@ == msg && *final(self) == *old(self),
                None => r matches Ok(target_name)
                    && target_name@ == name_or(old(self).countries@, target_country->0@, target_country->0@)
                    && trade_deal_made(*old(self), *final(self), target_country->0@, offer_resources->0@, request_resources->0@),
            },
            old(self).well_formed() ==> final(self).well_formed(),
    {
        let target_id = match target_country {
            Some(t) => t,
            None => return Err("Missing 'target_country'".to_owned()),
        };
        let offer = match offer_resources {
            Some(o) => o,
            None => return Err("Missing 'offer_resources' array".to_owned()),
        };
        let request = match request_resources {
            Some(q) => q,
            None => return Err("Missing 'request_resources' array".to_owned()),
        };
        let pid = match &self.player_country_id {
            Some(p) => p.clone(),
            None => return Err("No player country selected".to_owned()),
        };
        if crate::text::same_text(pid.as_str(), target_id) {
            return Err("Cannot trade with yourself".to_owned());
        }
        let b = match self.country_index(target_id) {
            Some(b) => b,
            None => return Err(join2("Target country not found: ", target_id)),
        };
        let target_name = self.name_or(target_id, target_id);
        let a = self.country_index(pid.as_str());
        let ghost s0 = *self;
        proof {
            lemma_first_match(s0.countries@, crate::game::state::country_with_id(pid@));
            lemma_first_match(s0.countries@, crate::game::state::country_with_id(target_id@));
            if a is Some {
                assert(a->0 != b);
            }
        }

        if let Some(ai) = a {
            drop_trade_with(&mut self.countries[ai].trade_partners, target_id);
            self.countries[ai].trade_partners.push(TradeRelation {
                partner_id: target_id.to_owned(),
                export_goods: copy_texts(&offer),
                import_goods: copy_texts(&request),
                trade_volume: Real::from_bits(ONE_BITS),
                status: TradeStatus::Active,
            });
            proof {
                let after = self.countries@[ai as int].trade_partners@;
                let kept = trades_without(s0.countries@[ai as int].trade_partners@, target_id@);
                assert(after.drop_last() =~= kept);
                assert forall|j: int| 0 <= j < after.len() - 1 implies (#[trigger] after[j]).partner_id@ != target_id@ by {
                    s0.countries@[ai as int].trade_partners@.lemma_filter_pred(partner_differs(target_id@), j);
                }
            }
        }
        drop_trade_with(&mut self.countries[b].trade_partners, pid.as_str());
        self.countries[b].trade_partners.push(TradeRelation {
            partner_id: pid.clone(),
            export_goods: copy_texts(&request),
            import_goods: copy_texts(&offer),
            trade_volume: Real::from_bits(ONE_BITS),
            status: TradeStatus::Active,
        });
        proof {
            let after = self.countries@[b as int].trade_partners@;
            let kept = trades_without(s0.countries@[b as int].trade_partners@, pid@);
            assert(after.drop_last() =~= kept);
            assert forall|j: int| 0 <= j < after.len() - 1 implies (#[trigger] after[j]).partner_id@ != pid@ by {
                s0.countries@[b as int].trade_partners@.lemma_filter_pred(partner_differs(pid@), j);
            }
            if s0.well_formed() {
                assert(country_ids_kept(s0.countries@, self.countries@));
                lemma_country_ids_kept(s0.countries@, self.countries@);
            }
        }

        let current = self.get_diplomatic_stance(pid.as_str(), target_id);
        if current != DiplomaticStance::Allied {
            self.set_diplomatic_stance(pid.as_str(), target_id, DiplomaticStance::Friendly);
        }
        let ghost mid = self.diplomatic_relations@;
        proof {
            if current != DiplomaticStance::Allied {
                crate::game::laws::lemma_stance_read_after_write(
                    s0.diplomatic_relations@, mid, pid@, target_id@, DiplomaticStance::Friendly, pid@, target_id@);
            }
            lemma_first_match(mid, relation_between(pid@, target_id@));
        }
        self.ensure_treaty(pid.as_str(), target_id, Treaty::TradeAgreement);
        proof {
            let q = relation_between(pid@, target_id@);
            let fin = self.diplomatic_relations@;
            if let Some(i) = relation_pos(mid, pid@, target_id@) {
                assert(is_first_match(fin, q, i));
                lemma_first_match_at(fin, q, i);
            }
            assert(treaty_ensured(mid, fin, pid@, target_id@, Treaty::TradeAgreement));
        }

        let mut line = "Trade deal established with ".to_owned();
        line.append(target_name.as_str());
        line.append(": offering [");
        line.append(join_texts(&offer, ", ").as_str());
        line.append("], requesting [");
        line.append(join_texts(&request, ", ").as_str());
        line.append("]");
        let mut involved: Vec<String> = Vec::new();
        involved.push(pid.clone());
        involved.push(target_id.to_owned());
        proof {
            assert(texts(involved@) =~= seq![pid@, target_id@]);
        }
        self.record_event("trade_deal", line, involved);
        Ok(target_name)
    }

    /// The tool `form_alliance`: their stance becomes `Allied`, their
    /// relation holds a military alliance, each lists the other among its
    /// allies once, and the alliance is recorded. Raising the relation's
    /// trust is left to the caller, at the position reported back.
    pub fn form_alliance(&mut self, target_country: Option<&str>, alliance_type: Option<&str>) -> (r: Result<AllianceFormed, String>)
        ensures
            match alliance_error(*old(self), opt_text(target_country), opt_text(alliance_type)) {
                Some(msg) => r matches Err(e) && e@ == msg && *final(self) == *old(self),
                None => r matches Ok(o) && {
                    let p = old(self).player_country_id->0@;
                    let t = target_country->0@;
                    let a = country_pos(old(self).countries@, p);
                    let b = country_pos(old(self).countries@, t)->0;
                    let target_name = name_or(old(self).countries@, t, t);
                    let player_name = name_or(old(self).countries@, p, "You"@);
                    &&& o.target_name@ == target_name
                    &&& exists|mid: Seq<DiplomaticRelation>| {
                        &&& stance_set(old(self).diplomatic_relations@, mid, p, t, DiplomaticStance::Allied)
                        &&& relation_pos(mid, p, t) == Some(o.relation_index as int)
                        &&& #[trigger] treaty_ensured(mid, final(self).diplomatic_relations@, p, t, Treaty::MilitaryAlliance)
                    }
                    &&& relation_pos(final(self).diplomatic_relations@, p, t) == Some(o.relation_index as int)
                    &&& o.relation_index < final(self).diplomatic_relations@.len()
                    &&& stance_between(final(self).diplomatic_relations@, p, t) == DiplomaticStance::Allied
                    &&& final(self).diplomatic_relations@[o.relation_index as int].treaties@.contains(Treaty::MilitaryAlliance)
                    &&& final(self).countries@.len() == old(self).countries@.len()
                    &&& forall|k: int| 0 <= k < old(self).countries@.len() ==>
                        if Some(k) == a {
                            ally_added(old(self).countries@[k], #[trigger] final(self).countries@[k], t)
                        } else if k == b {
                            ally_added(old(self).countries@[k], final(self).countries@[k], p)
                        } else {
                            final(self).countries@[k] == old(self).countries@[k]
                        }
                    &&& event_added(*old(self), final(self).global_events@, "alliance_formed"@,
                        player_name + " and "@ + target_name + " formed a "@ + alliance_type->0@ + " alliance"@,
                        seq![p, t])
                    &&& *final(self) == (GameState {
                        countries: final(self).countries,
                        diplomatic_relations: final(self).diplomatic_relations,
                        global_events: final(self).global_events,
                        ..*old(self)
                    })
                },
            },
            old(self).well_formed() ==> final(self).well_formed(),
    {
        let target_id = match target_country {
            Some(t) => t,
            None => return Err("Missing 'target_country'".to_owned()),
        };
        let kind = match alliance_type {
            Some(k) => k,
            None => return Err("Missing 'alliance_type'".to_owned()),
        };
        if !(crate::text::same_text(kind, "defensive") || crate::text::same_text(kind, "full")
            || crate::text::same_text(kind, "economic")) {
            return Err(join3("Invalid alliance_type '", kind, "'. Must be one of: defensive, full, economic"));
        }
        let pid = match &self.player_country_id {
            Some(p) => p.clone(),
            None => return Err("No player country selected".to_owned()),
        };
        if crate::text::same_text(pid.as_str(), target_id) {
            return Err("Cannot ally with yourself".to_owned());
        }
        let b = match self.country_index(target_id) {
            Some(b) => b,
            None => return Err(join2("Target country not found: ", target_id)),
        };
        let target_name = self.name_or(target_id, target_id);
        let player_name = self.name_or(pid.as_str(), "You");
        let a = self.country_index(pid.as_str());
        let ghost s0 = *self;
        proof {
            lemma_first_match(s0.countries@, crate::game::state::country_with_id(pid@));
            lemma_first_match(s0.countries@, crate::game::state::country_with_id(target_id@));
            if a is Some {
                assert(a->0 != b);
            }
        }

        self.set_diplomatic_stance(pid.as_str(), target_id, DiplomaticStance::Allied);
        let ghost mid = self.diplomatic_relations@;
        proof {
            crate::game::laws::lemma_stance_read_after_write(
                s0.diplomatic_relations@, mid, pid@, target_id@, DiplomaticStance::Allied, pid@, target_id@);
            lemma_first_match(mid, relation_between(pid@, target_id@));
        }
        let relation_index = match self.relation_index(pid.as_str(), target_id) {
            Some(i) => i,
            None => {
                proof {
                    lemma_first_match(mid, relation_between(pid@, target_id@));
                    assert(stance_between(mid, pid@, target_id@) == DiplomaticStance::Neutral);
                }
                0
            },
        };
        self.ensure_treaty(pid.as_str(), target_id, Treaty::MilitaryAlliance);
        proof {
            let q = relation_between(pid@, target_id@);
            let fin = self.diplomatic_relations@;
            let i = relation_index as int;
            assert(is_first_match(fin, q, i));
            lemma_first_match_at(fin, q, i);
            if !mid[i].treaties@.contains(Treaty::MilitaryAlliance) {
                assert(fin[i].treaties@.last() == Treaty::MilitaryAlliance);
                assert(fin[i].treaties@.contains(Treaty::MilitaryAlliance)) by {
                    assert(fin[i].treaties@[fin[i].treaties@.len() - 1] == Treaty::MilitaryAlliance);
                }
            }
        }

        let ghost c0 = self.countries@;
        assert(c0 == s0.countries@);
        if let Some(ai) = a {
            add_text_once(&mut self.countries[ai].alliances, target_id);
            assert(ally_added(c0[ai as int], self.countries@[ai as int], target_id@));
        }
        let ghost c1 = self.countries@;
        add_text_once(&mut self.countries[b].alliances, pid.as_str());
        assert(ally_added(c1[b as int], self.countries@[b as int], pid@));
        assert(c1[b as int] == c0[b as int]);
        assert(forall|k: int| 0 <= k < c0.len() && k != b ==> self.countries@[k] == c1[k]);
        proof {
            if s0.well_formed() {
                assert(country_ids_kept(s0.countries@, self.countries@));
                lemma_country_ids_kept(s0.countries@, self.countries@);
            }
        }

        let mut line = player_name.clone();
        line.append(" and ");
        line.append(target_name.as_str());
        line.append(" formed a ");
        line.append(kind);
        line.append(" alliance");
        let mut involved: Vec<String> = Vec::new();
        involved.push(pid.clone());
        involved.push(target_id.to_owned());
        proof {
            assert(texts(involved@) =~= seq![pid@, target_id@]);
        }
        self.record_event("alliance_formed", line, involved);
        Ok(AllianceFormed { target_name, relation_index })
    }

    /// The names of the countries among `ids` that exist, in order.
    pub fn known_names(&self, ids: &Vec<String>) -> (r: Vec<String>)
        ensures
            texts(r@) == known_names(self.countries@, ids@),
    {
        let mut out: Vec<String> = Vec::new();
        let mut i: usize = 0;
        while i < ids.len()
            invariant
                i <= ids@.len(),
                texts(out@) == known_names(self.countries@, ids@.take(i as int)),
            decreases ids.len() - i,
        {
            proof {
                assert(ids@.take(i + 1).drop_last() =~= ids@.take(i as int));
                assert(ids@.take(i + 1).last() == ids@[i as int]);
            }
            let ghost before = out@;
            if let Some(k) = self.country_index(ids[i].as_str()) {
                out.push(self.countries[k].name.clone());
                assert(texts(out@) =~= texts(before).push(self.countries@[k as int].name@));
            }
            i = i + 1;
        }
        assert(ids@.take(ids@.len() as int) =~= ids@);
        out
    }

    /// The tool `get_world_situation`.
    pub fn get_world_situation(&self) -> (r: WorldSituation)
        ensures
            r.turn == self.turn_number,
            r.month == self.current_month,
            r.year == self.current_year,
            r.scenario@ == self.scenario_name@,
            r.active_wars@.len() == ongoing_wars(self.wars@).len(),
            forall|i: int| 0 <= i < r.active_wars@.len() ==>
                summarizes(#[trigger] r.active_wars@[i], ongoing_wars(self.wars@)[i], self.countries@),
            r.recent_events_start == crate::game::turn::tail_start_spec(self.global_events@.len() as usize, 5),
            r.player_country == match self.player_country_id {
                Some(id) => crate::search::as_index(country_pos(self.countries@, id@)),
                None => None,
            },
            r.total_countries == self.countries@.len(),
    {
        let mut active: Vec<WarSummary> = Vec::new();
        let mut w: usize = 0;
        while w < self.wars.len()
            invariant
                w <= self.wars@.len(),
                active@.len() == ongoing_wars(self.wars@.take(w as int)).len(),
                forall|i: int| 0 <= i < active@.len() ==>
                    summarizes(#[trigger] active@[i], ongoing_wars(self.wars@.take(w as int))[i], self.countries@),
            decreases self.wars.len() - w,
        {
            proof {
                reveal_with_fuel(Seq::<_>::filter, 1);
                assert(self.wars@.take(w + 1).drop_last() =~= self.wars@.take(w as int));
            }
            let war = &self.wars[w];
            if war.status == WarStatus::Ongoing {
                let summary = WarSummary {
                    war_id: war.id.clone(),
                    name: war.name.clone(),
                    attackers: self.known_names(&war.attackers),
                    defenders: self.known_names(&war.defenders),
                    justification: war.justification.clone(),
                    war_score: war.war_score,
                    war_type: war.war_type,
                    status: war.status,
                };
                active.push(summary);
            }
            w = w + 1;
        }
        assert(self.wars@.take(self.wars@.len() as int) =~= self.wars@);
        let player_country = match &self.player_country_id {
            Some(id) => self.country_index(id.as_str()),
            None => None,
        };
        WorldSituation {
            turn: self.turn_number,
            month: self.current_month,
            year: self.current_year,
            scenario: self.scenario_name.clone(),
            active_wars: active,
            recent_events_start: crate::game::turn::tail_start(self.global_events.len(), 5),
            player_country,
            total_countries: self.countries.len(),
        }
    }
}

} // verus!
