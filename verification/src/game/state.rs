//! The game state: the world's countries and wars, the relations between
//! countries, the calendar and the record of what happened.

use vstd::prelude::*;
use super::country::{Country, DiplomaticRelation, DiplomaticStance, Real};
use super::war::{War, WarStatus};
use crate::search::{contains_text, first_match, has_text, insert_sorted, is_first_match, lemma_first_match, lemma_first_match_at, strictly_sorted};

verus! {

#[derive(Clone, Debug)]
pub struct GameState {
    pub scenario_name: String,
    pub current_year: i32,
    pub current_month: i32,
    pub turn_number: u64,
    /// The countries, each found by its `id`.
    pub countries: Vec<Country>,
    /// The wars, each found by its `id`.
    pub wars: Vec<War>,
    pub diplomatic_relations: Vec<DiplomaticRelation>,
    pub player_country_id: Option<String>,
    pub global_events: Vec<GlobalEvent>,
    pub turn_history: Vec<TurnSummary>,
    pub active: bool,
}

#[derive(Clone, Debug)]
pub struct GlobalEvent {
    pub turn: u64,
    pub year: i32,
    pub month: i32,
    pub event_type: String,
    pub description: String,
    pub involved_countries: Vec<String>,
}

#[derive(Clone, Debug)]
pub struct TurnSummary {
    pub turn: u64,
    pub year: i32,
    pub month: i32,
    pub player_action: String,
    pub results: Vec<String>,
    pub territory_changes: Vec<TerritoryChange>,
    pub war_updates: Vec<WarUpdate>,
    pub economic_changes: Vec<EconomicChange>,
    pub new_events: Vec<String>,
}

#[derive(Clone, Debug)]
pub struct TerritoryChange {
    pub region: String,
    pub from_country: String,
    pub to_country: String,
    pub change_type: String,
}

#[derive(Clone, Debug)]
pub struct WarUpdate {
    pub war_id: String,
    pub description: String,
    pub attacker_gains: Vec<String>,
    pub defender_gains: Vec<String>,
}

#[derive(Clone, Debug)]
pub struct EconomicChange {
    pub country_id: String,
    pub gdp_change: Real,
    pub gdp_growth_new: Real,
    pub description: String,
}

/// The country has the identifier `id`.
pub open spec fn country_with_id(id: Seq<char>) -> spec_fn(Country) -> bool {
    |c: Country| c.id@ == id
}

/// The war has the identifier `id`.
pub open spec fn war_with_id(id: Seq<char>) -> spec_fn(War) -> bool {
    |w: War| w.id@ == id
}

/// The relation is the one between `a` and `b`, in either order.
pub open spec fn relation_between(a: Seq<char>, b: Seq<char>) -> spec_fn(DiplomaticRelation) -> bool {
    |r: DiplomaticRelation| (r.country_a@ == a && r.country_b@ == b) || (r.country_a@ == b && r.country_b@ == a)
}

/// The position of the country with the identifier `id`.
pub open spec fn country_pos(countries: Seq<Country>, id: Seq<char>) -> Option<int> {
    first_match(countries, country_with_id(id))
}

/// The position of the war with the identifier `id`.
pub open spec fn war_pos(wars: Seq<War>, id: Seq<char>) -> Option<int> {
    first_match(wars, war_with_id(id))
}

/// The position of the relation between `a` and `b`.
pub open spec fn relation_pos(relations: Seq<DiplomaticRelation>, a: Seq<char>, b: Seq<char>) -> Option<int> {
    first_match(relations, relation_between(a, b))
}

/// The stance between `a` and `b`: that of their relation, or `Neutral` when
/// they have none.
pub open spec fn stance_between(relations: Seq<DiplomaticRelation>, a: Seq<char>, b: Seq<char>) -> DiplomaticStance {
    match relation_pos(relations, a, b) {
        Some(i) => relations[i].stance,
        None => DiplomaticStance::Neutral,
    }
}

/// In the war `w`, `enemy` fights on the other side from `country`.
pub open spec fn enemy_in_war(w: War, country: Seq<char>, enemy: Seq<char>) -> bool {
    &&& w.status == WarStatus::Ongoing
    &&& {
        ||| contains_text(w.attackers@, country) && contains_text(w.defenders@, enemy)
        ||| contains_text(w.defenders@, country) && contains_text(w.attackers@, enemy)
    }
}

/// Some ongoing war sets `enemy` against `country`.
pub open spec fn at_war(wars: Seq<War>, country: Seq<char>, enemy: Seq<char>) -> bool {
    exists|w: int| 0 <= w < wars.len() && enemy_in_war(#[trigger] wars[w], country, enemy)
}

/// The month and year that follow `month` of `year`.
pub open spec fn next_date(year: int, month: int) -> (int, int) {
    if month + 1 > 12 { (year + 1, 1) } else { (year, month + 1) }
}

/// `after` is `before` with the stance between `a` and `b` set to `stance`:
/// on their relation when they have one, else on a new relation, with no
/// trust and no treaty, at the end.
pub open spec fn stance_set(
    before: Seq<DiplomaticRelation>,
    after: Seq<DiplomaticRelation>,
    a: Seq<char>,
    b: Seq<char>,
    stance: DiplomaticStance,
) -> bool {
    match relation_pos(before, a, b) {
        Some(i) => {
            &&& after.len() == before.len()
            &&& forall|j: int| 0 <= j < before.len() && j != i ==> #[trigger] after[j] == before[j]
            &&& after[i] == (DiplomaticRelation { stance, ..before[i] })
        },
        None => {
            &&& after.drop_last() == before
            &&& after.len() == before.len() + 1
            &&& after.last().country_a@ == a
            &&& after.last().country_b@ == b
            &&& after.last().stance == stance
            &&& after.last().trust == Real::zero_spec()
            &&& after.last().treaties@.len() == 0
        },
    }
}

/// The month and year `n` months after `month` of `year`.
pub open spec fn date_after(year: int, month: int, n: nat) -> (int, int)
    decreases n,
{
    if n == 0 {
        (year, month)
    } else {
        let (y, m) = next_date(year, month);
        date_after(y, m, (n - 1) as nat)
    }
}

/// No two of the countries share an identifier.
pub open spec fn country_ids_distinct(countries: Seq<Country>) -> bool {
    forall|i: int, j: int| 0 <= i < j < countries.len() ==>
        (#[trigger] countries[i]).id@ != (#[trigger] countries[j]).id@
}

/// No two of the wars share an identifier.
pub open spec fn war_ids_distinct(wars: Seq<War>) -> bool {
    forall|i: int, j: int| 0 <= i < j < wars.len() ==>
        (#[trigger] wars[i]).id@ != (#[trigger] wars[j]).id@
}

/// `after` holds as many countries as `before`, each under the identifier
/// that the country in its place had.
pub open spec fn country_ids_kept(before: Seq<Country>, after: Seq<Country>) -> bool {
    &&& after.len() == before.len()
    &&& forall|k: int| 0 <= k < before.len() ==> (#[trigger] after[k]).id@ == before[k].id@
}

/// `after` holds as many wars as `before`, each under the identifier that
/// the war in its place had.
pub open spec fn war_ids_kept(before: Seq<War>, after: Seq<War>) -> bool {
    &&& after.len() == before.len()
    &&& forall|k: int| 0 <= k < before.len() ==> (#[trigger] after[k]).id@ == before[k].id@
}

/// Keeping each country's identifier in its place keeps them distinct.
pub proof fn lemma_country_ids_kept(before: Seq<Country>, after: Seq<Country>)
    requires
        country_ids_distinct(before),
        country_ids_kept(before, after),
    ensures
        country_ids_distinct(after),
{
    assert forall|i: int, j: int| 0 <= i < j < after.len() implies
        (#[trigger] after[i]).id@ != (#[trigger] after[j]).id@ by {
        assert(after[i].id@ == before[i].id@);
        assert(after[j].id@ == before[j].id@);
    }
}

/// Keeping each country's identifier in its place keeps each country's
/// position.
pub proof fn lemma_country_pos_kept(before: Seq<Country>, after: Seq<Country>, id: Seq<char>)
    requires
        country_ids_kept(before, after),
    ensures
        country_pos(after, id) == country_pos(before, id),
{
    let p = country_with_id(id);
    lemma_first_match(before, p);
    assert forall|k: int| 0 <= k < before.len() implies p(#[trigger] after[k]) == p(before[k]) by {
        assert(after[k].id@ == before[k].id@);
    }
    match country_pos(before, id) {
        Some(i) => {
            assert(is_first_match(after, p, i));
            lemma_first_match_at(after, p, i);
        },
        None => {
            lemma_first_match(after, p);
            if country_pos(after, id) is Some {
                let i = country_pos(after, id)->0;
                assert(p(after[i]));
            }
        },
    }
}

/// Keeping each war's identifier in its place keeps them distinct.
pub proof fn lemma_war_ids_kept(before: Seq<War>, after: Seq<War>)
    requires
        war_ids_distinct(before),
        war_ids_kept(before, after),
    ensures
        war_ids_distinct(after),
{
    assert forall|i: int, j: int| 0 <= i < j < after.len() implies
        (#[trigger] after[i]).id@ != (#[trigger] after[j]).id@ by {
        assert(after[i].id@ == before[i].id@);
        assert(after[j].id@ == before[j].id@);
    }
}

impl GameState {
    /// No two countries share an identifier, and no two wars do, as when
    /// each is found by its identifier alone.
    pub open spec fn well_formed(&self) -> bool {
        &&& country_ids_distinct(self.countries@)
        &&& war_ids_distinct(self.wars@)
    }

    /// Whether no two countries share an identifier and no two wars do.
    pub fn has_distinct_ids(&self) -> (r: bool)
        ensures
            r == self.well_formed(),
    {
        let n = self.countries.len();
        let mut i: usize = 0;
        while i < n
            invariant
                n == self.countries@.len(),
                i <= n,
                forall|a: int, b: int| 0 <= a < b < self.countries@.len() && a < i ==>
                    (#[trigger] self.countries@[a]).id@ != (#[trigger] self.countries@[b]).id@,
            decreases n - i,
        {
            let mut j: usize = i + 1;
            while j < n
                invariant
                    n == self.countries@.len(),
                    i < j <= n,
                    forall|a: int, b: int| 0 <= a < b < self.countries@.len() && a < i ==>
                        (#[trigger] self.countries@[a]).id@ != (#[trigger] self.countries@[b]).id@,
                    forall|b: int| i < b < j ==> self.countries@[i as int].id@ != (#[trigger] self.countries@[b]).id@,
                decreases n - j,
            {
                if crate::text::same_text(self.countries[i].id.as_str(), self.countries[j].id.as_str()) {
                    return false;
                }
                j = j + 1;
            }
            i = i + 1;
        }
        let m = self.wars.len();
        let mut i: usize = 0;
        while i < m
            invariant
                m == self.wars@.len(),
                i <= m,
                country_ids_distinct(self.countries@),
                forall|a: int, b: int| 0 <= a < b < self.wars@.len() && a < i ==>
                    (#[trigger] self.wars@[a]).id@ != (#[trigger] self.wars@[b]).id@,
            decreases m - i,
        {
            let mut j: usize = i + 1;
            while j < m
                invariant
                    m == self.wars@.len(),
                    i < j <= m,
                    forall|a: int, b: int| 0 <= a < b < self.wars@.len() && a < i ==>
                        (#[trigger] self.wars@[a]).id@ != (#[trigger] self.wars@[b]).id@,
                    forall|b: int| i < b < j ==> self.wars@[i as int].id@ != (#[trigger] self.wars@[b]).id@,
                decreases m - j,
            {
                if crate::text::same_text(self.wars[i].id.as_str(), self.wars[j].id.as_str()) {
                    return false;
                }
                j = j + 1;
            }
            i = i + 1;
        }
        true
    }

    /// A new game of the named scenario, in September 1939, with no countries yet.
    pub fn new(scenario_name: &str) -> (r: GameState)
        ensures
            r.scenario_name@ == scenario_name@,
            r.current_year == 1939,
            r.current_month == 9,
            r.turn_number == 0,
            r.countries@.len() == 0,
            r.wars@.len() == 0,
            r.diplomatic_relations@.len() == 0,
            r.player_country_id is None,
            r.global_events@.len() == 0,
            r.turn_history@.len() == 0,
            !r.active,
            r.well_formed(),
    {
        GameState {
            scenario_name: scenario_name.to_owned(),
            current_year: 1939,
            current_month: 9,
            turn_number: 0,
            countries: Vec::new(),
            wars: Vec::new(),
            diplomatic_relations: Vec::new(),
            player_country_id: None,
            global_events: Vec::new(),
            turn_history: Vec::new(),
            active: false,
        }
    }

    /// The position of the country with the identifier `id`.
    pub fn country_index(&self, id: &str) -> (r: Option<usize>)
        ensures
            match r {
                Some(i) => country_pos(self.countries@, id@) == Some(i as int) && i < self.countries@.len(),
                None => country_pos(self.countries@, id@) is None,
            },
    {
        let ghost p = country_with_id(id@);
        let mut i: usize = 0;
        while i < self.countries.len()
            invariant
                i <= self.countries@.len(),
                p == country_with_id(id@),
                forall|j: int| 0 <= j < i ==> !p(#[trigger] self.countries@[j]),
            decreases self.countries.len() - i,
        {
            if crate::text::same_text(self.countries[i].id.as_str(), id) {
                proof { lemma_first_match_at(self.countries@, p, i as int); }
                return Some(i);
            }
            i = i + 1;
        }
        proof { lemma_first_match(self.countries@, p); }
        None
    }

    /// The position of the war with the identifier `id`.
    pub fn war_index(&self, id: &str) -> (r: Option<usize>)
        ensures
            match r {
                Some(i) => war_pos(self.wars@, id@) == Some(i as int) && i < self.wars@.len(),
                None => war_pos(self.wars@, id@) is None,
            },
    {
        let ghost p = war_with_id(id@);
        let mut i: usize = 0;
        while i < self.wars.len()
            invariant
                i <= self.wars@.len(),
                p == war_with_id(id@),
                forall|j: int| 0 <= j < i ==> !p(#[trigger] self.wars@[j]),
            decreases self.wars.len() - i,
        {
            if crate::text::same_text(self.wars[i].id.as_str(), id) {
                proof { lemma_first_match_at(self.wars@, p, i as int); }
                return Some(i);
            }
            i = i + 1;
        }
        proof { lemma_first_match(self.wars@, p); }
        None
    }

    /// The position of the relation between `a` and `b`.
    pub fn relation_index(&self, a: &str, b: &str) -> (r: Option<usize>)
        ensures
            match r {
                Some(i) => relation_pos(self.diplomatic_relations@, a@, b@) == Some(i as int) && i < self.diplomatic_relations@.len(),
                None => relation_pos(self.diplomatic_relations@, a@, b@) is None,
            },
    {
        let ghost p = relation_between(a@, b@);
        let mut i: usize = 0;
        while i < self.diplomatic_relations.len()
            invariant
                i <= self.diplomatic_relations@.len(),
                p == relation_between(a@, b@),
                forall|j: int| 0 <= j < i ==> !p(#[trigger] self.diplomatic_relations@[j]),
            decreases self.diplomatic_relations.len() - i,
        {
            let r = &self.diplomatic_relations[i];
            let ca = r.country_a.as_str();
            let cb = r.country_b.as_str();
            if (crate::text::same_text(ca, a) && crate::text::same_text(cb, b))
                || (crate::text::same_text(ca, b) && crate::text::same_text(cb, a)) {
                proof { lemma_first_match_at(self.diplomatic_relations@, p, i as int); }
                return Some(i);
            }
            i = i + 1;
        }
        proof { lemma_first_match(self.diplomatic_relations@, p); }
        None
    }

    /// The country that the player controls, if one is selected and present.
    pub fn get_player_country(&self) -> (r: Option<&Country>)
        ensures
            r == match self.player_country_id {
                Some(id) => match country_pos(self.countries@, id@) {
                    Some(i) => Some(&self.countries@[i]),
                    None => None,
                },
                None => None,
            },
    {
        match &self.player_country_id {
            Some(id) => match self.country_index(id.as_str()) {
                Some(i) => Some(&self.countries[i]),
                None => None,
            },
            None => None,
        }
    }

    /// The country that the player controls, if one is selected and present,
    /// to be changed in place.
    pub fn get_player_country_mut(&mut self) -> (r: Option<&mut Country>)
        ensures
            match old(self).player_country_id {
                Some(id) => match country_pos(old(self).countries@, id@) {
                    Some(i) => r is Some && *r->0 == old(self).countries@[i]
                        && final(self).countries@ == old(self).countries@.update(i, *final(r->0))
                        && *final(self) == (GameState { countries: final(self).countries, ..*old(self) }),
                    None => r is None && *final(self) == *old(self),
                },
                None => r is None && *final(self) == *old(self),
            },
    {
        let i = match &self.player_country_id {
            Some(id) => self.country_index(id.as_str()),
            None => None,
        };
        match i {
            Some(i) => Some(&mut self.countries[i]),
            None => None,
        }
    }

    /// The identifiers of the countries that some ongoing war sets against
    /// `country_id`, sorted, each once.
    pub fn find_countries_at_war_with(&self, country_id: &str) -> (r: Vec<String>)
        ensures
            strictly_sorted(r@),
            forall|x: Seq<char>| contains_text(r@, x) <==> at_war(self.wars@, country_id@, x),
    {
        let mut enemies: Vec<String> = Vec::new();
        let mut w: usize = 0;
        while w < self.wars.len()
            invariant
                w <= self.wars@.len(),
                strictly_sorted(enemies@),
                forall|x: Seq<char>| #![trigger contains_text(enemies@, x)] contains_text(enemies@, x) <==>
                    exists|k: int| 0 <= k < w && enemy_in_war(#[trigger] self.wars@[k], country_id@, x),
            decreases self.wars.len() - w,
        {
            let war = &self.wars[w];
            let ghost before = enemies@;
            if war.status == WarStatus::Ongoing {
                let in_attackers = has_text(&war.attackers, country_id);
                let in_defenders = has_text(&war.defenders, country_id);
                if in_attackers {
                    let mut d: usize = 0;
                    while d < war.defenders.len()
                        invariant
                            d <= war.defenders@.len(),
                            strictly_sorted(enemies@),
                            forall|x: Seq<char>| #![trigger contains_text(enemies@, x)] contains_text(enemies@, x) <==>
                                (contains_text(before, x) || exists|j: int| 0 <= j < d && (#[trigger] war.defenders@[j])@ == x),
                        decreases war.defenders.len() - d,
                    {
                        let ghost prev = enemies@;
                        insert_sorted(&mut enemies, war.defenders[d].clone());
                        proof {
                            assert forall|x: Seq<char>| #![trigger contains_text(enemies@, x)] contains_text(enemies@, x) <==>
                                (contains_text(before, x) || exists|j: int| 0 <= j < d + 1 && (#[trigger] war.defenders@[j])@ == x) by {
                                if exists|j: int| 0 <= j < d + 1 && (#[trigger] war.defenders@[j])@ == x {
                                    let j = choose|j: int| 0 <= j < d + 1 && (#[trigger] war.defenders@[j])@ == x;
                                    if j < d {
                                        assert(contains_text(prev, x));
                                    }
                                }
                                if contains_text(prev, x) && !contains_text(before, x) {
                                    let j = choose|j: int| 0 <= j < d && (#[trigger] war.defenders@[j])@ == x;
                                    assert(0 <= j < d + 1);
                                }
                                if x == war.defenders@[d as int]@ {
                                    assert(0 <= d < d + 1);
                                }
                            }
                        }
                        d = d + 1;
                    }
                }
                let ghost middle = enemies@;
                if in_defenders {
                    let mut a: usize = 0;
                    while a < war.attackers.len()
                        invariant
                            a <= war.attackers@.len(),
                            strictly_sorted(enemies@),
                            forall|x: Seq<char>| #![trigger contains_text(enemies@, x)] contains_text(enemies@, x) <==>
                                (contains_text(middle, x) || exists|j: int| 0 <= j < a && (#[trigger] war.attackers@[j])@ == x),
                        decreases war.attackers.len() - a,
                    {
                        let ghost prev = enemies@;
                        insert_sorted(&mut enemies, war.attackers[a].clone());
                        proof {
                            assert forall|x: Seq<char>| #![trigger contains_text(enemies@, x)] contains_text(enemies@, x) <==>
                                (contains_text(middle, x) || exists|j: int| 0 <= j < a + 1 && (#[trigger] war.attackers@[j])@ == x) by {
                                if exists|j: int| 0 <= j < a + 1 && (#[trigger] war.attackers@[j])@ == x {
                                    let j = choose|j: int| 0 <= j < a + 1 && (#[trigger] war.attackers@[j])@ == x;
                                    if j < a {
                                        assert(contains_text(prev, x));
                                    }
                                }
                                if contains_text(prev, x) && !contains_text(middle, x) {
                                    let j = choose|j: int| 0 <= j < a && (#[trigger] war.attackers@[j])@ == x;
                                    assert(0 <= j < a + 1);
                                }
                                if x == war.attackers@[a as int]@ {
                                    assert(0 <= a < a + 1);
                                }
                            }
                        }
                        a = a + 1;
                    }
                }
                proof {
                    assert(middle == before || in_attackers);
                    assert forall|x: Seq<char>| #![trigger contains_text(enemies@, x)] contains_text(enemies@, x) <==>
                        exists|k: int| 0 <= k < w + 1 && enemy_in_war(#[trigger] self.wars@[k], country_id@, x) by {
                        let here = enemy_in_war(self.wars@[w as int], country_id@, x);
                        let earlier = exists|k: int| 0 <= k < w && enemy_in_war(#[trigger] self.wars@[k], country_id@, x);
                        if contains_text(middle, x) && !contains_text(before, x) {
                            assert(in_attackers);
                            let j = choose|j: int| 0 <= j < war.defenders@.len() && (#[trigger] war.defenders@[j])@ == x;
                            assert(contains_text(war.defenders@, x));
                            assert(here);
                        }
                        if contains_text(enemies@, x) && !contains_text(middle, x) {
                            assert(in_defenders);
                            let j = choose|j: int| 0 <= j < war.attackers@.len() && (#[trigger] war.attackers@[j])@ == x;
                            assert(contains_text(war.attackers@, x));
                            assert(here);
                        }
                        if here {
                            if contains_text(war.attackers@, country_id@) && contains_text(war.defenders@, x) {
                                let j = choose|j: int| 0 <= j < war.defenders@.len() && (#[trigger] war.defenders@[j])@ == x;
                                assert(contains_text(middle, x));
                            } else {
                                let j = choose|j: int| 0 <= j < war.attackers@.len() && (#[trigger] war.attackers@[j])@ == x;
                                assert(contains_text(enemies@, x));
                            }
                        }
                        if exists|k: int| 0 <= k < w + 1 && enemy_in_war(#[trigger] self.wars@[k], country_id@, x) {
                            let k = choose|k: int| 0 <= k < w + 1 && enemy_in_war(#[trigger] self.wars@[k], country_id@, x);
                            if k < w {
                                assert(earlier);
                            }
                        }
                    }
                }
            } else {
                proof {
                    assert forall|x: Seq<char>| #![trigger contains_text(enemies@, x)] contains_text(enemies@, x) <==>
                        exists|k: int| 0 <= k < w + 1 && enemy_in_war(#[trigger] self.wars@[k], country_id@, x) by {
                        if exists|k: int| 0 <= k < w + 1 && enemy_in_war(#[trigger] self.wars@[k], country_id@, x) {
                            let k = choose|k: int| 0 <= k < w + 1 && enemy_in_war(#[trigger] self.wars@[k], country_id@, x);
                            assert(k != w);
                        }
                    }
                }
            }
            w = w + 1;
        }
        enemies
    }

    /// The stance between two countries; `Neutral` when they have no relation.
    pub fn get_diplomatic_stance(&self, country_a: &str, country_b: &str) -> (r: DiplomaticStance)
        ensures
            r == stance_between(self.diplomatic_relations@, country_a@, country_b@),
    {
        match self.relation_index(country_a, country_b) {
            Some(i) => self.diplomatic_relations[i].stance,
            None => DiplomaticStance::Neutral,
        }
    }

    /// Sets the stance between two countries: on their relation when they have
    /// one, else on a new relation, with no trust and no treaty, at the end.
    pub fn set_diplomatic_stance(&mut self, country_a: &str, country_b: &str, stance: DiplomaticStance)
        ensures
            final(self).scenario_name == old(self).scenario_name,
            final(self).current_year == old(self).current_year,
            final(self).current_month == old(self).current_month,
            final(self).turn_number == old(self).turn_number,
            final(self).countries == old(self).countries,
            final(self).wars == old(self).wars,
            final(self).player_country_id == old(self).player_country_id,
            final(self).global_events == old(self).global_events,
            final(self).turn_history == old(self).turn_history,
            final(self).active == old(self).active,
            stance_set(old(self).diplomatic_relations@, final(self).diplomatic_relations@, country_a@, country_b@, stance),
            old(self).well_formed() ==> final(self).well_formed(),
    {
        match self.relation_index(country_a, country_b) {
            Some(i) => {
                self.diplomatic_relations[i].stance = stance;
            },
            None => {
                self.diplomatic_relations.push(DiplomaticRelation {
                    country_a: country_a.to_owned(),
                    country_b: country_b.to_owned(),
                    stance,
                    trust: Real::zero(),
                    treaties: Vec::new(),
                });
                assert(self.diplomatic_relations@.drop_last() =~= old(self).diplomatic_relations@);
            },
        }
        proof {
            if let Some(i) = relation_pos(old(self).diplomatic_relations@, country_a@, country_b@) {
                assert(self.diplomatic_relations@[i] == (DiplomaticRelation { stance, ..old(self).diplomatic_relations@[i] }));
            }
        }
    }

    /// Moves the calendar on by a month, into the next year after December,
    /// and counts one more turn.
    pub fn advance_time(&mut self)
        requires
            old(self).current_month < i32::MAX,
            old(self).current_month + 1 > 12 ==> old(self).current_year < i32::MAX,
            old(self).turn_number < u64::MAX,
        ensures
            (final(self).current_year as int, final(self).current_month as int)
                == next_date(old(self).current_year as int, old(self).current_month as int),
            final(self).turn_number == old(self).turn_number + 1,
            final(self).scenario_name == old(self).scenario_name,
            final(self).countries == old(self).countries,
            final(self).wars == old(self).wars,
            final(self).diplomatic_relations == old(self).diplomatic_relations,
            final(self).player_country_id == old(self).player_country_id,
            final(self).global_events == old(self).global_events,
            final(self).turn_history == old(self).turn_history,
            final(self).active == old(self).active,
            old(self).well_formed() ==> final(self).well_formed(),
    {
        self.current_month = self.current_month + 1;
        if self.current_month > 12 {
            self.current_month = 1;
            self.current_year = self.current_year + 1;
        }
        self.turn_number = self.turn_number + 1;
    }
}

} // verus!
