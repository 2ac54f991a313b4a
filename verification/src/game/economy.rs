//! The turn's processing of wars: which fronts see fighting, fronts that
//! close, and territory that changes hands. The fighting itself, and the
//! growth of the economies, are computed by the caller on the real-valued
//! quantities.

use vstd::prelude::*;
use super::country::Country;
use super::state::{country_pos, GameState, WarUpdate};
use crate::tools::executors::texts;
use super::war::WarStatus;
use crate::search::{add_text_once, contains_text, lemma_first_match, remove_text, without_text};

verus! {

/// A front where fighting is due this turn: the positions of the war, of the
/// front within it, and of the countries that lead each side.
#[derive(Clone, Copy, PartialEq, Eq, Structural, Debug)]
pub struct Engagement {
    pub war_index: usize,
    pub front_index: usize,
    pub attacker_index: usize,
    pub defender_index: usize,
}

/// Fighting is due on front `f` of war `w` in state `s`: the war is ongoing,
/// the front active, and both sides have a first country that exists.
pub open spec fn engagement_due(s: GameState, w: int, f: int) -> bool {
    &&& 0 <= w < s.wars@.len()
    &&& 0 <= f < s.wars@[w].fronts@.len()
    &&& s.wars@[w].status == WarStatus::Ongoing
    &&& s.wars@[w].fronts@[f].active
    &&& s.wars@[w].attackers@.len() > 0
    &&& s.wars@[w].defenders@.len() > 0
    &&& country_pos(s.countries@, s.wars@[w].attackers@[0]@) is Some
    &&& country_pos(s.countries@, s.wars@[w].defenders@[0]@) is Some
}

/// `e` describes the fighting due on front `e.front_index` of war `e.war_index`.
pub open spec fn engagement_is(s: GameState, e: Engagement) -> bool {
    &&& engagement_due(s, e.war_index as int, e.front_index as int)
    &&& country_pos(s.countries@, s.wars@[e.war_index as int].attackers@[0]@) == Some(e.attacker_index as int)
    &&& country_pos(s.countries@, s.wars@[e.war_index as int].defenders@[0]@) == Some(e.defender_index as int)
}

/// `a` comes before `b`: by war, then by front.
pub open spec fn engagement_before(a: Engagement, b: Engagement) -> bool {
    a.war_index < b.war_index || (a.war_index == b.war_index && a.front_index < b.front_index)
}

/// The country `after` is `before` with `region` added at the end of its
/// controlled territory unless it is listed there already.
pub open spec fn territory_gained(before: Country, after: Country, region: Seq<char>) -> bool {
    &&& after == (Country { controlled_territory: after.controlled_territory, ..before })
    &&& contains_text(before.controlled_territory@, region) ==> after.controlled_territory@ == before.controlled_territory@
    &&& !contains_text(before.controlled_territory@, region) ==> after.controlled_territory@.len() == before.controlled_territory@.len() + 1
        && after.controlled_territory@.drop_last() == before.controlled_territory@
        && after.controlled_territory@.last()@ == region
}

/// `after` is `before` once the territory `from` has passed to `to`: the
/// country `to` controls it (added once), and the country `from` no longer
/// lists it.
pub open spec fn territory_transferred(before: Seq<Country>, after: Seq<Country>, from: Seq<char>, to: Seq<char>) -> bool {
    &&& after.len() == before.len()
    &&& forall|k: int| 0 <= k < before.len() ==>
        if Some(k) == country_pos(before, from) {
            &&& #[trigger] after[k] == (Country { controlled_territory: after[k].controlled_territory, ..before[k] })
            &&& after[k].controlled_territory@ == without_text(before[k].controlled_territory@, from)
        } else if Some(k) == country_pos(before, to) {
            territory_gained(before[k], after[k], from)
        } else {
            after[k] == before[k]
        }
}

impl GameState {
    /// The fighting due this turn, war by war and front by front.
    pub fn pending_engagements(&self) -> (r: Vec<Engagement>)
        ensures
            forall|i: int| 0 <= i < r@.len() ==> engagement_is(*self, #[trigger] r@[i]),
            forall|i: int, j: int| 0 <= i < j < r@.len() ==> engagement_before(#[trigger] r@[i], #[trigger] r@[j]),
            forall|w: int, f: int| engagement_due(*self, w, f) ==>
                exists|i: int| 0 <= i < r@.len() && (#[trigger] r@[i]).war_index == w && r@[i].front_index == f,
    {
        let mut out: Vec<Engagement> = Vec::new();
        let mut w: usize = 0;
        while w < self.wars.len()
            invariant
                w <= self.wars@.len(),
                forall|i: int| 0 <= i < out@.len() ==> engagement_is(*self, #[trigger] out@[i]) && out@[i].war_index < w,
                forall|i: int, j: int| 0 <= i < j < out@.len() ==> engagement_before(#[trigger] out@[i], #[trigger] out@[j]),
                forall|x: int, f: int| 0 <= x < w && engagement_due(*self, x, f) ==>
                    exists|i: int| 0 <= i < out@.len() && (#[trigger] out@[i]).war_index == x && out@[i].front_index == f,
            decreases self.wars.len() - w,
        {
            let war = &self.wars[w];
            if war.status == WarStatus::Ongoing && war.attackers.len() > 0 && war.defenders.len() > 0 {
                let ai = self.country_index(war.attackers[0].as_str());
                let di = self.country_index(war.defenders[0].as_str());
                if let (Some(a), Some(d)) = (ai, di) {
                    let mut f: usize = 0;
                    while f < war.fronts.len()
                        invariant
                            war == &self.wars@[w as int],
                            w < self.wars@.len(),
                            f <= war.fronts@.len(),
                            war.status == WarStatus::Ongoing,
                            war.attackers@.len() > 0,
                            war.defenders@.len() > 0,
                            country_pos(self.countries@, war.attackers@[0]@) == Some(a as int),
                            country_pos(self.countries@, war.defenders@[0]@) == Some(d as int),
                            forall|i: int| 0 <= i < out@.len() ==> engagement_is(*self, #[trigger] out@[i])
                                && out@[i].war_index <= w
                                && (out@[i].war_index == w ==> out@[i].front_index < f),
                            forall|i: int, j: int| 0 <= i < j < out@.len() ==> engagement_before(#[trigger] out@[i], #[trigger] out@[j]),
                            forall|x: int, g: int| (0 <= x < w || (x == w && 0 <= g < f)) && engagement_due(*self, x, g) ==>
                                exists|i: int| 0 <= i < out@.len() && (#[trigger] out@[i]).war_index == x && out@[i].front_index == g,
                        decreases war.fronts.len() - f,
                    {
                        if war.fronts[f].active {
                            let e = Engagement { war_index: w, front_index: f, attacker_index: a, defender_index: d };
                            let ghost before = out@;
                            out.push(e);
                            proof {
                                assert(out@[out@.len() - 1] == e);
                                assert forall|x: int, g: int| (0 <= x < w || (x == w && 0 <= g < f + 1)) && engagement_due(*self, x, g) implies
                                    exists|i: int| 0 <= i < out@.len() && (#[trigger] out@[i]).war_index == x && out@[i].front_index == g by {
                                    if x == w && g == f {
                                        assert(out@[out@.len() - 1].war_index == x);
                                    } else {
                                        let i = choose|i: int| 0 <= i < before.len() && (#[trigger] before[i]).war_index == x && before[i].front_index == g;
                                        assert(out@[i] == before[i]);
                                    }
                                }
                            }
                        }
                        f = f + 1;
                    }
                } else {
                    proof {
                        assert forall|x: int, g: int| 0 <= x < w + 1 && engagement_due(*self, x, g) implies
                            exists|i: int| 0 <= i < out@.len() && (#[trigger] out@[i]).war_index == x && out@[i].front_index == g by {
                            assert(x != w);
                        }
                    }
                }
            } else {
                proof {
                    assert forall|x: int, g: int| 0 <= x < w + 1 && engagement_due(*self, x, g) implies
                        exists|i: int| 0 <= i < out@.len() && (#[trigger] out@[i]).war_index == x && out@[i].front_index == g by {
                        assert(x != w);
                    }
                }
            }
            w = w + 1;
        }
        out
    }

    /// The update that an engagement gives its war: the front goes to the
    /// attackers' gains when they won it, else to the defenders' gains.
    pub fn engagement_update(&self, e: Engagement, attacker_won: bool, description: String) -> (r: WarUpdate)
        requires
            engagement_is(*self, e),
        ensures
            ({
                let w = self.wars@[e.war_index as int];
                let front = w.fronts@[e.front_index as int].name@;
                &&& r.war_id@ == w.id@
                &&& r.description == description
                &&& texts(r.attacker_gains@) == if attacker_won { seq![front] } else { Seq::empty() }
                &&& texts(r.defender_gains@) == if attacker_won { Seq::empty() } else { seq![front] }
            }),
    {
        let war = &self.wars[e.war_index];
        let front_name = war.fronts[e.front_index].name.clone();
        let mut attacker_gains: Vec<String> = Vec::new();
        let mut defender_gains: Vec<String> = Vec::new();
        if attacker_won {
            attacker_gains.push(front_name);
        } else {
            defender_gains.push(front_name);
        }
        proof {
            let front = war.fronts@[e.front_index as int].name@;
            if attacker_won {
                assert(texts(attacker_gains@) =~= seq![front]);
                assert(texts(defender_gains@) =~= Seq::<Seq<char>>::empty());
            } else {
                assert(texts(attacker_gains@) =~= Seq::<Seq<char>>::empty());
                assert(texts(defender_gains@) =~= seq![front]);
            }
        }
        WarUpdate { war_id: war.id.clone(), description, attacker_gains, defender_gains }
    }

    /// Closes a front: there is no more fighting on it.
    pub fn close_front(&mut self, war_index: usize, front_index: usize)
        requires
            war_index < old(self).wars@.len(),
            front_index < old(self).wars@[war_index as int].fronts@.len(),
        ensures
            final(self).wars@.len() == old(self).wars@.len(),
            forall|w: int| 0 <= w < old(self).wars@.len() && w != war_index ==> #[trigger] final(self).wars@[w] == old(self).wars@[w],
            final(self).wars@[war_index as int] == (crate::game::war::War {
                fronts: final(self).wars@[war_index as int].fronts,
                ..old(self).wars@[war_index as int]
            }),
            final(self).wars@[war_index as int].fronts@ == old(self).wars@[war_index as int].fronts@.update(
                front_index as int,
                crate::game::war::Front { active: false, ..old(self).wars@[war_index as int].fronts@[front_index as int] },
            ),
            *final(self) == (GameState { wars: final(self).wars, ..*old(self) }),
            old(self).well_formed() ==> final(self).well_formed(),
    {
        self.wars[war_index].fronts[front_index].active = false;
        proof {
            assert(self.wars@[war_index as int].fronts@ =~= old(self).wars@[war_index as int].fronts@.update(
                front_index as int,
                crate::game::war::Front { active: false, ..old(self).wars@[war_index as int].fronts@[front_index as int] },
            ));
            if old(self).well_formed() {
                assert(crate::game::state::war_ids_kept(old(self).wars@, self.wars@));
                crate::game::state::lemma_war_ids_kept(old(self).wars@, self.wars@);
            }
        }
    }

    /// Territory changes hands after a front falls: the winner `to_id` adds
    /// `from_id` to the territory it controls (once), and `from_id` is taken
    /// off the territory that the loser `from_id` controls.
    pub fn transfer_territory(&mut self, from_id: &str, to_id: &str)
        ensures
            final(self).countries@.len() == old(self).countries@.len(),
            territory_transferred(old(self).countries@, final(self).countries@, from_id@, to_id@),
            *final(self) == (GameState { countries: final(self).countries, ..*old(self) }),
            old(self).well_formed() ==> final(self).well_formed(),
    {
        let ghost c0 = self.countries@;
        let t = self.country_index(to_id);
        if let Some(ti) = t {
            add_text_once(&mut self.countries[ti].controlled_territory, from_id);
        }
        let ghost c1 = self.countries@;
        let f = self.country_index(from_id);
        if let Some(fi) = f {
            remove_text(&mut self.countries[fi].controlled_territory, from_id);
        }
        proof {
            assert(country_pos(c1, from_id@) == country_pos(c0, from_id@)) by {
                let p = crate::game::state::country_with_id(from_id@);
                lemma_first_match(c0, p);
                assert forall|k: int| 0 <= k < c0.len() implies p(#[trigger] c1[k]) == p(c0[k]) by {
                    assert(c1[k].id == c0[k].id);
                }
                match country_pos(c0, from_id@) {
                    Some(i) => {
                        assert(crate::search::is_first_match(c1, p, i));
                        crate::search::lemma_first_match_at(c1, p, i);
                    },
                    None => {
                        lemma_first_match(c1, p);
                    },
                }
            }
            if let (Some(ti), Some(fi)) = (t, f) {
                if ti == fi {
                    let v = c0[ti as int].controlled_territory@;
                    let pred = crate::search::text_differs(from_id@);
                    if !contains_text(v, from_id@) {
                        assert(c1[ti as int].controlled_territory@ =~= v.push(c1[ti as int].controlled_territory@.last()));
                        v.lemma_filter_push(c1[ti as int].controlled_territory@.last(), pred);
                    }
                }
            }
            if old(self).well_formed() {
                assert(crate::game::state::country_ids_kept(c0, self.countries@));
                crate::game::state::lemma_country_ids_kept(c0, self.countries@);
            }
        }
    }
}

} // verus!
