//! Laws of the game state that span its operations.

use vstd::prelude::*;
use super::country::{Country, DiplomaticRelation, DiplomaticStance, TradeRelation, Treaty};
use super::war::WarStatus;
use super::economy::{engagement_due, engagement_is, territory_transferred, Engagement};
use super::state::{country_ids_kept, country_pos, country_with_id, date_after, lemma_country_pos_kept, next_date, relation_between, relation_pos, stance_between, stance_set, GameState};
use crate::search::{contains_text, is_first_match, lemma_filter_keeps_all, lemma_first_match, lemma_first_match_at, lemma_without_text};
use crate::tools::executors::{ongoing_wars, summarizes, war_is_ongoing, WarSummary};
use crate::tools::executors::{ally_added, name_or, partner_differs, trade_deal_made, trade_error, trade_replaced, trades_without, treaty_ensured, war_left_by};

verus! {

/// The stance between two countries does not depend on the order in which
/// they are named.
pub proof fn lemma_stance_symmetric(relations: Seq<DiplomaticRelation>, a: Seq<char>, b: Seq<char>)
    ensures
        stance_between(relations, a, b) == stance_between(relations, b, a),
{
    assert(relation_between(a, b) =~= relation_between(b, a));
}

/// After the stance between `a` and `b` is set, it reads back, in either
/// order, as the stance that was set; the stance between any other pair of
/// countries is what it was.
pub proof fn lemma_stance_read_after_write(
    before: Seq<DiplomaticRelation>,
    after: Seq<DiplomaticRelation>,
    a: Seq<char>,
    b: Seq<char>,
    stance: DiplomaticStance,
    c: Seq<char>,
    d: Seq<char>,
)
    requires
        stance_set(before, after, a, b, stance),
    ensures
        stance_between(after, a, b) == stance,
        stance_between(after, b, a) == stance,
        !((c == a && d == b) || (c == b && d == a)) ==> stance_between(after, c, d) == stance_between(before, c, d),
{
    lemma_stance_symmetric(after, a, b);
    let p = relation_between(a, b);
    let q = relation_between(c, d);
    lemma_first_match(before, p);
    lemma_first_match(before, q);
    match relation_pos(before, a, b) {
        Some(i) => {
            assert(is_first_match(after, p, i));
            lemma_first_match_at(after, p, i);
            if !((c == a && d == b) || (c == b && d == a)) {
                assert(!q(after[i]));
                match relation_pos(before, c, d) {
                    Some(k) => {
                        assert(after[k] == before[k] || k == i);
                        assert(is_first_match(after, q, k));
                        lemma_first_match_at(after, q, k);
                    },
                    None => {
                        assert forall|j: int| 0 <= j < after.len() implies !q(#[trigger] after[j]) by {
                            if j != i {
                                assert(after[j] == before[j]);
                            }
                        }
                        lemma_first_match(after, q);
                    },
                }
            }
        },
        None => {
            let n = before.len() as int;
            assert forall|j: int| 0 <= j < n implies !p(#[trigger] after[j]) by {
                assert(after[j] == after.drop_last()[j]);
            }
            assert(is_first_match(after, p, n));
            lemma_first_match_at(after, p, n);
            if !((c == a && d == b) || (c == b && d == a)) {
                assert(!q(after[n]));
                match relation_pos(before, c, d) {
                    Some(k) => {
                        assert(after[k] == after.drop_last()[k]);
                        assert forall|j: int| 0 <= j < k implies !q(#[trigger] after[j]) by {
                            assert(after[j] == after.drop_last()[j]);
                        }
                        assert(is_first_match(after, q, k));
                        lemma_first_match_at(after, q, k);
                    },
                    None => {
                        assert forall|j: int| 0 <= j < after.len() implies !q(#[trigger] after[j]) by {
                            if j < n {
                                assert(after[j] == after.drop_last()[j]);
                            }
                        }
                        lemma_first_match(after, q);
                    },
                }
            }
        },
    }
}

/// After the stance between `a` and `b` is set, their relation is the one
/// that they had, or else the one added at the end.
pub proof fn lemma_stance_set_position(
    before: Seq<DiplomaticRelation>,
    after: Seq<DiplomaticRelation>,
    a: Seq<char>,
    b: Seq<char>,
    stance: DiplomaticStance,
)
    requires
        stance_set(before, after, a, b, stance),
    ensures
        relation_pos(after, a, b) == Some(match relation_pos(before, a, b) {
            Some(i) => i,
            None => before.len() as int,
        }),
{
    let p = relation_between(a, b);
    lemma_first_match(before, p);
    match relation_pos(before, a, b) {
        Some(i) => {
            assert(is_first_match(after, p, i));
            lemma_first_match_at(after, p, i);
        },
        None => {
            let n = before.len() as int;
            assert forall|j: int| 0 <= j < n implies !p(#[trigger] after[j]) by {
                assert(after[j] == after.drop_last()[j]);
            }
            assert(is_first_match(after, p, n));
            lemma_first_match_at(after, p, n);
        },
    }
}

/// Setting the stance between two countries a second time, to the same
/// stance, changes nothing: twice is the same as once.
pub proof fn lemma_stance_set_twice(
    r0: Seq<DiplomaticRelation>,
    r1: Seq<DiplomaticRelation>,
    r2: Seq<DiplomaticRelation>,
    a: Seq<char>,
    b: Seq<char>,
    stance: DiplomaticStance,
)
    requires
        stance_set(r0, r1, a, b, stance),
        stance_set(r1, r2, a, b, stance),
    ensures
        r2 == r1,
{
    lemma_stance_set_position(r0, r1, a, b, stance);
    lemma_stance_set_unchanged(r1, r2, a, b, stance);
}

/// Setting the stance between two countries that already have a relation
/// with that stance changes nothing.
pub proof fn lemma_stance_set_unchanged(
    before: Seq<DiplomaticRelation>,
    after: Seq<DiplomaticRelation>,
    a: Seq<char>,
    b: Seq<char>,
    stance: DiplomaticStance,
)
    requires
        stance_set(before, after, a, b, stance),
        relation_pos(before, a, b) matches Some(i) && before[i].stance == stance,
    ensures
        after == before,
{
    let i = relation_pos(before, a, b)->0;
    assert(after[i] == before[i]);
    assert(after =~= before);
}

/// Once a treaty is ensured between two countries, they have a relation and
/// it holds the treaty.
pub proof fn lemma_treaty_ensured_holds(
    before: Seq<DiplomaticRelation>,
    after: Seq<DiplomaticRelation>,
    a: Seq<char>,
    b: Seq<char>,
    treaty: Treaty,
)
    requires
        treaty_ensured(before, after, a, b, treaty),
    ensures
        relation_pos(after, a, b) matches Some(i) && after[i].treaties@.contains(treaty),
{
    let p = relation_between(a, b);
    lemma_first_match(before, p);
    match relation_pos(before, a, b) {
        Some(i) => {
            if !before[i].treaties@.contains(treaty) {
                assert(is_first_match(after, p, i));
                lemma_first_match_at(after, p, i);
                assert(after[i].treaties@[after[i].treaties@.len() - 1] == treaty);
            }
        },
        None => {
            let n = before.len() as int;
            assert forall|j: int| 0 <= j < n implies !p(#[trigger] after[j]) by {
                assert(after[j] == after.drop_last()[j]);
            }
            assert(is_first_match(after, p, n));
            lemma_first_match_at(after, p, n);
            assert(after[n].treaties@[0] == treaty);
        },
    }
}

/// Two trade relations say the same: the same partner, goods, volume and
/// status.
pub open spec fn same_trade(x: TradeRelation, y: TradeRelation) -> bool {
    &&& x.partner_id@ == y.partner_id@
    &&& x.export_goods@ == y.export_goods@
    &&& x.import_goods@ == y.import_goods@
    &&& x.trade_volume == y.trade_volume
    &&& x.status == y.status
}

/// The country `y` is `x`, with trade relations that say the same as those
/// of `x`, in the same order.
pub open spec fn same_country_trades(x: Country, y: Country) -> bool {
    &&& y == (Country { trade_partners: y.trade_partners, ..x })
    &&& y.trade_partners@.len() == x.trade_partners@.len()
    &&& forall|j: int| 0 <= j < x.trade_partners@.len() ==>
        same_trade(#[trigger] x.trade_partners@[j], y.trade_partners@[j])
}

/// Replacing a country's trade with a partner twice, on the same terms,
/// leaves it with trade that says what it said after the first time.
proof fn lemma_trade_replaced_twice(
    c0: Country,
    c1: Country,
    c2: Country,
    partner: Seq<char>,
    exports: Seq<String>,
    imports: Seq<String>,
)
    requires
        trade_replaced(c0, c1, partner, exports, imports),
        trade_replaced(c1, c2, partner, exports, imports),
    ensures
        same_country_trades(c1, c2),
{
    let pred = partner_differs(partner);
    let v1 = c1.trade_partners@;
    let kept = v1.drop_last();
    assert forall|j: int| 0 <= j < kept.len() implies pred(#[trigger] kept[j]) by {
        assert(kept[j] == v1[j]);
    }
    lemma_filter_keeps_all(kept, pred);
    kept.lemma_filter_push(v1.last(), pred);
    assert(kept.push(v1.last()) =~= v1);
    assert(trades_without(v1, partner) == kept);
    let v2 = c2.trade_partners@;
    assert forall|j: int| 0 <= j < v1.len() implies same_trade(#[trigger] v1[j], v2[j]) by {
        if j < v1.len() - 1 {
            assert(v2[j] == v2.drop_last()[j]);
            assert(v1[j] == kept[j]);
        }
    }
}

/// A trade deal made a second time, on the same terms, right after the
/// first succeeded, succeeds too and reports the same target name. It
/// changes nothing but the record of events, which gains one more trade
/// deal with the same text: the relations stay as they are, and each country
/// stays as it is, with trade relations that say the same.
pub proof fn lemma_trade_deal_repeated(
    s0: GameState,
    s1: GameState,
    s2: GameState,
    t: Seq<char>,
    offer: Seq<String>,
    request: Seq<String>,
)
    requires
        trade_error(s0, Some(t), true, true) is None,
        trade_deal_made(s0, s1, t, offer, request),
        trade_deal_made(s1, s2, t, offer, request),
    ensures
        trade_error(s1, Some(t), true, true) is None,
        name_or(s1.countries@, t, t) == name_or(s0.countries@, t, t),
        s2.diplomatic_relations@ == s1.diplomatic_relations@,
        s2.countries@.len() == s1.countries@.len(),
        forall|k: int| 0 <= k < s1.countries@.len() ==>
            #[trigger] same_country_trades(s1.countries@[k], s2.countries@[k]),
        s2.global_events@.len() == s1.global_events@.len() + 1,
        s2.global_events@.drop_last() == s1.global_events@,
        s2.global_events@.last().event_type@ == s1.global_events@.last().event_type@,
        s2.global_events@.last().description@ == s1.global_events@.last().description@,
        s2 == (GameState {
            countries: s2.countries,
            diplomatic_relations: s2.diplomatic_relations,
            global_events: s2.global_events,
            ..s1
        }),
{
    let p = s0.player_country_id->0@;
    let c0 = s0.countries@;
    let c1 = s1.countries@;
    let c2 = s2.countries@;
    assert(country_ids_kept(c0, c1)) by {
        assert forall|k: int| 0 <= k < c0.len() implies (#[trigger] c1[k]).id@ == c0[k].id@ by {
            assert(c1[k].id == c0[k].id);
        }
    }
    lemma_country_pos_kept(c0, c1, p);
    lemma_country_pos_kept(c0, c1, t);
    let a = country_pos(c0, p);
    let b = country_pos(c0, t)->0;
    lemma_first_match(c0, crate::game::state::country_with_id(t));
    assert(c1[b].name == c0[b].name);

    let r0 = s0.diplomatic_relations@;
    let r1 = s1.diplomatic_relations@;
    let r2 = s2.diplomatic_relations@;
    let allied = stance_between(r0, p, t) == DiplomaticStance::Allied;
    let mid1 = choose|mid: Seq<DiplomaticRelation>| {
        &&& (if allied { mid == r0 } else { stance_set(r0, mid, p, t, DiplomaticStance::Friendly) })
        &&& #[trigger] treaty_ensured(mid, r1, p, t, Treaty::TradeAgreement)
    };
    lemma_treaty_ensured_holds(mid1, r1, p, t, Treaty::TradeAgreement);
    let i = relation_pos(r1, p, t)->0;
    let mid2 = choose|mid: Seq<DiplomaticRelation>| {
        &&& (if stance_between(r1, p, t) == DiplomaticStance::Allied { mid == r1 } else {
            stance_set(r1, mid, p, t, DiplomaticStance::Friendly)
        })
        &&& #[trigger] treaty_ensured(mid, r2, p, t, Treaty::TradeAgreement)
    };
    if stance_between(r1, p, t) != DiplomaticStance::Allied {
        lemma_stance_set_unchanged(r1, mid2, p, t, DiplomaticStance::Friendly);
    }
    assert(r2 == r1);

    assert forall|k: int| 0 <= k < c1.len() implies #[trigger] same_country_trades(c1[k], c2[k]) by {
        if Some(k) == a {
            lemma_trade_replaced_twice(c0[k], c1[k], c2[k], t, offer, request);
        } else if k == b {
            lemma_trade_replaced_twice(c0[k], c1[k], c2[k], p, request, offer);
        } else {
            assert(c2[k] == c1[k]);
            assert(c1[k].trade_partners == c1[k].trade_partners);
        }
    }
}

/// The fighting of a turn pits the leaders of the two sides against each
/// other: every engagement is on an active front of an ongoing war, between
/// the country listed first among its attackers and the country listed
/// first among its defenders (each found at the first place that holds its
/// identifier). And every active front of an ongoing war whose first
/// attacker and first defender both exist is fought.
pub proof fn lemma_engagements_pit_leaders(s: GameState, r: Seq<Engagement>)
    requires
        forall|i: int| 0 <= i < r.len() ==> engagement_is(s, #[trigger] r[i]),
        forall|w: int, f: int| engagement_due(s, w, f) ==>
            exists|i: int| 0 <= i < r.len() && (#[trigger] r[i]).war_index == w && r[i].front_index == f,
    ensures
        forall|i: int| 0 <= i < r.len() ==> {
            let e = #[trigger] r[i];
            let w = s.wars@[e.war_index as int];
            let c = s.countries@;
            &&& e.war_index < s.wars@.len()
            &&& w.status == WarStatus::Ongoing
            &&& e.front_index < w.fronts@.len()
            &&& w.fronts@[e.front_index as int].active
            &&& w.attackers@.len() > 0
            &&& w.defenders@.len() > 0
            &&& e.attacker_index < c.len()
            &&& e.defender_index < c.len()
            &&& c[e.attacker_index as int].id@ == w.attackers@[0]@
            &&& c[e.defender_index as int].id@ == w.defenders@[0]@
            &&& forall|k: int| 0 <= k < e.attacker_index ==> c[k].id@ != w.attackers@[0]@
            &&& forall|k: int| 0 <= k < e.defender_index ==> c[k].id@ != w.defenders@[0]@
        },
        forall|w: int, f: int, a: int, d: int|
            0 <= w < s.wars@.len() && 0 <= f < s.wars@[w].fronts@.len()
            && s.wars@[w].status == WarStatus::Ongoing
            && (#[trigger] s.wars@[w].fronts@[f]).active
            && s.wars@[w].attackers@.len() > 0 && s.wars@[w].defenders@.len() > 0
            && 0 <= a < s.countries@.len() && (#[trigger] s.countries@[a]).id@ == s.wars@[w].attackers@[0]@
            && 0 <= d < s.countries@.len() && (#[trigger] s.countries@[d]).id@ == s.wars@[w].defenders@[0]@
            ==> exists|i: int| 0 <= i < r.len() && (#[trigger] r[i]).war_index == w && r[i].front_index == f,
{
    assert forall|i: int| 0 <= i < r.len() implies {
        let e = #[trigger] r[i];
        let w = s.wars@[e.war_index as int];
        let c = s.countries@;
        &&& e.war_index < s.wars@.len()
        &&& w.status == WarStatus::Ongoing
        &&& e.front_index < w.fronts@.len()
        &&& w.fronts@[e.front_index as int].active
        &&& w.attackers@.len() > 0
        &&& w.defenders@.len() > 0
        &&& e.attacker_index < c.len()
        &&& e.defender_index < c.len()
        &&& c[e.attacker_index as int].id@ == w.attackers@[0]@
        &&& c[e.defender_index as int].id@ == w.defenders@[0]@
        &&& forall|k: int| 0 <= k < e.attacker_index ==> c[k].id@ != w.attackers@[0]@
        &&& forall|k: int| 0 <= k < e.defender_index ==> c[k].id@ != w.defenders@[0]@
    } by {
        let e = r[i];
        let w = s.wars@[e.war_index as int];
        assert(engagement_is(s, e));
        lemma_first_match(s.countries@, country_with_id(w.attackers@[0]@));
        lemma_first_match(s.countries@, country_with_id(w.defenders@[0]@));
    }
    assert forall|w: int, f: int, a: int, d: int|
        0 <= w < s.wars@.len() && 0 <= f < s.wars@[w].fronts@.len()
        && s.wars@[w].status == WarStatus::Ongoing
        && (#[trigger] s.wars@[w].fronts@[f]).active
        && s.wars@[w].attackers@.len() > 0 && s.wars@[w].defenders@.len() > 0
        && 0 <= a < s.countries@.len() && (#[trigger] s.countries@[a]).id@ == s.wars@[w].attackers@[0]@
        && 0 <= d < s.countries@.len() && (#[trigger] s.countries@[d]).id@ == s.wars@[w].defenders@[0]@
        implies exists|i: int| 0 <= i < r.len() && (#[trigger] r[i]).war_index == w && r[i].front_index == f by {
        let pa = country_with_id(s.wars@[w].attackers@[0]@);
        let pd = country_with_id(s.wars@[w].defenders@[0]@);
        lemma_first_match(s.countries@, pa);
        lemma_first_match(s.countries@, pd);
        assert(pa(s.countries@[a]));
        assert(pd(s.countries@[d]));
        assert(engagement_due(s, w, f));
    }
}

/// The world situation lists as active exactly the ongoing wars: every war
/// it lists is ongoing, and every ongoing war is listed, under its
/// identifier and name.
pub proof fn lemma_world_lists_ongoing_wars(s: GameState, active: Seq<WarSummary>)
    requires
        active.len() == ongoing_wars(s.wars@).len(),
        forall|i: int| 0 <= i < active.len() ==>
            summarizes(#[trigger] active[i], ongoing_wars(s.wars@)[i], s.countries@),
    ensures
        forall|i: int| 0 <= i < active.len() ==> (#[trigger] active[i]).status == WarStatus::Ongoing,
        forall|w: int| 0 <= w < s.wars@.len() && (#[trigger] s.wars@[w]).status == WarStatus::Ongoing ==>
            exists|i: int| 0 <= i < active.len() && (#[trigger] active[i]).war_id@ == s.wars@[w].id@
                && active[i].name@ == s.wars@[w].name@,
{
    let pred = war_is_ongoing();
    assert forall|i: int| 0 <= i < active.len() implies (#[trigger] active[i]).status == WarStatus::Ongoing by {
        s.wars@.lemma_filter_pred(pred, i);
        assert(summarizes(active[i], ongoing_wars(s.wars@)[i], s.countries@));
    }
    assert forall|w: int| 0 <= w < s.wars@.len() && (#[trigger] s.wars@[w]).status == WarStatus::Ongoing implies
        exists|i: int| 0 <= i < active.len() && (#[trigger] active[i]).war_id@ == s.wars@[w].id@
            && active[i].name@ == s.wars@[w].name@ by {
        s.wars@.lemma_filter_contains(pred, w);
        let i = choose|i: int| 0 <= i < ongoing_wars(s.wars@).len() && ongoing_wars(s.wars@)[i] == s.wars@[w];
        assert(summarizes(active[i], ongoing_wars(s.wars@)[i], s.countries@));
    }
}

/// Two countries that have never had a relation face each other as `Neutral`.
pub proof fn lemma_stance_defaults_to_neutral(relations: Seq<DiplomaticRelation>, a: Seq<char>, b: Seq<char>)
    requires
        forall|i: int| 0 <= i < relations.len() ==> !(#[trigger] relation_between(a, b)(relations[i])),
    ensures
        stance_between(relations, a, b) == DiplomaticStance::Neutral,
{
    lemma_first_match(relations, relation_between(a, b));
}

/// Advancing the calendar keeps the month between 1 and 12.
pub proof fn lemma_month_stays_in_range(year: int, month: int)
    requires
        1 <= month <= 12,
    ensures
        1 <= next_date(year, month).1 <= 12,
{
}

/// Twelve advances of the calendar lead to the same month of the next year.
pub proof fn lemma_twelve_months_make_a_year(year: int, month: int)
    requires
        1 <= month <= 12,
    ensures
        date_after(year, month, 12) == (year + 1, month),
{
    reveal_with_fuel(date_after, 13);
}

/// No two relations join the same pair of countries.
pub open spec fn pairs_unique(relations: Seq<DiplomaticRelation>) -> bool {
    forall|i: int, j: int| 0 <= i < j < relations.len() ==>
        !relation_between((#[trigger] relations[i]).country_a@, relations[i].country_b@)(#[trigger] relations[j])
}

/// Setting a stance keeps each pair of countries down to one relation.
pub proof fn lemma_stance_set_keeps_pairs_unique(
    before: Seq<DiplomaticRelation>,
    after: Seq<DiplomaticRelation>,
    a: Seq<char>,
    b: Seq<char>,
    stance: DiplomaticStance,
)
    requires
        stance_set(before, after, a, b, stance),
        pairs_unique(before),
    ensures
        pairs_unique(after),
{
    lemma_first_match(before, relation_between(a, b));
    match relation_pos(before, a, b) {
        Some(k) => {
            assert forall|i: int, j: int| 0 <= i < j < after.len() implies
                !relation_between((#[trigger] after[i]).country_a@, after[i].country_b@)(#[trigger] after[j]) by {
                assert(after[i].country_a == before[i].country_a && after[i].country_b == before[i].country_b);
                assert(after[j].country_a == before[j].country_a && after[j].country_b == before[j].country_b);
                assert(!relation_between(before[i].country_a@, before[i].country_b@)(before[j]));
            }
        },
        None => {
            let n = before.len() as int;
            assert forall|i: int, j: int| 0 <= i < j < after.len() implies
                !relation_between((#[trigger] after[i]).country_a@, after[i].country_b@)(#[trigger] after[j]) by {
                assert(after[i] == after.drop_last()[i]);
                if j < n {
                    assert(after[j] == after.drop_last()[j]);
                } else {
                    assert(!relation_between(a, b)(before[i]));
                }
            }
        },
    }
}

/// After peace, a country no longer lists the war among its wars, and still
/// lists every other war it listed.
pub proof fn lemma_war_left(before: Country, after: Country, war_id: Seq<char>, other: Seq<char>)
    requires
        war_left_by(before, after, war_id),
    ensures
        !contains_text(after.active_wars@, war_id),
        other != war_id ==> (contains_text(after.active_wars@, other) <==> contains_text(before.active_wars@, other)),
{
    lemma_without_text(before.active_wars@, war_id, war_id);
    lemma_without_text(before.active_wars@, war_id, other);
}

/// After an alliance, each country lists the other among its allies, and
/// its other allies stay listed.
pub proof fn lemma_ally_listed(before: Country, after: Country, ally: Seq<char>, other: Seq<char>)
    requires
        ally_added(before, after, ally),
    ensures
        contains_text(after.alliances@, ally),
        contains_text(before.alliances@, other) ==> contains_text(after.alliances@, other),
{
    if !contains_text(before.alliances@, ally) {
        let n = before.alliances@.len() as int;
        assert(after.alliances@[n]@ == ally);
        if contains_text(before.alliances@, other) {
            let i = choose|i: int| 0 <= i < n && (#[trigger] before.alliances@[i])@ == other;
            assert(after.alliances@[i] == after.alliances@.drop_last()[i]);
        }
    }
}

/// When a front falls, the winner controls the loser's territory and the
/// loser no longer lists it.
pub proof fn lemma_territory_changes_hands(before: Seq<Country>, after: Seq<Country>, from: Seq<char>, to: Seq<char>)
    requires
        territory_transferred(before, after, from, to),
    ensures
        country_pos(before, from) matches Some(k) ==> !contains_text(after[k].controlled_territory@, from),
        country_pos(before, to) matches Some(k) ==> (country_pos(before, from) != Some(k)
            ==> contains_text(after[k].controlled_territory@, from)),
{
    lemma_first_match(before, super::state::country_with_id(from));
    lemma_first_match(before, super::state::country_with_id(to));
    if let Some(k) = country_pos(before, from) {
        lemma_without_text(before[k].controlled_territory@, from, from);
    }
    if let Some(k) = country_pos(before, to) {
        if country_pos(before, from) != Some(k) {
            let v = before[k].controlled_territory@;
            if !contains_text(v, from) {
                assert(after[k].controlled_territory@[v.len() as int]@ == from);
            }
        }
    }
}

} // verus!
