use map_game::game::country::{
    Country, DiplomaticRelation, DiplomaticStance, MilitaryPower, Real, TechLevel, TradeRelation, TradeStatus, Treaty,
    ONE_BITS, TEN_BITS,
};
use map_game::game::economy::Engagement;
use map_game::game::state::{EconomicChange, GameState, WarUpdate};
use map_game::game::war::{Front, TerrainType, War, WarStatus, WarType};
use map_game::tools::executors::{Amount, PeaceTalks};

fn qty(x: f64) -> Real {
    Real::from_bits(x.to_bits())
}

fn strings(items: &[&str]) -> Vec<String> {
    items.iter().map(|s| s.to_string()).collect()
}

fn country(id: &str, name: &str) -> Country {
    Country {
        id: id.to_string(),
        name: name.to_string(),
        capital: format!("{} City", name),
        continent: "Europe".to_string(),
        population: 1000,
        gdp: qty(100.0),
        gdp_growth: qty(2.0),
        military_power: MilitaryPower {
            army_strength: qty(50.0),
            navy_strength: qty(20.0),
            air_force_strength: qty(30.0),
            mobilization_pct: qty(10.0),
            manpower_reserves: 500,
            technology_bonus: qty(0.1),
            morale: qty(70.0),
        },
        tech_level: TechLevel::Industrial,
        government_type: "Republic".to_string(),
        ideology: "Democracy".to_string(),
        stability: qty(60.0),
        resources: strings(&["coal"]),
        neighbors: Vec::new(),
        active_wars: Vec::new(),
        alliances: Vec::new(),
        trade_partners: Vec::new(),
        controlled_territory: vec![id.to_string()],
        is_player_controlled: false,
        color: "#ffffff".to_string(),
    }
}

fn front(name: &str, active: bool) -> Front {
    Front {
        name: name.to_string(),
        location: name.to_string(),
        attacker_progress: qty(0.0),
        involved_countries: Vec::new(),
        terrain: TerrainType::Plains,
        active,
    }
}

fn war(id: &str, attackers: &[&str], defenders: &[&str], status: WarStatus) -> War {
    War {
        id: id.to_string(),
        name: format!("{} war", id),
        attackers: strings(attackers),
        defenders: strings(defenders),
        start_turn: 0,
        start_year: 1939,
        start_month: 9,
        end_turn: None,
        status,
        fronts: Vec::new(),
        war_type: WarType::LimitedWar,
        justification: "border".to_string(),
        war_score: qty(0.0),
        battles: Vec::new(),
    }
}

fn relation(a: &str, b: &str, stance: DiplomaticStance) -> DiplomaticRelation {
    DiplomaticRelation {
        country_a: a.to_string(),
        country_b: b.to_string(),
        stance,
        trust: qty(0.0),
        treaties: Vec::new(),
    }
}

fn world() -> GameState {
    let mut s = GameState::new("ww2_1939");
    let mut ger = country("GER", "Germany");
    ger.neighbors = strings(&["POL", "FRA", "ATL"]);
    s.countries.push(ger);
    s.countries.push(country("POL", "Poland"));
    s.countries.push(country("FRA", "France"));
    s.countries.push(country("GBR", "United Kingdom"));
    s.player_country_id = Some("GER".to_string());
    s
}

fn pos(s: &GameState, id: &str) -> usize {
    s.countries.iter().position(|c| c.id == id).unwrap()
}

fn amount(x: f64) -> Amount {
    Amount { value: qty(x), text: format!("{}", x) }
}

// ---------------------------------------------------------------- calendar

#[test]
fn new_game_starts_in_september_1939() {
    let s = GameState::new("ww2_1939");
    assert_eq!(s.scenario_name, "ww2_1939");
    assert_eq!((s.current_year, s.current_month, s.turn_number), (1939, 9, 0));
    assert!(s.countries.is_empty() && s.wars.is_empty() && s.diplomatic_relations.is_empty());
    assert!(s.player_country_id.is_none() && s.global_events.is_empty() && s.turn_history.is_empty());
    assert!(!s.active);
}

#[test]
fn december_rolls_over_to_january() {
    let mut s = GameState::new("x");
    s.current_month = 12;
    s.advance_time();
    assert_eq!((s.current_year, s.current_month, s.turn_number), (1940, 1, 1));
    s.advance_time();
    assert_eq!((s.current_year, s.current_month, s.turn_number), (1940, 2, 2));
}

#[test]
fn twelve_turns_make_a_year() {
    let mut s = GameState::new("x");
    for _ in 0..12 {
        s.advance_time();
        assert!((1..=12).contains(&s.current_month));
    }
    assert_eq!((s.current_year, s.current_month, s.turn_number), (1940, 9, 12));
}

// ---------------------------------------------------------------- diplomacy

#[test]
fn stance_defaults_to_neutral() {
    let s = world();
    assert_eq!(s.get_diplomatic_stance("GER", "POL"), DiplomaticStance::Neutral);
}

#[test]
fn stance_reads_back_in_either_order() {
    let mut s = world();
    s.diplomatic_relations.push(relation("FRA", "GBR", DiplomaticStance::Allied));
    s.set_diplomatic_stance("GER", "POL", DiplomaticStance::Hostile);
    assert_eq!(s.get_diplomatic_stance("GER", "POL"), DiplomaticStance::Hostile);
    assert_eq!(s.get_diplomatic_stance("POL", "GER"), DiplomaticStance::Hostile);
    assert_eq!(s.diplomatic_relations.len(), 2);
    assert_eq!(f64::from_bits(s.diplomatic_relations[1].trust.bits), 0.0);
    s.set_diplomatic_stance("POL", "GER", DiplomaticStance::AtWar);
    assert_eq!(s.diplomatic_relations.len(), 2);
    assert_eq!(s.get_diplomatic_stance("GER", "POL"), DiplomaticStance::AtWar);
    assert_eq!(s.get_diplomatic_stance("GBR", "FRA"), DiplomaticStance::Allied);
}

// ---------------------------------------------------------------- wars

#[test]
fn enemies_are_sorted_once_and_only_from_ongoing_wars() {
    let mut s = world();
    s.wars.push(war("w1", &["GER"], &["POL", "GBR"], WarStatus::Ongoing));
    s.wars.push(war("w2", &["FRA", "GBR"], &["GER"], WarStatus::Ongoing));
    s.wars.push(war("w3", &["GER"], &["ITA"], WarStatus::Ceasefire));
    assert_eq!(s.find_countries_at_war_with("GER"), strings(&["FRA", "GBR", "POL"]));
    assert_eq!(s.find_countries_at_war_with("POL"), strings(&["GER"]));
    assert!(s.find_countries_at_war_with("ITA").is_empty());
}

#[test]
fn involvement_covers_both_sides() {
    let w = war("w1", &["GER", "ITA"], &["POL"], WarStatus::Ongoing);
    assert!(w.is_involved("ITA"));
    assert!(w.is_involved("POL"));
    assert!(!w.is_involved("FRA"));
}

// ---------------------------------------------------------------- player

#[test]
fn player_country_is_found_and_changed_in_place() {
    let mut s = world();
    assert_eq!(s.get_player_country().unwrap().name, "Germany");
    s.get_player_country_mut().unwrap().is_player_controlled = true;
    assert!(s.countries[0].is_player_controlled);
    s.player_country_id = Some("XXX".to_string());
    assert!(s.get_player_country().is_none());
    assert!(s.get_player_country_mut().is_none());
}

#[test]
fn selecting_a_country_marks_it() {
    let mut s = world();
    assert_eq!(s.select_country("FRA"), Ok(()));
    assert_eq!(s.player_country_id.as_deref(), Some("FRA"));
    assert!(s.countries[pos(&s, "FRA")].is_player_controlled);
    assert_eq!(s.select_country("ZZZ"), Err("Country with id 'ZZZ' not found".to_string()));
    assert_eq!(s.player_country_id.as_deref(), Some("ZZZ"));
    assert_eq!(s.get_country_info("POL").unwrap().name, "Poland");
    assert_eq!(s.get_country_info("ZZZ").err(), Some("Country with id 'ZZZ' not found".to_string()));
}

// ---------------------------------------------------------------- read-only tools

#[test]
fn country_status_errors() {
    let mut s = world();
    assert_eq!(s.get_country_status(None).err(), Some("Missing 'country_id'".to_string()));
    assert_eq!(s.get_country_status(Some("ZZZ")).err(), Some("Country not found: ZZZ".to_string()));
    assert_eq!(s.get_country_status(Some("FRA")).unwrap().name, "France");
    assert_eq!(s.get_player_status().unwrap().id, "GER");
    s.player_country_id = Some("ZZZ".to_string());
    assert_eq!(s.get_player_status().err(), Some("Player country not found in state".to_string()));
    s.player_country_id = None;
    assert_eq!(s.get_player_status().err(), Some("No player country selected".to_string()));
}

#[test]
fn neighbors_carry_names_and_stances() {
    let mut s = world();
    s.set_diplomatic_stance("FRA", "GER", DiplomaticStance::Wary);
    let n = s.get_neighbors(Some("GER")).unwrap();
    assert_eq!(n.len(), 3);
    assert_eq!((n[0].country_id.as_str(), n[0].name.as_str(), n[0].diplomatic_stance), ("POL", "Poland", DiplomaticStance::Neutral));
    assert_eq!((n[1].country_id.as_str(), n[1].name.as_str(), n[1].diplomatic_stance), ("FRA", "France", DiplomaticStance::Wary));
    assert_eq!((n[2].country_id.as_str(), n[2].name.as_str()), ("ATL", "ATL"));
    assert_eq!(s.get_neighbors(None).err(), Some("Missing 'country_id'".to_string()));
    assert_eq!(s.get_neighbors(Some("ZZZ")).err(), Some("Country not found: ZZZ".to_string()));
}

#[test]
fn world_situation_lists_ongoing_wars_with_known_names() {
    let mut s = world();
    s.wars.push(war("w1", &["GER", "XXX"], &["POL"], WarStatus::Ongoing));
    s.wars.push(war("w2", &["FRA"], &["GER"], WarStatus::Stalemate));
    for i in 0..7 {
        s.record_event("note", format!("event {}", i), Vec::new());
    }
    let w = s.get_world_situation();
    assert_eq!((w.turn, w.month, w.year, w.scenario.as_str()), (0, 9, 1939, "ww2_1939"));
    assert_eq!(w.active_wars.len(), 1);
    assert_eq!(w.active_wars[0].war_id, "w1");
    assert_eq!(w.active_wars[0].attackers, strings(&["Germany"]));
    assert_eq!(w.active_wars[0].defenders, strings(&["Poland"]));
    assert_eq!(w.active_wars[0].status, WarStatus::Ongoing);
    assert_eq!(w.recent_events_start, 2);
    assert_eq!(w.player_country, Some(0));
    assert_eq!(w.total_countries, 4);
}

// ---------------------------------------------------------------- declare_war

#[test]
fn declare_war_argument_errors_in_order() {
    let mut s = world();
    let a = Some(qty(50.0));
    assert_eq!(s.declare_war(None, None, None).err(), Some("Missing 'target_country'".to_string()));
    assert_eq!(s.declare_war(Some("POL"), None, a).err(), Some("Missing 'justification'".to_string()));
    assert_eq!(s.declare_war(Some("POL"), Some("j"), None).err(), Some("Missing 'military_allocation_pct'".to_string()));
    assert_eq!(s.declare_war(Some("GER"), Some("j"), a).err(), Some("Cannot declare war on yourself".to_string()));
    assert_eq!(s.declare_war(Some("ZZZ"), Some("j"), a).err(), Some("Target country not found: ZZZ".to_string()));
    s.player_country_id = None;
    assert_eq!(s.declare_war(Some("POL"), Some("j"), a).err(), Some("No player country selected".to_string()));
    assert!(s.wars.is_empty() && s.global_events.is_empty());
}

#[test]
fn declare_war_opens_a_war_and_records_it() {
    let mut s = world();
    s.turn_number = 3;
    let d = s.declare_war(Some("POL"), Some("Danzig"), Some(qty(60.0))).unwrap();
    assert_eq!(d.war_id.len(), 36);
    assert_eq!(d.attacker_id, "GER");
    assert_eq!(d.target_name, "Poland");
    assert_eq!(f64::from_bits(d.allocation_pct.bits), 60.0);
    assert_eq!(s.wars.len(), 1);
    let w = &s.wars[0];
    assert_eq!(w.id, d.war_id);
    assert_eq!(w.name, "Germany vs Poland");
    assert_eq!((w.attackers.clone(), w.defenders.clone()), (strings(&["GER"]), strings(&["POL"])));
    assert_eq!((w.start_turn, w.start_year, w.start_month, w.status, w.war_type), (3, 1939, 9, WarStatus::Ongoing, WarType::TotalWar));
    assert_eq!(w.justification, "Danzig");
    assert_eq!(s.countries[0].active_wars, vec![d.war_id.clone()]);
    assert_eq!(s.countries[1].active_wars, vec![d.war_id.clone()]);
    assert!(s.countries[2].active_wars.is_empty());
    assert_eq!(s.get_diplomatic_stance("POL", "GER"), DiplomaticStance::AtWar);
    assert_eq!(s.find_countries_at_war_with("GER"), strings(&["POL"]));
    let e = s.global_events.last().unwrap();
    assert_eq!((e.turn, e.event_type.as_str()), (3, "war_declared"));
    assert_eq!(e.description, "Germany declared war on Poland: Danzig");
    assert_eq!(e.involved_countries, strings(&["GER", "POL"]));
}

#[test]
fn declaring_war_twice_is_refused() {
    let mut s = world();
    let first = s.declare_war(Some("POL"), Some("j"), Some(qty(1.0))).unwrap();
    let second = s.declare_war(Some("POL"), Some("again"), Some(qty(1.0)));
    assert_eq!(second.err(), Some("Already at war with this country".to_string()));
    assert_eq!(s.wars.len(), 1);
    let other = s.declare_war(Some("FRA"), Some("j"), Some(qty(1.0))).unwrap();
    assert_ne!(first.war_id, other.war_id);
}

// ---------------------------------------------------------------- mobilize

#[test]
fn mobilization_sets_the_player_level() {
    let mut s = world();
    assert_eq!(s.mobilize_forces(None, None, None).err(), Some("Missing 'target_border'".to_string()));
    assert_eq!(s.mobilize_forces(Some("POL"), None, None).err(), Some("Missing 'force_size_pct'".to_string()));
    assert_eq!(s.mobilize_forces(Some("POL"), Some(amount(40.0)), None).err(), Some("Missing 'focus'".to_string()));
    assert_eq!(
        s.mobilize_forces(Some("POL"), Some(amount(40.0)), Some("space")).err(),
        Some("Invalid focus 'space'. Must be one of: land, air, naval".to_string())
    );
    let m = s.mobilize_forces(Some("POL"), Some(amount(40.5)), Some("land")).unwrap();
    assert_eq!(m.border_name, "Poland");
    assert_eq!(f64::from_bits(s.countries[0].military_power.mobilization_pct.bits), 40.5);
    let e = s.global_events.last().unwrap();
    assert_eq!(e.event_type, "mobilization");
    assert_eq!(e.description, "Germany mobilized 40.5% of forces toward the Poland border (focus: land)");
    s.player_country_id = Some("ZZZ".to_string());
    assert_eq!(s.mobilize_forces(Some("POL"), Some(amount(1.0)), Some("air")).err(), Some("Player country not found".to_string()));
}

// ---------------------------------------------------------------- peace

#[test]
fn peace_talks_errors() {
    let mut s = world();
    assert_eq!(s.peace_talks(None, Some("t")).err(), Some("Missing 'target_country'".to_string()));
    assert_eq!(s.peace_talks(Some("POL"), None).err(), Some("Missing 'terms'".to_string()));
    assert_eq!(s.peace_talks(Some("GER"), Some("t")).err(), Some("Cannot negotiate peace with yourself".to_string()));
    assert_eq!(s.peace_talks(Some("POL"), Some("t")).err(), Some("No active war found between you and POL".to_string()));
    s.player_country_id = None;
    assert_eq!(s.peace_talks(Some("POL"), Some("t")).err(), Some("No player country selected".to_string()));
}

#[test]
fn accepted_peace_ends_the_war() {
    let mut s = world();
    let d = s.declare_war(Some("POL"), Some("j"), Some(qty(1.0))).unwrap();
    s.wars[0].war_score = qty(25.0);
    s.turn_number = 5;
    let talks: PeaceTalks = s.peace_talks(Some("POL"), Some("white peace")).unwrap();
    assert_eq!(talks.war_id, d.war_id);
    assert!(talks.player_is_attacker);
    assert_eq!(f64::from_bits(talks.war_score.bits), 25.0);
    let name = s.conclude_peace(&talks, true);
    assert_eq!(name, "Poland");
    assert_eq!(s.wars[0].status, WarStatus::Ceasefire);
    assert_eq!(s.wars[0].end_turn, Some(5));
    assert_eq!(s.get_diplomatic_stance("GER", "POL"), DiplomaticStance::Wary);
    assert!(s.countries[0].active_wars.is_empty() && s.countries[1].active_wars.is_empty());
    assert!(s.find_countries_at_war_with("GER").is_empty());
    let e = s.global_events.last().unwrap();
    assert_eq!((e.event_type.as_str(), e.description.as_str()), ("peace_accepted", "Poland accepted peace terms from Germany: white peace"));
}

#[test]
fn rejected_peace_changes_nothing_but_the_record() {
    let mut s = world();
    s.declare_war(Some("POL"), Some("j"), Some(qty(1.0))).unwrap();
    let talks = s.peace_talks(Some("POL"), Some("t")).unwrap();
    let events = s.global_events.len();
    s.conclude_peace(&talks, false);
    assert_eq!(s.wars[0].status, WarStatus::Ongoing);
    assert_eq!(s.get_diplomatic_stance("GER", "POL"), DiplomaticStance::AtWar);
    assert_eq!(s.global_events.len(), events + 1);
    let e = s.global_events.last().unwrap();
    assert_eq!((e.event_type.as_str(), e.description.as_str()), ("peace_rejected", "Poland rejected peace overtures from Germany"));
}

#[test]
fn defender_suing_for_peace_is_not_the_attacker() {
    let mut s = world();
    s.wars.push(war("w1", &["POL"], &["GER"], WarStatus::Ongoing));
    let talks = s.peace_talks(Some("POL"), Some("t")).unwrap();
    assert!(!talks.player_is_attacker);
}

// ---------------------------------------------------------------- trade

#[test]
fn trade_replaces_earlier_relations_and_adds_one_agreement() {
    let mut s = world();
    s.countries[0].trade_partners.push(TradeRelation {
        partner_id: "FRA".to_string(),
        export_goods: strings(&["steel"]),
        import_goods: Vec::new(),
        trade_volume: qty(3.0),
        status: TradeStatus::Embargoed,
    });
    assert!(s.countries[0].has_embargoed_trade());
    let name = s.negotiate_trade(Some("FRA"), Some(strings(&["coal", "steel"])), Some(strings(&["wine"]))).unwrap();
    assert_eq!(name, "France");
    let ger = &s.countries[0];
    assert_eq!(ger.trade_partners.len(), 1);
    assert_eq!(ger.trade_partners[0].partner_id, "FRA");
    assert_eq!(ger.trade_partners[0].export_goods, strings(&["coal", "steel"]));
    assert_eq!(ger.trade_partners[0].import_goods, strings(&["wine"]));
    assert_eq!(ger.trade_partners[0].trade_volume.bits, ONE_BITS);
    assert_eq!(ger.trade_partners[0].status, TradeStatus::Active);
    assert!(!ger.has_embargoed_trade());
    let fra = &s.countries[2];
    assert_eq!(fra.trade_partners.len(), 1);
    assert_eq!(fra.trade_partners[0].export_goods, strings(&["wine"]));
    assert_eq!(s.get_diplomatic_stance("FRA", "GER"), DiplomaticStance::Friendly);
    s.negotiate_trade(Some("FRA"), Some(Vec::new()), Some(Vec::new())).unwrap();
    assert_eq!(s.countries[0].trade_partners.len(), 1);
    assert_eq!(s.diplomatic_relations.len(), 1);
    assert_eq!(s.diplomatic_relations[0].treaties, vec![Treaty::TradeAgreement]);
    let e = &s.global_events[0];
    assert_eq!(e.description, "Trade deal established with France: offering [coal, steel], requesting [wine]");
}

#[test]
fn trade_keeps_an_alliance() {
    let mut s = world();
    s.diplomatic_relations.push(relation("POL", "GER", DiplomaticStance::Allied));
    s.negotiate_trade(Some("POL"), Some(Vec::new()), Some(Vec::new())).unwrap();
    assert_eq!(s.get_diplomatic_stance("GER", "POL"), DiplomaticStance::Allied);
    assert_eq!(s.diplomatic_relations[0].treaties, vec![Treaty::TradeAgreement]);
    assert_eq!(f64::from_bits(TEN_BITS), 10.0);
}

#[test]
fn trade_errors() {
    let mut s = world();
    let none: Option<Vec<String>> = None;
    assert_eq!(s.negotiate_trade(None, None, None).err(), Some("Missing 'target_country'".to_string()));
    assert_eq!(s.negotiate_trade(Some("FRA"), none.clone(), None).err(), Some("Missing 'offer_resources' array".to_string()));
    assert_eq!(s.negotiate_trade(Some("FRA"), Some(Vec::new()), None).err(), Some("Missing 'request_resources' array".to_string()));
    assert_eq!(s.negotiate_trade(Some("GER"), Some(Vec::new()), Some(Vec::new())).err(), Some("Cannot trade with yourself".to_string()));
    assert_eq!(s.negotiate_trade(Some("ZZZ"), Some(Vec::new()), Some(Vec::new())).err(), Some("Target country not found: ZZZ".to_string()));
}

// ---------------------------------------------------------------- alliance

#[test]
fn alliance_lists_each_other_once() {
    let mut s = world();
    let a = s.form_alliance(Some("FRA"), Some("defensive")).unwrap();
    assert_eq!(a.target_name, "France");
    assert_eq!(a.relation_index, 0);
    s.form_alliance(Some("FRA"), Some("full")).unwrap();
    assert_eq!(s.countries[0].alliances, strings(&["FRA"]));
    assert_eq!(s.countries[2].alliances, strings(&["GER"]));
    assert_eq!(s.get_diplomatic_stance("FRA", "GER"), DiplomaticStance::Allied);
    assert_eq!(s.diplomatic_relations[0].treaties, vec![Treaty::MilitaryAlliance]);
    let e = s.global_events.last().unwrap();
    assert_eq!(e.description, "Germany and France formed a full alliance");
}

#[test]
fn alliance_errors() {
    let mut s = world();
    assert_eq!(s.form_alliance(None, None).err(), Some("Missing 'target_country'".to_string()));
    assert_eq!(s.form_alliance(Some("FRA"), None).err(), Some("Missing 'alliance_type'".to_string()));
    assert_eq!(
        s.form_alliance(Some("FRA"), Some("eternal")).err(),
        Some("Invalid alliance_type 'eternal'. Must be one of: defensive, full, economic".to_string())
    );
    assert_eq!(s.form_alliance(Some("GER"), Some("full")).err(), Some("Cannot ally with yourself".to_string()));
    assert_eq!(s.form_alliance(Some("ZZZ"), Some("full")).err(), Some("Target country not found: ZZZ".to_string()));
}

// ---------------------------------------------------------------- policy and budget

#[test]
fn policy_and_budget_are_recorded() {
    let mut s = world();
    let p = s.pass_policy(Some("Four Year Plan"), Some("autarky")).unwrap();
    assert_eq!((p.player_name.as_str(), p.player_index), ("Germany", Some(0)));
    assert_eq!(s.global_events[0].description, "Germany enacted policy 'Four Year Plan': autarky");
    let name = s.set_budget(Some(amount(40.0)), Some(amount(20.0)), Some(amount(25.5)), Some(amount(14.5))).unwrap();
    assert_eq!(name, "Germany");
    assert_eq!(
        s.global_events[1].description,
        "Germany set budget allocation: Military 40%, Infrastructure 20%, Welfare 25.5%, Research 14.5%"
    );
    s.player_country_id = Some("ZZZ".to_string());
    assert_eq!(s.pass_policy(Some("p"), Some("d")).unwrap().player_name, "Your country");
}

#[test]
fn policy_and_budget_errors() {
    let mut s = world();
    assert_eq!(s.pass_policy(None, None).err().unwrap(), "Missing 'policy_name'");
    assert_eq!(s.pass_policy(Some("p"), None).err().unwrap(), "Missing 'description'");
    assert_eq!(s.set_budget(None, None, None, None).err().unwrap(), "Missing 'military_pct'");
    assert_eq!(s.set_budget(Some(amount(1.0)), None, None, None).err().unwrap(), "Missing 'infrastructure_pct'");
    assert_eq!(s.set_budget(Some(amount(1.0)), Some(amount(1.0)), None, None).err().unwrap(), "Missing 'welfare_pct'");
    assert_eq!(s.set_budget(Some(amount(1.0)), Some(amount(1.0)), Some(amount(1.0)), None).err().unwrap(), "Missing 'research_pct'");
    s.player_country_id = None;
    assert_eq!(s.pass_policy(Some("p"), Some("d")).err().unwrap(), "No player country selected");
    assert_eq!(s.set_budget(Some(amount(1.0)), Some(amount(1.0)), Some(amount(1.0)), Some(amount(1.0))).err().unwrap(), "No player country selected");
    assert!(s.global_events.is_empty());
}

// ---------------------------------------------------------------- war resolution

#[test]
fn engagements_follow_ongoing_wars_and_active_fronts() {
    let mut s = world();
    let mut w1 = war("w1", &["GER"], &["POL"], WarStatus::Ongoing);
    w1.fronts = vec![front("Danzig", true), front("Silesia", false), front("Warsaw", true)];
    let mut w2 = war("w2", &["FRA"], &["GER"], WarStatus::Ceasefire);
    w2.fronts = vec![front("Saar", true)];
    let mut w3 = war("w3", &["XXX"], &["GER"], WarStatus::Ongoing);
    w3.fronts = vec![front("Nowhere", true)];
    let mut w4 = war("w4", &["GBR"], &["GER"], WarStatus::Ongoing);
    w4.fronts = vec![front("North Sea", true)];
    s.wars = vec![w1, w2, w3, w4];
    let e = s.pending_engagements();
    assert_eq!(
        e,
        vec![
            Engagement { war_index: 0, front_index: 0, attacker_index: 0, defender_index: 1 },
            Engagement { war_index: 0, front_index: 2, attacker_index: 0, defender_index: 1 },
            Engagement { war_index: 3, front_index: 0, attacker_index: 3, defender_index: 0 },
        ]
    );
    s.close_front(0, 2);
    assert!(!s.wars[0].fronts[2].active);
    assert_eq!(s.pending_engagements().len(), 2);
}

#[test]
fn territory_changes_hands() {
    let mut s = world();
    s.transfer_territory("POL", "GER");
    assert_eq!(s.countries[0].controlled_territory, strings(&["GER", "POL"]));
    assert!(s.countries[1].controlled_territory.is_empty());
    s.transfer_territory("POL", "GER");
    assert_eq!(s.countries[0].controlled_territory, strings(&["GER", "POL"]));
    s.transfer_territory("ZZZ", "FRA");
    assert_eq!(s.countries[2].controlled_territory, strings(&["FRA", "ZZZ"]));
}

#[test]
fn war_and_embargo_flags() {
    let mut c = country("GER", "Germany");
    assert!(!c.is_at_war());
    c.active_wars.push("w".to_string());
    assert!(c.is_at_war());
    assert!(!c.has_embargoed_trade());
}

// ---------------------------------------------------------------- turns

fn change(id: &str, text: &str) -> EconomicChange {
    EconomicChange { country_id: id.to_string(), gdp_change: qty(1.0), gdp_growth_new: qty(2.0), description: text.to_string() }
}

fn update(text: &str) -> WarUpdate {
    WarUpdate { war_id: "w".to_string(), description: text.to_string(), attacker_gains: Vec::new(), defender_gains: Vec::new() }
}

#[test]
fn turn_report_lists_changes_and_updates() {
    let mut s = world();
    s.turn_number = 2;
    let changes = vec![change("GER", "Germany: GDP up"), change("POL", "Poland: GDP down")];
    assert_eq!(
        s.turn_report(&changes, &Vec::new()),
        "=== Turn 2 Complete ===\nDate: 9/1939\n\n-- Economic Changes --\n  Germany: GDP up\n  Poland: GDP down\n\n-- War Updates --\n  No changes on active fronts.\n"
    );
    assert_eq!(
        s.turn_report(&Vec::new(), &vec![update("Germany advances")]),
        "=== Turn 2 Complete ===\nDate: 9/1939\n\n-- Economic Changes --\n\n-- War Updates --\n  Germany advances\n"
    );
}

#[test]
fn recorded_turn_keeps_its_date_and_results() {
    let mut s = world();
    s.current_month = 3;
    s.record_turn(vec![change("GER", "a"), change("POL", "b")], vec![update("u")]);
    let t = s.turn_history.last().unwrap();
    assert_eq!((t.turn, t.year, t.month), (0, 1939, 3));
    assert_eq!(t.player_action, "Turn advanced");
    assert_eq!(t.results, strings(&["a", "b"]));
    assert_eq!(t.war_updates.len(), 1);
    assert_eq!(t.economic_changes.len(), 2);
    assert!(t.territory_changes.is_empty() && t.new_events.is_empty());
}

#[test]
fn peace_talks_need_opposite_sides() {
    let mut s = world();
    s.wars.push(war("w1", &["GER", "POL"], &["FRA"], WarStatus::Ongoing));
    let before = format!("{:?}", s);
    assert_eq!(s.peace_talks(Some("POL"), Some("t")).err(), Some("No active war found between you and POL".to_string()));
    assert_eq!(format!("{:?}", s), before);
    let talks = s.peace_talks(Some("FRA"), Some("t")).unwrap();
    assert_eq!(talks.war_id, "w1");
    assert!(talks.player_is_attacker);
}

#[test]
fn setting_a_stance_twice_is_setting_it_once() {
    let mut s = world();
    s.diplomatic_relations.push(relation("FRA", "GBR", DiplomaticStance::Allied));
    s.set_diplomatic_stance("GER", "POL", DiplomaticStance::Hostile);
    let once = format!("{:?}", s);
    s.set_diplomatic_stance("GER", "POL", DiplomaticStance::Hostile);
    assert_eq!(format!("{:?}", s), once);
    s.set_diplomatic_stance("GBR", "FRA", DiplomaticStance::Allied);
    assert_eq!(format!("{:?}", s), once);
    assert_eq!(s.diplomatic_relations.len(), 2);
}

#[test]
fn repeating_a_trade_deal_changes_only_the_record() {
    let mut s = world();
    let first = s.negotiate_trade(Some("FRA"), Some(strings(&["coal"])), Some(strings(&["wine"]))).unwrap();
    let countries = format!("{:?}", s.countries);
    let relations = format!("{:?}", s.diplomatic_relations);
    let events = s.global_events.len();
    let second = s.negotiate_trade(Some("FRA"), Some(strings(&["coal"])), Some(strings(&["wine"]))).unwrap();
    assert_eq!(first, second);
    assert_eq!(format!("{:?}", s.countries), countries);
    assert_eq!(format!("{:?}", s.diplomatic_relations), relations);
    assert_eq!(s.global_events.len(), events + 1);
    assert_eq!(s.global_events[events].event_type, "trade_deal");
    assert_eq!(s.global_events[events].description, s.global_events[events - 1].description);
}

#[test]
fn identifiers_stay_distinct() {
    let mut s = world();
    assert!(s.has_distinct_ids());
    s.declare_war(Some("POL"), Some("j"), Some(qty(1.0))).unwrap();
    s.negotiate_trade(Some("FRA"), Some(Vec::new()), Some(Vec::new())).unwrap();
    s.form_alliance(Some("GBR"), Some("full")).unwrap();
    assert!(s.has_distinct_ids());
    let id = s.wars[0].id.clone();
    s.wars.push(war(&id, &["FRA"], &["GBR"], WarStatus::Ongoing));
    assert!(!s.has_distinct_ids());
    s.wars.pop();
    s.countries.push(country("POL", "Poland again"));
    assert!(!s.has_distinct_ids());
}

#[test]
fn declared_war_id_is_a_random_uuid() {
    let mut s = world();
    let d = s.declare_war(Some("POL"), Some("j"), Some(qty(1.0))).unwrap();
    let chars: Vec<char> = d.war_id.chars().collect();
    assert_eq!(chars.len(), 36);
    for (i, c) in chars.iter().enumerate() {
        match i {
            8 | 13 | 18 | 23 => assert_eq!(*c, '-'),
            14 => assert_eq!(*c, '4'),
            19 => assert!(matches!(c, '8' | '9' | 'a' | 'b')),
            _ => assert!(c.is_ascii_digit() || ('a'..='f').contains(c)),
        }
    }
}

#[test]
fn engagement_update_gives_the_front_to_the_winner() {
    let mut s = world();
    let mut w1 = war("w1", &["GER"], &["POL"], WarStatus::Ongoing);
    w1.fronts = vec![front("Danzig", true)];
    s.wars = vec![w1];
    let e = s.pending_engagements()[0];
    let won = s.engagement_update(e, true, "gains".to_string());
    assert_eq!(won.war_id, "w1");
    assert_eq!(won.description, "gains");
    assert_eq!(won.attacker_gains, strings(&["Danzig"]));
    assert!(won.defender_gains.is_empty());
    let lost = s.engagement_update(e, false, "pushed back".to_string());
    assert!(lost.attacker_gains.is_empty());
    assert_eq!(lost.defender_gains, strings(&["Danzig"]));
}
