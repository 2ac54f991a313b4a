use map_game::advisor::advisor_system_prompt;
use map_game::context::build_system_prompt;
use map_game::directive::{EngineReply, TurnPhase, TurnStep};
use map_game::game::country::{Real, ONE_BITS, TEN_BITS};
use map_game::game::state::GameState;
use map_game::game::turn::tail_start;
use map_game::llm::{ollama_chat_endpoint, provider_from_lowercase, select_provider, ProviderKind};
use map_game::search::{add_text_once, has_text, insert_sorted, remove_text};
use map_game::text::{join2, join3, push_decimal, push_signed_decimal, render_u64, same_text, text_lt};
use map_game::tools::catalog::Tool;

fn strings(items: &[&str]) -> Vec<String> {
    items.iter().map(|s| s.to_string()).collect()
}

#[test]
fn decimal_rendering_matches_display() {
    assert_eq!(render_u64(0), "0");
    assert_eq!(render_u64(7), "7");
    assert_eq!(render_u64(1939), "1939");
    assert_eq!(render_u64(u64::MAX), u64::MAX.to_string());
    let mut s = String::from("x=");
    push_decimal(&mut s, 100);
    assert_eq!(s, "x=100");
}

#[test]
fn signed_decimal_rendering_matches_display() {
    for n in [0i32, 9, -1, -42, 12, i32::MIN, i32::MAX] {
        let mut s = String::new();
        push_signed_decimal(&mut s, n);
        assert_eq!(s, n.to_string());
    }
}

#[test]
fn text_order_is_string_order() {
    let cases = [("a", "b"), ("b", "a"), ("ab", "a"), ("a", "ab"), ("", "a"), ("a", ""), ("same", "same"), ("Z", "a"), ("é", "z")];
    for (a, b) in cases {
        assert_eq!(text_lt(a, b), a.to_string() < b.to_string(), "{} < {}", a, b);
    }
    assert!(same_text("abc", "abc"));
    assert!(!same_text("abc", "abd"));
}

#[test]
fn joins_concatenate() {
    assert_eq!(join2("Country not found: ", "POL"), "Country not found: POL");
    assert_eq!(join3("a", "b", "c"), "abc");
}

#[test]
fn sorted_insertion_keeps_order_and_drops_duplicates() {
    let mut v: Vec<String> = Vec::new();
    for x in ["GER", "FRA", "POL", "FRA", "ALB", "GER"] {
        insert_sorted(&mut v, x.to_string());
    }
    assert_eq!(v, strings(&["ALB", "FRA", "GER", "POL"]));
}

#[test]
fn text_lists_add_once_and_remove_all() {
    let mut v = strings(&["a", "b", "a", "c"]);
    assert!(has_text(&v, "b"));
    remove_text(&mut v, "a");
    assert_eq!(v, strings(&["b", "c"]));
    add_text_once(&mut v, "b");
    assert_eq!(v, strings(&["b", "c"]));
    add_text_once(&mut v, "d");
    assert_eq!(v, strings(&["b", "c", "d"]));
    assert!(!has_text(&v, "a"));
}

#[test]
fn real_constants_encode_one_and_ten() {
    assert_eq!(f64::from_bits(ONE_BITS), 1.0);
    assert_eq!(f64::from_bits(TEN_BITS), 10.0);
    assert_eq!(f64::from_bits(Real::zero().bits), 0.0);
    assert_eq!(Real::from_bits(5).bits, 5);
}

#[test]
fn tool_names_round_trip() {
    let all = Tool::all();
    assert_eq!(all.len(), 12);
    for t in &all {
        assert_eq!(Tool::from_name(t.name()), Ok(*t));
        assert!(!t.description().is_empty());
    }
    assert_eq!(Tool::from_name("declare_war"), Ok(Tool::DeclareWar));
    assert_eq!(Tool::from_name("advance_turn"), Ok(Tool::AdvanceTurn));
}

#[test]
fn unknown_tool_is_reported() {
    assert_eq!(Tool::from_name("launch_rockets"), Err("Unknown tool: launch_rockets".to_string()));
    assert_eq!(Tool::from_name(""), Err("Unknown tool: ".to_string()));
}

#[test]
fn tail_start_counts_from_the_end() {
    assert_eq!(tail_start(0, 5), 0);
    assert_eq!(tail_start(3, 5), 0);
    assert_eq!(tail_start(5, 5), 0);
    assert_eq!(tail_start(8, 5), 3);
    assert_eq!(tail_start(8, 3), 5);
}

#[test]
fn system_prompt_names_scenario_date_turn_and_player() {
    let mut s = GameState::new("ww2_1939");
    s.turn_number = 4;
    let prompt = build_system_prompt(&s);
    assert!(prompt.starts_with("You are the simulation engine for an alternate history grand strategy game.\n\nCurrent Scenario: ww2_1939\nDate: 9/1939\nTurn: 4\nPlayer Country: Unknown\n\nYou control"));
    assert!(prompt.contains("7. Territory changes happen when war progress reaches 100% on a front"));
    assert!(prompt.ends_with("8. Always respond with the narrative of events, not just raw tool output"));
    s.player_country_id = Some("NOWHERE".to_string());
    assert!(build_system_prompt(&s).contains("Player Country: Unknown\n"));
}

#[test]
fn advisor_prompt_addresses_the_leader() {
    let s = GameState::new("x");
    let prompt = advisor_system_prompt(&s);
    assert!(prompt.starts_with("You are a strategic advisor to the leader of Unknown. Your role is"));
    assert!(prompt.contains("4. REFINED DIRECTIVE: A clearer, more strategic version of the directive."));
}

fn reply(content: &str, tools: bool) -> EngineReply {
    EngineReply { content: content.to_string(), has_tool_calls: tools }
}

fn finish(step: TurnStep) -> String {
    match step {
        TurnStep::Finish { narrative } => narrative,
        TurnStep::RunTools { .. } => panic!("expected the exchange to finish"),
    }
}

#[test]
fn directive_without_tools_finishes_at_once() {
    let (phase, step) = TurnPhase::AwaitFirst.next(reply("Nothing happens.", false));
    assert!(matches!(phase, TurnPhase::Finished));
    assert_eq!(finish(step), "Nothing happens.");
}

#[test]
fn directive_with_two_rounds_of_tools_joins_the_narrative() {
    let (phase, step) = TurnPhase::AwaitFirst.next(reply("", true));
    assert!(matches!(step, TurnStep::RunTools { offer_tools: true }));
    let (phase, step) = phase.next(reply("War breaks out.", true));
    assert!(matches!(step, TurnStep::RunTools { offer_tools: false }));
    let (phase, step) = phase.next(reply("The front holds.", true));
    assert!(matches!(phase, TurnPhase::Finished));
    assert_eq!(finish(step), "War breaks out.\n\nThe front holds.");
}

#[test]
fn empty_last_reply_leaves_the_narrative() {
    let (phase, _) = TurnPhase::AwaitFirst.next(reply("", true));
    let (phase, _) = phase.next(reply("Peace.", true));
    let (_, step) = phase.next(reply("", false));
    assert_eq!(finish(step), "Peace.");
    let (phase, _) = TurnPhase::AwaitFirst.next(reply("", true));
    let (_, step) = phase.next(reply("Only once.", false));
    assert_eq!(finish(step), "Only once.");
}

#[test]
fn providers_are_chosen_by_name_in_any_case() {
    assert_eq!(select_provider("OpenAI", true), Ok(ProviderKind::OpenAi));
    assert_eq!(select_provider("open_ai", true), Ok(ProviderKind::OpenAi));
    assert_eq!(select_provider("OLLAMA", false), Ok(ProviderKind::Ollama));
    assert_eq!(select_provider("openai", false), Err("OpenAI provider requires an API key".to_string()));
    assert_eq!(select_provider("Mistral", true), Err("Unknown provider 'mistral'. Supported: openai, ollama".to_string()));
    assert_eq!(provider_from_lowercase("ollama", true), Ok(ProviderKind::Ollama));
    assert_eq!(provider_from_lowercase("OpenAI", true), Err("Unknown provider 'OpenAI'. Supported: openai, ollama".to_string()));
}

#[test]
fn ollama_endpoint_gets_the_chat_path() {
    assert_eq!(ollama_chat_endpoint(None), "http://localhost:11434/api/chat");
    assert_eq!(ollama_chat_endpoint(Some("http://localhost:11434")), "http://localhost:11434/api/chat");
    assert_eq!(ollama_chat_endpoint(Some("http://localhost:11434/")), "http://localhost:11434/api/chat");
    assert_eq!(ollama_chat_endpoint(Some("http://localhost:11434/api/chat")), "http://localhost:11434/api/chat");
    assert_eq!(ollama_chat_endpoint(Some("http://gpu-box:8080/ollama/api/chat")), "http://gpu-box:8080/ollama/api/chat");
}
