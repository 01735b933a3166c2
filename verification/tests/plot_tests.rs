use nobody::numerical_system::{Action, ActionResult, ActorSnapshot, Context};
use nobody::plot_engine::{ActionType, PlayerAction, PlayerOption, PlotEngine, PlotState, Scene};
use nobody::plot_llm::{
    extract_bool_field_raw, extract_options_field_raw, extract_string_field_raw, json_candidate,
    parse_action_answer, parse_opening_answer, parse_plain_text_answer, parse_segment_answer,
    parse_verdict_answer, opening_step, segment_step, AskStep,
};

fn create_test_character() -> ActorSnapshot {
    ActorSnapshot {
        realm_name: "Qi Condensation".to_string(),
        realm_level: 1,
        sub_level: 0,
        combat_power: 100,
        cultivation_progress: "0.0".to_string(),
        breakthrough_ready: false,
    }
}

fn create_test_scene() -> Scene {
    let mut scene = Scene::new(
        "test_scene".to_string(),
        "Test Scene".to_string(),
        "This is a test scene".to_string(),
        "sect".to_string(),
    );
    scene.add_option(PlayerOption { id: 0, description: "Cultivate".to_string(), requirements: vec![], action: Action::Cultivate });
    scene.add_option(PlayerOption { id: 1, description: "Rest".to_string(), requirements: vec![], action: Action::Rest });
    scene
}

fn context() -> Context {
    Context { location: "sect".to_string(), time_of_day: "morning".to_string(), weather: None }
}

fn selected(id: usize) -> PlayerAction {
    PlayerAction { action_type: ActionType::SelectedOption, content: id.to_string(), selected_option_id: Some(id), meta: None }
}

fn free_text(text: &str) -> PlayerAction {
    PlayerAction { action_type: ActionType::FreeText, content: text.to_string(), selected_option_id: None, meta: None }
}

fn empty_scene(location: &str) -> Scene {
    Scene::new("test".to_string(), "Test".to_string(), "Test scene".to_string(), location.to_string())
}

#[test]
fn test_plot_engine_creation() {
    let _engine = PlotEngine::new();
}

#[test]
fn test_scene_creation() {
    let scene = create_test_scene();
    assert_eq!(scene.id, "test_scene");
    assert_eq!(scene.available_options.len(), 2);
}

#[test]
fn test_plot_state_creation() {
    let state = PlotState::new(create_test_scene());
    assert!(state.is_waiting_for_input);
    assert!(state.plot_history.is_empty());
}

#[test]
fn test_validate_selected_option_valid() {
    let engine = PlotEngine::new();
    let scene = create_test_scene();
    assert!(engine.validate_player_action(&selected(0), &scene.available_options).is_ok());
}

#[test]
fn test_validate_selected_option_invalid_id() {
    let engine = PlotEngine::new();
    let scene = create_test_scene();
    assert!(engine.validate_player_action(&selected(999), &scene.available_options).is_err());
}

#[test]
fn test_validate_free_text_empty() {
    let engine = PlotEngine::new();
    let scene = create_test_scene();
    assert!(engine.validate_player_action(&free_text("   "), &scene.available_options).is_err());
}

#[test]
fn test_validate_free_text_too_long() {
    let engine = PlotEngine::new();
    let scene = create_test_scene();
    let result = engine.validate_player_action(&free_text(&"a".repeat(600)), &scene.available_options);
    assert!(result.is_err());
}

#[test]
fn free_text_checks_report_their_reason() {
    let engine = PlotEngine::new();
    let scene = create_test_scene();
    let r = engine.validate_player_action(&free_text("   "), &scene.available_options);
    assert_eq!(r.unwrap_err(), "自由输入不能为空");
    let r = engine.validate_player_action(&free_text(&"a".repeat(600)), &scene.available_options);
    assert_eq!(r.unwrap_err(), "自由输入过长，请控制在 500 字以内");
    let r = engine.validate_player_action(&free_text("go\u{7}now"), &scene.available_options);
    assert_eq!(r.unwrap_err(), "输入包含非法控制字符");
    let r = engine.validate_player_action(&free_text("I attempt a breakthrough"), &scene.available_options);
    assert_eq!(r.unwrap_err(), "当前场景或境界条件不满足突破要求");
}

#[test]
fn test_process_player_action_selected_option() {
    let engine = PlotEngine::new();
    let scene = create_test_scene();
    let result = engine.process_player_action(&selected(0), &create_test_character(), &scene.available_options, &context());
    assert!(result.is_ok());
    assert!(result.unwrap().success);
}

#[test]
fn test_generate_player_options() {
    let engine = PlotEngine::new();
    let scene = create_test_scene();
    let options = engine.generate_player_options(&scene, "Qi Condensation", 0);
    assert_eq!(options.len(), 2);
    assert_eq!(options[0].description, "Cultivate");
    assert_eq!(options[1].description, "Rest");
}

#[test]
fn test_generate_player_options_empty_scene() {
    let engine = PlotEngine::new();
    let scene = Scene::new(
        "empty".to_string(),
        "Empty Scene".to_string(),
        "Scene with no predefined options".to_string(),
        "sect".to_string(),
    );
    let options = engine.generate_player_options(&scene, "Qi Condensation", 0);
    assert!(options.len() >= 2 && options.len() <= 5);
    assert!(options.iter().any(|o| matches!(o.action, Action::Cultivate)));
    assert!(options.iter().any(|o| matches!(o.action, Action::Rest)));
}

#[test]
fn test_generate_options_with_breakthrough() {
    let engine = PlotEngine::new();
    let options = engine.generate_player_options(&empty_scene("sect"), "Qi Condensation", 1);
    assert!(options.iter().any(|o| matches!(o.action, Action::Breakthrough)));
}

#[test]
fn test_generate_options_location_specific() {
    let engine = PlotEngine::new();
    let sect_options = engine.generate_player_options(&empty_scene("sect"), "Qi Condensation", 0);
    assert!(sect_options.iter().any(|o| matches!(o.action, Action::Custom { .. })));
    let city_options = engine.generate_player_options(&empty_scene("city"), "Qi Condensation", 0);
    assert!(city_options.iter().any(|o| matches!(o.action, Action::Custom { .. })));
}

#[test]
fn default_options_are_numbered_and_bounded() {
    let engine = PlotEngine::new();
    for (loc, sub) in [("sect", 0u32), ("city", 3), ("wild", 3), ("wild", 1), ("azure_cloud_sect", 2)] {
        let options = engine.generate_player_options(&empty_scene(loc), "练气", sub);
        assert!(options.len() >= 2 && options.len() <= 4);
        for (i, o) in options.iter().enumerate() {
            assert_eq!(o.id, i);
        }
    }
    let peak = engine.generate_player_options(&empty_scene("wild"), "练气", 3);
    assert_eq!(peak.len(), 2);
    let early = engine.generate_player_options(&empty_scene("sect"), "练气", 1);
    assert_eq!(early[1].description, "尝试突破 练气");
    assert_eq!(early[1].requirements, vec!["当前境界：练气（小层级 1）".to_string()]);
}

#[test]
fn test_advance_plot() {
    let engine = PlotEngine::new();
    let state = PlotState::new(create_test_scene());
    let action_result = ActionResult {
        success: true,
        description: "修炼成功".to_string(),
        stat_changes: vec![],
        events: vec!["完成一次修炼".to_string()],
    };
    let update = engine.advance_plot(&state, &action_result);
    assert!(update.plot_text.contains("修炼成功"));
    assert_eq!(update.triggered_events.len(), 1);
}

#[test]
fn test_generate_plot_text_contains_required_information() {
    let engine = PlotEngine::new();
    let state = PlotState::new(create_test_scene());
    let action_result = ActionResult {
        success: true,
        description: "你谨慎地运转功法".to_string(),
        stat_changes: vec![],
        events: vec!["NPC 反应: npc_elder_1 -> observe".to_string()],
    };
    let text = engine.generate_plot_text(&state, &action_result);
    assert!(text.contains("sect") || text.contains("Test Scene"));
    assert!(text.contains("NPC 反应") || text.contains("事件"));
}

#[test]
fn test_generate_plot_text_has_novel_style_fallback() {
    let engine = PlotEngine::new();
    let state = PlotState::new(create_test_scene());
    let action_result = ActionResult {
        success: true,
        description: "在晨光中吐纳灵气".to_string(),
        stat_changes: vec![],
        events: vec![],
    };
    let text = engine.generate_plot_text(&state, &action_result);
    assert!(text.contains("你"));
    assert!(text.contains("【") || text.contains("。"));
}

#[test]
fn fallback_plot_text_is_exact() {
    let engine = PlotEngine::new();
    let state = PlotState::new(create_test_scene());
    let action_result = ActionResult {
        success: true,
        description: "吐纳灵气".to_string(),
        stat_changes: vec![],
        events: vec!["风起".to_string(), "云涌".to_string()],
    };
    let text = engine.generate_plot_text_fallback(&state, &action_result);
    assert_eq!(text, "在sect，你吐纳灵气。随后传来的动静与风声里，风起；云涌。");
}

#[test]
fn test_validate_action_with_no_option_id() {
    let engine = PlotEngine::new();
    let scene = create_test_scene();
    let action = PlayerAction { action_type: ActionType::SelectedOption, content: "test".to_string(), selected_option_id: None, meta: None };
    let result = engine.validate_player_action(&action, &scene.available_options);
    assert!(result.is_err());
    assert!(result.unwrap_err().contains("必须提供选项 ID"));
}

#[test]
fn test_validate_action_with_valid_free_text() {
    let engine = PlotEngine::new();
    let scene = create_test_scene();
    assert!(engine.validate_player_action(&free_text("I want to explore the forest"), &scene.available_options).is_ok());
}

#[test]
fn test_validate_action_rejects_unreasonable_free_text() {
    let engine = PlotEngine::new();
    let scene = create_test_scene();
    let result = engine.validate_player_action(
        &free_text("I will instantly become immortal and destroy the world"),
        &scene.available_options,
    );
    assert!(result.is_err());
    assert!(result.unwrap_err().contains("超出当前世界规则"));
}

#[test]
fn model_verdict_against_text_is_reported() {
    let engine = PlotEngine::new();
    let scene = create_test_scene();
    let result = engine.validate_player_action_with_verdict(
        &free_text("I walk around"),
        &scene.available_options,
        Some((false, "不合常理".to_string())),
    );
    assert_eq!(result.unwrap_err(), "该行动被判定为不合理：不合常理");
}

#[test]
fn test_process_action_calculates_result_correctly() {
    let engine = PlotEngine::new();
    let scene = create_test_scene();
    let result = engine.process_player_action(&selected(0), &create_test_character(), &scene.available_options, &context());
    assert!(result.is_ok());
    let action_result = result.unwrap();
    assert!(action_result.success);
    assert!(!action_result.description.is_empty());
}

#[test]
fn test_process_action_rejects_invalid_option() {
    let engine = PlotEngine::new();
    let scene = create_test_scene();
    let result = engine.process_player_action(&selected(999), &create_test_character(), &scene.available_options, &context());
    assert!(result.is_err());
    assert!(result.unwrap_err().contains("无效的选项 ID"));
}

#[test]
fn plain_free_text_without_options_is_accepted() {
    let engine = PlotEngine::new();
    let none: Vec<PlayerOption> = Vec::new();
    for text in ["walk to the market 42", "A", "look_around  slowly", "Duel the guard"] {
        let result = engine.process_player_action(&free_text(text), &create_test_character(), &none, &context());
        assert!(result.is_ok(), "{text}");
    }
    assert!(engine.process_player_action(&free_text("enter god mode"), &create_test_character(), &none, &context()).is_err());
    assert!(engine.process_player_action(&free_text("breakthrough now"), &create_test_character(), &none, &context()).is_err());
}

#[test]
fn test_process_action_accepts_free_text() {
    let engine = PlotEngine::new();
    let scene = create_test_scene();
    let result = engine.process_player_action(&free_text("I want to explore"), &create_test_character(), &scene.available_options, &context());
    assert!(result.is_ok());
    assert!(!result.unwrap().description.is_empty());
}

#[test]
fn test_process_different_actions() {
    let engine = PlotEngine::new();
    let character = create_test_character();
    let mut scene = empty_scene("sect");
    scene.add_option(PlayerOption { id: 0, description: "Cultivate".to_string(), requirements: vec![], action: Action::Cultivate });
    scene.add_option(PlayerOption { id: 1, description: "Rest".to_string(), requirements: vec![], action: Action::Rest });
    scene.add_option(PlayerOption { id: 2, description: "Breakthrough".to_string(), requirements: vec![], action: Action::Breakthrough });

    let r = engine.process_player_action(&selected(0), &character, &scene.available_options, &context());
    assert!(r.is_ok());
    assert!(!r.unwrap().description.is_empty());
    let r = engine.process_player_action(&selected(1), &character, &scene.available_options, &context());
    assert!(r.is_ok());
    assert!(!r.unwrap().description.is_empty());
    let r = engine.process_player_action(&selected(2), &character, &scene.available_options, &context());
    assert!(r.is_ok());
}

#[test]
fn test_action_result_includes_events() {
    let engine = PlotEngine::new();
    let scene = create_test_scene();
    let result = engine.process_player_action(&selected(0), &create_test_character(), &scene.available_options, &context());
    assert!(result.is_ok());
    assert!(!result.unwrap().events.is_empty());
}

#[test]
fn free_text_is_read_by_keywords() {
    let engine = PlotEngine::new();
    assert_eq!(engine.parse_action_with_rules("I MEDITATE quietly"), Action::Cultivate);
    assert_eq!(engine.parse_action_with_rules("突破瓶颈"), Action::Breakthrough);
    assert_eq!(engine.parse_action_with_rules("time to sleep"), Action::Rest);
    assert_eq!(engine.parse_action_with_rules("Duel him"), Action::Combat { target_id: "unknown".to_string() });
    assert_eq!(
        engine.parse_action_with_rules("  wander  "),
        Action::Custom { description: "玩家行动：wander".to_string() }
    );
}

#[test]
fn test_plot_only_advances_with_player_action() {
    let mut scene = Scene::new("test".to_string(), "Test".to_string(), "Test scene".to_string(), "location".to_string());
    scene.add_option(PlayerOption { id: 0, description: "Option 1".to_string(), requirements: vec![], action: Action::Cultivate });
    let plot_state = PlotState::new(scene);
    assert!(plot_state.is_waiting_for_input);
    assert!(plot_state.last_action_result.is_none());
    assert!(plot_state.plot_history.is_empty());
}

#[test]
fn segment_answer_in_json_is_read() {
    let raw = "```json\n{\"segment_text\":\"  山风骤起。 \",\"needs_player_input\":true,\"chapter_end\":false,\"chapter_title\":\" 风起 \",\"options\":[\" 前行 \",\"\",7,\"后退\"]}\n```";
    let seg = parse_segment_answer(raw).unwrap();
    assert_eq!(seg.text, "山风骤起。");
    assert!(seg.needs_player_input);
    assert!(!seg.chapter_end);
    assert_eq!(seg.chapter_title, Some("风起".to_string()));
    assert_eq!(seg.chapter_summary, None);
    assert_eq!(seg.options, vec!["前行".to_string(), "后退".to_string()]);
}

#[test]
fn segment_answer_that_is_not_json_is_read_field_by_field() {
    let raw = "{\"segment_text\": \"他拔剑\\n而起\", \"chapter_end\": true, \"options\": [\"追\", \"逃\" ";
    let seg = parse_segment_answer(raw).unwrap();
    assert_eq!(seg.text, "他拔剑\n而起");
    assert!(seg.needs_player_input);
    assert!(seg.chapter_end);
    assert_eq!(seg.options, vec!["追".to_string(), "逃".to_string()]);
    let plain = parse_segment_answer("  只是一段文字  ").unwrap();
    assert_eq!(plain.text, "只是一段文字");
    assert!(plain.needs_player_input);
    assert!(parse_segment_answer("   ").is_none());
}

#[test]
fn raw_fields_are_read_off_the_text() {
    assert_eq!(extract_string_field_raw("{\"a\": 12, \"b\": 3}", "a"), Some("12".to_string()));
    assert_eq!(extract_string_field_raw("{\"a\": \"x\\\"y\"}", "a"), Some("x\"y".to_string()));
    assert_eq!(extract_string_field_raw("{\"a\": \"  \"}", "a"), None);
    assert_eq!(extract_string_field_raw("{\"b\": 1}", "a"), None);
    assert_eq!(extract_bool_field_raw("{\"flag\":   false}", "flag"), Some(false));
    assert_eq!(extract_bool_field_raw("{\"flag\": 1}", "flag"), None);
    assert_eq!(
        extract_options_field_raw("\"options\": [\"a\", \"b\", \"c\", \"d\", \"e\"]"),
        vec!["a".to_string(), "b".to_string(), "c".to_string(), "d".to_string()]
    );
    assert_eq!(extract_options_field_raw("\"action_choices\": [\"go\"]"), vec!["go".to_string()]);
}

#[test]
fn json_document_is_found_inside_prose() {
    assert_eq!(json_candidate("Sure! {\"a\": 1} Hope it helps"), Some("{\"a\": 1}".to_string()));
    assert_eq!(json_candidate("no json here"), None);
    assert_eq!(json_candidate("} backwards {"), None);
    assert_eq!(json_candidate("```\r\n[1]\r\n```"), Some("[1]".to_string()));
}

#[test]
fn opening_answer_uses_scene_and_status_when_no_segment() {
    let raw = "{\"scene\":\"雨夜\",\"current_status\":\"受伤\",\"action_choices\":[\"疗伤\"]}";
    let opening = parse_opening_answer(raw).unwrap();
    assert_eq!(opening.text, "雨夜\n\n受伤");
    assert_eq!(opening.options, vec!["疗伤".to_string()]);
    let raw = "{\"segment_text\":\"晨\",\"options\":null,\"action_choices\":[\"x\"]}";
    let opening = parse_opening_answer(raw).unwrap();
    assert!(opening.options.is_empty());
}

#[test]
fn action_answers_name_an_action() {
    assert_eq!(parse_action_answer("{\"action\":\"CULTIVATE\"}", "x"), Some(Action::Cultivate));
    assert_eq!(
        parse_action_answer("{\"action\":\"combat\",\"target\":\"wolf\"}", "x"),
        Some(Action::Combat { target_id: "wolf".to_string() })
    );
    assert_eq!(
        parse_action_answer("{\"action\":\"custom\"}", "my words"),
        Some(Action::Custom { description: "my words".to_string() })
    );
    assert_eq!(parse_action_answer("{\"action\":\"fly\"}", "x"), None);
    assert_eq!(parse_action_answer("not json", "x"), None);
}

#[test]
fn verdict_answers_and_plain_text() {
    assert_eq!(parse_verdict_answer("{\"reasonable\":false}"), Some((false, "未提供原因".to_string())));
    assert_eq!(parse_verdict_answer("{\"reasonable\":true,\"reason\":\"可\"}"), Some((true, "可".to_string())));
    assert_eq!(parse_verdict_answer("{\"reason\":\"可\"}"), None);
    assert_eq!(parse_plain_text_answer("  text "), Some("text".to_string()));
    assert_eq!(parse_plain_text_answer(" \n "), None);
}

#[test]
fn segment_requests_are_retried_once() {
    assert!(matches!(segment_step(1, None), AskStep::SendRetry));
    assert!(matches!(segment_step(2, None), AskStep::Done(None)));
    assert!(matches!(segment_step(1, Some("   ".to_string())), AskStep::Done(None)));
    match segment_step(2, Some("{\"segment_text\": \"山风渐起\", \"options\": [\"前行\"]}".to_string())) {
        AskStep::Done(Some(seg)) => {
            assert_eq!(seg.text, "山风渐起");
            assert_eq!(seg.options, vec!["前行".to_string()]);
        }
        _ => panic!("expected a segment"),
    }
    match segment_step(1, Some("the mist parts".to_string())) {
        AskStep::Done(Some(seg)) => assert_eq!(seg.text, "the mist parts"),
        _ => panic!("expected a plain-text segment"),
    }
}

#[test]
fn opening_requests_are_retried_once() {
    assert!(matches!(opening_step(1, None), AskStep::SendRetry));
    assert!(matches!(opening_step(2, None), AskStep::Done(None)));
    match opening_step(1, Some("{\"segment_text\": \"开篇\", \"options\": [\"a\", \"b\"]}".to_string())) {
        AskStep::Done(Some(o)) => {
            assert_eq!(o.text, "开篇");
            assert_eq!(o.options.len(), 2);
        }
        _ => panic!("expected an opening"),
    }
}
