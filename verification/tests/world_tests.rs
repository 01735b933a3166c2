use nobody::event_log::{EventImportance, GameEvent};
use nobody::game_engine::{
    build_random_start_profile, choose_weighted_index, draw_random_start, finish_start, level_order, rand_u32,
    realm_weights, start_lifespan_overflows,
    rng_next, starting_realm_index,
};
use nobody::llm_service::LLMResponse;
use nobody::memory::{dedup_memories, sort_by_rank_desc, MemoryManager, MemoryRecord, NPCMemory};
use nobody::novel_generator::{
    assemble_novel, export_text, generate_chapter, generate_chapter_fallback, novel_chunks,
    Chapter, Novel,
};
use nobody::novel_parser::{novel_from_answer, novel_title, parse_novel_text, split_lines};
use nobody::npc::{
    affected_npc_ids, clamp_i32, decision_from_response, finish_decision, generate_fallback_decision,
    generate_reaction_decision, pairwise_pairs, NPCDecision, PersonalityTrait, Relationship,
};
use nobody::response_validator::ResponseValidator;
use nobody::save_load::{
    game_time_label, Platform, save_info, slot_from_file_name, sort_saves, SaveLoadSystem,
};
use nobody::script_manager::{
    has_reversed_braces, imported_locations, location_ids, normalize_identifier, script_object_slice,
    select_character_from_novel, validate_script_fields,
};

fn event(id: u64, timestamp: u64, event_type: &str, description: &str) -> GameEvent {
    GameEvent {
        id,
        timestamp,
        event_type: event_type.to_string(),
        description: description.to_string(),
        importance: EventImportance::Normal,
    }
}

#[test]
fn test_update_relationship_clamps_values() {
    let mut rel = Relationship::new("b");
    rel.apply_interaction(200, -200, "conflict", 1);
    assert_eq!(rel.affinity, 100);
    assert_eq!(rel.trust, -100);
    assert_eq!(rel.history.len(), 1);
    assert_eq!(rel.history[0].event, "conflict");
    assert_eq!(rel.history[0].affinity_change, 200);
}

#[test]
fn clamping_leaves_values_in_range_alone() {
    assert_eq!(clamp_i32(42, -100, 100), 42);
    assert_eq!(clamp_i32(-101, -100, 100), -100);
    let mut rel = Relationship::new("c");
    rel.apply_interaction(5, 3, "help", 2);
    rel.apply_interaction(5, 3, "help", 3);
    assert_eq!((rel.affinity, rel.trust, rel.history.len()), (10, 6, 2));
}

#[test]
fn test_process_event_generates_decisions() {
    let aggressive = vec![PersonalityTrait::Aggressive];
    let calm = vec![PersonalityTrait::Calm, PersonalityTrait::Cautious];
    let a = generate_reaction_decision("a", Some(&aggressive), true, "A demonic beast appears");
    let b = generate_reaction_decision("b", Some(&calm), true, "A demonic beast appears");
    let decisions = vec![a, b];
    assert_eq!(decisions.len(), 2);
    assert!(decisions.iter().any(|d| d.npc_id == "a"));
    assert!(decisions.iter().any(|d| d.npc_id == "b"));
    assert_eq!(decisions[0].action, "intervene");
    assert_eq!(decisions[1].action, "observe_carefully");
    assert_eq!(decisions[1].reason, "Reaction to event: A demonic beast appears");
}

#[test]
fn reactions_to_minor_events_and_unknown_npcs() {
    let calm = vec![PersonalityTrait::Calm];
    assert_eq!(generate_reaction_decision("x", Some(&calm), false, "rain").action, "acknowledge");
    assert_eq!(generate_reaction_decision("x", Some(&calm), true, "rain").action, "respond");
    let missing = generate_reaction_decision("ghost", None, true, "rain");
    assert_eq!((missing.action.as_str(), missing.reason.as_str()), ("ignore", "npc not found"));
}

#[test]
fn test_generate_npc_decision_fallback() {
    let traits = vec![PersonalityTrait::Calm, PersonalityTrait::Cautious];
    let decision = finish_decision("a", &traits, "combat in the outer sect", None);
    assert_eq!(decision.npc_id, "a");
    assert!(!decision.action.is_empty());
    assert!(!decision.reason.is_empty());
    assert_eq!(decision.action, "prepare_defense");
}

#[test]
fn fallback_decision_reads_situations_in_any_case() {
    let d = generate_fallback_decision("elder", "A fierce BATTLE looms");
    assert_eq!(d.action, "prepare_defense");
    assert_eq!(d.reason, "Fallback decision for situation: A fierce BATTLE looms");
    let d = generate_fallback_decision("elder", "Hidden Treasure found");
    assert_eq!(d.action, "secure_resource");
    let d = generate_fallback_decision("elder", "quiet morning");
    assert_eq!(d.action, "observe_and_plan");
}

#[test]
fn test_generate_npc_decision_respects_personality() {
    let traits = vec![PersonalityTrait::Cautious];
    let decision = finish_decision("a", &traits, "reckless battle opportunity", None);
    assert!(decision.action.contains("observe") || decision.action.contains("prepare"));
}

#[test]
fn personality_adjusts_model_decisions() {
    let cautious = vec![PersonalityTrait::Cautious];
    let d = finish_decision(
        "a",
        &cautious,
        "x",
        Some(NPCDecision { npc_id: "a".to_string(), action: "reckless_charge".to_string(), reason: "why".to_string() }),
    );
    assert_eq!(d.action, "observe_and_plan");
    assert_eq!(d.reason, "why | adjusted for cautious personality");
    let both = vec![PersonalityTrait::Cautious, PersonalityTrait::Aggressive];
    let d = finish_decision(
        "a",
        &both,
        "x",
        Some(NPCDecision { npc_id: "a".to_string(), action: "reckless_charge".to_string(), reason: "why".to_string() }),
    );
    assert_eq!(d.action, "intervene");
    assert_eq!(d.reason, "why | adjusted for cautious personality | adjusted for aggressive personality");
    let plain = generate_fallback_decision("n", "Hunting TREASURE");
    assert_eq!(plain.action, "secure_resource");
    assert_eq!(plain.reason, "Fallback decision for situation: Hunting TREASURE");
}

#[test]
fn model_decisions_are_read_from_json() {
    let validator = ResponseValidator::default_validator();
    let resp = LLMResponse {
        text: "{\"action\":\"meditate\",\"reason\":\"calm\"}".to_string(),
        model: None,
        finish_reason: None,
        prompt_tokens: None,
        completion_tokens: None,
        total_tokens: None,
    };
    let d = decision_from_response(&validator, "npc1", &resp).unwrap();
    assert_eq!((d.npc_id.as_str(), d.action.as_str(), d.reason.as_str()), ("npc1", "meditate", "calm"));
    let missing = LLMResponse { text: "{\"action\":\"x\"}".to_string(), ..resp.duplicate() };
    assert_eq!(decision_from_response(&validator, "npc1", &missing).unwrap_err(), "LLM decision missing reason");
    let broken = LLMResponse { text: "{".to_string(), ..resp.duplicate() };
    assert!(decision_from_response(&validator, "npc1", &broken).unwrap_err().starts_with("invalid json: "));
}

#[test]
fn pairwise_updates_cover_every_ordered_pair() {
    assert_eq!(pairwise_pairs(3), vec![(0, 1), (0, 2), (1, 0), (1, 2), (2, 0), (2, 1)]);
    assert!(pairwise_pairs(1).is_empty());
}

#[test]
fn test_generate_novel_creates_chapters() {
    let events = vec![
        event(1, 1, "cultivation", "Player cultivated at dawn"),
        event(2, 2, "combat", "Player won a duel"),
    ];
    let chunks = novel_chunks(&events);
    let texts = vec![None; chunks.len()];
    let novel = assemble_novel("Road to Immortality", &chunks, texts, events.len());
    assert_eq!(novel.title, "Road to Immortality");
    assert_eq!(novel.total_events, 2);
    assert!(!novel.chapters.is_empty());
}

#[test]
fn test_generate_chapter_contains_event_content() {
    let events = vec![
        event(1, 1, "dialogue", "An elder shared a warning"),
        event(2, 2, "breakthrough", "Realm barrier started to shake"),
    ];
    let chapter = generate_chapter(1, &events, None);
    assert!(!chapter.content.is_empty());
    assert_eq!(chapter.source_event_ids, vec![1, 2]);
    assert_eq!(chapter.title, "第1章：命途流转");
}

#[test]
fn novel_keeps_event_chronology_in_chapters_of_eight() {
    let events: Vec<GameEvent> = (0..20u64).map(|i| event(i + 1, 100 - i, "e", "x")).collect();
    let chunks = novel_chunks(&events);
    assert_eq!(chunks.iter().map(|c| c.len()).collect::<Vec<_>>(), vec![8, 8, 4]);
    let texts = vec![Some("written".to_string()), None, None];
    let novel = assemble_novel("T", &chunks, texts, events.len());
    let ids: Vec<u64> = novel.chapters.iter().flat_map(|c| c.source_event_ids.clone()).collect();
    let expected: Vec<u64> = (1..=20u64).rev().collect();
    assert_eq!(ids, expected);
    assert_eq!(novel.chapters[0].content, "written");
    assert_eq!(novel.chapters[2].index, 3);
}

#[test]
fn empty_history_still_gives_a_novel() {
    let novel = assemble_novel("Quiet", &vec![], vec![], 0);
    assert_eq!(novel.chapters.len(), 1);
    assert_eq!(novel.chapters[0].title, "第1章：静水初澜");
    assert_eq!(generate_chapter_fallback(&vec![]), "这一章尚未掀起波澜，主角在平静中积蓄力量。");
}

#[test]
fn fallback_chapter_lists_events() {
    let text = generate_chapter_fallback(&vec![event(1, 3, "combat", "won")]);
    assert_eq!(
        text,
        "修行之路在以下片段中继续推进：\n第3日：won（combat）\n故事尚未结束，你的下一次选择将决定后续走向。"
    );
}

#[test]
fn test_export_to_file_creates_txt() {
    let novel = Novel {
        title: "Export Test".to_string(),
        chapters: vec![Chapter {
            index: 1,
            title: "Beginning".to_string(),
            content: "A quiet dawn over the sect.".to_string(),
            source_event_ids: vec![1],
        }],
        total_events: 1,
    };
    let text = export_text(&novel);
    assert!(text.contains("Export Test"));
    assert!(text.contains("Beginning"));
    assert_eq!(text, "Export Test\n\n事件总数：1\n\n第1章 - Beginning\nA quiet dawn over the sect.\n\n");
}

#[test]
fn test_parse_valid_novel_file() {
    let content = "World: A cultivation world under strict sect hierarchy\nCharacter: Lin Mo\nLocation: Azure Cloud Sect\nLin Mo won a battle and attempted breakthrough.";
    let title = novel_title(Some("sample_novel".to_string()));
    let parsed = parse_novel_text(&title, content).unwrap();
    assert!(parsed.title.contains("sample_novel"));
    assert!(!parsed.world_summary.is_empty());
    assert!(!parsed.characters.is_empty());
    assert_eq!(parsed.world_summary, "A cultivation world under strict sect hierarchy");
    assert_eq!(parsed.key_events, vec!["Lin Mo won a battle and attempted breakthrough.".to_string()]);
}

#[test]
fn test_extract_characters_and_world_setting() {
    let text = "世界观：上古灵气复苏，宗门林立。\n角色：韩青\n角色：苏婉\n地点：青云宗\n韩青突破失败后再战。";
    let parsed = parse_novel_text("Test", text).unwrap();
    assert!(parsed.world_summary.contains("上古灵气复苏") || !parsed.world_summary.is_empty());
    assert!(parsed.characters.iter().any(|c| c.contains("韩青")));
    assert!(parsed.locations.iter().any(|l| l.contains("青云宗")));
}

#[test]
fn characters_are_sorted_and_distinct() {
    let text = "Character: Zed\nCharacter: Amy\n角色：Amy\nCharacter:   \nLocation: X";
    let parsed = parse_novel_text("T", text).unwrap();
    assert_eq!(parsed.characters, vec!["Amy".to_string(), "Zed".to_string()]);
    assert_eq!(parsed.world_summary, text.chars().take(220).collect::<String>());
    assert_eq!(parse_novel_text("T", " \n ").unwrap_err(), "小说内容为空");
    assert_eq!(novel_title(None), "导入小说");
}

#[test]
fn lines_split_like_str_lines() {
    for s in ["a\nb", "a\r\nb\r\n", "\n\nx", "", "last\r"] {
        let expected: Vec<String> = s.lines().map(|l| l.to_string()).collect();
        assert_eq!(split_lines(s), expected, "input {:?}", s);
    }
}

#[test]
fn model_reading_of_a_novel() {
    let raw = "{\"world_summary\":\"w\",\"characters\":[\"a\",1],\"locations\":[],\"key_events\":[\"k\"]}";
    let d = novel_from_answer("T", raw).unwrap();
    assert_eq!(d.characters, vec!["a".to_string()]);
    assert_eq!(d.key_events, vec!["k".to_string()]);
    assert!(novel_from_answer("T", "{\"world_summary\":\"w\"}").is_none());
}

#[test]
fn test_validate_valid_script() {
    assert!(validate_script_fields(1, &vec!["sect".to_string()], "sect", 16).is_ok());
}

#[test]
fn test_validate_script_missing_realms() {
    let result = validate_script_fields(0, &vec!["sect".to_string()], "sect", 16);
    assert!(result.is_err());
    assert!(result.unwrap_err().contains("cultivation realms"));
}

#[test]
fn test_validate_script_missing_locations() {
    let result = validate_script_fields(1, &vec![], "sect", 16);
    assert!(result.is_err());
    assert!(result.unwrap_err().contains("locations"));
}

#[test]
fn test_validate_script_invalid_starting_location() {
    let result = validate_script_fields(1, &vec!["sect".to_string()], "nonexistent", 16);
    assert!(result.is_err());
    assert!(result.unwrap_err().contains("Starting location"));
}

#[test]
fn test_validate_script_invalid_starting_age() {
    let result = validate_script_fields(1, &vec!["sect".to_string()], "sect", 5);
    assert!(result.is_err());
    assert!(result.unwrap_err().contains("Starting age"));
    assert_eq!(
        validate_script_fields(1, &vec!["sect".to_string()], "sect", 101).unwrap_err(),
        "Script validation failed: Starting age 101 is invalid (should be 10-100)"
    );
}

#[test]
fn test_parse_generated_script_from_embedded_json() {
    let raw = "Here is script:\n```json\n{\"id\":\"test_script\",\"nested\":{\"a\":1}}\n```";
    assert!(!has_reversed_braces(raw));
    let slice = script_object_slice(raw).unwrap();
    assert_eq!(slice, "{\"id\":\"test_script\",\"nested\":{\"a\":1}}");
    assert_eq!(
        script_object_slice("nothing").unwrap_err(),
        "Generated response does not contain JSON object"
    );
    assert_eq!(
        script_object_slice("{ open").unwrap_err(),
        "Generated response does not contain JSON object end"
    );
    assert!(has_reversed_braces("} {"));
}

#[test]
fn identifiers_and_imported_location_ids() {
    assert_eq!(normalize_identifier("  Azure Cloud--Sect_ "), Some("azure_cloud_sect".to_string()));
    assert_eq!(normalize_identifier("青云宗"), None);
    let names = vec!["Azure Cloud".to_string(), "azure-cloud".to_string(), "青云宗".to_string(), "AZURE cloud".to_string()];
    assert_eq!(
        location_ids(&names),
        vec![
            "azure_cloud".to_string(),
            "azure_cloud_2".to_string(),
            "location_3".to_string(),
            "azure_cloud_3".to_string()
        ]
    );
}

#[test]
fn choosing_a_character_from_a_novel() {
    let chars = vec!["韩青".to_string(), "苏婉".to_string()];
    assert_eq!(select_character_from_novel(&chars, " 苏婉 ").unwrap(), "苏婉");
    assert_eq!(select_character_from_novel(&chars, "  ").unwrap_err(), "请选择一个角色");
    assert_eq!(select_character_from_novel(&chars, "李").unwrap_err(), "选择的角色不存在: 李");
    assert_eq!(select_character_from_novel(&vec![], "李").unwrap_err(), "未能从小说中解析出角色列表");
}

#[test]
fn test_validate_save_data() {
    let system = SaveLoadSystem::new(Platform::Linux, None, None);
    assert!(system.validate_save_fields("1.0.0", 100, "Test Player").is_ok());
    assert!(system.validate_save_fields("", 100, "Test Player").is_err());
    assert!(system.validate_save_fields("2.0.0", 100, "Test Player").is_err());
    assert!(system.validate_save_fields("1.0.0", 0, "Test Player").is_err());
    assert!(system.validate_save_fields("1.0.0", 100, "").is_err());
    assert_eq!(
        system.validate_save_fields("2.0.0", 100, "P").unwrap_err(),
        "不兼容的存档版本: 2.0.0。期望版本 1.x"
    );
}

#[test]
fn save_listing_helpers() {
    assert_eq!(slot_from_file_name("save_3.json"), Some(3));
    assert_eq!(slot_from_file_name("save_+4.json"), Some(4));
    assert_eq!(slot_from_file_name("save_x.json"), None);
    assert_eq!(slot_from_file_name("save_3.txt"), None);
    assert_eq!(slot_from_file_name("load_3.json"), None);
    assert_eq!(game_time_label(1, 2, 3), "第 1 年，第 2 月，第 3 日");
    let saves = vec![
        save_info(5, "1.0.0".to_string(), 1, "b".to_string(), 20, 1, 1, 1),
        save_info(2, "1.0.0".to_string(), 1, "a".to_string(), 20, 1, 1, 1),
        save_info(5, "1.0.0".to_string(), 2, "c".to_string(), 20, 1, 1, 1),
    ];
    let sorted = sort_saves(saves);
    let order: Vec<(u32, String)> = sorted.iter().map(|s| (s.slot_id, s.player_name.clone())).collect();
    assert_eq!(order, vec![(2, "a".to_string()), (5, "b".to_string()), (5, "c".to_string())]);
    let custom = SaveLoadSystem::with_directory("/tmp/s".to_string());
    assert_eq!(custom.get_save_path(12), "/tmp/s/save_12.json");
}

#[test]
fn generator_draws_stay_in_range() {
    let mut seed = 0u64;
    let first = rng_next(&mut seed);
    assert_ne!(first, 0);
    assert_eq!(seed, first);
    for _ in 0..200 {
        let v = rand_u32(&mut seed, 3, 9);
        assert!((3..=9).contains(&v));
    }
    let mut s2 = 7u64;
    assert_eq!(rand_u32(&mut s2, 5, 5), 5);
    assert_eq!(s2, 7);
    let weights = vec![0u32, 5, 0, 1];
    for _ in 0..100 {
        let i = choose_weighted_index(&mut seed, &weights);
        assert!(i == 1 || i == 3);
    }
    assert_eq!(choose_weighted_index(&mut seed, &vec![0, 0]), 0);
}

#[test]
fn realm_weights_favour_low_realms() {
    assert_eq!(realm_weights(1), vec![100]);
    assert_eq!(realm_weights(3), vec![70, 22, 8]);
    assert_eq!(realm_weights(6), vec![68, 20, 8, 1, 1, 1]);
    assert_eq!(realm_weights(4), vec![68, 20, 8, 4]);
    assert_eq!(realm_weights(5), vec![68, 20, 8, 2, 1]);
    assert_eq!(level_order(&vec![3, 1, 2, 1]), vec![1, 3, 2, 0]);
}

#[test]
fn random_start_profiles_follow_the_rules() {
    assert!(build_random_start_profile(9, &vec![], 3).is_none());
    for seed in 0..100u64 {
        let p = build_random_start_profile(seed, &vec![2, 1, 3], 4).unwrap();
        assert!(p.realm_index < 3);
        assert!(p.sub_level <= 2);
        assert!(p.max_age >= p.starting_age + 40);
        assert!(p.location_index.unwrap() < 4);
        assert!(p.starting_age >= 15 && p.starting_age <= 27);
    }
    let p = build_random_start_profile(1, &vec![1], 0).unwrap();
    assert_eq!(p.location_index, None);
    assert_eq!(p.realm_index, 0);
}

#[test]
fn high_realm_levels_still_give_a_start() {
    for seed in 0..50u64 {
        let draw = draw_random_start(seed, &vec![268_435_439], 2);
        assert!(!start_lifespan_overflows(&draw));
        let p = build_random_start_profile(seed, &vec![268_435_439], 2).unwrap();
        assert_eq!(p, finish_start(&draw));
        assert!(p.max_age as u64 >= 95 + 268_435_438 * 8);
    }
}

#[test]
fn a_wrapped_realm_bonus_leaves_the_forty_year_floor() {
    for seed in 0..50u64 {
        let levels = vec![300_000_000];
        let draw = draw_random_start(seed, &levels, 0);
        assert!(!start_lifespan_overflows(&draw));
        let p = build_random_start_profile(seed, &levels, 0).unwrap();
        assert_eq!(p.max_age, p.starting_age + 40);
    }
}

#[test]
fn overflowing_lifespans_are_detected() {
    let draw = draw_random_start(7, &vec![600_000_000], 0);
    assert_eq!(draw.realm_level, 600_000_000);
    assert!(start_lifespan_overflows(&draw));
    let near = draw_random_start(7, &vec![268_435_456], 0);
    assert!(start_lifespan_overflows(&near));
}

#[test]
fn imported_locations_have_ids_names_and_descriptions() {
    let names = vec!["Azure Cloud".to_string(), "azure-cloud".to_string(), "青云宗".to_string()];
    let places = imported_locations(&names);
    assert_eq!(places.len(), 3);
    assert_eq!(places[0].id, "azure_cloud");
    assert_eq!(places[1].id, "azure_cloud_2");
    assert_eq!(places[2].id, "location_3");
    assert_eq!(places[2].name, "青云宗");
    assert_eq!(places[2].description, "从小说导入的地点：青云宗");
    let none = imported_locations(&Vec::new());
    assert_eq!(none.len(), 1);
    assert_eq!(none[0].id, "novel_origin");
    assert_eq!(none[0].name, "小说起点");
    assert_eq!(none[0].description, "从小说导入的默认起点");
}

#[test]
fn events_reach_named_known_npcs_or_everyone() {
    let known = vec!["n1".to_string(), "n2".to_string(), "n3".to_string()];
    let named = vec!["n3".to_string(), "ghost".to_string(), "n1".to_string()];
    assert_eq!(affected_npc_ids(&named, &known), vec!["n3".to_string(), "n1".to_string()]);
    assert_eq!(affected_npc_ids(&Vec::new(), &known), known);
    assert!(affected_npc_ids(&vec!["ghost".to_string()], &known).is_empty());
}

#[test]
fn starting_realm_prefers_qi_condensation() {
    let names = |v: &[&str]| v.iter().map(|s| s.to_string()).collect::<Vec<String>>();
    assert_eq!(starting_realm_index(&names(&["筑基", "炼气", "练气"])), Some(1));
    assert_eq!(starting_realm_index(&names(&["Qi Condensation", "Foundation"])), Some(0));
    assert_eq!(starting_realm_index(&names(&["金丹", "练气"])), Some(1));
    assert_eq!(starting_realm_index(&Vec::new()), None);
}

fn memory(ts: u64, event: &str, rank: u32) -> MemoryRecord {
    MemoryRecord { timestamp: ts, event: event.to_string(), rank, importance_bits: rank, impact_bits: 0 }
}

#[test]
fn memories_sort_by_rank_keeping_ties_in_order() {
    let v = vec![memory(1, "a", 2), memory(2, "b", 5), memory(3, "c", 2), memory(4, "d", 9)];
    let events: Vec<String> = sort_by_rank_desc(&v).into_iter().map(|m| m.event).collect();
    assert_eq!(events, vec!["d", "b", "a", "c"]);
}

#[test]
fn repeated_memories_are_dropped_after_the_first() {
    let v = vec![memory(1, "a", 9), memory(1, "a", 5), memory(2, "a", 4), memory(1, "a", 3)];
    let kept: Vec<(u64, u32)> = dedup_memories(&v).into_iter().map(|m| (m.timestamp, m.rank)).collect();
    assert_eq!(kept, vec![(1, 9), (2, 4), (1, 3)]);
}

#[test]
fn test_add_memory_and_compress() {
    let manager = MemoryManager::new(2, 2);
    let mut mem = NPCMemory::new();
    manager.add_memory(&mut mem, memory(1, "small event", 20), false);
    manager.add_memory(&mut mem, memory(2, "important event", 90), true);
    manager.add_memory(&mut mem, memory(3, "another event", 70), false);
    assert!(mem.short_term.len() <= 2);
    assert!(!mem.important_events.is_empty());
    let short: Vec<&str> = mem.short_term.iter().map(|m| m.event.as_str()).collect();
    assert_eq!(short, vec!["important event", "another event"]);
    let long: Vec<&str> = mem.long_term.iter().map(|m| m.event.as_str()).collect();
    assert_eq!(long, vec!["important event", "small event"]);
}

#[test]
fn important_memory_persists_and_low_memory_moves_out() {
    let manager = MemoryManager::new(2, 2);
    let mut mem = NPCMemory::new();
    manager.add_memory(&mut mem, memory(1, "high-a", 90), true);
    manager.add_memory(&mut mem, memory(2, "high-b", 85), true);
    manager.add_memory(&mut mem, memory(3, "low-c", 10), false);
    assert_eq!(mem.short_term.len(), 2);
    assert!(mem.short_term.iter().all(|m| m.event != "low-c"));
    assert!(mem.important_events.iter().any(|m| m.timestamp == 1 && m.event == "high-a"));
    assert!(mem.important_events.iter().any(|m| m.timestamp == 2 && m.event == "high-b"));
    let zero = MemoryManager::new(0, 0);
    let mut one = NPCMemory::new();
    zero.add_memory(&mut one, memory(5, "x", 1), false);
    assert_eq!(one.short_term.len(), 1);
}

#[test]
fn slot_files_read_back_as_their_slots() {
    let system = SaveLoadSystem::with_directory("/tmp/saves".to_string());
    for slot in [0u32, 1, 7, 42, 4294967295] {
        let path = system.get_save_path(slot);
        let name = path.rsplit('/').next().unwrap().to_string();
        assert_eq!(name, format!("save_{}.json", slot));
        assert_eq!(slot_from_file_name(&name), Some(slot));
    }
    assert_ne!(system.get_save_path(1), system.get_save_path(11));
    assert_eq!(slot_from_file_name("save_4294967296.json"), None);
    assert_eq!(slot_from_file_name("save_+3.json"), Some(3));
}

#[test]
fn test_npc_memory_default() {
    let memory = NPCMemory::default();
    assert!(memory.short_term.is_empty());
    assert!(memory.long_term.is_empty());
    assert!(memory.important_events.is_empty());
}
