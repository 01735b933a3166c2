use nobody::app_error::{AppError, AppErrorKind, ErrorResponse};
use nobody::event_log::{
    game_start_note, load_note, reaction_note, save_note, EventFilter, EventImportance, EventLog,
    GameEvent,
};
use nobody::game_state::GameTime;
use nobody::llm_service::LLMServiceError;
use nobody::models::{sub_level_name, Lifespan};
use nobody::numerical_system::{Action, ActorSnapshot, Context, NumericalSystem};
use nobody::save_load::{Platform, SaveLoadSystem};

#[test]
fn test_with_context() {
    let err = AppError::new(AppErrorKind::InvalidInput, "missing field").with_context("load script");
    assert!(err.to_string().contains("load script"));
    assert!(err.to_string().contains("missing field"));
}

#[test]
fn test_llm_error_conversion() {
    let err = LLMServiceError::Timeout;
    let app_err = AppError::from_llm_error(err);
    assert_eq!(app_err.kind, AppErrorKind::Llm);
}

#[test]
fn with_context_on_empty_message_is_the_context() {
    let err = AppError::new(AppErrorKind::Io, "").with_context("save game");
    assert_eq!(err.message, "save game");
    let err = AppError::new(AppErrorKind::Io, "disk full").with_context("save game");
    assert_eq!(err.message, "save game: disk full");
    assert_eq!(err.kind, AppErrorKind::Io);
}

#[test]
fn llm_error_text_is_carried() {
    let app_err = AppError::from_llm_error(LLMServiceError::Api("status=500 body=x".to_string()));
    assert_eq!(app_err.message, "llm api returned error: status=500 body=x");
    let app_err = AppError::from_llm_error(LLMServiceError::Timeout);
    assert_eq!(app_err.message, "llm request timed out");
}

#[test]
fn anyhow_error_becomes_unknown() {
    let app_err = AppError::from_anyhow(anyhow::Error::msg("boom"));
    assert_eq!(app_err.kind, AppErrorKind::Unknown);
    assert_eq!(app_err.message, "boom");
}

#[test]
fn test_error_response_conversion() {
    let error = anyhow::Error::msg("Test error");
    let response = ErrorResponse::from(error);
    assert_eq!(response.error, "Test error");
}

#[test]
fn test_log_event_records_data() {
    let mut log = EventLog::new();
    let event = log.log_event(
        10,
        "combat",
        "Player defeated a rogue cultivator",
        EventImportance::Important,
    );

    assert_eq!(event.id, 1);
    assert_eq!(event.timestamp, 10);
    assert_eq!(event.event_type, "combat");
    assert_eq!(event.importance, EventImportance::Important);
    assert_eq!(log.len(), 1);
}

#[test]
fn test_query_events_with_filters() {
    let mut log = EventLog::new();
    log.log_event(1, "cultivation", "daily training", EventImportance::Normal);
    log.log_event(2, "combat", "sect duel", EventImportance::Important);
    log.log_event(3, "dialogue", "met elder", EventImportance::Normal);

    let combat_only = log.query_events(&EventFilter {
        event_type: Some("combat".to_string()),
        ..EventFilter::default()
    });
    assert_eq!(combat_only.len(), 1);
    assert_eq!(combat_only[0].event_type, "combat");

    let important_only = log.important_events();
    assert_eq!(important_only.len(), 1);
    assert_eq!(important_only[0].importance, EventImportance::Important);

    let ranged = log.query_events(&EventFilter {
        from_timestamp: Some(2),
        to_timestamp: Some(3),
        ..EventFilter::default()
    });
    assert_eq!(ranged.len(), 2);
}

#[test]
fn logging_important_events_keeps_them_all() {
    let mut log = EventLog::new();
    let mut expected = 0;
    for i in 0..30u64 {
        let important = i % 3 == 0;
        if important {
            expected += 1;
        }
        let imp = if important { EventImportance::Important } else { EventImportance::Normal };
        let e = log.log_event(i, "type", "event", imp);
        assert_eq!(e.id, i + 1);
    }
    let important = log.important_events();
    assert_eq!(important.len(), expected);
    assert!(important.iter().all(|e| e.importance == EventImportance::Important));
    assert!(!log.is_empty());
}

#[test]
fn from_events_orders_by_time_then_id() {
    let mut log = EventLog::new();
    log.log_event(5, "a", "late", EventImportance::Normal);
    log.log_event(1, "b", "early", EventImportance::Normal);
    log.log_event(5, "c", "late too", EventImportance::Normal);
    let events = log.all_events().to_vec();
    let rebuilt = EventLog::from_events(events);
    let ordered: Vec<(u64, u64)> = rebuilt.all_events().iter().map(|e| (e.timestamp, e.id)).collect();
    assert_eq!(ordered, vec![(1, 2), (5, 1), (5, 3)]);
}

#[test]
fn logged_id_follows_the_largest_id_held() {
    let events = vec![
        GameEvent {
            id: 3,
            timestamp: 10,
            event_type: "a".to_string(),
            description: "x".to_string(),
            importance: EventImportance::Normal,
        },
        GameEvent {
            id: 7,
            timestamp: 2,
            event_type: "b".to_string(),
            description: "y".to_string(),
            importance: EventImportance::Important,
        },
        GameEvent {
            id: 5,
            timestamp: 4,
            event_type: "c".to_string(),
            description: "z".to_string(),
            importance: EventImportance::Normal,
        },
    ];
    let mut log = EventLog::from_events(events);
    let e = log.log_event(11, "d", "w", EventImportance::Normal);
    assert_eq!(e.id, 8);
    assert_eq!(log.len(), 4);
    assert_eq!(log.all_events()[3].id, 8);
}

#[test]
fn test_game_time_creation() {
    let time = GameTime::new(1, 1, 1);
    assert_eq!(time.year, 1);
    assert_eq!(time.month, 1);
    assert_eq!(time.day, 1);
    assert_eq!(time.total_days, 1);
}

#[test]
fn test_game_time_advance() {
    let mut time = GameTime::new(1, 1, 1);
    time.advance_days(10);
    assert_eq!(time.day, 11);
    assert_eq!(time.total_days, 11);
}

#[test]
fn test_game_time_advance_month() {
    let mut time = GameTime::new(1, 1, 1);
    time.advance_days(30);
    assert_eq!(time.month, 2);
    assert_eq!(time.day, 1);
}

#[test]
fn test_game_time_advance_year() {
    let mut time = GameTime::new(1, 1, 1);
    time.advance_days(360);
    assert_eq!(time.year, 2);
    assert_eq!(time.month, 1);
    assert_eq!(time.day, 1);
}

#[test]
fn game_time_keeps_its_calendar_over_long_spans() {
    let mut time = GameTime::new(3, 12, 30);
    assert_eq!(time.total_days, 2 * 360 + 11 * 30 + 30);
    time.advance_days(1);
    assert_eq!((time.year, time.month, time.day), (4, 1, 1));
    time.advance_days(725);
    assert_eq!((time.year, time.month, time.day), (6, 1, 6));
    assert_eq!(time.total_days, (time.year - 1) * 360 + (time.month - 1) * 30 + time.day);
}

#[test]
fn test_save_load_system_creation() {
    let system = SaveLoadSystem::new(Platform::Linux, None, None);
    assert!(system.save_directory().contains("saves"));
}

#[test]
fn save_directory_is_the_user_data_directory() {
    let home = Some("/home/lin".to_string());
    let system = SaveLoadSystem::new(Platform::Linux, home.clone(), None);
    assert_eq!(system.save_directory(), "/home/lin/.local/share/nobody/saves");
    let system = SaveLoadSystem::new(Platform::Linux, Some("/home/lin/".to_string()), None);
    assert_eq!(system.save_directory(), "/home/lin/.local/share/nobody/saves");
    let system = SaveLoadSystem::new(Platform::MacOs, Some("/Users/lin".to_string()), None);
    assert_eq!(system.save_directory(), "/Users/lin/Library/Application Support/nobody/saves");
    let system = SaveLoadSystem::new(Platform::Windows, home, Some("C:/Users/lin/AppData/Roaming".to_string()));
    assert_eq!(system.save_directory(), "C:/Users/lin/AppData/Roaming/nobody/saves");
    let system = SaveLoadSystem::new(Platform::Linux, None, None);
    assert_eq!(system.save_directory(), "./nobody/saves");
    assert_eq!(system.get_save_path(7), "./nobody/saves/save_7.json");
}

#[test]
fn test_lifespan_is_alive() {
    let lifespan = Lifespan::new(50, 100, 50);
    assert!(lifespan.is_alive());
    assert_eq!(lifespan.total_max_age(), 150);
    assert_eq!(lifespan.remaining_years(), 100);
}

#[test]
fn test_lifespan_dead() {
    let lifespan = Lifespan::new(150, 100, 50);
    assert!(!lifespan.is_alive());
    assert_eq!(lifespan.remaining_years(), 0);
}

#[test]
fn test_cultivation_realm_sub_level_name() {
    assert_eq!(sub_level_name(0), "初期");
    assert_eq!(sub_level_name(3), "圆满期");
}

#[test]
fn sub_level_names_cover_every_stage() {
    assert_eq!(sub_level_name(1), "中期");
    assert_eq!(sub_level_name(2), "后期");
    assert_eq!(sub_level_name(9), "未知");
}

fn test_actor() -> ActorSnapshot {
    ActorSnapshot {
        realm_name: "Qi Condensation".to_string(),
        realm_level: 1,
        sub_level: 0,
        combat_power: 1000,
        cultivation_progress: "0.0".to_string(),
        breakthrough_ready: false,
    }
}

#[test]
fn test_calculate_action_result_cultivate() {
    let system = NumericalSystem::new();
    let actor = test_actor();
    let context = Context {
        location: "Cave".to_string(),
        time_of_day: "Night".to_string(),
        weather: None,
    };

    let result = system.calculate_action_result(&actor, &Action::Cultivate, &context);
    assert!(result.success);
    assert!(result.description.contains("Cultivated successfully"));
}

#[test]
fn test_validate_realm_breakthrough_same_level() {
    let system = NumericalSystem::new();
    assert!(system.validate_realm_breakthrough(1, 0, 1, 1));
    assert!(!system.validate_realm_breakthrough(1, 0, 1, 2));
}

#[test]
fn test_validate_realm_breakthrough_next_level() {
    let system = NumericalSystem::new();
    assert!(system.validate_realm_breakthrough(1, 3, 2, 0));
}

#[test]
fn test_calculate_combat_outcome() {
    let system = NumericalSystem::new();
    let result = system.calculate_combat_outcome(1000, 100);
    assert_eq!(result.winner_id, "attacker");
    assert!(result.damage_dealt > 0);
}

#[test]
fn combat_damage_is_a_tenth_of_the_gap_and_at_least_one() {
    let system = NumericalSystem::new();
    let result = system.calculate_combat_outcome(1000, 100);
    assert_eq!(result.damage_dealt, 90);
    let result = system.calculate_combat_outcome(100, 1000);
    assert_eq!(result.winner_id, "defender");
    assert_eq!(result.damage_dealt, 90);
    let result = system.calculate_combat_outcome(100, 100);
    assert_eq!(result.damage_dealt, 1);
}

#[test]
fn test_update_lifespan() {
    let system = NumericalSystem::new();
    let mut lifespan = Lifespan::new(20, 100, 50);
    let initial_age = lifespan.current_age;
    system.update_lifespan(&mut lifespan, 10);
    assert_eq!(lifespan.current_age, initial_age + 10);
}

#[test]
fn breakthrough_outcome_follows_readiness() {
    let system = NumericalSystem::new();
    let context = Context { location: "Cave".to_string(), time_of_day: "Day".to_string(), weather: None };
    let mut actor = test_actor();
    let failed = system.calculate_action_result(&actor, &Action::Breakthrough, &context);
    assert!(!failed.success);
    assert_eq!(failed.events, vec!["Breakthrough failed".to_string()]);
    actor.breakthrough_ready = true;
    let ok = system.calculate_action_result(&actor, &Action::Breakthrough, &context);
    assert!(ok.success);
    assert_eq!(ok.description, "Successfully broke through to the next sub-level of Qi Condensation!");
}

#[test]
fn session_notes_name_player_slot_and_reaction() {
    assert_eq!(game_start_note("Test Player"), "已为 Test Player 初始化游戏");
    assert_eq!(save_note(12), "已保存到槽位 12");
    assert_eq!(load_note(3), "已从槽位 3 读取存档");
    assert_eq!(reaction_note("npc_elder_1", "respond"), "npc_elder_1 -> respond");
}
