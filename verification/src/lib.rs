//! Core rules of a text-based cultivation adventure: event history,
//! game time, prompt construction, response checking, plot progression,
//! NPC reactions and the numerical rules that decide action outcomes.
pub mod text;


pub mod app_error;
pub mod event_log;
pub mod game_state;
pub mod models;
pub mod llm_service;
pub mod prompt_builder;
pub mod response_validator;
pub mod numerical_system;
pub mod plot_engine;
pub mod save_load;
pub mod npc;
pub mod memory;
pub mod plot_llm;
pub mod plot_requests;
pub mod novel_parser;
pub mod novel_generator;
pub mod script;
pub mod script_manager;
pub mod game_engine;
pub mod command_checks;
