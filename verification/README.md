# nobody

The rules of a text-based cultivation adventure driven by a language model,
as a library whose behaviour is stated in contracts and proved with Verus.

## Layout

- `src/` — the verified library.
  - `text` — string helpers (trimming, searching, lower-casing, decimals).
  - `event_log`, `game_state`, `models`, `script` — events and the notes
    logged as a game goes on, the game calendar, lifespans and script
    building blocks.
  - `numerical_system` — action outcomes, breakthroughs, combat, ageing.
  - `plot_engine` — scenes, options, action validation, chapter pacing.
  - `prompt_builder`, `plot_requests` — the prompts sent to the model.
  - `response_validator`, `plot_llm`, `llm_service` — reading and checking
    the model's answers, retry decisions and the response cache.
  - `npc`, `memory` — NPC reactions, relationships and memories.
  - `novel_parser`, `novel_generator` — importing novels and writing the
    novel of a game.
  - `save_load`, `script_manager`, `game_engine` — save slots, script checks,
    imported places and random starts.
  - `command_checks` — checks on command arguments (save slots, file types).
  - `app_error` — error values shown to the user.
- `tests/` — tests of the library.
- `app/` — the unverified shell: HTTP calls to the model, files, serializable
  records, values with fractional parts, and the commands the front end calls.
