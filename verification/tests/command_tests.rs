use nobody::command_checks::{
    validate_export_path, validate_novel_path, validate_script_path, validate_slot_id, MAX_SLOT_ID,
    MIN_SLOT_ID,
};

#[test]
fn slots_from_one_to_ninety_nine_are_usable() {
    assert_eq!((MIN_SLOT_ID, MAX_SLOT_ID), (1, 99));
    for slot in [1u32, 2, 50, 98, 99] {
        assert!(validate_slot_id(slot).is_ok());
    }
    for slot in [0u32, 100, u32::MAX] {
        assert_eq!(validate_slot_id(slot).unwrap_err(), "存档槽位必须在 1 到 99 之间");
    }
}

#[test]
fn script_files_must_be_json() {
    assert!(validate_script_path("scripts/world.json").is_ok());
    assert!(validate_script_path("  WORLD.JSON  ").is_ok());
    assert_eq!(validate_script_path("   ").unwrap_err(), "文件路径不能为空");
    assert_eq!(validate_script_path("world.txt").unwrap_err(), "剧本文件必须是 .json 文件");
    assert_eq!(validate_script_path("json").unwrap_err(), "剧本文件必须是 .json 文件");
}

#[test]
fn novel_files_must_be_text_or_markdown() {
    assert!(validate_novel_path("books/凡人.txt").is_ok());
    assert!(validate_novel_path("books/notes.MD").is_ok());
    assert_eq!(validate_novel_path("").unwrap_err(), "文件路径不能为空");
    assert_eq!(validate_novel_path("books/novel.pdf").unwrap_err(), "小说文件必须是 .txt 或 .md 文件");
}

#[test]
fn novels_are_exported_to_text_files() {
    assert!(validate_export_path("out/novel.txt").is_ok());
    assert_eq!(validate_export_path("\t").unwrap_err(), "文件路径不能为空");
    assert_eq!(validate_export_path("out/novel.md").unwrap_err(), "导出文件必须是 .txt 文件");
}
