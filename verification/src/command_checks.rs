//! Checks made on the arguments of user commands before any work is done:
//! save slots must be in range, and files must have the expected type.
use crate::text::{ascii_lower_spec, chars_of, is_blank, occurs_at_exec, to_ascii_lowercase, trim, trim_spec};
use vstd::prelude::*;

verus! {

/// The first usable save slot.
pub const MIN_SLOT_ID: u32 = 1;

/// The last usable save slot.
pub const MAX_SLOT_ID: u32 = 99;

/// Why a save slot cannot be used.
pub open spec fn slot_check(slot_id: u32) -> Result<(), Seq<char>> {
    if MIN_SLOT_ID <= slot_id && slot_id <= MAX_SLOT_ID {
        Ok(())
    } else {
        Err("存档槽位必须在 1 到 99 之间"@)
    }
}

/// Checks that a save slot is in range.
pub fn validate_slot_id(slot_id: u32) -> (r: Result<(), String>)
    ensures
        match (r, slot_check(slot_id)) {
            (Ok(()), Ok(())) => true,
            (Err(m), Err(e)) => m@ == e,
            _ => false,
        },
{
    if MIN_SLOT_ID <= slot_id && slot_id <= MAX_SLOT_ID {
        Ok(())
    } else {
        Err("存档槽位必须在 1 到 99 之间".to_string())
    }
}

/// `s` ends with `suffix`.
pub open spec fn ends_with_spec(s: Seq<char>, suffix: Seq<char>) -> bool {
    s.len() >= suffix.len() && s.subrange(s.len() - suffix.len(), s.len() as int) == suffix
}

/// The path, trimmed and in ASCII lower case, ends with `ext`.
pub open spec fn has_extension(path: Seq<char>, ext: Seq<char>) -> bool {
    ends_with_spec(ascii_lower_spec(trim_spec(path)), ext)
}

/// Whether `s` ends with `suffix`.
fn ends_with_exec(s: &str, suffix: &str) -> (r: bool)
    ensures
        r == ends_with_spec(s@, suffix@),
{
    let v = chars_of(s);
    let w = chars_of(suffix);
    if v.len() < w.len() {
        return false;
    }
    let start = v.len() - w.len();
    let r = occurs_at_exec(&v, &w, start);
    proof {
        if r {
            assert(v@.subrange(start as int, v@.len() as int) =~= w@);
        } else {
            if v@.subrange(start as int, v@.len() as int) == w@ {
                assert(crate::text::occurs_at(v@, w@, start as int));
            }
        }
    }
    r
}

/// Whether the trimmed, lower-cased path ends with `ext`.
fn has_extension_exec(path: &str, ext: &str) -> (r: bool)
    ensures
        r == has_extension(path@, ext@),
{
    let t = trim(path);
    let lower = to_ascii_lowercase(t.as_str());
    ends_with_exec(lower.as_str(), ext)
}

/// Why a script file cannot be loaded: the path must not be blank and must
/// name a `.json` file.
pub open spec fn script_path_check(path: Seq<char>) -> Result<(), Seq<char>> {
    if trim_spec(path).len() == 0 {
        Err("文件路径不能为空"@)
    } else if !has_extension(path, ".json"@) {
        Err("剧本文件必须是 .json 文件"@)
    } else {
        Ok(())
    }
}

/// Why a novel file cannot be read: the path must not be blank and must
/// name a `.txt` or `.md` file.
pub open spec fn novel_path_check(path: Seq<char>) -> Result<(), Seq<char>> {
    if trim_spec(path).len() == 0 {
        Err("文件路径不能为空"@)
    } else if !has_extension(path, ".txt"@) && !has_extension(path, ".md"@) {
        Err("小说文件必须是 .txt 或 .md 文件"@)
    } else {
        Ok(())
    }
}

/// Why a novel cannot be exported to a path: the path must not be blank and
/// must name a `.txt` file.
pub open spec fn export_path_check(path: Seq<char>) -> Result<(), Seq<char>> {
    if trim_spec(path).len() == 0 {
        Err("文件路径不能为空"@)
    } else if !has_extension(path, ".txt"@) {
        Err("导出文件必须是 .txt 文件"@)
    } else {
        Ok(())
    }
}

/// Checks the path of a script file.
pub fn validate_script_path(path: &str) -> (r: Result<(), String>)
    ensures
        match (r, script_path_check(path@)) {
            (Ok(()), Ok(())) => true,
            (Err(m), Err(e)) => m@ == e,
            _ => false,
        },
{
    if is_blank(path) {
        return Err("文件路径不能为空".to_string());
    }
    if !has_extension_exec(path, ".json") {
        return Err("剧本文件必须是 .json 文件".to_string());
    }
    Ok(())
}

/// Checks the path of a novel file.
pub fn validate_novel_path(path: &str) -> (r: Result<(), String>)
    ensures
        match (r, novel_path_check(path@)) {
            (Ok(()), Ok(())) => true,
            (Err(m), Err(e)) => m@ == e,
            _ => false,
        },
{
    if is_blank(path) {
        return Err("文件路径不能为空".to_string());
    }
    if !has_extension_exec(path, ".txt") && !has_extension_exec(path, ".md") {
        return Err("小说文件必须是 .txt 或 .md 文件".to_string());
    }
    Ok(())
}

/// Checks the path a novel is exported to.
pub fn validate_export_path(path: &str) -> (r: Result<(), String>)
    ensures
        match (r, export_path_check(path@)) {
            (Ok(()), Ok(())) => true,
            (Err(m), Err(e)) => m@ == e,
            _ => false,
        },
{
    if is_blank(path) {
        return Err("文件路径不能为空".to_string());
    }
    if !has_extension_exec(path, ".txt") {
        return Err("导出文件必须是 .txt 文件".to_string());
    }
    Ok(())
}

} // verus!
