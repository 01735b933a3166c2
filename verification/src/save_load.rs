//! Save slots: where a slot's file lives, which files are save files, what a
//! save must hold to be accepted, and how the list of saves is ordered.
use crate::text::{
    append_str, chars_of, decimal, decimal_string, lemma_decimal_reads_back, parse_unsigned,
    parse_unsigned_exec, starts_with, starts_with_spec, string_from_chars, unsigned_body, opt_view,
};
use vstd::prelude::*;

verus! {

broadcast use vstd::seq_lib::group_seq_lib_default, vstd::seq_lib::group_filter_ensures;

/// `base` with the relative component `comp` appended, as a path push does:
/// a separator is added unless `base` is empty or already ends with one.
pub open spec fn join_path(base: Seq<char>, comp: Seq<char>) -> Seq<char> {
    if base.len() == 0 {
        comp
    } else if base.last() == '/' {
        base + comp
    } else {
        base + "/"@ + comp
    }
}

/// Appends the relative component `comp` to the path `base`.
pub fn push_path(base: &mut String, comp: &str)
    ensures
        final(base)@ == join_path(old(base)@, comp@),
{
    let v = chars_of(base.as_str());
    if v.len() > 0 && v[v.len() - 1] != '/' {
        append_str(base, "/");
        proof {
            reveal_strlit("/");
        }
    }
    append_str(base, comp);
}

/// The operating systems with a user data directory of their own.
#[derive(Debug, Clone, Copy, PartialEq, Eq, Structural)]
pub enum Platform {
    Linux,
    MacOs,
    Windows,
}

/// The user data directory of a platform: `<home>/.local/share` on Linux,
/// `<home>/Library/Application Support` on macOS, `%APPDATA%` on Windows;
/// the current directory when the variable it is built from is unknown.
pub open spec fn user_data_directory(
    platform: Platform,
    home: Option<Seq<char>>,
    appdata: Option<Seq<char>>,
) -> Seq<char> {
    match platform {
        Platform::Linux => match home {
            Some(h) => join_path(join_path(h, ".local"@), "share"@),
            None => "."@,
        },
        Platform::MacOs => match home {
            Some(h) => join_path(join_path(h, "Library"@), "Application Support"@),
            None => "."@,
        },
        Platform::Windows => match appdata {
            Some(a) => a,
            None => "."@,
        },
    }
}

/// The default save directory: `nobody/saves` in the platform's user data
/// directory.
pub open spec fn default_save_directory(
    platform: Platform,
    home: Option<Seq<char>>,
    appdata: Option<Seq<char>>,
) -> Seq<char> {
    join_path(join_path(user_data_directory(platform, home, appdata), "nobody"@), "saves"@)
}

/// The file name of a slot: `save_<slot>.json`.
pub open spec fn slot_file_name(slot_id: u32) -> Seq<char> {
    "save_"@ + decimal(slot_id as nat) + ".json"@
}

/// The slot a directory entry's file name stands for: the name is
/// `<stem>.json`, the stem is `save_` followed by a number that parses as a
/// `u32`. Anything else is not a save file.
pub open spec fn slot_of_file_name(name: Seq<char>) -> Option<u32> {
    let stem = name.subrange(0, name.len() - 5);
    if name.len() > 5 && name.subrange(name.len() - 5, name.len() as int) == ".json"@
        && starts_with_spec(stem, "save_"@) {
        match parse_unsigned(stem.subrange(5, stem.len() as int), 4294967295) {
            Some(v) => Some(v as u32),
            None => None,
        }
    } else {
        None
    }
}

/// The file a slot is saved to is read back as that slot when the saves are
/// listed.
pub proof fn slot_file_name_reads_back(slot: u32)
    ensures
        slot_of_file_name(slot_file_name(slot)) == Some(slot),
{
    reveal_strlit("save_");
    reveal_strlit(".json");
    let d = decimal(slot as nat);
    lemma_decimal_reads_back(slot as nat);
    let name = slot_file_name(slot);
    assert(name.subrange(name.len() - 5, name.len() as int) =~= ".json"@);
    let stem = name.subrange(0, name.len() - 5);
    assert(stem =~= "save_"@ + d);
    assert(stem.subrange(0, 5) =~= "save_"@);
    assert(starts_with_spec(stem, "save_"@));
    assert(stem.subrange(5, stem.len() as int) =~= d);
    assert(unsigned_body(d) == d);
}

/// Different slots are saved to different files, in any directory.
pub proof fn slots_are_saved_apart(directory: Seq<char>, a: u32, b: u32)
    requires
        a != b,
    ensures
        slot_file_name(a) != slot_file_name(b),
        join_path(directory, slot_file_name(a)) != join_path(directory, slot_file_name(b)),
{
    slot_file_name_reads_back(a);
    slot_file_name_reads_back(b);
    let pre = if directory.len() == 0 {
        Seq::<char>::empty()
    } else if directory.last() == '/' {
        directory
    } else {
        directory + "/"@
    };
    let fa = slot_file_name(a);
    let fb = slot_file_name(b);
    assert(join_path(directory, fa) =~= pre + fa);
    assert(join_path(directory, fb) =~= pre + fb);
    if join_path(directory, fa) == join_path(directory, fb) {
        assert((pre + fa).subrange(pre.len() as int, (pre + fa).len() as int) =~= fa);
        assert((pre + fb).subrange(pre.len() as int, (pre + fb).len() as int) =~= fb);
    }
}

/// Summary of one save file, as listed to the player.
#[derive(Debug, Clone, PartialEq, Eq)]
pub struct SaveInfo {
    pub slot_id: u32,
    pub version: String,
    pub timestamp: u64,
    pub player_name: String,
    pub player_age: u32,
    pub game_time: String,
}

impl SaveInfo {
    /// A field-by-field copy.
    pub fn duplicate(&self) -> (r: SaveInfo)
        ensures
            r == *self,
    {
        SaveInfo {
            slot_id: self.slot_id,
            version: self.version.clone(),
            timestamp: self.timestamp,
            player_name: self.player_name.clone(),
            player_age: self.player_age,
            game_time: self.game_time.clone(),
        }
    }
}

/// The in-game date as shown in a save listing.
pub open spec fn game_time_label_spec(year: u32, month: u32, day: u32) -> Seq<char> {
    "第 "@ + decimal(year as nat) + " 年，第 "@ + decimal(month as nat) + " 月，第 "@ + decimal(
        day as nat,
    ) + " 日"@
}

/// The in-game date as shown in a save listing.
pub fn game_time_label(year: u32, month: u32, day: u32) -> (s: String)
    ensures
        s@ == game_time_label_spec(year, month, day),
{
    let mut s = "第 ".to_string();
    append_str(&mut s, decimal_string(year as u64).as_str());
    append_str(&mut s, " 年，第 ");
    append_str(&mut s, decimal_string(month as u64).as_str());
    append_str(&mut s, " 月，第 ");
    append_str(&mut s, decimal_string(day as u64).as_str());
    append_str(&mut s, " 日");
    s
}

/// Why a save was refused.
pub open spec fn save_check(version: Seq<char>, timestamp: u64, player_name: Seq<char>) -> Result<
    (),
    Seq<char>,
> {
    if version.len() == 0 {
        Err("存档数据版本为空"@)
    } else if !starts_with_spec(version, "1."@) {
        Err("不兼容的存档版本: "@ + version + "。期望版本 1.x"@)
    } else if timestamp == 0 {
        Err("存档数据中的时间戳无效"@)
    } else if player_name.len() == 0 {
        Err("存档数据中的玩家名称为空"@)
    } else {
        Ok(())
    }
}

/// A save written by this version (`1.0.0`) is accepted when it is read
/// back, as long as it was stamped with a time and its player has a name.
pub proof fn saves_of_this_version_are_accepted(timestamp: u64, player_name: Seq<char>)
    requires
        timestamp > 0,
        player_name.len() > 0,
    ensures
        save_check("1.0.0"@, timestamp, player_name) is Ok,
{
    reveal_strlit("1.0.0");
    reveal_strlit("1.");
    assert("1.0.0"@.subrange(0, 2) =~= "1."@);
}

/// `s` is ordered by slot.
pub open spec fn sorted_by_slot(s: Seq<SaveInfo>) -> bool {
    forall|i: int, j: int| 0 <= i < j < s.len() ==> #[trigger] s[i].slot_id <= #[trigger] s[j].slot_id
}

/// The saves of `s` in a given slot.
pub open spec fn in_slot(s: Seq<SaveInfo>, slot: u32) -> Seq<SaveInfo> {
    s.filter(|x: SaveInfo| x.slot_id == slot)
}

/// The persistence settings: where save files are kept.
pub struct SaveLoadSystem {
    save_directory: String,
}

impl SaveLoadSystem {
    /// The system over the default directory of the platform, given the
    /// user's home directory and, on Windows, `%APPDATA%`, when they are known.
    pub fn new(platform: Platform, home: Option<String>, appdata: Option<String>) -> (s:
        SaveLoadSystem)
        ensures
            s.directory() == default_save_directory(platform, opt_view(home), opt_view(appdata)),
    {
        let mut dir = match platform {
            Platform::Linux => match home {
                Some(h) => {
                    let mut d = h;
                    push_path(&mut d, ".local");
                    push_path(&mut d, "share");
                    d
                },
                None => ".".to_string(),
            },
            Platform::MacOs => match home {
                Some(h) => {
                    let mut d = h;
                    push_path(&mut d, "Library");
                    push_path(&mut d, "Application Support");
                    d
                },
                None => ".".to_string(),
            },
            Platform::Windows => match appdata {
                Some(a) => a,
                None => ".".to_string(),
            },
        };
        push_path(&mut dir, "nobody");
        push_path(&mut dir, "saves");
        SaveLoadSystem { save_directory: dir }
    }

    /// The system over a directory of the caller's choice.
    pub fn with_directory(directory: String) -> (s: SaveLoadSystem)
        ensures
            s.directory() == directory@,
    {
        SaveLoadSystem { save_directory: directory }
    }

    /// The save directory.
    pub closed spec fn directory(&self) -> Seq<char> {
        self.save_directory@
    }

    /// The save directory.
    pub fn save_directory(&self) -> (d: &String)
        ensures
            d@ == self.directory(),
    {
        &self.save_directory
    }

    /// The path of a slot's save file.
    pub fn get_save_path(&self, slot_id: u32) -> (p: String)
        ensures
            p@ == join_path(self.directory(), slot_file_name(slot_id)),
    {
        let mut name = "save_".to_string();
        append_str(&mut name, decimal_string(slot_id as u64).as_str());
        append_str(&mut name, ".json");
        let mut p = self.save_directory.clone();
        push_path(&mut p, name.as_str());
        p
    }

    /// Checks the fields a save must have: a version, of the 1.x line, a
    /// non-zero timestamp and a player name.
    pub fn validate_save_fields(&self, version: &str, timestamp: u64, player_name: &str) -> (r:
        Result<(), String>)
        ensures
            match (r, save_check(version@, timestamp, player_name@)) {
                (Ok(()), Ok(())) => true,
                (Err(m), Err(e)) => m@ == e,
                _ => false,
            },
    {
        if version.is_empty() {
            return Err("存档数据版本为空".to_string());
        }
        if !starts_with(version, "1.") {
            let mut m = "不兼容的存档版本: ".to_string();
            append_str(&mut m, version);
            append_str(&mut m, "。期望版本 1.x");
            return Err(m);
        }
        if timestamp == 0 {
            return Err("存档数据中的时间戳无效".to_string());
        }
        if player_name.is_empty() {
            return Err("存档数据中的玩家名称为空".to_string());
        }
        Ok(())
    }
}

/// The slot a save file's name stands for, if it is one.
pub fn slot_from_file_name(name: &str) -> (r: Option<u32>)
    ensures
        r == slot_of_file_name(name@),
{
    let v = chars_of(name);
    let n = v.len();
    if n <= 5 {
        return None;
    }
    let ext = string_from_chars(&v.as_slice()[n - 5..n]);
    proof {
        reveal_strlit(".json");
        assert(v@.subrange(n - 5, n as int) == ext@);
    }
    if !crate::text::str_eq(ext.as_str(), ".json") {
        return None;
    }
    let stem = string_from_chars(&v.as_slice()[0..n - 5]);
    if !starts_with(stem.as_str(), "save_") {
        return None;
    }
    proof {
        reveal_strlit("save_");
    }
    let digits = string_from_chars(&v.as_slice()[5..n - 5]);
    assert(digits@ =~= stem@.subrange(5, stem@.len() as int));
    match parse_unsigned_exec(digits.as_str(), 4294967295) {
        Some(x) => Some(x as u32),
        None => None,
    }
}

/// A listing entry for a save.
pub fn save_info(
    slot_id: u32,
    version: String,
    timestamp: u64,
    player_name: String,
    player_age: u32,
    year: u32,
    month: u32,
    day: u32,
) -> (s: SaveInfo)
    ensures
        s.slot_id == slot_id,
        s.version == version,
        s.timestamp == timestamp,
        s.player_name == player_name,
        s.player_age == player_age,
        s.game_time@ == game_time_label_spec(year, month, day),
{
    SaveInfo {
        slot_id,
        version,
        timestamp,
        player_name,
        player_age,
        game_time: game_time_label(year, month, day),
    }
}

/// No save of `s` is in the slot, so none is selected for it.
proof fn lemma_none_in_slot(s: Seq<SaveInfo>, slot: u32)
    requires
        forall|i: int| 0 <= i < s.len() ==> #[trigger] s[i].slot_id != slot,
    ensures
        in_slot(s, slot) == Seq::<SaveInfo>::empty(),
{
    let pred = |x: SaveInfo| x.slot_id == slot;
    s.lemma_all_neg_filter_empty(pred);
}

/// Orders save listings by slot, keeping the order of saves in the same slot.
pub fn sort_saves(saves: Vec<SaveInfo>) -> (r: Vec<SaveInfo>)
    ensures
        sorted_by_slot(r@),
        forall|slot: u32| #[trigger] in_slot(r@, slot) == in_slot(saves@, slot),
{
    let mut res: Vec<SaveInfo> = Vec::new();
    let mut i: usize = 0;
    while i < saves.len()
        invariant
            i <= saves@.len(),
            sorted_by_slot(res@),
            forall|slot: u32| #[trigger] in_slot(res@, slot) == in_slot(saves@.take(i as int), slot),
        decreases saves@.len() - i,
    {
        let e = saves[i].duplicate();
        let mut p: usize = 0;
        while p < res.len() && res[p].slot_id <= e.slot_id
            invariant
                p <= res@.len(),
                forall|k: int| 0 <= k < p ==> #[trigger] res@[k].slot_id <= e.slot_id,
            decreases res@.len() - p,
        {
            p = p + 1;
        }
        let ghost old_res = res@;
        proof {
            assert forall|k: int| p <= k < old_res.len() implies #[trigger] old_res[k].slot_id
                > e.slot_id by {
                if p < old_res.len() {
                    assert(old_res[p as int].slot_id <= old_res[k].slot_id);
                }
            }
        }
        res.insert(p, e);
        proof {
            let pre = old_res.subrange(0, p as int);
            let post = old_res.subrange(p as int, old_res.len() as int);
            assert(old_res =~= pre + post);
            assert(res@ =~= pre + seq![e] + post);
            assert forall|a: int, b: int| 0 <= a < b < res@.len() implies #[trigger] res@[a].slot_id
                <= #[trigger] res@[b].slot_id by {
                if b < p {
                } else if b == p {
                    assert(res@[a] == old_res[a]);
                } else if a < p {
                    assert(res@[b] == old_res[b - 1]);
                    assert(old_res[b - 1].slot_id > e.slot_id);
                } else if a == p {
                    assert(res@[b] == old_res[b - 1]);
                    assert(old_res[b - 1].slot_id > e.slot_id);
                } else {
                    assert(res@[a] == old_res[a - 1]);
                    assert(res@[b] == old_res[b - 1]);
                }
            }
            let taken = saves@.take(i as int);
            assert(saves@.take(i + 1) =~= taken.push(e));
            assert forall|slot: u32| #[trigger] in_slot(res@, slot) == in_slot(
                saves@.take(i + 1),
                slot,
            ) by {
                let pred = |x: SaveInfo| x.slot_id == slot;
                vstd::seq::Seq::filter_distributes_over_add(pre + seq![e], post, pred);
                vstd::seq::Seq::filter_distributes_over_add(pre, seq![e], pred);
                vstd::seq::Seq::filter_distributes_over_add(pre, post, pred);
                taken.lemma_filter_push(e, pred);
                assert(in_slot(old_res, slot) == in_slot(taken, slot));
                if pred(e) {
                    assert forall|k: int| 0 <= k < post.len() implies #[trigger] post[k].slot_id
                        != slot by {
                        assert(post[k] == old_res[k + p]);
                    }
                    lemma_none_in_slot(post, slot);
                    assert(seq![e].filter(pred) =~= seq![e]) by {
                        Seq::<SaveInfo>::empty().lemma_filter_push(e, pred);
                        assert(Seq::<SaveInfo>::empty().push(e) =~= seq![e]);
                        reveal(Seq::filter);
                    }
                } else {
                    assert(seq![e].filter(pred) =~= Seq::<SaveInfo>::empty()) by {
                        Seq::<SaveInfo>::empty().lemma_filter_push(e, pred);
                        assert(Seq::<SaveInfo>::empty().push(e) =~= seq![e]);
                        reveal(Seq::filter);
                    }
                }
            }
        }
        i = i + 1;
    }
    assert(saves@.take(saves@.len() as int) =~= saves@);
    res
}

} // verus!
