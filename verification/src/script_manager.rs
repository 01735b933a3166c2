//! Script rules: which scripts are playable, how places imported from a
//! novel get their ids, and how the player's character is chosen.
use crate::plot_llm::{first_occ, last_index_of};
use crate::plot_requests::{
    constraints_are, context_is, no_history, render_request, rendered, rules3, PlotRequest,
};
use crate::prompt_builder::{PromptBuilder, PromptConstraints, PromptContext, PromptTemplate};
use crate::response_validator::ValidationConstraints;
use crate::text::{
    append_str, ascii_lower, char_ascii_lower, char_is_ws, chars_of, decimal, decimal_string,
    digit_char, is_ws, push_char, push_decimal, str_eq, string_from_chars, string_views, trim,
    trim_spec,
};
use vstd::prelude::*;

verus! {

broadcast use vstd::seq_lib::group_seq_lib_default;

// ---------------------------------------------------------------------------
// Playable scripts
// ---------------------------------------------------------------------------
/// Why a script cannot be played, checked in order: it needs a cultivation
/// realm, a location, a starting location among its locations, and a
/// starting age from 10 to 100.
pub open spec fn script_check(
    realm_count: nat,
    location_ids: Seq<Seq<char>>,
    start: Seq<char>,
    age: u32,
) -> Result<(), Seq<char>> {
    if realm_count == 0 {
        Err("Script validation failed: No cultivation realms defined"@)
    } else if location_ids.len() == 0 {
        Err("Script validation failed: No locations defined"@)
    } else if !location_ids.contains(start) {
        Err("Script validation failed: Starting location '"@ + start
            + "' not found in world settings"@)
    } else if age < 10 || age > 100 {
        Err("Script validation failed: Starting age "@ + decimal(age as nat)
            + " is invalid (should be 10-100)"@)
    } else {
        Ok(())
    }
}

/// Whether `v` holds a string equal to `s`.
pub(crate) fn contains_string(v: &Vec<String>, s: &str) -> (r: bool)
    ensures
        r == string_views(v@).contains(s@),
{
    let mut i: usize = 0;
    while i < v.len()
        invariant
            i <= v@.len(),
            forall|k: int| 0 <= k < i ==> v@[k]@ != s@,
        decreases v@.len() - i,
    {
        if str_eq(v[i].as_str(), s) {
            assert(string_views(v@)[i as int] == s@);
            return true;
        }
        i = i + 1;
    }
    proof {
        if string_views(v@).contains(s@) {
            let k = choose|k: int| 0 <= k < string_views(v@).len() && string_views(v@)[k] == s@;
            assert(v@[k]@ == s@);
        }
    }
    false
}

/// Checks that a script can be played.
pub fn validate_script_fields(
    realm_count: usize,
    location_ids: &Vec<String>,
    starting_location: &str,
    starting_age: u32,
) -> (r: Result<(), String>)
    ensures
        match (r, script_check(
            realm_count as nat,
            string_views(location_ids@),
            starting_location@,
            starting_age,
        )) {
            (Ok(()), Ok(())) => true,
            (Err(m), Err(e)) => m@ == e,
            _ => false,
        },
{
    if realm_count == 0 {
        return Err("Script validation failed: No cultivation realms defined".to_string());
    }
    if location_ids.len() == 0 {
        return Err("Script validation failed: No locations defined".to_string());
    }
    if !contains_string(location_ids, starting_location) {
        let mut m = "Script validation failed: Starting location '".to_string();
        append_str(&mut m, starting_location);
        append_str(&mut m, "' not found in world settings");
        return Err(m);
    }
    if starting_age < 10 || starting_age > 100 {
        let mut m = "Script validation failed: Starting age ".to_string();
        push_decimal(&mut m, starting_age as u64);
        append_str(&mut m, " is invalid (should be 10-100)");
        return Err(m);
    }
    Ok(())
}

// ---------------------------------------------------------------------------
// Identifiers
// ---------------------------------------------------------------------------
/// An ASCII letter or digit.
pub open spec fn is_ascii_alnum(c: char) -> bool {
    ('a' <= c && c <= 'z') || ('A' <= c && c <= 'Z') || ('0' <= c && c <= '9')
}

/// The identifier built from `s` from position `i`: letters and digits in
/// lower case; a run of spaces, dashes or underscores becomes one underscore
/// once something has been written; anything else is dropped.
pub open spec fn ident_scan(s: Seq<char>, i: int, out: Seq<char>, last_sep: bool) -> Seq<char>
    decreases s.len() - i,
{
    if i < 0 || i >= s.len() {
        out
    } else {
        let ch = s[i];
        if is_ascii_alnum(ch) {
            ident_scan(s, i + 1, out.push(ascii_lower(ch)), false)
        } else if is_ws(ch) || ch == '-' || ch == '_' {
            if !last_sep && out.len() > 0 {
                ident_scan(s, i + 1, out.push('_'), true)
            } else {
                ident_scan(s, i + 1, out, last_sep)
            }
        } else {
            ident_scan(s, i + 1, out, last_sep)
        }
    }
}

/// `s` without leading underscores.
pub open spec fn drop_leading_underscores(s: Seq<char>) -> Seq<char>
    decreases s.len(),
{
    if s.len() > 0 && s[0] == '_' {
        drop_leading_underscores(s.drop_first())
    } else {
        s
    }
}

/// `s` without trailing underscores.
pub open spec fn drop_trailing_underscores(s: Seq<char>) -> Seq<char>
    decreases s.len(),
{
    if s.len() > 0 && s.last() == '_' {
        drop_trailing_underscores(s.drop_last())
    } else {
        s
    }
}

/// The identifier made from a name, if any is left.
pub open spec fn normalized_identifier(value: Seq<char>) -> Option<Seq<char>> {
    let t = drop_trailing_underscores(
        drop_leading_underscores(ident_scan(value, 0, Seq::empty(), false)),
    );
    if t.len() == 0 {
        None
    } else {
        Some(t)
    }
}

/// An identifier made from a name: ASCII letters and digits in lower case,
/// separated by single underscores.
pub fn normalize_identifier(value: &str) -> (r: Option<String>)
    ensures
        match r {
            Some(t) => normalized_identifier(value@) == Some(t@),
            None => normalized_identifier(value@) is None,
        },
{
    let v = chars_of(value);
    let mut out: Vec<char> = Vec::new();
    let mut last_sep = false;
    let mut i: usize = 0;
    while i < v.len()
        invariant
            i <= v@.len(),
            v@ == value@,
            ident_scan(v@, 0, Seq::empty(), false) == ident_scan(v@, i as int, out@, last_sep),
        decreases v@.len() - i,
    {
        let ch = v[i];
        if ('a' <= ch && ch <= 'z') || ('A' <= ch && ch <= 'Z') || ('0' <= ch && ch <= '9') {
            out.push(char_ascii_lower(ch));
            last_sep = false;
        } else if char_is_ws(ch) || ch == '-' || ch == '_' {
            if !last_sep && out.len() > 0 {
                out.push('_');
                last_sep = true;
            }
        }
        i = i + 1;
    }
    let mut a: usize = 0;
    let n = out.len();
    assert(out@.subrange(0, n as int) =~= out@);
    while a < n && out[a] == '_'
        invariant
            a <= n == out@.len(),
            drop_leading_underscores(out@) == drop_leading_underscores(
                out@.subrange(a as int, n as int),
            ),
        decreases n - a,
    {
        assert(out@.subrange(a as int, n as int).drop_first() =~= out@.subrange(a + 1, n as int));
        a = a + 1;
    }
    let mut b: usize = n;
    while b > a && out[b - 1] == '_'
        invariant
            a <= b <= n == out@.len(),
            drop_leading_underscores(out@) == out@.subrange(a as int, n as int) || a < n,
            drop_trailing_underscores(out@.subrange(a as int, n as int)) == drop_trailing_underscores(
                out@.subrange(a as int, b as int),
            ),
        decreases b - a,
    {
        assert(out@.subrange(a as int, b as int).drop_last() =~= out@.subrange(a as int, b - 1));
        b = b - 1;
    }
    proof {
        let s = out@.subrange(a as int, n as int);
        if a < n {
            assert(s[0] == out@[a as int]);
        }
        assert(drop_leading_underscores(s) == s);
        let u = out@.subrange(a as int, b as int);
        if b > a {
            assert(u.last() == out@[b - 1]);
        }
        assert(drop_trailing_underscores(u) == u);
    }
    if b == a {
        None
    } else {
        Some(string_from_chars(&out.as_slice()[a..b]))
    }
}

// ---------------------------------------------------------------------------
// Ids of imported places
// ---------------------------------------------------------------------------
/// `base` with a numeric suffix.
pub open spec fn suffixed(base: Seq<char>, k: nat) -> Seq<char> {
    base + "_"@ + decimal(k)
}

/// The first suffix from `k` whose id is not taken (searching no further
/// than there are taken ids).
pub open spec fn free_suffix_from(base: Seq<char>, seen: Seq<Seq<char>>, k: nat) -> nat
    decreases seen.len() + 2 - k,
{
    if k >= seen.len() + 2 || !seen.contains(suffixed(base, k)) {
        k
    } else {
        free_suffix_from(base, seen, k + 1)
    }
}

/// The id given to a place: its base id when that is free, else the base
/// id with the smallest suffix from 2 that is free.
pub open spec fn unique_id(base: Seq<char>, seen: Seq<Seq<char>>) -> Seq<char> {
    if !seen.contains(base) {
        base
    } else {
        suffixed(base, free_suffix_from(base, seen, 2))
    }
}

/// The base id of the place at position `idx`: its name made an identifier,
/// else `location_<position from 1>`.
pub open spec fn base_location_id(name: Seq<char>, idx: nat) -> Seq<char> {
    match normalized_identifier(name) {
        Some(t) => t,
        None => "location_"@ + decimal(idx + 1),
    }
}

/// The ids of imported places, given in order, each distinct from those
/// before it.
pub open spec fn location_ids_spec(names: Seq<Seq<char>>) -> Seq<Seq<char>>
    decreases names.len(),
{
    if names.len() == 0 {
        Seq::empty()
    } else {
        let prev = location_ids_spec(names.drop_last());
        prev.push(unique_id(base_location_id(names.last(), (names.len() - 1) as nat), prev))
    }
}

/// The character of each decimal digit.
proof fn lemma_digit_chars(d: nat)
    requires
        d < 10,
    ensures
        d == 0 ==> digit_char(d) == '0',
        d == 1 ==> digit_char(d) == '1',
        d == 2 ==> digit_char(d) == '2',
        d == 3 ==> digit_char(d) == '3',
        d == 4 ==> digit_char(d) == '4',
        d == 5 ==> digit_char(d) == '5',
        d == 6 ==> digit_char(d) == '6',
        d == 7 ==> digit_char(d) == '7',
        d == 8 ==> digit_char(d) == '8',
        d == 9 ==> digit_char(d) == '9',
{
}

/// Different digits have different characters.
proof fn lemma_digit_char_injective(a: nat, b: nat)
    requires
        a < 10,
        b < 10,
        digit_char(a) == digit_char(b),
    ensures
        a == b,
{
    lemma_digit_chars(a);
    lemma_digit_chars(b);
}

/// A number is written with at least one digit.
proof fn lemma_decimal_nonempty(n: nat)
    ensures
        decimal(n).len() >= 1,
        n >= 10 ==> decimal(n).len() >= 2,
    decreases n,
{
    if n >= 10 {
        lemma_decimal_nonempty(n / 10);
    }
}

/// Different numbers are written differently.
proof fn lemma_decimal_injective(a: nat, b: nat)
    requires
        decimal(a) == decimal(b),
    ensures
        a == b,
    decreases a,
{
    lemma_decimal_nonempty(a);
    lemma_decimal_nonempty(b);
    if a < 10 && b < 10 {
        assert(decimal(a)[0] == digit_char(a));
        assert(decimal(b)[0] == digit_char(b));
        lemma_digit_char_injective(a, b);
    } else if a >= 10 && b >= 10 {
        let da = decimal(a);
        let db = decimal(b);
        assert(da.last() == digit_char(a % 10));
        assert(db.last() == digit_char(b % 10));
        lemma_digit_char_injective(a % 10, b % 10);
        assert(da.drop_last() =~= decimal(a / 10));
        assert(db.drop_last() =~= decimal(b / 10));
        lemma_decimal_injective(a / 10, b / 10);
    }
}

/// Different suffixes give different ids.
proof fn lemma_suffixed_injective(base: Seq<char>, a: nat, b: nat)
    requires
        suffixed(base, a) == suffixed(base, b),
    ensures
        a == b,
{
    reveal_strlit("_");
    let sa = suffixed(base, a);
    let sb = suffixed(base, b);
    let off = base.len() + 1;
    assert(sa.subrange(off as int, sa.len() as int) =~= decimal(a));
    assert(sb.subrange(off as int, sb.len() as int) =~= decimal(b));
    lemma_decimal_injective(a, b);
}

/// Distinct candidates that are all taken are no more than the taken ids.
proof fn lemma_pigeonhole(cands: Seq<Seq<char>>, seen: Seq<Seq<char>>)
    requires
        cands.no_duplicates(),
        forall|i: int| 0 <= i < cands.len() ==> seen.contains(#[trigger] cands[i]),
    ensures
        cands.len() <= seen.len(),
{
    broadcast use vstd::seq_lib::seq_to_set_is_finite;

    cands.unique_seq_to_set();
    seen.lemma_cardinality_of_set();
    assert(cands.to_set().subset_of(seen.to_set())) by {
        assert forall|x: Seq<char>| cands.to_set().contains(x) implies seen.to_set().contains(x) by {
            let i = choose|i: int| 0 <= i < cands.len() && cands[i] == x;
            assert(seen.contains(cands[i]));
        }
    }
    vstd::set_lib::lemma_len_subset(cands.to_set(), seen.to_set());
}

/// When the base id and all suffixes from 2 to `k` are taken, `k` is below
/// the number of taken ids plus one.
proof fn lemma_suffix_bound(base: Seq<char>, seen: Seq<Seq<char>>, k: nat)
    requires
        k >= 2,
        seen.contains(base),
        forall|j: nat| 2 <= j <= k ==> seen.contains(#[trigger] suffixed(base, j)),
    ensures
        k < seen.len() + 1,
{
    let cands = seq![base] + Seq::new((k - 1) as nat, |j: int| suffixed(base, (j + 2) as nat));
    assert forall|i: int, j: int| 0 <= i < cands.len() && 0 <= j < cands.len() && i != j implies cands[i]
        != cands[j] by {
        if i > 0 && j > 0 {
            if cands[i] == cands[j] {
                lemma_suffixed_injective(base, (i - 1 + 2) as nat, (j - 1 + 2) as nat);
            }
        } else if i == 0 {
            assert(cands[j].len() > base.len()) by {
                lemma_decimal_nonempty((j - 1 + 2) as nat);
            }
        } else {
            assert(cands[i].len() > base.len()) by {
                lemma_decimal_nonempty((i - 1 + 2) as nat);
            }
        }
    }
    assert forall|i: int| 0 <= i < cands.len() implies seen.contains(#[trigger] cands[i]) by {
        if i > 0 {
            assert(cands[i] == suffixed(base, (i - 1 + 2) as nat));
        }
    }
    lemma_pigeonhole(cands, seen);
}

/// The id `base` with suffix `k`.
fn suffixed_exec(base: &str, k: u64) -> (s: String)
    ensures
        s@ == suffixed(base@, k as nat),
{
    let mut s = base.to_string();
    append_str(&mut s, "_");
    append_str(&mut s, decimal_string(k).as_str());
    s
}

/// The base id, or its first suffixed form not yet taken.
fn unique_id_exec(base: String, seen: &Vec<String>) -> (r: String)
    requires
        seen@.len() < usize::MAX,
    ensures
        r@ == unique_id(base@, string_views(seen@)),
        !string_views(seen@).contains(r@),
{
    let ghost sv = string_views(seen@);
    if !contains_string(seen, base.as_str()) {
        return base;
    }
    let mut k: u64 = 2;
    proof {
        assert(free_suffix_from(base@, sv, 2) == free_suffix_from(base@, sv, k as nat));
    }
    while contains_string(seen, suffixed_exec(base.as_str(), k).as_str())
        invariant
            2 <= k <= sv.len() + 1,
            sv == string_views(seen@),
            sv.contains(base@),
            sv.len() == seen@.len(),
            seen@.len() < usize::MAX,
            forall|j: nat| 2 <= j < k ==> sv.contains(#[trigger] suffixed(base@, j)),
            free_suffix_from(base@, sv, 2) == free_suffix_from(base@, sv, k as nat),
        decreases sv.len() + 1 - k,
    {
        proof {
            lemma_suffix_bound(base@, sv, k as nat);
        }
        k = k + 1;
    }
    suffixed_exec(base.as_str(), k)
}

/// The ids of places imported from a novel, in order, each made distinct
/// from the ones before it.
pub fn location_ids(names: &Vec<String>) -> (r: Vec<String>)
    ensures
        r@.len() == names@.len(),
        string_views(r@) == location_ids_spec(string_views(names@)),
        string_views(r@).no_duplicates(),
{
    let ghost nv = string_views(names@);
    let mut out: Vec<String> = Vec::new();
    let mut i: usize = 0;
    assert(string_views(out@) =~= location_ids_spec(nv.take(0)));
    while i < names.len()
        invariant
            i <= names@.len(),
            nv == string_views(names@),
            out@.len() == i,
            string_views(out@) == location_ids_spec(nv.take(i as int)),
            string_views(out@).no_duplicates(),
        decreases names@.len() - i,
    {
        assert(nv.take(i + 1).drop_last() =~= nv.take(i as int));
        let base = match normalize_identifier(names[i].as_str()) {
            Some(t) => t,
            None => {
                let mut b = "location_".to_string();
                push_decimal(&mut b, i as u64 + 1);
                b
            },
        };
        let id = unique_id_exec(base, &out);
        let ghost before = string_views(out@);
        out.push(id);
        proof {
            assert(string_views(out@) =~= before.push(id@));
            assert forall|a: int, b: int|
                0 <= a < string_views(out@).len() && 0 <= b < string_views(out@).len() && a
                    != b implies string_views(out@)[a] != string_views(out@)[b] by {
                if a < before.len() && b < before.len() {
                } else if a == before.len() {
                    assert(before.contains(before[b]));
                } else {
                    assert(before.contains(before[a]));
                }
            }
        }
        i = i + 1;
    }
    assert(nv.take(names@.len() as int) =~= nv);
    out
}

/// The description of a place imported from a novel.
pub fn imported_location_description(name: &str) -> (s: String)
    ensures
        s@ == "从小说导入的地点："@ + name@,
{
    let mut s = "从小说导入的地点：".to_string();
    append_str(&mut s, name);
    s
}

/// A place imported from a novel: its id, its name and its description.
#[derive(Debug, Clone, PartialEq, Eq)]
pub struct ImportedLocation {
    pub id: String,
    pub name: String,
    pub description: String,
}

/// The places imported from a novel's place names, in order, with distinct
/// ids; a novel that names no place gets a single default starting place.
pub fn imported_locations(names: &Vec<String>) -> (r: Vec<ImportedLocation>)
    ensures
        names@.len() == 0 ==> r@.len() == 1 && r@[0].id@ == "novel_origin"@ && r@[0].name@
            == "小说起点"@ && r@[0].description@ == "从小说导入的默认起点"@,
        names@.len() > 0 ==> r@.len() == names@.len() && forall|i: int|
            0 <= i < names@.len() ==> (#[trigger] r@[i]).id@ == location_ids_spec(
                string_views(names@),
            )[i] && r@[i].name@ == names@[i]@ && r@[i].description@ == "从小说导入的地点："@
                + names@[i]@,
{
    let mut out: Vec<ImportedLocation> = Vec::new();
    if names.len() == 0 {
        out.push(
            ImportedLocation {
                id: "novel_origin".to_string(),
                name: "小说起点".to_string(),
                description: "从小说导入的默认起点".to_string(),
            },
        );
        return out;
    }
    let ids = location_ids(names);
    let ghost idv = location_ids_spec(string_views(names@));
    let mut i: usize = 0;
    while i < names.len()
        invariant
            i <= names@.len(),
            ids@.len() == names@.len(),
            string_views(ids@) == idv,
            out@.len() == i,
            forall|k: int|
                0 <= k < i ==> (#[trigger] out@[k]).id@ == idv[k] && out@[k].name@ == names@[k]@
                    && out@[k].description@ == "从小说导入的地点："@ + names@[k]@,
        decreases names@.len() - i,
    {
        proof {
            assert(string_views(ids@)[i as int] == ids@[i as int]@);
        }
        out.push(
            ImportedLocation {
                id: ids[i].clone(),
                name: names[i].clone(),
                description: imported_location_description(names[i].as_str()),
            },
        );
        i = i + 1;
    }
    out
}

// ---------------------------------------------------------------------------
// Choosing the player's character
// ---------------------------------------------------------------------------
/// The character chosen from a novel's list, or why none can be.
pub open spec fn character_choice(characters: Seq<Seq<char>>, selected: Seq<char>) -> Result<
    Seq<char>,
    Seq<char>,
> {
    let t = trim_spec(selected);
    if characters.len() == 0 {
        Err("未能从小说中解析出角色列表"@)
    } else if t.len() == 0 {
        Err("请选择一个角色"@)
    } else if !characters.contains(t) {
        Err("选择的角色不存在: "@ + t)
    } else {
        Ok(t)
    }
}

/// Chooses the player's character from a novel's list.
pub fn select_character_from_novel(characters: &Vec<String>, selected: &str) -> (r: Result<
    String,
    String,
>)
    ensures
        match (r, character_choice(string_views(characters@), selected@)) {
            (Ok(c), Ok(e)) => c@ == e,
            (Err(m), Err(e)) => m@ == e,
            _ => false,
        },
{
    if characters.len() == 0 {
        return Err("未能从小说中解析出角色列表".to_string());
    }
    let t = trim(selected);
    if t.as_str().is_empty() {
        return Err("请选择一个角色".to_string());
    }
    if !contains_string(characters, t.as_str()) {
        let mut m = "选择的角色不存在: ".to_string();
        append_str(&mut m, t.as_str());
        return Err(m);
    }
    Ok(t)
}

// ---------------------------------------------------------------------------
// Generated scripts
// ---------------------------------------------------------------------------
/// The part of an answer from its first `{` to its last `}`, or why there is
/// none.
pub open spec fn object_slice(raw: Seq<char>) -> Result<Seq<char>, Seq<char>> {
    match first_occ(raw, "{"@) {
        None => Err("Generated response does not contain JSON object"@),
        Some(a) => match last_index_of(raw, '}') {
            None => Err("Generated response does not contain JSON object end"@),
            Some(b) => Ok(raw.subrange(a, b + 1)),
        },
    }
}

/// The answer has a `}` before its first `{` and none after it, so that
/// no slice from one to the other exists.
pub open spec fn braces_reversed(raw: Seq<char>) -> bool {
    first_occ(raw, "{"@) matches Some(a) && last_index_of(raw, '}') matches Some(b) && b < a
}

/// Whether an answer's braces are reversed.
pub fn has_reversed_braces(raw: &str) -> (r: bool)
    ensures
        r == braces_reversed(raw@),
{
    let v = chars_of(raw);
    let open = chars_of("{");
    match (crate::plot_llm::find_in(&v, &open), crate::plot_llm::last_index(&v, '}')) {
        (Some(a), Some(b)) => b < a,
        _ => false,
    }
}

/// The JSON object of a generated script, cut from the answer.
pub fn script_object_slice(raw: &str) -> (r: Result<String, String>)
    requires
        !braces_reversed(raw@),
    ensures
        match (r, object_slice(raw@)) {
            (Ok(s), Ok(e)) => s@ == e,
            (Err(m), Err(e)) => m@ == e,
            _ => false,
        },
{
    let v = chars_of(raw);
    let open = chars_of("{");
    let a = match crate::plot_llm::find_in(&v, &open) {
        None => {
            return Err("Generated response does not contain JSON object".to_string());
        },
        Some(a) => a,
    };
    let b = match crate::plot_llm::last_index(&v, '}') {
        None => {
            return Err("Generated response does not contain JSON object end".to_string());
        },
        Some(b) => b,
    };
    proof {
        crate::plot_llm::lemma_last_index_of(v@, '}');
    }
    let n = v.len();
    Ok(string_from_chars(&v.as_slice()[a..b + 1]))
}

/// The limits a generated script's answer must respect: JSON, and no age
/// beyond 120.
pub fn script_answer_constraints() -> (c: ValidationConstraints)
    ensures
        c.require_json,
        c.max_realm_level is None,
        c.min_combat_power is None,
        c.max_combat_power is None,
        c.max_current_age == Some(120u32),
{
    ValidationConstraints {
        require_json: true,
        max_realm_level: None,
        min_combat_power: None,
        max_combat_power: None,
        max_current_age: Some(120),
    }
}

/// The request asking the model for a random script.
pub open spec fn is_script_request(r: PlotRequest, b: PromptBuilder) -> bool {
    &&& r.max_tokens == 700
    &&& exists|c: PromptContext, k: PromptConstraints|
        context_is(
            c,
            Some("生成一个可游玩的随机修仙世界剧本"@),
            None,
            None,
            None,
            None,
            Seq::empty(),
            Some("需要一个适合新手开局、设定自洽、可直接进入游戏的中文场景"@),
        ) && constraints_are(
            k,
            seq!["境界等级必须按顺序提升"@, "初始年龄必须在 10 到 100 之间"@],
            seq![
                "剧本至少包含一个修炼境界与一个地点"@,
                "initial_state.starting_location 必须存在于 world_setting.locations"@,
                "所有文本字段使用中文"@,
            ],
            Some("返回严格 JSON，必须匹配 Script 结构，不要 markdown 包裹。"@),
        ) && r.prompt@ == rendered(b, PromptTemplate::ScriptGeneration, c, k, 700)
}

/// The request asking the model for a random script.
pub fn random_script_request(builder: &PromptBuilder) -> (r: PlotRequest)
    ensures
        is_script_request(r, *builder),
{
    let mut numerical = crate::plot_requests::one_rule("境界等级必须按顺序提升");
    crate::plot_requests::push_item(&mut numerical, "初始年龄必须在 10 到 100 之间");
    assert(string_views(numerical@) =~= seq!["境界等级必须按顺序提升"@, "初始年龄必须在 10 到 100 之间"@]);
    let context = PromptContext {
        scene: Some("生成一个可游玩的随机修仙世界剧本".to_string()),
        location: None,
        actor_name: None,
        actor_realm: None,
        actor_combat_power: None,
        history_events: no_history(),
        world_setting_summary: Some(
            "需要一个适合新手开局、设定自洽、可直接进入游戏的中文场景".to_string(),
        ),
    };
    let constraints = PromptConstraints {
        numerical_rules: numerical,
        world_rules: rules3(
            "剧本至少包含一个修炼境界与一个地点",
            "initial_state.starting_location 必须存在于 world_setting.locations",
            "所有文本字段使用中文",
        ),
        output_schema_hint: Some("返回严格 JSON，必须匹配 Script 结构，不要 markdown 包裹。".to_string()),
    };
    let r = render_request(builder, PromptTemplate::ScriptGeneration, &context, &constraints, 700, 700);
    assert(context_is(
        context,
        Some("生成一个可游玩的随机修仙世界剧本"@),
        None,
        None,
        None,
        None,
        Seq::empty(),
        Some("需要一个适合新手开局、设定自洽、可直接进入游戏的中文场景"@),
    ));
    assert(constraints_are(
        constraints,
        seq!["境界等级必须按顺序提升"@, "初始年龄必须在 10 到 100 之间"@],
        seq![
            "剧本至少包含一个修炼境界与一个地点"@,
            "initial_state.starting_location 必须存在于 world_setting.locations"@,
            "所有文本字段使用中文"@,
        ],
        Some("返回严格 JSON，必须匹配 Script 结构，不要 markdown 包裹。"@),
    ));
    r
}

} // verus!
