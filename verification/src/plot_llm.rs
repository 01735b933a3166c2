//! Reading the language model's plot answers: locating the JSON document in
//! an answer, reading fields out of answers that are not quite JSON, and the
//! prompts and token budgets of the plot requests.
use crate::numerical_system::{Action, ActionView};
use crate::plot_engine::{ChapterSegment, OpeningPlot};
use crate::response_validator::{
    json_bool_at, json_parse_outcome, json_pointer_bool, json_pointer_present, json_pointer_str,
    json_pointer_str_items, json_present_at, json_str_at, json_str_items_at, opt_string_views,
    parse_json,
};
use crate::text::{
    opt_view, string_views, ascii_lower_spec, chars_of, char_is_ws, find_from, is_blank, is_ws, lemma_trim_start_index,
    occurs_at, starts_with_spec, str_eq, string_from_chars, to_ascii_lowercase, trim, trim_bounds,
    trim_spec, trim_start_spec, append_str,
};
use vstd::prelude::*;

verus! {

broadcast use vstd::seq_lib::group_seq_lib_default;

// ---------------------------------------------------------------------------
// Searching
// ---------------------------------------------------------------------------
/// The first position at or after `i` where `needle` occurs in `hay`.
pub open spec fn first_occ_from(hay: Seq<char>, needle: Seq<char>, i: int) -> Option<int>
    decreases hay.len() + 1 - i,
{
    if i < 0 || i > hay.len() {
        None
    } else if occurs_at(hay, needle, i) {
        Some(i)
    } else {
        first_occ_from(hay, needle, i + 1)
    }
}

/// The first position where `needle` occurs in `hay` (what `str::find` gives,
/// counted in characters).
pub open spec fn first_occ(hay: Seq<char>, needle: Seq<char>) -> Option<int> {
    first_occ_from(hay, needle, 0)
}

/// The last position of `c` in `s` (what `str::rfind` gives, in characters).
pub open spec fn last_index_of(s: Seq<char>, c: char) -> Option<int>
    decreases s.len(),
{
    if s.len() == 0 {
        None
    } else if s.last() == c {
        Some(s.len() - 1)
    } else {
        last_index_of(s.drop_last(), c)
    }
}

/// The first match at or after `i` is a match, and none comes before it.
pub(crate) proof fn lemma_first_occ_from(hay: Seq<char>, needle: Seq<char>, i: int)
    requires
        0 <= i,
    ensures
        match first_occ_from(hay, needle, i) {
            Some(k) => i <= k <= hay.len() && occurs_at(hay, needle, k) && forall|j: int|
                i <= j < k ==> !occurs_at(hay, needle, j),
            None => forall|j: int| i <= j ==> !occurs_at(hay, needle, j),
        },
    decreases hay.len() + 1 - i,
{
    if i <= hay.len() && !occurs_at(hay, needle, i) {
        lemma_first_occ_from(hay, needle, i + 1);
    }
}

/// The last index of `c` holds `c`, and no later index does.
pub(crate) proof fn lemma_last_index_of(s: Seq<char>, c: char)
    ensures
        match last_index_of(s, c) {
            Some(k) => 0 <= k < s.len() && s[k] == c && forall|j: int| k < j < s.len() ==> s[j]
                != c,
            None => forall|j: int| 0 <= j < s.len() ==> s[j] != c,
        },
    decreases s.len(),
{
    if s.len() > 0 && s.last() != c {
        let t = s.drop_last();
        lemma_last_index_of(t, c);
        assert forall|j: int| 0 <= j < t.len() implies t[j] == s[j] by {}
    }
}

/// The first occurrence of `needle` in `hay`.
pub(crate) fn find_in(hay: &Vec<char>, needle: &Vec<char>) -> (r: Option<usize>)
    ensures
        match r {
            Some(i) => first_occ(hay@, needle@) == Some(i as int),
            None => first_occ(hay@, needle@) is None,
        },
{
    let r = find_from(hay, needle, 0);
    proof {
        lemma_first_occ_from(hay@, needle@, 0);
    }
    r
}

/// The last occurrence of `c` in `v`.
pub(crate) fn last_index(v: &Vec<char>, c: char) -> (r: Option<usize>)
    ensures
        match r {
            Some(i) => last_index_of(v@, c) == Some(i as int),
            None => last_index_of(v@, c) is None,
        },
{
    proof {
        lemma_last_index_of(v@, c);
    }
    let mut i: usize = v.len();
    while i > 0
        invariant
            i <= v@.len(),
            forall|j: int| i <= j < v@.len() ==> v@[j] != c,
        decreases i,
    {
        if v[i - 1] == c {
            proof {
                lemma_last_index_of(v@, c);
                match last_index_of(v@, c) {
                    Some(k) => {
                        if k > i - 1 {
                            assert(v@[k] != c);
                        }
                    },
                    None => {
                        assert(v@[i - 1] != c);
                    },
                }
            }
            return Some(i - 1);
        }
        i = i - 1;
    }
    None
}

/// The characters of `v` from `a` to `b`.
fn sub_chars(v: &Vec<char>, a: usize, b: usize) -> (r: Vec<char>)
    requires
        a <= b <= v@.len(),
    ensures
        r@ == v@.subrange(a as int, b as int),
{
    let mut r: Vec<char> = Vec::new();
    let mut i = a;
    while i < b
        invariant
            a <= i <= b <= v@.len(),
            r@ == v@.subrange(a as int, i as int),
        decreases b - i,
    {
        r.push(v[i]);
        i = i + 1;
        assert(r@ =~= v@.subrange(a as int, i as int));
    }
    r
}

/// `v` with leading whitespace removed.
fn trim_start_chars(v: &Vec<char>) -> (r: Vec<char>)
    ensures
        r@ == trim_start_spec(v@),
{
    let mut i: usize = 0;
    while i < v.len() && char_is_ws(v[i])
        invariant
            i <= v@.len(),
            forall|k: int| 0 <= k < i ==> is_ws(#[trigger] v@[k]),
        decreases v@.len() - i,
    {
        i = i + 1;
    }
    proof {
        lemma_trim_start_index(v@, i as int);
    }
    sub_chars(v, i, v.len())
}

/// `v` with whitespace removed at both ends.
fn trim_chars(v: &Vec<char>) -> (r: Vec<char>)
    ensures
        r@ == trim_spec(v@),
{
    let (a, b) = trim_bounds(v);
    sub_chars(v, a, b)
}

// ---------------------------------------------------------------------------
// Line endings and escapes
// ---------------------------------------------------------------------------
/// `s` with every `"\r\n"` turned into `"\n"`, which is what splitting into
/// lines and joining them again with `"\n"` gives.
pub open spec fn crlf_to_lf(s: Seq<char>) -> Seq<char>
    decreases s.len(),
{
    if s.len() == 0 {
        s
    } else if s.len() >= 2 && s[0] == '\r' && s[1] == '\n' {
        seq!['\n'] + crlf_to_lf(s.subrange(2, s.len() as int))
    } else {
        seq![s[0]] + crlf_to_lf(s.drop_first())
    }
}

/// The characters from `start` on, with CR LF turned into LF.
fn crlf_to_lf_exec(v: &Vec<char>, start: usize) -> (r: Vec<char>)
    requires
        start <= v@.len(),
    ensures
        r@ == crlf_to_lf(v@.subrange(start as int, v@.len() as int)),
{
    let n = v.len();
    let mut out: Vec<char> = Vec::new();
    let mut i = start;
    while i < n
        invariant
            start <= i <= n == v@.len(),
            crlf_to_lf(v@.subrange(start as int, n as int)) == out@ + crlf_to_lf(
                v@.subrange(i as int, n as int),
            ),
        decreases n - i,
    {
        let ghost sub = v@.subrange(i as int, n as int);
        if i + 1 < n && v[i] == '\r' && v[i + 1] == '\n' {
            assert(sub.subrange(2, sub.len() as int) =~= v@.subrange(i + 2, n as int));
            out.push('\n');
            i = i + 2;
        } else {
            assert(sub.drop_first() =~= v@.subrange(i + 1, n as int));
            out.push(v[i]);
            i = i + 1;
        }
    }
    assert(v@.subrange(n as int, n as int) =~= Seq::<char>::empty());
    assert(out@ + Seq::<char>::empty() =~= out@);
    out
}

/// What an escape `\c` stands for inside a quoted field.
pub open spec fn unescaped(c: char) -> char {
    if c == 'n' {
        '\n'
    } else if c == 't' {
        '\t'
    } else if c == 'r' {
        '\r'
    } else {
        c
    }
}

/// The text of a quoted value up to its closing quote, escapes resolved.
pub open spec fn quoted_body(s: Seq<char>) -> Seq<char>
    decreases s.len(),
{
    if s.len() == 0 {
        s
    } else if s[0] == '\\' {
        if s.len() >= 2 {
            seq![unescaped(s[1])] + quoted_body(s.subrange(2, s.len() as int))
        } else {
            Seq::empty()
        }
    } else if s[0] == '"' {
        Seq::empty()
    } else {
        seq![s[0]] + quoted_body(s.drop_first())
    }
}

/// The body of a quoted string starting at `start`.
fn quoted_body_exec(v: &Vec<char>, start: usize) -> (r: Vec<char>)
    requires
        start <= v@.len(),
    ensures
        r@ == quoted_body(v@.subrange(start as int, v@.len() as int)),
{
    let n = v.len();
    let mut out: Vec<char> = Vec::new();
    let mut i = start;
    while i < n
        invariant
            start <= i <= n == v@.len(),
            quoted_body(v@.subrange(start as int, n as int)) == out@ + quoted_body(
                v@.subrange(i as int, n as int),
            ),
        decreases n - i,
    {
        let ghost sub = v@.subrange(i as int, n as int);
        let c = v[i];
        if c == '\\' {
            if i + 1 < n {
                let d = v[i + 1];
                let e = if d == 'n' {
                    '\n'
                } else if d == 't' {
                    '\t'
                } else if d == 'r' {
                    '\r'
                } else {
                    d
                };
                assert(sub.subrange(2, sub.len() as int) =~= v@.subrange(i + 2, n as int));
                out.push(e);
                i = i + 2;
            } else {
                assert(out@ + Seq::<char>::empty() =~= out@);
                return out;
            }
        } else if c == '"' {
            assert(out@ + Seq::<char>::empty() =~= out@);
            return out;
        } else {
            assert(sub.drop_first() =~= v@.subrange(i + 1, n as int));
            out.push(c);
            i = i + 1;
        }
    }
    assert(v@.subrange(n as int, n as int) =~= Seq::<char>::empty());
    assert(out@ + Seq::<char>::empty() =~= out@);
    out
}

// ---------------------------------------------------------------------------
// Fields of answers that are not well-formed JSON
// ---------------------------------------------------------------------------
/// A field name in quotes, as it is looked for.
pub open spec fn quoted(field: Seq<char>) -> Seq<char> {
    "\""@ + field + "\""@
}

/// What follows the first `"field"` and the first colon after it, with
/// leading whitespace removed.
pub open spec fn field_rest(raw: Seq<char>, field: Seq<char>) -> Option<Seq<char>> {
    let key = quoted(field);
    match first_occ(raw, key) {
        None => None,
        Some(idx) => {
            let after = raw.subrange(idx + key.len(), raw.len() as int);
            match first_occ(after, ":"@) {
                None => None,
                Some(c) => Some(trim_start_spec(after.subrange(c + 1, after.len() as int))),
            }
        },
    }
}

/// Whether a character ends an unquoted value.
pub open spec fn ends_value(c: char) -> bool {
    c == ',' || c == '\n' || c == '}'
}

/// The first position at or after `i` holding a character that ends an
/// unquoted value, or the length when there is none.
pub open spec fn value_end_from(s: Seq<char>, i: int) -> int
    decreases s.len() - i,
{
    if i < 0 || i >= s.len() {
        s.len() as int
    } else if ends_value(s[i]) {
        i
    } else {
        value_end_from(s, i + 1)
    }
}

/// The string value of a field read off the text itself: a quoted value up
/// to its closing quote with escapes resolved, or an unquoted value up to a
/// comma, line break or closing brace; trimmed, and absent when empty.
pub open spec fn string_field_raw(raw: Seq<char>, field: Seq<char>) -> Option<Seq<char>> {
    match field_rest(raw, field) {
        None => None,
        Some(s) => {
            let v = if s.len() > 0 && s[0] == '"' {
                trim_spec(quoted_body(s.drop_first()))
            } else {
                trim_spec(s.subrange(0, value_end_from(s, 0)))
            };
            if v.len() == 0 {
                None
            } else {
                Some(v)
            }
        },
    }
}

/// The boolean value of a field read off the text itself.
pub open spec fn bool_field_raw(raw: Seq<char>, field: Seq<char>) -> Option<bool> {
    match field_rest(raw, field) {
        None => None,
        Some(s) => if starts_with_spec(s, "true"@) {
            Some(true)
        } else if starts_with_spec(s, "false"@) {
            Some(false)
        } else {
            None
        },
    }
}

/// The field name in double quotes.
fn quoted_chars(field: &str) -> (key: Vec<char>)
    ensures
        key@ == quoted(field@),
{
    let mut key: Vec<char> = Vec::new();
    key.push('"');
    let f = chars_of(field);
    let mut i: usize = 0;
    while i < f.len()
        invariant
            i <= f@.len(),
            f@ == field@,
            key@ == seq!['"'] + f@.take(i as int),
        decreases f@.len() - i,
    {
        key.push(f[i]);
        i = i + 1;
        assert(key@ =~= seq!['"'] + f@.take(i as int));
    }
    key.push('"');
    proof {
        reveal_strlit("\"");
        assert(f@.take(f@.len() as int) =~= f@);
        assert(key@ =~= quoted(field@));
    }
    key
}

/// What follows the colon after the quoted field name, if found.
fn field_rest_exec(raw: &Vec<char>, field: &str) -> (r: Option<Vec<char>>)
    ensures
        match r {
            Some(s) => field_rest(raw@, field@) == Some(s@),
            None => field_rest(raw@, field@) is None,
        },
{
    let key = quoted_chars(field);
    let idx = match find_in(raw, &key) {
        None => {
            return None;
        },
        Some(idx) => idx,
    };
    proof {
        lemma_first_occ_from(raw@, key@, 0);
        assert(occurs_at(raw@, key@, idx as int));
        assert(idx + key@.len() <= raw@.len());
    }
    let klen = key.len();
    let rlen = raw.len();
    let after = sub_chars(raw, idx + klen, rlen);
    let colon_pat = chars_of(":");
    let c = match find_in(&after, &colon_pat) {
        None => {
            return None;
        },
        Some(c) => c,
    };
    proof {
        reveal_strlit(":");
        lemma_first_occ_from(after@, colon_pat@, 0);
        assert(occurs_at(after@, colon_pat@, c as int));
    }
    let tail = sub_chars(&after, c + 1, after.len());
    Some(trim_start_chars(&tail))
}

/// The end of a bare value: the first comma, closing brace or line break.
fn value_end(s: &Vec<char>) -> (e: usize)
    ensures
        e == value_end_from(s@, 0),
{
    let mut i: usize = 0;
    while i < s.len() && !(s[i] == ',' || s[i] == '\n' || s[i] == '}')
        invariant
            i <= s@.len(),
            value_end_from(s@, 0) == value_end_from(s@, i as int),
        decreases s@.len() - i,
    {
        i = i + 1;
    }
    i
}

/// Reads a string field off a text that may not be well-formed JSON.
pub fn extract_string_field_raw(raw: &str, field: &str) -> (r: Option<String>)
    ensures
        match r {
            Some(v) => string_field_raw(raw@, field@) == Some(v@),
            None => string_field_raw(raw@, field@) is None,
        },
{
    let v = chars_of(raw);
    let s = match field_rest_exec(&v, field) {
        None => {
            return None;
        },
        Some(s) => s,
    };
    let value = if s.len() > 0 && s[0] == '"' {
        let body = quoted_body_exec(&s, 1);
        assert(s@.subrange(1, s@.len() as int) =~= s@.drop_first());
        trim_chars(&body)
    } else {
        let e = value_end(&s);
        proof {
            lemma_value_end_bound(s@, 0);
        }
        let head = sub_chars(&s, 0, e);
        trim_chars(&head)
    };
    if value.len() == 0 {
        None
    } else {
        Some(string_from_chars(value.as_slice()))
    }
}

/// The end of a bare value lies within the text.
proof fn lemma_value_end_bound(s: Seq<char>, i: int)
    requires
        0 <= i,
    ensures
        i <= s.len() ==> i <= value_end_from(s, i) <= s.len(),
        value_end_from(s, i) <= s.len(),
    decreases s.len() - i,
{
    if i < s.len() && !ends_value(s[i]) {
        lemma_value_end_bound(s, i + 1);
    }
}

/// Whether the characters start with `prefix`.
fn starts_with_chars(s: &Vec<char>, prefix: &str) -> (r: bool)
    ensures
        r == starts_with_spec(s@, prefix@),
{
    let p = chars_of(prefix);
    crate::text::occurs_at_exec(s, &p, 0)
}

/// Reads a boolean field off a text that may not be well-formed JSON.
pub fn extract_bool_field_raw(raw: &str, field: &str) -> (r: Option<bool>)
    ensures
        r == bool_field_raw(raw@, field@),
{
    let v = chars_of(raw);
    match field_rest_exec(&v, field) {
        None => None,
        Some(s) => {
            if starts_with_chars(&s, "true") {
                Some(true)
            } else if starts_with_chars(&s, "false") {
                Some(false)
            } else {
                None
            }
        },
    }
}

// ---------------------------------------------------------------------------
// Option lists of answers that are not well-formed JSON
// ---------------------------------------------------------------------------
/// The quoted items of a list read character by character from position `i`:
/// outside quotes a quote opens an item and `]` ends the list; inside, a
/// backslash takes the next character as it is and a quote closes the item,
/// which is kept, trimmed, when not empty. At most four items are read.
pub open spec fn scan_items(
    s: Seq<char>,
    i: int,
    in_string: bool,
    escaped: bool,
    current: Seq<char>,
    items: Seq<Seq<char>>,
) -> Seq<Seq<char>>
    decreases s.len() - i,
{
    if i < 0 || i >= s.len() {
        items
    } else {
        let ch = s[i];
        if !in_string {
            if ch == '"' {
                scan_items(s, i + 1, true, escaped, Seq::empty(), items)
            } else if ch == ']' {
                items
            } else {
                scan_items(s, i + 1, false, escaped, current, items)
            }
        } else if escaped {
            scan_items(s, i + 1, true, false, current.push(ch), items)
        } else if ch == '\\' {
            scan_items(s, i + 1, true, true, current, items)
        } else if ch == '"' {
            let t = trim_spec(current);
            let items2 = if t.len() > 0 {
                items.push(t)
            } else {
                items
            };
            if items2.len() >= 4 {
                items2
            } else {
                scan_items(s, i + 1, false, escaped, current, items2)
            }
        } else {
            scan_items(s, i + 1, true, escaped, current.push(ch), items)
        }
    }
}

/// The items listed after the first `"key"`, from the first `[` after it (or
/// from right after the key when there is none).
pub open spec fn items_for_key(raw: Seq<char>, key: Seq<char>) -> Seq<Seq<char>> {
    let marker = quoted(key);
    match first_occ(raw, marker) {
        None => Seq::empty(),
        Some(idx) => {
            let after = raw.subrange(idx + marker.len(), raw.len() as int);
            let start = match first_occ(after, "["@) {
                Some(p) => p,
                None => 0,
            };
            scan_items(after.subrange(start, after.len() as int), 0, false, false, Seq::empty(), Seq::empty())
        },
    }
}

/// The options read off the text: those listed under `options`, or, when
/// there are none, those under `action_choices`.
pub open spec fn options_raw(raw: Seq<char>) -> Seq<Seq<char>> {
    let a = items_for_key(raw, "options"@);
    if a.len() > 0 {
        a
    } else {
        items_for_key(raw, "action_choices"@)
    }
}

/// The quoted items of a list text.
fn scan_items_exec(s: &Vec<char>) -> (r: Vec<String>)
    ensures
        string_views(r@) == scan_items(s@, 0, false, false, Seq::empty(), Seq::empty()),
{
    let mut items: Vec<String> = Vec::new();
    let mut in_string = false;
    let mut escaped = false;
    let mut current: Vec<char> = Vec::new();
    let mut i: usize = 0;
    assert(string_views(items@) =~= Seq::<Seq<char>>::empty());
    assert(current@ =~= Seq::<char>::empty());
    while i < s.len()
        invariant
            i <= s@.len(),
            scan_items(s@, 0, false, false, Seq::empty(), Seq::empty()) == scan_items(
                s@,
                i as int,
                in_string,
                escaped,
                current@,
                string_views(items@),
            ),
        decreases s@.len() - i,
    {
        let ch = s[i];
        if !in_string {
            if ch == '"' {
                in_string = true;
                current = Vec::new();
            } else if ch == ']' {
                return items;
            }
        } else if escaped {
            current.push(ch);
            escaped = false;
        } else if ch == '\\' {
            escaped = true;
        } else if ch == '"' {
            let t = trim_chars(&current);
            if t.len() > 0 {
                let ghost before = items@;
                items.push(string_from_chars(t.as_slice()));
                assert(string_views(items@) =~= string_views(before).push(t@));
            }
            in_string = false;
            if items.len() >= 4 {
                return items;
            }
        } else {
            current.push(ch);
        }
        i = i + 1;
    }
    items
}

/// The quoted items listed after a key.
fn items_for_key_exec(raw: &Vec<char>, key: &str) -> (r: Vec<String>)
    ensures
        string_views(r@) == items_for_key(raw@, key@),
{
    let marker = quoted_chars(key);
    let idx = match find_in(raw, &marker) {
        None => {
            let e: Vec<String> = Vec::new();
            assert(string_views(e@) =~= Seq::<Seq<char>>::empty());
            return e;
        },
        Some(idx) => idx,
    };
    proof {
        lemma_first_occ_from(raw@, marker@, 0);
        assert(occurs_at(raw@, marker@, idx as int));
    }
    let mlen = marker.len();
    let rlen = raw.len();
    let after = sub_chars(raw, idx + mlen, rlen);
    let open_pat = chars_of("[");
    let start = match find_in(&after, &open_pat) {
        Some(p) => {
            proof {
                lemma_first_occ_from(after@, open_pat@, 0);
            }
            p
        },
        None => 0,
    };
    let alen = after.len();
    let rest = sub_chars(&after, start, alen);
    scan_items_exec(&rest)
}

/// Reads the option list off a text that may not be well-formed JSON.
pub fn extract_options_field_raw(raw: &str) -> (r: Vec<String>)
    ensures
        string_views(r@) == options_raw(raw@),
{
    let v = chars_of(raw);
    let a = items_for_key_exec(&v, "options");
    if a.len() > 0 {
        return a;
    }
    items_for_key_exec(&v, "action_choices")
}

// ---------------------------------------------------------------------------
// Locating the JSON document in an answer
// ---------------------------------------------------------------------------
/// The body of a fenced answer: the lines after the opening fence joined
/// again, without a closing fence (trimmed when one was removed).
pub open spec fn fence_body(t: Seq<char>) -> Seq<char> {
    let joined = match first_occ(t, "\n"@) {
        None => Seq::empty(),
        Some(p) => crlf_to_lf(t.subrange(p + 1, t.len() as int)),
    };
    if joined.len() >= 3 && joined.subrange(joined.len() - 3, joined.len() as int) == "```"@ {
        trim_spec(joined.subrange(0, joined.len() - 3))
    } else {
        joined
    }
}

/// The text of an answer that is taken as its JSON document: the trimmed
/// answer (its fenced body when it opens with a code fence) when it parses,
/// else the part from its first `{` to its last `}` when that parses.
pub open spec fn json_candidate_spec(raw: Seq<char>) -> Option<Seq<char>> {
    let t = trim_spec(raw);
    if t.len() == 0 {
        None
    } else {
        let cand = trim_spec(
            if starts_with_spec(t, "```"@) {
                fence_body(t)
            } else {
                t
            },
        );
        if json_parse_outcome(cand) is Ok {
            Some(cand)
        } else {
            match (first_occ(cand, "{"@), last_index_of(cand, '}')) {
                (Some(a), Some(b)) => if a >= b {
                    None
                } else {
                    let sub = cand.subrange(a, b + 1);
                    if json_parse_outcome(sub) is Ok {
                        Some(sub)
                    } else {
                        None
                    }
                },
                _ => None,
            }
        }
    }
}

/// The text inside a code fence, or the text itself.
fn fence_body_exec(t: &Vec<char>) -> (r: Vec<char>)
    ensures
        r@ == fence_body(t@),
{
    let nl = chars_of("\n");
    let tl = t.len();
    let joined = match find_in(t, &nl) {
        None => Vec::new(),
        Some(p) => {
            proof {
                reveal_strlit("\n");
                lemma_first_occ_from(t@, nl@, 0);
                assert(occurs_at(t@, nl@, p as int));
            }
            crlf_to_lf_exec(t, p + 1)
        },
    };
    assert(joined@ == match first_occ(t@, "\n"@) {
        None => Seq::<char>::empty(),
        Some(p) => crlf_to_lf(t@.subrange(p + 1, t@.len() as int)),
    });
    let n = joined.len();
    if n >= 3 && joined[n - 3] == '`' && joined[n - 2] == '`' && joined[n - 1] == '`' {
        proof {
            reveal_strlit("```");
            assert(joined@.subrange(n - 3, n as int) =~= "```"@);
        }
        let head = sub_chars(&joined, 0, n - 3);
        trim_chars(&head)
    } else {
        proof {
            reveal_strlit("```");
            if n >= 3 {
                let tail = joined@.subrange(n - 3, n as int);
                if tail == "```"@ {
                    assert(tail[0] == joined@[n - 3]);
                    assert(tail[1] == joined@[n - 2]);
                    assert(tail[2] == joined@[n - 1]);
                }
            }
        }
        joined
    }
}

/// Whether the characters form a JSON document.
fn parses(text: &Vec<char>) -> (r: bool)
    ensures
        r == (json_parse_outcome(text@) is Ok),
{
    let s = string_from_chars(text.as_slice());
    match parse_json(s.as_str()) {
        Ok(_) => true,
        Err(_) => false,
    }
}

/// The JSON document taken from a model answer, if any.
pub fn json_candidate(raw: &str) -> (r: Option<String>)
    ensures
        match r {
            Some(c) => json_candidate_spec(raw@) == Some(c@),
            None => json_candidate_spec(raw@) is None,
        },
{
    let v = chars_of(raw);
    let t = trim_chars(&v);
    if t.len() == 0 {
        return None;
    }
    let fenced = starts_with_chars(&t, "```");
    let pre = if fenced {
        fence_body_exec(&t)
    } else {
        t
    };
    let cand = trim_chars(&pre);
    if parses(&cand) {
        return Some(string_from_chars(cand.as_slice()));
    }
    let open_pat = chars_of("{");
    let a = match find_in(&cand, &open_pat) {
        None => {
            return None;
        },
        Some(a) => a,
    };
    let b = match last_index(&cand, '}') {
        None => {
            return None;
        },
        Some(b) => b,
    };
    if a >= b {
        return None;
    }
    proof {
        lemma_last_index_of(cand@, '}');
    }
    let cl = cand.len();
    assert(b < cl);
    let sub = sub_chars(&cand, a, b + 1);
    if parses(&sub) {
        Some(string_from_chars(sub.as_slice()))
    } else {
        None
    }
}

// ---------------------------------------------------------------------------
// Reading plot answers
// ---------------------------------------------------------------------------
/// The texts of a list, trimmed, keeping only the strings that are not empty
/// once trimmed.
pub open spec fn kept_items(items: Seq<Option<Seq<char>>>) -> Seq<Seq<char>>
    decreases items.len(),
{
    if items.len() == 0 {
        Seq::empty()
    } else {
        let rest = kept_items(items.drop_last());
        match items.last() {
            Some(t) => if trim_spec(t).len() > 0 {
                rest.push(trim_spec(t))
            } else {
                rest
            },
            None => rest,
        }
    }
}

/// The kept items of an array, or none when there is no array.
pub open spec fn items_or_empty(o: Option<Seq<Option<Seq<char>>>>) -> Seq<Seq<char>> {
    match o {
        Some(items) => kept_items(items),
        None => Seq::empty(),
    }
}

/// A string, or the empty string when absent.
pub open spec fn str_or_empty(o: Option<Seq<char>>) -> Seq<char> {
    match o {
        Some(t) => t,
        None => Seq::empty(),
    }
}

/// An optional string, trimmed.
pub open spec fn trimmed_opt(o: Option<Seq<char>>) -> Option<Seq<char>> {
    match o {
        Some(t) => Some(trim_spec(t)),
        None => None,
    }
}

/// A chapter segment with its texts as character sequences.
pub struct SegmentView {
    pub text: Seq<char>,
    pub needs_player_input: bool,
    pub chapter_end: bool,
    pub chapter_title: Option<Seq<char>>,
    pub chapter_summary: Option<Seq<char>>,
    pub options: Seq<Seq<char>>,
}

/// The view of a chapter segment.
pub open spec fn segment_view(s: ChapterSegment) -> SegmentView {
    SegmentView {
        text: s.text@,
        needs_player_input: s.needs_player_input,
        chapter_end: s.chapter_end,
        chapter_title: opt_view(s.chapter_title),
        chapter_summary: opt_view(s.chapter_summary),
        options: string_views(s.options@),
    }
}

/// The segment a JSON document describes, when its `segment_text` is not
/// blank; missing flags are false.
pub open spec fn segment_from_json(c: Seq<char>) -> Option<SegmentView> {
    let text = trim_spec(str_or_empty(json_str_at(c, "/segment_text"@)));
    if text.len() == 0 {
        None
    } else {
        Some(
            SegmentView {
                text,
                needs_player_input: match json_bool_at(c, "/needs_player_input"@) {
                    Some(b) => b,
                    None => false,
                },
                chapter_end: match json_bool_at(c, "/chapter_end"@) {
                    Some(b) => b,
                    None => false,
                },
                chapter_title: trimmed_opt(json_str_at(c, "/chapter_title"@)),
                chapter_summary: trimmed_opt(json_str_at(c, "/chapter_summary"@)),
                options: items_or_empty(json_str_items_at(c, "/options"@)),
            },
        )
    }
}

/// The segment read from a model answer: nothing from a blank answer; else
/// from its JSON document; else from its fields read off the text (a missing
/// input flag then asks for input); else the whole answer as plain text.
pub open spec fn segment_from_answer(raw: Seq<char>) -> Option<SegmentView> {
    if trim_spec(raw).len() == 0 {
        None
    } else {
        let from_json = match json_candidate_spec(raw) {
            Some(c) => segment_from_json(c),
            None => None,
        };
        match from_json {
            Some(v) => Some(v),
            None => match string_field_raw(raw, "segment_text"@) {
                Some(t) => Some(
                    SegmentView {
                        text: t,
                        needs_player_input: match bool_field_raw(raw, "needs_player_input"@) {
                            Some(b) => b,
                            None => true,
                        },
                        chapter_end: match bool_field_raw(raw, "chapter_end"@) {
                            Some(b) => b,
                            None => false,
                        },
                        chapter_title: string_field_raw(raw, "chapter_title"@),
                        chapter_summary: string_field_raw(raw, "chapter_summary"@),
                        options: options_raw(raw),
                    },
                ),
                None => Some(
                    SegmentView {
                        text: trim_spec(raw),
                        needs_player_input: true,
                        chapter_end: false,
                        chapter_title: None,
                        chapter_summary: None,
                        options: Seq::empty(),
                    },
                ),
            },
        }
    }
}

/// The string items, trimmed, with blank ones dropped.
fn kept_items_exec(items: &Vec<Option<String>>) -> (r: Vec<String>)
    ensures
        string_views(r@) == kept_items(opt_string_views(items@)),
{
    let ghost all = opt_string_views(items@);
    let mut r: Vec<String> = Vec::new();
    let mut i: usize = 0;
    assert(string_views(r@) =~= kept_items(all.take(0)));
    while i < items.len()
        invariant
            i <= items@.len(),
            all == opt_string_views(items@),
            string_views(r@) == kept_items(all.take(i as int)),
        decreases items@.len() - i,
    {
        assert(all.take(i + 1).drop_last() =~= all.take(i as int));
        match &items[i] {
            Some(t) => {
                let tt = trim(t.as_str());
                if !tt.as_str().is_empty() {
                    let ghost before = r@;
                    r.push(tt);
                    assert(string_views(r@) =~= string_views(before).push(tt@));
                }
            },
            None => {},
        }
        i = i + 1;
    }
    assert(all.take(items@.len() as int) =~= all);
    r
}

/// The kept items of a list, or none when there is no list.
fn items_or_empty_exec(o: Option<Vec<Option<String>>>) -> (r: Vec<String>)
    ensures
        string_views(r@) == items_or_empty(
            match o {
                Some(v) => Some(opt_string_views(v@)),
                None => None,
            },
        ),
{
    match o {
        Some(v) => kept_items_exec(&v),
        None => {
            let e: Vec<String> = Vec::new();
            assert(string_views(e@) =~= Seq::<Seq<char>>::empty());
            e
        },
    }
}

/// An optional string, trimmed.
fn trimmed_opt_exec(o: Option<String>) -> (r: Option<String>)
    ensures
        opt_view(r) == trimmed_opt(opt_view(o)),
{
    match o {
        Some(t) => Some(trim(t.as_str())),
        None => None,
    }
}

/// The segment read from a JSON document, if it has text.
fn segment_from_json_exec(c: &str) -> (r: Option<ChapterSegment>)
    ensures
        match r {
            Some(s) => segment_from_json(c@) == Some(segment_view(s)),
            None => segment_from_json(c@) is None,
        },
{
    let text = match json_pointer_str(c, "/segment_text") {
        Some(t) => trim(t.as_str()),
        None => trim(""),
    };
    proof {
        reveal_strlit("");
    }
    if text.as_str().is_empty() {
        return None;
    }
    let needs = match json_pointer_bool(c, "/needs_player_input") {
        Some(b) => b,
        None => false,
    };
    let end = match json_pointer_bool(c, "/chapter_end") {
        Some(b) => b,
        None => false,
    };
    let title = trimmed_opt_exec(json_pointer_str(c, "/chapter_title"));
    let summary = trimmed_opt_exec(json_pointer_str(c, "/chapter_summary"));
    let options = items_or_empty_exec(json_pointer_str_items(c, "/options"));
    Some(
        ChapterSegment {
            text,
            needs_player_input: needs,
            chapter_end: end,
            chapter_title: title,
            chapter_summary: summary,
            options,
        },
    )
}

/// Reads a chapter segment out of a model answer.
pub fn parse_segment_answer(raw: &str) -> (r: Option<ChapterSegment>)
    ensures
        match r {
            Some(s) => segment_from_answer(raw@) == Some(segment_view(s)),
            None => segment_from_answer(raw@) is None,
        },
{
    if is_blank(raw) {
        return None;
    }
    match json_candidate(raw) {
        Some(c) => match segment_from_json_exec(c.as_str()) {
            Some(seg) => {
                return Some(seg);
            },
            None => {},
        },
        None => {},
    }
    match extract_string_field_raw(raw, "segment_text") {
        Some(t) => {
            let needs = match extract_bool_field_raw(raw, "needs_player_input") {
                Some(b) => b,
                None => true,
            };
            let end = match extract_bool_field_raw(raw, "chapter_end") {
                Some(b) => b,
                None => false,
            };
            let title = extract_string_field_raw(raw, "chapter_title");
            let summary = extract_string_field_raw(raw, "chapter_summary");
            let options = extract_options_field_raw(raw);
            Some(
                ChapterSegment {
                    text: t,
                    needs_player_input: needs,
                    chapter_end: end,
                    chapter_title: title,
                    chapter_summary: summary,
                    options,
                },
            )
        },
        None => {
            let e: Vec<String> = Vec::new();
            assert(string_views(e@) =~= Seq::<Seq<char>>::empty());
            Some(
                ChapterSegment {
                    text: trim(raw),
                    needs_player_input: true,
                    chapter_end: false,
                    chapter_title: None,
                    chapter_summary: None,
                    options: e,
                },
            )
        },
    }
}

/// The opening text a JSON document describes: its `segment_text`, else its
/// `scene` followed, after a blank line, by its `current_status`.
pub open spec fn opening_text_from_json(c: Seq<char>) -> Seq<char> {
    let text = trim_spec(str_or_empty(json_str_at(c, "/segment_text"@)));
    if text.len() > 0 {
        text
    } else {
        let scene = trim_spec(str_or_empty(json_str_at(c, "/scene"@)));
        let status = trim_spec(str_or_empty(json_str_at(c, "/current_status"@)));
        if scene.len() > 0 || status.len() > 0 {
            scene + if status.len() == 0 {
                Seq::empty()
            } else {
                "\n\n"@ + status
            }
        } else {
            text
        }
    }
}

/// The options of an opening JSON document: those under `options` when that
/// key is there at all, else those under `action_choices`.
pub open spec fn opening_options_from_json(c: Seq<char>) -> Seq<Seq<char>> {
    if json_present_at(c, "/options"@) {
        items_or_empty(json_str_items_at(c, "/options"@))
    } else {
        items_or_empty(json_str_items_at(c, "/action_choices"@))
    }
}

/// The opening read from a model answer, as text and options: nothing from a
/// blank answer; else from its JSON document when that yields text; else
/// from its fields read off the text; else the whole answer as plain text.
pub open spec fn opening_from_answer(raw: Seq<char>) -> Option<(Seq<char>, Seq<Seq<char>>)> {
    if trim_spec(raw).len() == 0 {
        None
    } else {
        let from_json = match json_candidate_spec(raw) {
            Some(c) => if opening_text_from_json(c).len() > 0 {
                Some((opening_text_from_json(c), opening_options_from_json(c)))
            } else {
                None
            },
            None => None,
        };
        match from_json {
            Some(v) => Some(v),
            None => match string_field_raw(raw, "segment_text"@) {
                Some(t) => Some((t, options_raw(raw))),
                None => Some((trim_spec(raw), Seq::empty())),
            },
        }
    }
}

/// An optional string trimmed, or empty.
fn str_or_empty_trimmed(o: Option<String>) -> (r: String)
    ensures
        r@ == trim_spec(str_or_empty(opt_view(o))),
{
    match o {
        Some(t) => trim(t.as_str()),
        None => {
            proof {
                reveal_strlit("");
            }
            trim("")
        },
    }
}

/// The opening read from a JSON document, if it has text.
fn opening_from_json_exec(c: &str) -> (r: Option<OpeningPlot>)
    ensures
        match r {
            Some(o) => opening_text_from_json(c@).len() > 0 && o.text@ == opening_text_from_json(c@)
                && string_views(o.options@) == opening_options_from_json(c@),
            None => opening_text_from_json(c@).len() == 0,
        },
{
    let mut text = str_or_empty_trimmed(json_pointer_str(c, "/segment_text"));
    if text.as_str().is_empty() {
        let scene = str_or_empty_trimmed(json_pointer_str(c, "/scene"));
        let status = str_or_empty_trimmed(json_pointer_str(c, "/current_status"));
        if !scene.as_str().is_empty() || !status.as_str().is_empty() {
            let mut t = scene;
            if !status.as_str().is_empty() {
                append_str(&mut t, "\n\n");
                append_str(&mut t, status.as_str());
            } else {
                assert(t@ + Seq::<char>::empty() =~= t@);
            }
            text = t;
        }
    }
    if text.as_str().is_empty() {
        return None;
    }
    let options = if json_pointer_present(c, "/options") {
        items_or_empty_exec(json_pointer_str_items(c, "/options"))
    } else {
        items_or_empty_exec(json_pointer_str_items(c, "/action_choices"))
    };
    Some(OpeningPlot { text, options })
}

/// Reads the opening text and options out of a model answer.
pub fn parse_opening_answer(raw: &str) -> (r: Option<OpeningPlot>)
    ensures
        match r {
            Some(o) => opening_from_answer(raw@) == Some((o.text@, string_views(o.options@))),
            None => opening_from_answer(raw@) is None,
        },
{
    if is_blank(raw) {
        return None;
    }
    match json_candidate(raw) {
        Some(c) => match opening_from_json_exec(c.as_str()) {
            Some(o) => {
                return Some(o);
            },
            None => {},
        },
        None => {},
    }
    match extract_string_field_raw(raw, "segment_text") {
        Some(t) => {
            let options = extract_options_field_raw(raw);
            Some(OpeningPlot { text: t, options })
        },
        None => {
            let e: Vec<String> = Vec::new();
            assert(string_views(e@) =~= Seq::<Seq<char>>::empty());
            Some(OpeningPlot { text: trim(raw), options: e })
        },
    }
}

// ---------------------------------------------------------------------------
// Asking with one retry
// ---------------------------------------------------------------------------
/// `r` is what a model answer reads as: the segment it holds, or none.
pub open spec fn segment_read(raw: Seq<char>, r: Option<ChapterSegment>) -> bool {
    match r {
        Some(s) => segment_from_answer(raw) == Some(segment_view(s)),
        None => segment_from_answer(raw) is None,
    }
}

/// `r` is what a model answer reads as: the opening it holds, or none.
pub open spec fn opening_read(raw: Seq<char>, r: Option<OpeningPlot>) -> bool {
    match r {
        Some(o) => opening_from_answer(raw) == Some((o.text@, string_views(o.options@))),
        None => opening_from_answer(raw) is None,
    }
}

/// What follows a request for model-written text.
pub enum AskStep<T> {
    /// The request failed: send the retry request.
    SendRetry,
    /// Finished, with what the answer holds, if anything.
    Done(Option<T>),
}

/// Decides what follows the chapter-segment request numbered `attempt` (1
/// for the first request, 2 for the retry), given its answer or `None` when
/// the request failed: an answer is read and ends the step; a failed first
/// request is retried once; a failed retry gives up with no segment. Nothing
/// else is ever sent.
pub fn segment_step(attempt: u8, outcome: Option<String>) -> (s: AskStep<ChapterSegment>)
    ensures
        match outcome {
            Some(raw) => s matches AskStep::Done(r) && segment_read(raw@, r),
            None => if attempt <= 1 {
                s is SendRetry
            } else {
                s matches AskStep::Done(None)
            },
        },
{
    match outcome {
        Some(raw) => AskStep::Done(parse_segment_answer(raw.as_str())),
        None => if attempt <= 1 {
            AskStep::SendRetry
        } else {
            AskStep::Done(None)
        },
    }
}

/// Decides what follows the opening request numbered `attempt`, as
/// `segment_step` does for chapter segments.
pub fn opening_step(attempt: u8, outcome: Option<String>) -> (s: AskStep<OpeningPlot>)
    ensures
        match outcome {
            Some(raw) => s matches AskStep::Done(r) && opening_read(raw@, r),
            None => if attempt <= 1 {
                s is SendRetry
            } else {
                s matches AskStep::Done(None)
            },
        },
{
    match outcome {
        Some(raw) => AskStep::Done(parse_opening_answer(raw.as_str())),
        None => if attempt <= 1 {
            AskStep::SendRetry
        } else {
            AskStep::Done(None)
        },
    }
}

/// A JSON answer is usable: not blank, and well-formed JSON.
pub open spec fn usable_json(raw: Seq<char>) -> bool {
    trim_spec(raw).len() > 0 && json_parse_outcome(raw) is Ok
}

/// Whether a JSON answer is usable.
pub(crate) fn usable_json_exec(raw: &str) -> (r: bool)
    ensures
        r == usable_json(raw@),
{
    if is_blank(raw) {
        return false;
    }
    match parse_json(raw) {
        Ok(_) => true,
        Err(_) => false,
    }
}

/// The action a model answer names: `cultivate`, `rest`, `breakthrough`,
/// `combat` (against `target`, else `unknown`) or `custom` (described by
/// `description`, else the player's own words), matched in ASCII lower case.
pub open spec fn action_from_answer(raw: Seq<char>, free_text: Seq<char>) -> Option<ActionView> {
    if !usable_json(raw) {
        None
    } else {
        match json_str_at(raw, "/action"@) {
            None => None,
            Some(name) => {
                let l = ascii_lower_spec(name);
                if l == "cultivate"@ {
                    Some(ActionView::Cultivate)
                } else if l == "rest"@ {
                    Some(ActionView::Rest)
                } else if l == "breakthrough"@ {
                    Some(ActionView::Breakthrough)
                } else if l == "combat"@ {
                    Some(
                        ActionView::Combat(
                            match json_str_at(raw, "/target"@) {
                                Some(t) => t,
                                None => "unknown"@,
                            },
                        ),
                    )
                } else if l == "custom"@ {
                    Some(
                        ActionView::Custom(
                            match json_str_at(raw, "/description"@) {
                                Some(d) => d,
                                None => free_text,
                            },
                        ),
                    )
                } else {
                    None
                }
            },
        }
    }
}

/// The name of an action's kind.
pub open spec fn action_kind(a: ActionView) -> Seq<char> {
    match a {
        ActionView::Cultivate => "cultivate"@,
        ActionView::Combat(_) => "combat"@,
        ActionView::Breakthrough => "breakthrough"@,
        ActionView::Rest => "rest"@,
        ActionView::Custom(_) => "custom"@,
    }
}

/// A name of an action kind.
pub open spec fn names_an_action(l: Seq<char>) -> bool {
    l == "cultivate"@ || l == "combat"@ || l == "breakthrough"@ || l == "rest"@ || l == "custom"@
}

/// A model answer is read as the action it names: the action read is of the
/// kind the answer's `action` names in ASCII lower case, a combat is against
/// the answer's `target` (else `unknown`), a custom action carries the
/// answer's `description` (else the player's words); and an answer is read
/// exactly when it is usable JSON whose `action` names one of the kinds.
pub proof fn action_answer_names_the_action(raw: Seq<char>, free_text: Seq<char>)
    ensures
        match action_from_answer(raw, free_text) {
            Some(a) => usable_json(raw) && match json_str_at(raw, "/action"@) {
                Some(name) => action_kind(a) == ascii_lower_spec(name),
                None => false,
            },
            None => !usable_json(raw) || match json_str_at(raw, "/action"@) {
                Some(name) => !names_an_action(ascii_lower_spec(name)),
                None => true,
            },
        },
        action_from_answer(raw, free_text) matches Some(ActionView::Combat(t)) ==> t == match json_str_at(
            raw,
            "/target"@,
        ) {
            Some(x) => x,
            None => "unknown"@,
        },
        action_from_answer(raw, free_text) matches Some(ActionView::Custom(d)) ==> d == match json_str_at(
            raw,
            "/description"@,
        ) {
            Some(x) => x,
            None => free_text,
        },
{
}

/// Reads the action that a model answer makes of the player's free text.
pub fn parse_action_answer(raw: &str, free_text: &str) -> (r: Option<Action>)
    ensures
        match r {
            Some(a) => action_from_answer(raw@, free_text@) == Some(a@),
            None => action_from_answer(raw@, free_text@) is None,
        },
{
    if !usable_json_exec(raw) {
        return None;
    }
    let name = match json_pointer_str(raw, "/action") {
        None => {
            return None;
        },
        Some(n) => n,
    };
    let l = to_ascii_lowercase(name.as_str());
    if str_eq(l.as_str(), "cultivate") {
        Some(Action::Cultivate)
    } else if str_eq(l.as_str(), "rest") {
        Some(Action::Rest)
    } else if str_eq(l.as_str(), "breakthrough") {
        Some(Action::Breakthrough)
    } else if str_eq(l.as_str(), "combat") {
        let target = match json_pointer_str(raw, "/target") {
            Some(t) => t,
            None => "unknown".to_string(),
        };
        Some(Action::Combat { target_id: target })
    } else if str_eq(l.as_str(), "custom") {
        let description = match json_pointer_str(raw, "/description") {
            Some(d) => d,
            None => free_text.to_string(),
        };
        Some(Action::Custom { description })
    } else {
        None
    }
}

/// The verdict a model answer gives on a free-text action: whether it is
/// reasonable, and why (a stock reason when none is given).
pub open spec fn verdict_from_answer(raw: Seq<char>) -> Option<(bool, Seq<char>)> {
    if !usable_json(raw) {
        None
    } else {
        match json_bool_at(raw, "/reasonable"@) {
            None => None,
            Some(b) => Some(
                (
                    b,
                    match json_str_at(raw, "/reason"@) {
                        Some(r) => r,
                        None => "未提供原因"@,
                    },
                ),
            ),
        }
    }
}

/// Reads a reasonableness verdict out of a model answer.
pub fn parse_verdict_answer(raw: &str) -> (r: Option<(bool, String)>)
    ensures
        match r {
            Some((b, why)) => verdict_from_answer(raw@) == Some((b, why@)),
            None => verdict_from_answer(raw@) is None,
        },
{
    if !usable_json_exec(raw) {
        return None;
    }
    let b = match json_pointer_bool(raw, "/reasonable") {
        None => {
            return None;
        },
        Some(b) => b,
    };
    let reason = match json_pointer_str(raw, "/reason") {
        Some(r) => r,
        None => "未提供原因".to_string(),
    };
    Some((b, reason))
}

/// The text of a plain-text answer: the answer trimmed, when not blank.
pub open spec fn plain_text_answer(raw: Seq<char>) -> Option<Seq<char>> {
    if trim_spec(raw).len() == 0 {
        None
    } else {
        Some(trim_spec(raw))
    }
}

/// Reads a plain-text answer.
pub fn parse_plain_text_answer(raw: &str) -> (r: Option<String>)
    ensures
        opt_view(r) == plain_text_answer(raw@),
{
    let t = trim(raw);
    if t.as_str().is_empty() {
        None
    } else {
        Some(t)
    }
}

} // verus!
