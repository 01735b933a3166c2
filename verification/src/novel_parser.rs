//! Reading an existing novel: its characters, places, key events and world
//! summary, by simple line rules, and the model request that may refine them.
use crate::plot_llm::{usable_json, usable_json_exec};
use crate::plot_requests::{
    constraints_are, context_is, no_history, one_rule, push_item, render_request, rendered,
    rules3, PlotRequest,
};
use crate::prompt_builder::{PromptBuilder, PromptConstraints, PromptContext, PromptTemplate};
use crate::response_validator::{
    json_pointer_str, json_pointer_str_items, json_str_at, json_str_items_at, opt_string_views,
};
use crate::text::{
    append_str, chars_of, contains, contains_spec, opt_view, starts_with, starts_with_spec,
    string_from_chars, string_views, take_chars, prefix_chars, trim, trim_spec, is_blank,
};
use vstd::prelude::*;

verus! {

broadcast use vstd::seq_lib::group_seq_lib_default;

/// What was learnt about a novel.
#[derive(Debug, Clone, PartialEq, Eq)]
pub struct ParsedNovelData {
    pub title: String,
    pub world_summary: String,
    pub characters: Vec<String>,
    pub locations: Vec<String>,
    pub key_events: Vec<String>,
}

// ---------------------------------------------------------------------------
// Lines
// ---------------------------------------------------------------------------
/// The first line break at or after `i`, or the length when there is none.
pub open spec fn line_end_from(s: Seq<char>, i: int) -> int
    decreases s.len() - i,
{
    if i < 0 || i >= s.len() {
        s.len() as int
    } else if s[i] == '\n' {
        i
    } else {
        line_end_from(s, i + 1)
    }
}

/// Where the next line break lies.
pub proof fn lemma_line_end(s: Seq<char>, i: int)
    requires
        0 <= i <= s.len(),
    ensures
        i <= line_end_from(s, i) <= s.len(),
        line_end_from(s, i) < s.len() ==> s[line_end_from(s, i)] == '\n',
    decreases s.len() - i,
{
    if i < s.len() && s[i] != '\n' {
        lemma_line_end(s, i + 1);
    }
}

/// A line as `str::lines` yields it: a line ended by a line break loses a
/// carriage return just before the break.
pub open spec fn line_text(s: Seq<char>, i: int, e: int) -> Seq<char> {
    if e < s.len() && e > i && s[e - 1] == '\r' {
        s.subrange(i, e - 1)
    } else {
        s.subrange(i, e)
    }
}

/// The lines of `s` from position `i` on (what `str::lines` yields): split
/// at line breaks, with no empty line after a final break.
pub open spec fn lines_from(s: Seq<char>, i: int) -> Seq<Seq<char>>
    decreases s.len() - i,
{
    if i < 0 || i >= s.len() {
        Seq::empty()
    } else {
        let e = line_end_from(s, i);
        proof {
            lemma_line_end(s, i);
        }
        if e >= s.len() {
            seq![line_text(s, i, e)]
        } else {
            seq![line_text(s, i, e)] + lines_from(s, e + 1)
        }
    }
}

/// The lines of a text.
pub open spec fn lines_spec(s: Seq<char>) -> Seq<Seq<char>> {
    lines_from(s, 0)
}

/// The end of the line starting at `i`.
fn line_end(v: &Vec<char>, i: usize) -> (e: usize)
    requires
        i <= v@.len(),
    ensures
        e == line_end_from(v@, i as int),
{
    let mut j = i;
    while j < v.len() && v[j] != '\n'
        invariant
            i <= j <= v@.len(),
            line_end_from(v@, i as int) == line_end_from(v@, j as int),
        decreases v@.len() - j,
    {
        j = j + 1;
    }
    j
}

/// The lines of a text, as `str::lines` yields them.
pub fn split_lines(s: &str) -> (r: Vec<String>)
    ensures
        string_views(r@) == lines_spec(s@),
{
    let v = chars_of(s);
    let n = v.len();
    let mut out: Vec<String> = Vec::new();
    let mut i: usize = 0;
    assert(string_views(out@) =~= Seq::<Seq<char>>::empty());
    while i < n
        invariant
            n == v@.len(),
            v@ == s@,
            i <= n,
            lines_spec(v@) == string_views(out@) + lines_from(v@, i as int),
        decreases n - i,
    {
        let e = line_end(&v, i);
        proof {
            lemma_line_end(v@, i as int);
        }
        let stop = if e < n && e > i && v[e - 1] == '\r' {
            e - 1
        } else {
            e
        };
        let line = string_from_chars(&v.as_slice()[i..stop]);
        let ghost before = out@;
        out.push(line);
        assert(string_views(out@) =~= string_views(before).push(line@));
        if e >= n {
            assert(lines_from(v@, i as int) == seq![line@]);
            assert(lines_from(v@, n as int) == Seq::<Seq<char>>::empty());
            assert(string_views(before) + seq![line@] =~= string_views(before).push(line@)
                + lines_from(v@, n as int));
            i = n;
        } else {
            assert(lines_from(v@, i as int) == seq![line@] + lines_from(v@, e + 1));
            assert(string_views(before) + (seq![line@] + lines_from(v@, e + 1)) =~= string_views(
                before,
            ).push(line@) + lines_from(v@, e + 1));
            i = e + 1;
        }
    }
    assert(lines_from(v@, i as int) == Seq::<Seq<char>>::empty());
    assert(string_views(out@) + Seq::<Seq<char>>::empty() =~= string_views(out@));
    out
}

// ---------------------------------------------------------------------------
// Named items
// ---------------------------------------------------------------------------
/// The item a line names after `prefix`: the trimmed line must start with
/// the prefix, and what follows, trimmed, must not be empty.
pub open spec fn named_item(line: Seq<char>, prefix: Seq<char>) -> Option<Seq<char>> {
    let t = trim_spec(line);
    if starts_with_spec(t, prefix) && trim_spec(t.subrange(prefix.len() as int, t.len() as int)).len()
        > 0 {
        Some(trim_spec(t.subrange(prefix.len() as int, t.len() as int)))
    } else {
        None
    }
}

/// The items named after `prefix`, line by line.
pub open spec fn named_items(lines: Seq<Seq<char>>, prefix: Seq<char>) -> Seq<Seq<char>>
    decreases lines.len(),
{
    if lines.len() == 0 {
        Seq::empty()
    } else {
        let rest = named_items(lines.drop_last(), prefix);
        match named_item(lines.last(), prefix) {
            Some(x) => rest.push(x),
            None => rest,
        }
    }
}

/// The name on a line that starts with the prefix, if any.
fn named_item_exec(line: &str, prefix: &str) -> (r: Option<String>)
    ensures
        opt_view(r) == named_item(line@, prefix@),
{
    let t = trim(line);
    if !starts_with(t.as_str(), prefix) {
        return None;
    }
    let v = chars_of(t.as_str());
    let p = chars_of(prefix);
    proof {
        assert(crate::text::occurs_at(t@, prefix@, 0));
    }
    let rest = string_from_chars(&v.as_slice()[p.len()..v.len()]);
    let item = trim(rest.as_str());
    if item.as_str().is_empty() {
        None
    } else {
        Some(item)
    }
}

/// The items that lines name after a prefix such as `Character:`.
pub fn extract_named_items(content: &str, prefix: &str) -> (r: Vec<String>)
    ensures
        string_views(r@) == named_items(lines_spec(content@), prefix@),
{
    let lines = split_lines(content);
    let ghost ls = lines_spec(content@);
    let mut out: Vec<String> = Vec::new();
    let mut i: usize = 0;
    assert(string_views(out@) =~= named_items(ls.take(0), prefix@));
    while i < lines.len()
        invariant
            i <= lines@.len(),
            string_views(lines@) == ls,
            string_views(out@) == named_items(ls.take(i as int), prefix@),
        decreases lines@.len() - i,
    {
        assert(ls.take(i + 1).drop_last() =~= ls.take(i as int));
        assert(ls.take(i + 1).last() == lines@[i as int]@);
        match named_item_exec(lines[i].as_str(), prefix) {
            Some(x) => {
                let ghost before = out@;
                out.push(x);
                assert(string_views(out@) =~= string_views(before).push(x@));
            },
            None => {},
        }
        i = i + 1;
    }
    assert(ls.take(lines@.len() as int) =~= ls);
    out
}

// ---------------------------------------------------------------------------
// Ordered distinct lists
// ---------------------------------------------------------------------------
/// Lexicographic order of character sequences (the order of `String`).
pub open spec fn lex_lt(a: Seq<char>, b: Seq<char>) -> bool
    decreases a.len(),
{
    if a.len() == 0 {
        b.len() > 0
    } else if b.len() == 0 {
        false
    } else if a[0] != b[0] {
        a[0] < b[0]
    } else {
        lex_lt(a.drop_first(), b.drop_first())
    }
}

/// No text comes before itself.
proof fn lemma_lex_irreflexive(a: Seq<char>)
    ensures
        !lex_lt(a, a),
    decreases a.len(),
{
    if a.len() > 0 {
        lemma_lex_irreflexive(a.drop_first());
    }
}

/// Text order is transitive.
proof fn lemma_lex_transitive(a: Seq<char>, b: Seq<char>, c: Seq<char>)
    requires
        lex_lt(a, b),
        lex_lt(b, c),
    ensures
        lex_lt(a, c),
    decreases a.len(),
{
    if a.len() > 0 && b.len() > 0 && c.len() > 0 && a[0] == b[0] && b[0] == c[0] {
        lemma_lex_transitive(a.drop_first(), b.drop_first(), c.drop_first());
    }
}

/// Of two different texts one comes before the other.
proof fn lemma_lex_total(a: Seq<char>, b: Seq<char>)
    requires
        a != b,
    ensures
        lex_lt(a, b) || lex_lt(b, a),
    decreases a.len(),
{
    if a.len() > 0 && b.len() > 0 && a[0] == b[0] {
        if a.drop_first() == b.drop_first() {
            assert(a =~= seq![a[0]] + a.drop_first());
            assert(b =~= seq![b[0]] + b.drop_first());
        }
        lemma_lex_total(a.drop_first(), b.drop_first());
    } else if a.len() == 0 && b.len() == 0 {
        assert(a =~= b);
    }
}

/// `s` is in strictly increasing order, so without repeats.
pub open spec fn strictly_sorted(s: Seq<Seq<char>>) -> bool {
    forall|i: int, j: int| 0 <= i < j < s.len() ==> lex_lt(#[trigger] s[i], #[trigger] s[j])
}

/// Whether `a` comes before `b` in text order.
fn lex_less(a: &Vec<char>, b: &Vec<char>) -> (r: bool)
    ensures
        r == lex_lt(a@, b@),
{
    let mut i: usize = 0;
    assert(a@.subrange(0, a@.len() as int) =~= a@);
    assert(b@.subrange(0, b@.len() as int) =~= b@);
    while i < a.len() && i < b.len() && a[i] == b[i]
        invariant
            i <= a@.len(),
            i <= b@.len(),
            lex_lt(a@, b@) == lex_lt(
                a@.subrange(i as int, a@.len() as int),
                b@.subrange(i as int, b@.len() as int),
            ),
        decreases a@.len() - i,
    {
        let ghost sa = a@.subrange(i as int, a@.len() as int);
        let ghost sb = b@.subrange(i as int, b@.len() as int);
        assert(sa.drop_first() =~= a@.subrange(i + 1, a@.len() as int));
        assert(sb.drop_first() =~= b@.subrange(i + 1, b@.len() as int));
        i = i + 1;
    }
    let ghost sa = a@.subrange(i as int, a@.len() as int);
    let ghost sb = b@.subrange(i as int, b@.len() as int);
    if i == a.len() {
        i < b.len()
    } else if i == b.len() {
        false
    } else {
        assert(sa[0] == a@[i as int] && sb[0] == b@[i as int]);
        a[i] < b[i]
    }
}

/// Adds `x` to a strictly sorted list, unless it is there already.
fn insert_sorted(list: &mut Vec<String>, x: String)
    requires
        strictly_sorted(string_views(old(list)@)),
    ensures
        strictly_sorted(string_views(final(list)@)),
        forall|y: Seq<char>| #[trigger] string_views(final(list)@).contains(y) <==> (string_views(
            old(list)@,
        ).contains(y) || y == x@),
{
    let xv = chars_of(x.as_str());
    let ghost old_v = string_views(list@);
    let mut p: usize = 0;
    while p < list.len()
        invariant
            p <= list@.len(),
            string_views(list@) == old_v,
            xv@ == x@,
            forall|k: int| 0 <= k < p ==> lex_lt(#[trigger] old_v[k], x@),
        ensures
            p <= list@.len(),
            string_views(list@) == old_v,
            forall|k: int| 0 <= k < p ==> lex_lt(#[trigger] old_v[k], x@),
            p < list@.len() ==> !lex_lt(old_v[p as int], x@),
        decreases list@.len() - p,
    {
        let cur = chars_of(list[p].as_str());
        if !lex_less(&cur, &xv) {
            break;
        }
        p = p + 1;
    }
    if p < list.len() {
        let cur = chars_of(list[p].as_str());
        if !lex_less(&xv, &cur) {
            proof {
                if old_v[p as int] != x@ {
                    lemma_lex_total(old_v[p as int], x@);
                }
            }
            assert(old_v[p as int] == x@);
            assert forall|y: Seq<char>| #[trigger] old_v.contains(y) <==> (old_v.contains(y) || y
                == x@) by {
                if y == x@ {
                    assert(old_v[p as int] == y);
                }
            }
            return;
        }
    }
    proof {
        assert forall|k: int| p <= k < old_v.len() implies lex_lt(x@, #[trigger] old_v[k]) by {
            if p < old_v.len() {
                assert(!lex_lt(old_v[p as int], x@));
                if k > p {
                    assert(lex_lt(old_v[p as int], old_v[k]));
                }
                if old_v[p as int] != x@ {
                    lemma_lex_total(old_v[p as int], x@);
                }
                if k > p {
                    lemma_lex_transitive(x@, old_v[p as int], old_v[k]);
                }
            }
        }
    }
    list.insert(p, x);
    proof {
        let nv = string_views(list@);
        assert(nv =~= old_v.insert(p as int, x@));
        assert forall|a: int, b: int| 0 <= a < b < nv.len() implies lex_lt(
            #[trigger] nv[a],
            #[trigger] nv[b],
        ) by {
            if b < p {
            } else if b == p {
            } else if a < p {
                assert(nv[b] == old_v[b - 1]);
                lemma_lex_transitive(old_v[a], x@, old_v[b - 1]);
            } else if a == p {
                assert(nv[b] == old_v[b - 1]);
            } else {
                assert(nv[a] == old_v[a - 1]);
                assert(nv[b] == old_v[b - 1]);
            }
        }
        assert forall|y: Seq<char>| #[trigger] nv.contains(y) <==> (old_v.contains(y) || y == x@) by {
            if nv.contains(y) {
                let k = choose|k: int| 0 <= k < nv.len() && nv[k] == y;
                if k < p {
                    assert(old_v[k] == y);
                } else if k > p {
                    assert(old_v[k - 1] == y);
                }
            }
            if old_v.contains(y) {
                let k = choose|k: int| 0 <= k < old_v.len() && old_v[k] == y;
                if k < p {
                    assert(nv[k] == y);
                } else {
                    assert(nv[k + 1] == y);
                }
            }
            if y == x@ {
                assert(nv[p as int] == y);
            }
        }
    }
}

/// The distinct items of two lists in increasing order (what collecting
/// both into an ordered set gives).
pub fn sorted_union(a: &Vec<String>, b: &Vec<String>) -> (r: Vec<String>)
    ensures
        strictly_sorted(string_views(r@)),
        forall|y: Seq<char>| #[trigger] string_views(r@).contains(y) <==> (string_views(a@).contains(
            y,
        ) || string_views(b@).contains(y)),
{
    let mut out: Vec<String> = Vec::new();
    let mut i: usize = 0;
    assert(string_views(out@) =~= Seq::<Seq<char>>::empty());
    while i < a.len()
        invariant
            i <= a@.len(),
            strictly_sorted(string_views(out@)),
            forall|y: Seq<char>| #[trigger] string_views(out@).contains(y) <==> string_views(
                a@.take(i as int),
            ).contains(y),
        decreases a@.len() - i,
    {
        insert_sorted(&mut out, a[i].clone());
        proof {
            let t = string_views(a@.take(i + 1));
            assert(t =~= string_views(a@.take(i as int)).push(a@[i as int]@));
            assert forall|y: Seq<char>| #[trigger] t.contains(y) <==> (string_views(
                a@.take(i as int),
            ).contains(y) || y == a@[i as int]@) by {
                let s0 = string_views(a@.take(i as int));
                if t.contains(y) {
                    let k = choose|k: int| 0 <= k < t.len() && t[k] == y;
                    if k < s0.len() {
                        assert(s0[k] == y);
                    }
                }
                if s0.contains(y) {
                    let k = choose|k: int| 0 <= k < s0.len() && s0[k] == y;
                    assert(t[k] == y);
                }
                if y == a@[i as int]@ {
                    assert(t[i as int] == y);
                }
            }
        }
        i = i + 1;
    }
    assert(a@.take(a@.len() as int) =~= a@);
    let mut j: usize = 0;
    while j < b.len()
        invariant
            j <= b@.len(),
            strictly_sorted(string_views(out@)),
            forall|y: Seq<char>| #[trigger] string_views(out@).contains(y) <==> (string_views(
                a@,
            ).contains(y) || string_views(b@.take(j as int)).contains(y)),
        decreases b@.len() - j,
    {
        insert_sorted(&mut out, b[j].clone());
        proof {
            let t = string_views(b@.take(j + 1));
            let s0 = string_views(b@.take(j as int));
            assert(t =~= s0.push(b@[j as int]@));
            assert forall|y: Seq<char>| #[trigger] t.contains(y) <==> (s0.contains(y) || y
                == b@[j as int]@) by {
                if t.contains(y) {
                    let k = choose|k: int| 0 <= k < t.len() && t[k] == y;
                    if k < s0.len() {
                        assert(s0[k] == y);
                    }
                }
                if s0.contains(y) {
                    let k = choose|k: int| 0 <= k < s0.len() && s0[k] == y;
                    assert(t[k] == y);
                }
                if y == b@[j as int]@ {
                    assert(t[j as int] == y);
                }
            }
        }
        j = j + 1;
    }
    assert(b@.take(b@.len() as int) =~= b@);
    out
}

// ---------------------------------------------------------------------------
// Key events and world summary
// ---------------------------------------------------------------------------
/// Most key events kept.
pub const MAX_KEY_EVENTS: usize = 20;

/// A line tells of a key event: a battle, a breakthrough or a duel.
pub open spec fn is_key_event(l: Seq<char>) -> bool {
    contains_spec(l, "battle"@) || contains_spec(l, "breakthrough"@) || contains_spec(l, "duel"@)
        || contains_spec(l, "战"@) || contains_spec(l, "突破"@)
}

/// The key-event lines, trimmed, in order.
pub open spec fn all_key_events(lines: Seq<Seq<char>>) -> Seq<Seq<char>>
    decreases lines.len(),
{
    if lines.len() == 0 {
        Seq::empty()
    } else {
        let rest = all_key_events(lines.drop_last());
        if is_key_event(trim_spec(lines.last())) {
            rest.push(trim_spec(lines.last()))
        } else {
            rest
        }
    }
}

/// The first key events of a text, at most `MAX_KEY_EVENTS` of them.
pub open spec fn key_events_spec(content: Seq<char>) -> Seq<Seq<char>> {
    let all = all_key_events(lines_spec(content));
    if all.len() <= MAX_KEY_EVENTS {
        all
    } else {
        all.take(MAX_KEY_EVENTS as int)
    }
}

/// Key events are the lines that mention a battle, a breakthrough or a duel
/// (`battle`, `breakthrough`, `duel`, `战` or `突破`), trimmed, in the order
/// of the lines: one more line adds its trimmed text exactly when it mentions
/// one of them; every line that mentions one is among the key events and
/// every key event mentions one; a text keeps the first `MAX_KEY_EVENTS`.
pub proof fn key_events_are_the_lines_of_battles_and_breakthroughs(
    lines: Seq<Seq<char>>,
    line: Seq<char>,
    content: Seq<char>,
)
    ensures
        ({
            let t = trim_spec(line);
            let mentions = contains_spec(t, "battle"@) || contains_spec(t, "breakthrough"@)
                || contains_spec(t, "duel"@) || contains_spec(t, "战"@) || contains_spec(
                t,
                "突破"@,
            );
            all_key_events(lines.push(line)) == if mentions {
                all_key_events(lines).push(t)
            } else {
                all_key_events(lines)
            }
        }),
        forall|i: int|
            0 <= i < lines.len() && (contains_spec(trim_spec(#[trigger] lines[i]), "battle"@)
                || contains_spec(trim_spec(lines[i]), "breakthrough"@) || contains_spec(
                trim_spec(lines[i]),
                "duel"@,
            ) || contains_spec(trim_spec(lines[i]), "战"@) || contains_spec(
                trim_spec(lines[i]),
                "突破"@,
            )) ==> all_key_events(lines).contains(trim_spec(lines[i])),
        forall|j: int|
            0 <= j < all_key_events(lines).len() ==> ({
                let e = #[trigger] all_key_events(lines)[j];
                contains_spec(e, "battle"@) || contains_spec(e, "breakthrough"@) || contains_spec(
                    e,
                    "duel"@,
                ) || contains_spec(e, "战"@) || contains_spec(e, "突破"@)
            }),
        key_events_spec(content).len() == if all_key_events(lines_spec(content)).len()
            <= MAX_KEY_EVENTS {
            all_key_events(lines_spec(content)).len()
        } else {
            MAX_KEY_EVENTS as nat
        },
        key_events_spec(content) == all_key_events(lines_spec(content)).take(
            key_events_spec(content).len() as int,
        ),
    decreases lines.len(),
{
    assert(lines.push(line).drop_last() =~= lines);
    if lines.len() > 0 {
        let p = lines.drop_last();
        key_events_are_the_lines_of_battles_and_breakthroughs(p, lines.last(), content);
        assert(p.push(lines.last()) =~= lines);
        let a = all_key_events(p);
        let b = all_key_events(lines);
        assert forall|i: int|
            0 <= i < lines.len() && (contains_spec(trim_spec(#[trigger] lines[i]), "battle"@)
                || contains_spec(trim_spec(lines[i]), "breakthrough"@) || contains_spec(
                trim_spec(lines[i]),
                "duel"@,
            ) || contains_spec(trim_spec(lines[i]), "战"@) || contains_spec(
                trim_spec(lines[i]),
                "突破"@,
            )) implies b.contains(trim_spec(lines[i])) by {
            if i < lines.len() - 1 {
                assert(lines[i] == p[i]);
                assert(a.contains(trim_spec(p[i])));
                let k = choose|k: int| 0 <= k < a.len() && a[k] == trim_spec(p[i]);
                assert(b[k] == a[k]);
            } else {
                assert(b[b.len() - 1] == trim_spec(lines[i]));
            }
        }
        assert forall|j: int| 0 <= j < b.len() implies ({
            let e = #[trigger] b[j];
            contains_spec(e, "battle"@) || contains_spec(e, "breakthrough"@) || contains_spec(
                e,
                "duel"@,
            ) || contains_spec(e, "战"@) || contains_spec(e, "突破"@)
        }) by {
            if j < a.len() {
                assert(b[j] == a[j]);
            }
        }
    }
}

/// Whether a line tells a key event.
fn is_key_event_exec(l: &str) -> (r: bool)
    ensures
        r == is_key_event(l@),
{
    contains(l, "battle") || contains(l, "breakthrough") || contains(l, "duel") || contains(l, "战")
        || contains(l, "突破")
}

/// The key events of a text.
pub fn extract_key_events(content: &str) -> (r: Vec<String>)
    ensures
        string_views(r@) == key_events_spec(content@),
{
    let lines = split_lines(content);
    let ghost ls = lines_spec(content@);
    let mut all: Vec<String> = Vec::new();
    let mut i: usize = 0;
    assert(string_views(all@) =~= all_key_events(ls.take(0)));
    while i < lines.len()
        invariant
            i <= lines@.len(),
            string_views(lines@) == ls,
            string_views(all@) == all_key_events(ls.take(i as int)),
        decreases lines@.len() - i,
    {
        assert(ls.take(i + 1).drop_last() =~= ls.take(i as int));
        assert(ls.take(i + 1).last() == lines@[i as int]@);
        let t = trim(lines[i].as_str());
        if is_key_event_exec(t.as_str()) {
            let ghost before = all@;
            all.push(t);
            assert(string_views(all@) =~= string_views(before).push(t@));
        }
        i = i + 1;
    }
    assert(ls.take(lines@.len() as int) =~= ls);
    let ghost full = string_views(all@);
    if all.len() <= MAX_KEY_EVENTS {
        return all;
    }
    let mut out: Vec<String> = Vec::new();
    let mut k: usize = 0;
    assert(string_views(out@) =~= full.take(0));
    while k < MAX_KEY_EVENTS
        invariant
            k <= MAX_KEY_EVENTS < all@.len(),
            full == string_views(all@),
            string_views(out@) == full.take(k as int),
        decreases MAX_KEY_EVENTS - k,
    {
        let ghost before = out@;
        let item = all[k].clone();
        out.push(item);
        assert(string_views(out@) =~= string_views(before).push(item@));
        assert(full.take(k + 1) =~= full.take(k as int).push(full[k as int]));
        assert(string_views(out@) =~= full.take(k + 1));
        k = k + 1;
    }
    out
}

/// `s` with every occurrence of `pat` removed, scanning left to right
/// (what `replace(pat, "")` gives).
pub open spec fn remove_all(s: Seq<char>, pat: Seq<char>) -> Seq<char>
    decreases s.len(),
{
    if s.len() == 0 || pat.len() == 0 {
        s
    } else if starts_with_spec(s, pat) {
        remove_all(s.subrange(pat.len() as int, s.len() as int), pat)
    } else {
        seq![s[0]] + remove_all(s.drop_first(), pat)
    }
}

/// The text with every occurrence of `pat` removed.
fn remove_all_exec(s: &str, pat: &str) -> (r: String)
    requires
        pat@.len() > 0,
    ensures
        r@ == remove_all(s@, pat@),
{
    let v = chars_of(s);
    let p = chars_of(pat);
    let n = v.len();
    let mut out: Vec<char> = Vec::new();
    let mut i: usize = 0;
    assert(v@.subrange(0, n as int) =~= v@);
    while i < n
        invariant
            i <= n == v@.len(),
            v@ == s@,
            p@ == pat@,
            p@.len() > 0,
            remove_all(s@, pat@) == out@ + remove_all(v@.subrange(i as int, n as int), pat@),
        decreases n - i,
    {
        let ghost sub = v@.subrange(i as int, n as int);
        if crate::text::occurs_at_exec(&v, &p, i) {
            assert(sub.subrange(0, p@.len() as int) =~= v@.subrange(i as int, i + p@.len()));
            assert(sub.subrange(p@.len() as int, sub.len() as int) =~= v@.subrange(
                i + p@.len(),
                n as int,
            ));
            i = i + p.len();
        } else {
            proof {
                if sub.len() >= p@.len() {
                    assert(sub.subrange(0, p@.len() as int) =~= v@.subrange(i as int, i + p@.len()));
                }
            }
            assert(sub.drop_first() =~= v@.subrange(i + 1, n as int));
            out.push(v[i]);
            i = i + 1;
        }
    }
    assert(v@.subrange(n as int, n as int) =~= Seq::<char>::empty());
    assert(out@ + Seq::<char>::empty() =~= out@);
    string_from_chars(out.as_slice())
}

/// The first trimmed line that opens with a world marker.
pub open spec fn world_line(lines: Seq<Seq<char>>) -> Option<Seq<char>>
    decreases lines.len(),
{
    if lines.len() == 0 {
        None
    } else {
        let t = trim_spec(lines[0]);
        if starts_with_spec(t, "World:"@) || starts_with_spec(t, "世界观："@) {
            Some(t)
        } else {
            world_line(lines.drop_first())
        }
    }
}

/// Characters of a text kept for a summary.
pub const SUMMARY_CHARS: usize = 220;

/// The world summary of a text: its world line without the markers, else
/// its first `SUMMARY_CHARS` characters.
pub open spec fn world_summary_spec(content: Seq<char>) -> Seq<char> {
    match world_line(lines_spec(content)) {
        Some(t) => trim_spec(remove_all(remove_all(t, "World:"@), "世界观："@)),
        None => take_chars(content, SUMMARY_CHARS as int),
    }
}

/// The world summary of a text.
pub fn extract_world_summary(content: &str) -> (r: String)
    ensures
        r@ == world_summary_spec(content@),
{
    let lines = split_lines(content);
    let ghost ls = lines_spec(content@);
    let mut i: usize = 0;
    assert(ls.subrange(0, ls.len() as int) =~= ls);
    while i < lines.len()
        invariant
            i <= lines@.len(),
            string_views(lines@) == ls,
            ls == lines_spec(content@),
            world_line(ls) == world_line(ls.subrange(i as int, ls.len() as int)),
        decreases lines@.len() - i,
    {
        let ghost sub = ls.subrange(i as int, ls.len() as int);
        assert(sub[0] == lines@[i as int]@);
        let t = trim(lines[i].as_str());
        if starts_with(t.as_str(), "World:") || starts_with(t.as_str(), "世界观：") {
            proof {
                reveal_strlit("World:");
                reveal_strlit("世界观：");
            }
            assert(world_line(sub) == Some(t@));
            let a = remove_all_exec(t.as_str(), "World:");
            let b = remove_all_exec(a.as_str(), "世界观：");
            return trim(b.as_str());
        }
        assert(sub.drop_first() =~= ls.subrange(i + 1, ls.len() as int));
        i = i + 1;
    }
    assert(ls.subrange(i as int, ls.len() as int) =~= Seq::<Seq<char>>::empty());
    prefix_chars(content, SUMMARY_CHARS)
}

/// The characters, places, key events and world summary found by line
/// rules; characters and places are kept distinct and in order.
pub open spec fn parsed_by_rules(d: ParsedNovelData, title: Seq<char>, content: Seq<char>) -> bool {
    let ls = lines_spec(content);
    &&& d.title@ == title
    &&& d.world_summary@ == world_summary_spec(content)
    &&& string_views(d.key_events@) == key_events_spec(content)
    &&& strictly_sorted(string_views(d.characters@))
    &&& strictly_sorted(string_views(d.locations@))
    &&& forall|y: Seq<char>| #[trigger] string_views(d.characters@).contains(y) <==> (
    named_items(ls, "Character:"@).contains(y) || named_items(ls, "角色："@).contains(y))
    &&& forall|y: Seq<char>| #[trigger] string_views(d.locations@).contains(y) <==> (named_items(
        ls,
        "Location:"@,
    ).contains(y) || named_items(ls, "地点："@).contains(y))
}

/// Reads a novel by line rules.
pub fn parse_with_rules(title: &str, content: &str) -> (d: ParsedNovelData)
    ensures
        parsed_by_rules(d, title@, content@),
{
    let c1 = extract_named_items(content, "Character:");
    let c2 = extract_named_items(content, "角色：");
    let l1 = extract_named_items(content, "Location:");
    let l2 = extract_named_items(content, "地点：");
    ParsedNovelData {
        title: title.to_string(),
        world_summary: extract_world_summary(content),
        characters: sorted_union(&c1, &c2),
        locations: sorted_union(&l1, &l2),
        key_events: extract_key_events(content),
    }
}

/// Reads a novel's text; an empty text is refused.
pub fn parse_novel_text(title: &str, content: &str) -> (r: Result<ParsedNovelData, String>)
    ensures
        trim_spec(content@).len() == 0 ==> (r matches Err(m) && m@ == "小说内容为空"@),
        trim_spec(content@).len() > 0 ==> (r matches Ok(d) && parsed_by_rules(d, title@, content@)),
{
    if is_blank(content) {
        return Err("小说内容为空".to_string());
    }
    Ok(parse_with_rules(title, content))
}

/// The title of a novel read from a file: the file's stem, else a stock title.
pub fn novel_title(stem: Option<String>) -> (t: String)
    ensures
        t@ == match stem {
            Some(s) => s@,
            None => "导入小说"@,
        },
{
    match stem {
        Some(s) => s,
        None => "导入小说".to_string(),
    }
}

// ---------------------------------------------------------------------------
// Refinement by the model
// ---------------------------------------------------------------------------
/// Seconds the refinement request may take.
pub const PARSE_LLM_TIMEOUT_SECS: u64 = 18;

/// Characters of the novel shown to the model.
pub const PARSE_EXCERPT_CHARS: usize = 1200;

/// The strings among an array's elements.
pub open spec fn present_items(items: Seq<Option<Seq<char>>>) -> Seq<Seq<char>>
    decreases items.len(),
{
    if items.len() == 0 {
        Seq::empty()
    } else {
        let rest = present_items(items.drop_last());
        match items.last() {
            Some(t) => rest.push(t),
            None => rest,
        }
    }
}

/// The list items that are strings.
fn present_items_exec(items: &Vec<Option<String>>) -> (r: Vec<String>)
    ensures
        string_views(r@) == present_items(opt_string_views(items@)),
{
    let ghost all = opt_string_views(items@);
    let mut r: Vec<String> = Vec::new();
    let mut i: usize = 0;
    assert(string_views(r@) =~= present_items(all.take(0)));
    while i < items.len()
        invariant
            i <= items@.len(),
            all == opt_string_views(items@),
            string_views(r@) == present_items(all.take(i as int)),
        decreases items@.len() - i,
    {
        assert(all.take(i + 1).drop_last() =~= all.take(i as int));
        match &items[i] {
            Some(t) => {
                let ghost before = r@;
                r.push(t.clone());
                assert(string_views(r@) =~= string_views(before).push(t@));
            },
            None => {},
        }
        i = i + 1;
    }
    assert(all.take(items@.len() as int) =~= all);
    r
}

/// A list field of the model's answer: its strings, when it is an array.
pub open spec fn list_field(raw: Seq<char>, pointer: Seq<char>) -> Option<Seq<Seq<char>>> {
    match json_str_items_at(raw, pointer) {
        Some(items) => Some(present_items(items)),
        None => None,
    }
}

/// The strings of the list at `pointer`, if it is a list.
fn list_field_exec(raw: &str, pointer: &str) -> (r: Option<Vec<String>>)
    ensures
        match r {
            Some(v) => list_field(raw@, pointer@) == Some(string_views(v@)),
            None => list_field(raw@, pointer@) is None,
        },
{
    match json_pointer_str_items(raw, pointer) {
        Some(items) => Some(present_items_exec(&items)),
        None => None,
    }
}

/// What the model's answer says of the novel: its world summary and its
/// lists of characters, places and key events, all required.
pub open spec fn novel_from_answer_spec(raw: Seq<char>) -> Option<
    (Seq<char>, Seq<Seq<char>>, Seq<Seq<char>>, Seq<Seq<char>>),
> {
    if !usable_json(raw) {
        None
    } else {
        match (
            json_str_at(raw, "/world_summary"@),
            list_field(raw, "/characters"@),
            list_field(raw, "/locations"@),
            list_field(raw, "/key_events"@),
        ) {
            (Some(w), Some(c), Some(l), Some(k)) => Some((w, c, l, k)),
            _ => None,
        }
    }
}

/// Reads the model's account of a novel.
pub fn novel_from_answer(title: &str, raw: &str) -> (r: Option<ParsedNovelData>)
    ensures
        match r {
            Some(d) => d.title@ == title@ && novel_from_answer_spec(raw@) == Some(
                (
                    d.world_summary@,
                    string_views(d.characters@),
                    string_views(d.locations@),
                    string_views(d.key_events@),
                ),
            ),
            None => novel_from_answer_spec(raw@) is None,
        },
{
    if !usable_json_exec(raw) {
        return None;
    }
    let world_summary = match json_pointer_str(raw, "/world_summary") {
        Some(w) => w,
        None => {
            return None;
        },
    };
    let characters = match list_field_exec(raw, "/characters") {
        Some(v) => v,
        None => {
            return None;
        },
    };
    let locations = match list_field_exec(raw, "/locations") {
        Some(v) => v,
        None => {
            return None;
        },
    };
    let key_events = match list_field_exec(raw, "/key_events") {
        Some(v) => v,
        None => {
            return None;
        },
    };
    Some(ParsedNovelData { title: title.to_string(), world_summary, characters, locations, key_events })
}

/// The request asking the model to read a novel.
pub open spec fn is_novel_request(r: PlotRequest, b: PromptBuilder, title: Seq<char>, content: Seq<
    char,
>) -> bool {
    &&& r.max_tokens == 350
    &&& exists|c: PromptContext, k: PromptConstraints|
        context_is(
            c,
            Some("请解析小说元信息："@ + title),
            None,
            None,
            None,
            None,
            seq![take_chars(content, PARSE_EXCERPT_CHARS as int)],
            Some("提取角色、地点、世界观摘要、关键事件，输出 JSON"@),
        ) && constraints_are(
            k,
            Seq::empty(),
            seq![
                "只输出严格 JSON，不要 markdown"@,
                "字段必须包含: world_summary,characters,locations,key_events"@,
                "所有字段内容用中文"@,
            ],
            Some(
                "{\"world_summary\":\"string\",\"characters\":[\"string\"],\"locations\":[\"string\"],\"key_events\":[\"string\"]}"@,
            ),
        ) && r.prompt@ == rendered(b, PromptTemplate::ScriptGeneration, c, k, 700)
}

/// The request asking the model to read a novel.
pub fn novel_parse_request(builder: &PromptBuilder, title: &str, content: &str) -> (r: PlotRequest)
    ensures
        is_novel_request(r, *builder, title@, content@),
{
    let mut scene = "请解析小说元信息：".to_string();
    append_str(&mut scene, title);
    let excerpt = prefix_chars(content, PARSE_EXCERPT_CHARS);
    let mut history: Vec<String> = Vec::new();
    assert(string_views(history@) =~= Seq::<Seq<char>>::empty());
    push_item(&mut history, excerpt.as_str());
    assert(string_views(history@) =~= seq![excerpt@]);
    let context = PromptContext {
        scene: Some(scene),
        location: None,
        actor_name: None,
        actor_realm: None,
        actor_combat_power: None,
        history_events: history,
        world_setting_summary: Some("提取角色、地点、世界观摘要、关键事件，输出 JSON".to_string()),
    };
    let constraints = PromptConstraints {
        numerical_rules: no_history(),
        world_rules: rules3(
            "只输出严格 JSON，不要 markdown",
            "字段必须包含: world_summary,characters,locations,key_events",
            "所有字段内容用中文",
        ),
        output_schema_hint: Some(
            "{\"world_summary\":\"string\",\"characters\":[\"string\"],\"locations\":[\"string\"],\"key_events\":[\"string\"]}".to_string(),
        ),
    };
    let r = render_request(builder, PromptTemplate::ScriptGeneration, &context, &constraints, 700, 350);
    assert(context_is(
        context,
        Some("请解析小说元信息："@ + title@),
        None,
        None,
        None,
        None,
        seq![take_chars(content@, PARSE_EXCERPT_CHARS as int)],
        Some("提取角色、地点、世界观摘要、关键事件，输出 JSON"@),
    ));
    assert(constraints_are(
        constraints,
        Seq::empty(),
        seq![
            "只输出严格 JSON，不要 markdown"@,
            "字段必须包含: world_summary,characters,locations,key_events"@,
            "所有字段内容用中文"@,
        ],
        Some(
            "{\"world_summary\":\"string\",\"characters\":[\"string\"],\"locations\":[\"string\"],\"key_events\":[\"string\"]}"@,
        ),
    ));
    r
}

} // verus!
