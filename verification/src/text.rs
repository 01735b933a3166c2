//! Character-level text helpers with their specifications.
use vstd::prelude::*;

verus! {

broadcast use vstd::string::group_string_axioms;

/// The Unicode `White_Space` property, which is what `char::is_whitespace` tests.
pub open spec fn is_ws(c: char) -> bool {
    let u = c as u32;
    ||| (0x09 <= u && u <= 0x0D)
    ||| u == 0x20
    ||| u == 0x85
    ||| u == 0xA0
    ||| u == 0x1680
    ||| (0x2000 <= u && u <= 0x200A)
    ||| u == 0x2028
    ||| u == 0x2029
    ||| u == 0x202F
    ||| u == 0x205F
    ||| u == 0x3000
}

/// Executable whitespace test.
pub fn char_is_ws(c: char) -> (r: bool)
    ensures
        r == is_ws(c),
{
    let u = c as u32;
    (0x09 <= u && u <= 0x0D) || u == 0x20 || u == 0x85 || u == 0xA0 || u == 0x1680 || (0x2000
        <= u && u <= 0x200A) || u == 0x2028 || u == 0x2029 || u == 0x202F || u == 0x205F || u
        == 0x3000
}

/// The characters of a string slice, in order.
pub fn chars_of(s: &str) -> (v: Vec<char>)
    ensures
        v@ == s@,
{
    let mut v: Vec<char> = Vec::new();
    for c in it: s.chars()
        invariant
            it.seq() == s@,
            v@ == it.seq().take(it.index()),
    {
        v.push(c);
    }
    v
}


/// The string made of the given characters.
#[verifier::external_body]
pub(crate) fn string_from_chars(v: &[char]) -> (s: String)
    ensures
        s@ == v@,
{
    v.iter().collect()
}

/// Appends one character to a string.
#[verifier::external_body]
pub(crate) fn push_char(s: &mut String, c: char)
    ensures
        final(s)@ == old(s)@.push(c),
{
    s.push(c)
}

/// A string holding a copy of `s`.
pub fn owned(s: &str) -> (r: String)
    ensures
        r@ == s@,
{
    s.to_string()
}

/// `s` with leading whitespace removed.
pub open spec fn trim_start_spec(s: Seq<char>) -> Seq<char>
    decreases s.len(),
{
    if s.len() > 0 && is_ws(s[0]) {
        trim_start_spec(s.drop_first())
    } else {
        s
    }
}

/// `s` with trailing whitespace removed.
pub open spec fn trim_end_spec(s: Seq<char>) -> Seq<char>
    decreases s.len(),
{
    if s.len() > 0 && is_ws(s.last()) {
        trim_end_spec(s.drop_last())
    } else {
        s
    }
}

/// `s` with whitespace removed at both ends (what `str::trim` returns).
pub open spec fn trim_spec(s: Seq<char>) -> Seq<char> {
    trim_end_spec(trim_start_spec(s))
}

/// Every character of `s` is whitespace.
pub open spec fn all_ws(s: Seq<char>) -> bool {
    forall|i: int| 0 <= i < s.len() ==> is_ws(#[trigger] s[i])
}

/// After a leading run of `k` whitespace characters, trimming the start leaves the rest.
pub(crate) proof fn lemma_trim_start_index(s: Seq<char>, k: int)
    requires
        0 <= k <= s.len(),
        forall|i: int| 0 <= i < k ==> is_ws(#[trigger] s[i]),
        k == s.len() || !is_ws(s[k]),
    ensures
        trim_start_spec(s) == s.subrange(k, s.len() as int),
    decreases k,
{
    if k == 0 {
        assert(s.subrange(0, s.len() as int) =~= s);
    } else {
        let t = s.drop_first();
        assert forall|i: int| 0 <= i < k - 1 implies is_ws(#[trigger] t[i]) by {
            assert(t[i] == s[i + 1]);
        }
        if k - 1 < t.len() {
            assert(t[k - 1] == s[k]);
        }
        lemma_trim_start_index(t, k - 1);
        assert(t.subrange(k - 1, t.len() as int) =~= s.subrange(k, s.len() as int));
    }
}

/// After a trailing run of whitespace from `e` on, trimming the end leaves the rest.
proof fn lemma_trim_end_index(s: Seq<char>, e: int)
    requires
        0 <= e <= s.len(),
        forall|i: int| e <= i < s.len() ==> is_ws(#[trigger] s[i]),
        e == 0 || !is_ws(s[e - 1]),
    ensures
        trim_end_spec(s) == s.subrange(0, e),
    decreases s.len() - e,
{
    if e == s.len() {
        assert(s.subrange(0, e) =~= s);
        if s.len() > 0 {
            assert(!is_ws(s.last()));
        }
    } else {
        let t = s.drop_last();
        assert forall|i: int| e <= i < t.len() implies is_ws(#[trigger] t[i]) by {
            assert(t[i] == s[i]);
        }
        if e > 0 {
            assert(t[e - 1] == s[e - 1]);
        }
        assert(is_ws(s[s.len() - 1]));
        lemma_trim_end_index(t, e);
        assert(t.subrange(0, e) =~= s.subrange(0, e));
    }
}

/// The bounds `(start, end)` of the trimmed part of `v`.
pub fn trim_bounds(v: &Vec<char>) -> (r: (usize, usize))
    ensures
        r.0 <= r.1 <= v.len(),
        v@.subrange(r.0 as int, r.1 as int) == trim_spec(v@),
        forall|i: int| 0 <= i < r.0 ==> is_ws(#[trigger] v@[i]),
        forall|i: int| r.1 <= i < v.len() ==> is_ws(#[trigger] v@[i]),
        r.0 < r.1 ==> !is_ws(v@[r.0 as int]) && !is_ws(v@[r.1 - 1]),
{
    let n = v.len();
    let mut start: usize = 0;
    while start < n && char_is_ws(v[start])
        invariant
            start <= n,
            n == v.len(),
            forall|i: int| 0 <= i < start ==> is_ws(#[trigger] v@[i]),
        decreases n - start,
    {
        start = start + 1;
    }
    let mut end: usize = n;
    while end > start && char_is_ws(v[end - 1])
        invariant
            start <= end <= n,
            n == v.len(),
            forall|i: int| end <= i < n ==> is_ws(#[trigger] v@[i]),
        decreases end - start,
    {
        end = end - 1;
    }
    proof {
        lemma_trim_start_index(v@, start as int);
        let t = v@.subrange(start as int, n as int);
        assert forall|i: int| end - start <= i < t.len() implies is_ws(#[trigger] t[i]) by {
            assert(t[i] == v@[i + start]);
        }
        if end > start {
            assert(t[end - start - 1] == v@[end - 1]);
        }
        lemma_trim_end_index(t, end - start);
        assert(t.subrange(0, end - start) =~= v@.subrange(start as int, end as int));
    }
    (start, end)
}

/// `str::trim`, as an owned string.
pub fn trim(s: &str) -> (r: String)
    ensures
        r@ == trim_spec(s@),
{
    let v = chars_of(s);
    let (a, b) = trim_bounds(&v);
    string_from_chars(&v.as_slice()[a..b])
}

/// Whether the string is empty once trimmed.
pub fn is_blank(s: &str) -> (r: bool)
    ensures
        r == (trim_spec(s@).len() == 0),
{
    let v = chars_of(s);
    let (a, b) = trim_bounds(&v);
    a == b
}

/// Number of whitespace-separated words (what `split_whitespace().count()` gives).
pub open spec fn word_count_spec(s: Seq<char>) -> nat
    decreases s.len(),
{
    if s.len() == 0 {
        0
    } else {
        word_count_spec(s.drop_last()) + if !is_ws(s.last()) && (s.len() == 1 || is_ws(
            s[s.len() - 2],
        )) {
            1nat
        } else {
            0nat
        }
    }
}

/// Trimming the start leaves a suffix of `s`.
proof fn lemma_trim_start_suffix(s: Seq<char>)
    ensures
        trim_start_spec(s).len() <= s.len(),
        trim_start_spec(s) == s.subrange(s.len() - trim_start_spec(s).len(), s.len() as int),
    decreases s.len(),
{
    if s.len() > 0 && is_ws(s[0]) {
        let t = s.drop_first();
        lemma_trim_start_suffix(t);
        let k = trim_start_spec(t).len();
        assert(t.subrange(t.len() - k, t.len() as int) =~= s.subrange(s.len() - k, s.len() as int));
    } else {
        assert(s.subrange(0, s.len() as int) =~= s);
    }
}

/// Trimming the end leaves a prefix of `s`.
proof fn lemma_trim_end_prefix(s: Seq<char>)
    ensures
        trim_end_spec(s).len() <= s.len(),
        trim_end_spec(s) == s.subrange(0, trim_end_spec(s).len() as int),
    decreases s.len(),
{
    if s.len() > 0 && is_ws(s.last()) {
        let t = s.drop_last();
        lemma_trim_end_prefix(t);
        let k = trim_end_spec(t).len();
        assert(t.subrange(0, k as int) =~= s.subrange(0, k as int));
    } else {
        assert(s.subrange(0, s.len() as int) =~= s);
    }
}

/// The trimmed text is the run of `s` that starts at the returned offset.
pub(crate) proof fn lemma_trim_within(s: Seq<char>) -> (off: int)
    ensures
        0 <= off,
        off + trim_spec(s).len() <= s.len(),
        trim_spec(s) == s.subrange(off, off + trim_spec(s).len()),
{
    lemma_trim_start_suffix(s);
    let ts = trim_start_spec(s);
    lemma_trim_end_prefix(ts);
    let off = s.len() - ts.len();
    let k = trim_spec(s).len();
    assert(ts.subrange(0, k as int) =~= s.subrange(off, off + k));
    off
}

/// A text has no more words than characters.
proof fn lemma_word_count_le_len(s: Seq<char>)
    ensures
        word_count_spec(s) <= s.len(),
    decreases s.len(),
{
    if s.len() > 0 {
        lemma_word_count_le_len(s.drop_last());
    }
}

/// Executable word count.
pub fn word_count(s: &str) -> (n: usize)
    ensures
        n == word_count_spec(s@),
{
    let v = chars_of(s);
    let mut count: usize = 0;
    let mut i: usize = 0;
    while i < v.len()
        invariant
            i <= v.len(),
            v@ == s@,
            count == word_count_spec(v@.take(i as int)),
        decreases v.len() - i,
    {
        proof {
            lemma_word_count_le_len(v@.take(i as int));
            let t = v@.take(i + 1);
            assert(t.drop_last() =~= v@.take(i as int));
        }
        if !char_is_ws(v[i]) && (i == 0 || char_is_ws(v[i - 1])) {
            count = count + 1;
        }
        i = i + 1;
    }
    assert(v@.take(v.len() as int) =~= v@);
    count
}

/// `needle` occurs in `hay` starting at index `i`.
pub open spec fn occurs_at(hay: Seq<char>, needle: Seq<char>, i: int) -> bool {
    0 <= i && i + needle.len() <= hay.len() && hay.subrange(i, i + needle.len()) == needle
}

/// `needle` occurs somewhere in `hay` (what `str::contains` tests).
pub open spec fn contains_spec(hay: Seq<char>, needle: Seq<char>) -> bool {
    exists|i: int| occurs_at(hay, needle, i)
}

/// `hay` begins with `prefix`.
pub open spec fn starts_with_spec(hay: Seq<char>, prefix: Seq<char>) -> bool {
    occurs_at(hay, prefix, 0)
}

/// Whether `needle` occurs in `hay` at position `i`.
pub fn occurs_at_exec(hay: &Vec<char>, needle: &Vec<char>, i: usize) -> (r: bool)
    ensures
        r == occurs_at(hay@, needle@, i as int),
{
    if i > hay.len() || needle.len() > hay.len() - i {
        return false;
    }
    let mut j: usize = 0;
    while j < needle.len()
        invariant
            j <= needle.len(),
            i + needle.len() <= hay.len(),
            forall|k: int| 0 <= k < j ==> hay@[i + k] == needle@[k],
        decreases needle.len() - j,
    {
        if hay[i + j] != needle[j] {
            assert(hay@.subrange(i as int, i + needle.len())[j as int] != needle@[j as int]);
            return false;
        }
        j = j + 1;
    }
    assert(hay@.subrange(i as int, i + needle.len()) =~= needle@);
    true
}

/// First position at or after `from` where `needle` occurs in `hay`.
pub fn find_from(hay: &Vec<char>, needle: &Vec<char>, from: usize) -> (r: Option<usize>)
    ensures
        match r {
            Some(i) => from <= i && occurs_at(hay@, needle@, i as int) && forall|k: int|
                from <= k < i ==> !occurs_at(hay@, needle@, k),
            None => forall|k: int| from <= k ==> !occurs_at(hay@, needle@, k),
        },
{
    if from > hay.len() {
        return None;
    }
    let mut i = from;
    while i < hay.len()
        invariant
            from <= i <= hay.len(),
            forall|k: int| from <= k < i ==> !occurs_at(hay@, needle@, k),
        decreases hay.len() - i,
    {
        if occurs_at_exec(hay, needle, i) {
            return Some(i);
        }
        i = i + 1;
    }
    if occurs_at_exec(hay, needle, i) {
        return Some(i);
    }
    None
}

/// `str::contains` for a string pattern.
pub fn contains(hay: &str, needle: &str) -> (r: bool)
    ensures
        r == contains_spec(hay@, needle@),
{
    let h = chars_of(hay);
    let n = chars_of(needle);
    let f = find_from(&h, &n, 0);
    match f {
        Some(i) => true,
        None => {
            assert forall|k: int| !occurs_at(h@, n@, k) by {
                if k < 0 {
                }
            }
            false
        },
    }
}

/// `str::starts_with` for a string pattern.
pub fn starts_with(hay: &str, prefix: &str) -> (r: bool)
    ensures
        r == starts_with_spec(hay@, prefix@),
{
    let h = chars_of(hay);
    let p = chars_of(prefix);
    occurs_at_exec(&h, &p, 0)
}

/// ASCII lower-casing of one character (what `char::to_ascii_lowercase` does).
pub open spec fn ascii_lower(c: char) -> char {
    if 'A' <= c && c <= 'Z' {
        ((c as u32) + 32) as char
    } else {
        c
    }
}

/// ASCII lower-casing of a string (what `str::to_ascii_lowercase` does).
pub open spec fn ascii_lower_spec(s: Seq<char>) -> Seq<char> {
    s.map_values(|c: char| ascii_lower(c))
}

/// ASCII lower-casing of one character.
pub fn char_ascii_lower(c: char) -> (r: char)
    ensures
        r == ascii_lower(c),
{
    if 'A' <= c && c <= 'Z' {
        let b: u8 = (c as u32) as u8;
        assert(b + 32 < 128);
        (b + 32) as char
    } else {
        c
    }
}

/// `str::to_ascii_lowercase`, one character at a time.
pub fn to_ascii_lowercase(s: &str) -> (r: String)
    ensures
        r@ == ascii_lower_spec(s@),
{
    let v = chars_of(s);
    let mut out: Vec<char> = Vec::new();
    let mut i: usize = 0;
    while i < v.len()
        invariant
            i <= v.len(),
            v@ == s@,
            out@ == ascii_lower_spec(v@.take(i as int)),
        decreases v.len() - i,
    {
        out.push(char_ascii_lower(v[i]));
        i = i + 1;
        assert(out@ =~= ascii_lower_spec(v@.take(i as int)));
    }
    assert(v@.take(v.len() as int) =~= v@);
    string_from_chars(out.as_slice())
}

/// What `str::to_lowercase` returns: full Unicode lower-casing, whose tables
/// are not restated here.
pub uninterp spec fn unicode_lowercase(s: Seq<char>) -> Seq<char>;

/// `str::to_lowercase`.
#[verifier::external_body]
pub(crate) fn to_lowercase(s: &str) -> (r: String)
    ensures
        r@ == unicode_lowercase(s@),
{
    s.to_lowercase()
}

/// The first `n` characters of `s` (what `chars().take(n).collect()` gives).
pub open spec fn take_chars(s: Seq<char>, n: int) -> Seq<char> {
    if n < s.len() {
        s.take(n)
    } else {
        s
    }
}

/// The first `n` characters of `s`.
pub fn prefix_chars(s: &str, n: usize) -> (r: String)
    ensures
        r@ == take_chars(s@, n as int),
{
    let v = chars_of(s);
    if n < v.len() {
        string_from_chars(&v.as_slice()[0..n])
    } else {
        string_from_chars(v.as_slice())
    }
}

/// Number of characters of `s` (what `chars().count()` gives).
pub fn char_count(s: &str) -> (n: usize)
    ensures
        n == s@.len(),
{
    let v = chars_of(s);
    v.len()
}

/// Decimal digit character for `d < 10`.
pub open spec fn digit_char(d: nat) -> char {
    ((d + 48) as u32) as char
}

/// Decimal rendering of a natural number (what `{}` formatting prints).
pub open spec fn decimal(n: nat) -> Seq<char>
    decreases n,
{
    if n < 10 {
        seq![digit_char(n)]
    } else {
        decimal(n / 10).push(digit_char(n % 10))
    }
}

/// The character of a decimal digit.
fn digit_to_char(d: u64) -> (c: char)
    requires
        d < 10,
    ensures
        c == digit_char(d as nat),
{
    if d == 0 {
        '0'
    } else if d == 1 {
        '1'
    } else if d == 2 {
        '2'
    } else if d == 3 {
        '3'
    } else if d == 4 {
        '4'
    } else if d == 5 {
        '5'
    } else if d == 6 {
        '6'
    } else if d == 7 {
        '7'
    } else if d == 8 {
        '8'
    } else {
        '9'
    }
}

/// Appends the decimal rendering of `n` to `out`.
pub fn push_decimal(out: &mut String, n: u64)
    ensures
        final(out)@ == old(out)@ + decimal(n as nat),
    decreases n,
{
    if n < 10 {
        push_char(out, digit_to_char(n));
        assert(decimal(n as nat) =~= seq![digit_char(n as nat)]);
    } else {
        push_decimal(out, n / 10);
        push_char(out, digit_to_char(n % 10));
        assert(decimal(n as nat) == decimal((n / 10) as nat).push(digit_char((n % 10) as nat)));
    }
}

/// The decimal rendering of `n`.
pub fn decimal_string(n: u64) -> (s: String)
    ensures
        s@ == decimal(n as nat),
{
    let mut s = String::new();
    push_decimal(&mut s, n);
    s
}

/// Appends `b` to `a`.
pub fn append_str(a: &mut String, b: &str)
    ensures
        final(a)@ == old(a)@ + b@,
{
    a.append(b);
}

/// Whether two string slices hold the same characters.
pub fn str_eq(a: &str, b: &str) -> (r: bool)
    ensures
        r == (a@ == b@),
{
    let x = owned(a);
    let y = owned(b);
    x == y
}


/// Some keyword occurs in `text`.
pub open spec fn contains_any_spec(text: Seq<char>, keywords: Seq<&str>) -> bool {
    exists|i: int| 0 <= i < keywords.len() && contains_spec(text, keywords[i]@)
}

/// Whether any of the keywords occurs in `text`.
pub fn contains_any(text: &str, keywords: &[&str]) -> (r: bool)
    ensures
        r == contains_any_spec(text@, keywords@),
{
    let mut i: usize = 0;
    while i < keywords.len()
        invariant
            i <= keywords@.len(),
            forall|k: int| 0 <= k < i ==> !contains_spec(text@, #[trigger] keywords@[k]@),
        decreases keywords@.len() - i,
    {
        if contains(text, keywords[i]) {
            return true;
        }
        i = i + 1;
    }
    false
}


/// Value of an ASCII digit character.
pub open spec fn digit_value(c: char) -> nat {
    ((c as u32) - 48) as nat
}

/// An ASCII digit.
pub open spec fn is_digit(c: char) -> bool {
    '0' <= c && c <= '9'
}

/// Value of a sequence of digits.
pub open spec fn digits_value(s: Seq<char>) -> nat
    decreases s.len(),
{
    if s.len() == 0 {
        0
    } else {
        digits_value(s.drop_last()) * 10 + digit_value(s.last())
    }
}

/// What `str::parse` gives for an unsigned integer type whose largest value
/// is `max`: an optional `+`, then one or more ASCII digits, within range.
pub open spec fn parse_unsigned(s: Seq<char>, max: nat) -> Option<nat> {
    let body = unsigned_body(s);
    if body.len() > 0 && all_digits(body) && digits_value(body) <= max {
        Some(digits_value(body))
    } else {
        None
    }
}

/// The digits part of a number: the text after an optional leading `+`.
pub open spec fn unsigned_body(s: Seq<char>) -> Seq<char> {
    if s.len() > 0 && s[0] == '+' {
        s.drop_first()
    } else {
        s
    }
}

/// Every character is an ASCII digit.
pub open spec fn all_digits(s: Seq<char>) -> bool {
    forall|i: int| 0 <= i < s.len() ==> is_digit(#[trigger] s[i])
}

/// A decimal rendering is made of digits only, is not empty, and reads back
/// as the number it renders.
pub(crate) proof fn lemma_decimal_reads_back(n: nat)
    ensures
        decimal(n).len() > 0,
        all_digits(decimal(n)),
        decimal(n)[0] != '+',
        digits_value(decimal(n)) == n,
    decreases n,
{
    let d = n % 10;
    assert(is_digit(digit_char(d)) && digit_value(digit_char(d)) == d) by {
        if d == 0 { assert(digit_char(d) == '0'); }
        else if d == 1 { assert(digit_char(d) == '1'); }
        else if d == 2 { assert(digit_char(d) == '2'); }
        else if d == 3 { assert(digit_char(d) == '3'); }
        else if d == 4 { assert(digit_char(d) == '4'); }
        else if d == 5 { assert(digit_char(d) == '5'); }
        else if d == 6 { assert(digit_char(d) == '6'); }
        else if d == 7 { assert(digit_char(d) == '7'); }
        else if d == 8 { assert(digit_char(d) == '8'); }
        else { assert(digit_char(d) == '9'); }
    }
    if n < 10 {
        assert(n % 10 == n);
        assert(decimal(n) =~= seq![digit_char(n)]);
        assert(decimal(n).drop_last() =~= Seq::<char>::empty());
        assert(digits_value(decimal(n)) == digits_value(decimal(n).drop_last()) * 10
            + digit_value(decimal(n).last()));
    } else {
        lemma_decimal_reads_back(n / 10);
        let p = decimal(n / 10);
        assert(decimal(n) == p.push(digit_char(d)));
        assert(decimal(n).drop_last() =~= p);
        assert(digits_value(decimal(n)) == digits_value(p) * 10 + digit_value(digit_char(d)));
        assert((n / 10) * 10 + n % 10 == n) by (nonlinear_arith);
        assert(decimal(n)[0] == p[0]);
        assert forall|i: int| 0 <= i < decimal(n).len() implies is_digit(#[trigger] decimal(n)[i]) by {
            if i < p.len() {
                assert(decimal(n)[i] == p[i]);
            }
        }
    }
}

/// Reading more digits never gives a smaller value.
proof fn lemma_digits_value_monotone(s: Seq<char>, n: int)
    requires
        0 <= n <= s.len(),
        forall|i: int| 0 <= i < s.len() ==> is_digit(#[trigger] s[i]),
    ensures
        digits_value(s.take(n)) <= digits_value(s),
    decreases s.len(),
{
    if n < s.len() {
        let t = s.drop_last();
        assert(t.take(n) =~= s.take(n));
        assert forall|i: int| 0 <= i < t.len() implies is_digit(#[trigger] t[i]) by {
            assert(t[i] == s[i]);
        }
        lemma_digits_value_monotone(t, n);
        assert(digits_value(s) == digits_value(t) * 10 + digit_value(s.last()));
    } else {
        assert(s.take(n) =~= s);
    }
}

/// Parses an unsigned decimal number no greater than `max` (what `str::parse`
/// does for `u16`, `u32` or `u64` with the matching `max`).
pub fn parse_unsigned_exec(s: &str, max: u64) -> (r: Option<u64>)
    ensures
        match r {
            Some(v) => parse_unsigned(s@, max as nat) == Some(v as nat),
            None => parse_unsigned(s@, max as nat) is None,
        },
{
    let v = chars_of(s);
    let start: usize = if v.len() > 0 && v[0] == '+' {
        1
    } else {
        0
    };
    let ghost body = unsigned_body(s@);
    assert(body =~= v@.subrange(start as int, v@.len() as int));
    if start >= v.len() {
        return None;
    }
    let mut acc: u64 = 0;
    let mut i = start;
    while i < v.len()
        invariant
            start <= i <= v@.len(),
            body == v@.subrange(start as int, v@.len() as int),
            body == unsigned_body(s@),
            forall|k: int| start <= k < i ==> is_digit(#[trigger] v@[k]),
            acc as nat == digits_value(v@.subrange(start as int, i as int)),
            acc <= max,
        decreases v@.len() - i,
    {
        let c = v[i];
        if !('0' <= c && c <= '9') {
            assert(body[i - start] == v@[i as int]);
            assert(!is_digit(body[i - start]));
            assert(parse_unsigned(s@, max as nat) is None);
            return None;
        }
        let d = (c as u32 - 48) as u64;
        proof {
            assert(v@.subrange(start as int, i + 1).drop_last() =~= v@.subrange(
                start as int,
                i as int,
            ));
        }
        if d > max || acc > (max - d) / 10 {
            proof {
                if d <= max {
                    assert(acc * 10 + d > max) by (nonlinear_arith)
                        requires
                            acc > (max - d) / 10,
                            d <= max,
                    ;
                }
                let pre = v@.subrange(start as int, i + 1);
                assert(digits_value(pre) == acc * 10 + d);
                if all_digits(body) {
                    lemma_digits_value_monotone(body, i + 1 - start);
                    assert(body.take(i + 1 - start) =~= pre);
                    assert(digits_value(body) > max);
                }
                assert(parse_unsigned(s@, max as nat) is None);
            }
            return None;
        }
        proof {
            assert(acc * 10 + d <= max) by (nonlinear_arith)
                requires
                    acc <= (max - d) / 10,
                    d <= max,
            ;
        }
        acc = acc * 10 + d;
        i = i + 1;
    }
    assert(v@.subrange(start as int, v@.len() as int) =~= body);
    Some(acc)
}


/// Length of the run of whitespace at the start of `s`.
pub open spec fn leading_ws(s: Seq<char>) -> nat
    decreases s.len(),
{
    if s.len() > 0 && is_ws(s[0]) {
        1 + leading_ws(s.drop_first())
    } else {
        0
    }
}

/// Length of the run of non-whitespace at the start of `s`.
pub open spec fn leading_word(s: Seq<char>) -> nat
    decreases s.len(),
{
    if s.len() > 0 && !is_ws(s[0]) {
        1 + leading_word(s.drop_first())
    } else {
        0
    }
}

/// Basic facts about the leading whitespace and word runs of a text.
pub proof fn lemma_leading_bounds(s: Seq<char>)
    ensures
        leading_ws(s) <= s.len(),
        leading_word(s) <= s.len(),
        forall|i: int| 0 <= i < leading_ws(s) ==> is_ws(#[trigger] s[i]),
        leading_ws(s) < s.len() ==> !is_ws(s[leading_ws(s) as int]),
        forall|i: int| 0 <= i < leading_word(s) ==> !is_ws(#[trigger] s[i]),
        leading_word(s) < s.len() ==> is_ws(s[leading_word(s) as int]),
    decreases s.len(),
{
    if s.len() > 0 {
        lemma_leading_bounds(s.drop_first());
        assert forall|i: int| 0 < i < s.len() implies #[trigger] s[i] == s.drop_first()[i - 1] by {}
    }
}

/// A leading run of exactly `k` characters of one kind (whitespace or not) is
/// counted as `k`.
proof fn lemma_leading_exact(s: Seq<char>, k: int, ws: bool)
    requires
        0 <= k <= s.len(),
        forall|i: int| 0 <= i < k ==> is_ws(#[trigger] s[i]) == ws,
        k < s.len() ==> is_ws(s[k]) != ws,
    ensures
        ws ==> leading_ws(s) == k,
        !ws ==> leading_word(s) == k,
    decreases k,
{
    if k > 0 {
        let t = s.drop_first();
        assert forall|i: int| 0 <= i < k - 1 implies is_ws(#[trigger] t[i]) == ws by {
            assert(t[i] == s[i + 1]);
        }
        if k - 1 < t.len() {
            assert(t[k - 1] == s[k]);
        }
        lemma_leading_exact(t, k - 1, ws);
    }
}

/// The whitespace-separated words of `s` (what `split_whitespace` yields).
pub open spec fn words_spec(s: Seq<char>) -> Seq<Seq<char>>
    decreases s.len(),
{
    let a = leading_ws(s);
    if a >= s.len() {
        Seq::empty()
    } else {
        let t = s.subrange(a as int, s.len() as int);
        let w = leading_word(t);
        proof {
            lemma_leading_bounds(t);
        }
        if w == 0 {
            Seq::empty()
        } else {
            seq![t.take(w as int)] + words_spec(t.subrange(w as int, t.len() as int))
        }
    }
}

/// The whitespace-separated words of `s`.
pub fn split_whitespace(s: &str) -> (r: Vec<String>)
    ensures
        r@.map_values(|x: String| x@) == words_spec(s@),
{
    let v = chars_of(s);
    let mut out: Vec<String> = Vec::new();
    let mut i: usize = 0;
    assert(v@.subrange(0, v@.len() as int) =~= v@);
    assert(out@.map_values(|x: String| x@) =~= Seq::<Seq<char>>::empty());
    assert(Seq::<Seq<char>>::empty() + words_spec(s@) =~= words_spec(s@));
    while i < v.len()
        invariant
            i <= v@.len(),
            v@ == s@,
            out@.map_values(|x: String| x@) + words_spec(v@.subrange(i as int, v@.len() as int))
                == words_spec(s@),
        decreases v@.len() - i,
    {
        let ghost rest = v@.subrange(i as int, v@.len() as int);
        let mut j = i;
        while j < v.len() && char_is_ws(v[j])
            invariant
                i <= j <= v@.len(),
                forall|k: int| i <= k < j ==> is_ws(#[trigger] v@[k]),
            decreases v@.len() - j,
        {
            j = j + 1;
        }
        proof {
            assert forall|k: int| 0 <= k < j - i implies is_ws(#[trigger] rest[k]) == true by {
                assert(rest[k] == v@[k + i]);
            }
            if j < v.len() {
                assert(rest[j - i] == v@[j as int]);
            }
            lemma_leading_exact(rest, j - i, true);
        }
        if j == v.len() {
            proof {
                assert(words_spec(rest) =~= Seq::<Seq<char>>::empty());
                assert(v@.subrange(j as int, v@.len() as int) =~= Seq::<char>::empty());
                assert(words_spec(v@.subrange(j as int, v@.len() as int)) =~= Seq::<
                    Seq<char>,
                >::empty());
            }
            i = j;
        } else {
            let mut e = j;
            while e < v.len() && !char_is_ws(v[e])
                invariant
                    j <= e <= v@.len(),
                    forall|k: int| j <= k < e ==> !is_ws(#[trigger] v@[k]),
                decreases v@.len() - e,
            {
                e = e + 1;
            }
            let ghost t = rest.subrange((j - i) as int, rest.len() as int);
            proof {
                assert(t =~= v@.subrange(j as int, v@.len() as int));
                assert forall|k: int| 0 <= k < e - j implies is_ws(#[trigger] t[k]) == false by {
                    assert(t[k] == v@[k + j]);
                }
                if e < v.len() {
                    assert(t[e - j] == v@[e as int]);
                }
                lemma_leading_exact(t, e - j, false);
                assert(t.take((e - j) as int) =~= v@.subrange(j as int, e as int));
                assert(t.subrange((e - j) as int, t.len() as int) =~= v@.subrange(
                    e as int,
                    v@.len() as int,
                ));
            }
            let word = string_from_chars(&v.as_slice()[j..e]);
            let ghost before = out@;
            out.push(word);
            proof {
                assert(out@.map_values(|x: String| x@) =~= before.map_values(|x: String| x@)
                    + seq![v@.subrange(j as int, e as int)]);
            }
            i = e;
        }
    }
    proof {
        assert(v@.subrange(v@.len() as int, v@.len() as int) =~= Seq::<char>::empty());
        assert(words_spec(Seq::<char>::empty()) =~= Seq::<Seq<char>>::empty());
        assert(out@.map_values(|x: String| x@) + Seq::<Seq<char>>::empty() =~= out@.map_values(
            |x: String| x@,
        ));
    }
    out
}

/// A text contains itself.
pub proof fn lemma_contains_self(a: Seq<char>)
    ensures
        contains_spec(a, a),
{
    assert(a.subrange(0, a.len() as int) =~= a);
    assert(occurs_at(a, a, 0));
}

/// What a text contains, a longer text made from it contains too.
pub proof fn lemma_contains_extend(x: Seq<char>, n: Seq<char>, y: Seq<char>)
    requires
        contains_spec(x, n),
    ensures
        contains_spec(x + y, n),
        contains_spec(y + x, n),
{
    let i = choose|i: int| occurs_at(x, n, i);
    assert((x + y).subrange(i, i + n.len()) =~= x.subrange(i, i + n.len()));
    assert(occurs_at(x + y, n, i));
    assert((y + x).subrange(y.len() + i, y.len() + i + n.len()) =~= x.subrange(i, i + n.len()));
    assert(occurs_at(y + x, n, y.len() + i));
}

/// Both parts of a concatenation occur in it.
pub proof fn lemma_contains_parts(a: Seq<char>, b: Seq<char>)
    ensures
        contains_spec(a + b, a),
        contains_spec(a + b, b),
{
    lemma_contains_self(a);
    lemma_contains_self(b);
    lemma_contains_extend(a, a, b);
    lemma_contains_extend(b, b, a);
}

/// Containment is transitive.
pub proof fn lemma_contains_trans(a: Seq<char>, b: Seq<char>, c: Seq<char>)
    requires
        contains_spec(a, b),
        contains_spec(b, c),
    ensures
        contains_spec(a, c),
{
    let i = choose|i: int| occurs_at(a, b, i);
    let j = choose|j: int| occurs_at(b, c, j);
    assert(a.subrange(i + j, i + j + c.len()) =~= b.subrange(j, j + c.len()));
    assert(occurs_at(a, c, i + j));
}

/// The character views of a list of strings.
pub open spec fn string_views(v: Seq<String>) -> Seq<Seq<char>> {
    v.map_values(|x: String| x@)
}

/// The character view of an optional string.
pub open spec fn opt_view(o: Option<String>) -> Option<Seq<char>> {
    match o {
        Some(s) => Some(s@),
        None => None,
    }
}

} // verus!
