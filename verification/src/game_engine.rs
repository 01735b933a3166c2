//! New games: the realm a player starts in, the pseudo-random generator,
//! weighted draws, and the profile a randomly generated script gives the player.
use crate::models::{Element, Grade};
use crate::text::str_eq;
use vstd::prelude::*;

verus! {

// ---------------------------------------------------------------------------
// Starting realm
// ---------------------------------------------------------------------------
/// The name of the first realm of cultivation, in either spelling.
pub open spec fn is_first_realm_name(n: Seq<char>) -> bool {
    n == "练气"@ || n == "炼气"@
}

/// The realm a new game starts in: the first realm named 练气 or 炼气, else
/// the first realm; none when the script defines no realm.
pub fn starting_realm_index(names: &Vec<String>) -> (r: Option<usize>)
    ensures
        names@.len() == 0 ==> r is None,
        names@.len() > 0 ==> (r matches Some(i) && i < names@.len() && (if exists|j: int|
            0 <= j < names@.len() && is_first_realm_name(#[trigger] names@[j]@) {
            is_first_realm_name(names@[i as int]@) && forall|j: int|
                0 <= j < i ==> !is_first_realm_name(#[trigger] names@[j]@)
        } else {
            i == 0
        })),
{
    let mut i: usize = 0;
    while i < names.len()
        invariant
            i <= names@.len(),
            forall|j: int| 0 <= j < i ==> !is_first_realm_name(#[trigger] names@[j]@),
        decreases names@.len() - i,
    {
        if str_eq(names[i].as_str(), "练气") || str_eq(names[i].as_str(), "炼气") {
            return Some(i);
        }
        i = i + 1;
    }
    if names.len() == 0 {
        None
    } else {
        Some(0)
    }
}

// ---------------------------------------------------------------------------
// Generator
// ---------------------------------------------------------------------------
/// The state used in place of a zero seed.
pub const ZERO_SEED_REPLACEMENT: u64 = 0x9E37_79B9_7F4A_7C15;

/// One xorshift step (13, 7, 17); a zero state is first replaced.
pub open spec fn xorshift(x: u64) -> u64 {
    let x0 = if x == 0 {
        ZERO_SEED_REPLACEMENT
    } else {
        x
    };
    let a = x0 ^ (x0 << 13u64);
    let b = a ^ (a >> 7u64);
    b ^ (b << 17u64)
}

/// Advances the generator and returns its new state.
pub fn rng_next(seed: &mut u64) -> (r: u64)
    ensures
        r == xorshift(*old(seed)),
        *final(seed) == r,
{
    let mut x = *seed;
    if x == 0 {
        x = ZERO_SEED_REPLACEMENT;
    }
    x = x ^ (x << 13u64);
    x = x ^ (x >> 7u64);
    x = x ^ (x << 17u64);
    *seed = x;
    x
}

/// A draw from `min..=max` and the generator state after it; an empty or
/// single-value range gives `min` without drawing.
pub open spec fn rand_u32_spec(seed: u64, min: u32, max: u32) -> (u32, u64) {
    if min >= max {
        (min, seed)
    } else {
        let r = xorshift(seed);
        let span = (max - min + 1) as u64;
        ((min + (r % span)) as u32, r)
    }
}

/// Draws a number from `min..=max`.
pub fn rand_u32(seed: &mut u64, min: u32, max: u32) -> (v: u32)
    requires
        max - min < u32::MAX,
    ensures
        (v, *final(seed)) == rand_u32_spec(*old(seed), min, max),
        min < max ==> min <= v <= max,
        min >= max ==> v == min,
{
    if min >= max {
        return min;
    }
    let span = (max - min + 1) as u64;
    let r = rng_next(seed);
    let off = r % span;
    min + off as u32
}

// ---------------------------------------------------------------------------
// Weighted draws
// ---------------------------------------------------------------------------
/// The sum of the weights from position `i` on.
pub open spec fn suffix_sum(w: Seq<u32>, i: int) -> nat
    decreases w.len() - i,
{
    if i < 0 || i >= w.len() {
        0
    } else {
        w[i] as nat + suffix_sum(w, i + 1)
    }
}

/// The position that a roll lands on: weights are passed in order, each
/// taking its share of the roll; zero weights are skipped.
pub open spec fn pick_from(w: Seq<u32>, i: int, roll: int) -> int
    decreases w.len() - i,
{
    if i < 0 || i >= w.len() {
        if w.len() == 0 {
            0
        } else {
            w.len() - 1
        }
    } else if w[i] == 0 {
        pick_from(w, i + 1, roll)
    } else if roll <= w[i] {
        i
    } else {
        pick_from(w, i + 1, roll - w[i])
    }
}

/// A weighted draw and the generator state after it: position 0 when all
/// weights are zero, else the position a roll in `1..=total` lands on.
pub open spec fn weighted_spec(seed: u64, w: Seq<u32>) -> (usize, u64) {
    let total = suffix_sum(w, 0);
    if total == 0 {
        (0, seed)
    } else {
        let (roll, s2) = rand_u32_spec(seed, 1, total as u32);
        (pick_from(w, 0, roll as int) as usize, s2)
    }
}

/// Draws a position with probability proportional to its weight.
pub fn choose_weighted_index(seed: &mut u64, weights: &Vec<u32>) -> (idx: usize)
    requires
        suffix_sum(weights@, 0) <= u32::MAX,
    ensures
        (idx, *final(seed)) == weighted_spec(*old(seed), weights@),
        suffix_sum(weights@, 0) > 0 ==> idx < weights@.len() && weights@[idx as int] > 0,
{
    let n = weights.len();
    let mut total: u32 = 0;
    let mut k: usize = n;
    while k > 0
        invariant
            k <= n == weights@.len(),
            total == suffix_sum(weights@, k as int),
            suffix_sum(weights@, 0) <= u32::MAX,
        decreases k,
    {
        proof {
            lemma_suffix_sum_le(weights@, 0, (k - 1) as int);
        }
        total = total + weights[k - 1];
        k = k - 1;
    }
    if total == 0 {
        return 0;
    }
    let ghost s0 = *seed;
    let mut roll = rand_u32(seed, 1, total);
    let ghost r0 = roll;
    let mut i: usize = 0;
    while i < n
        invariant
            i <= n == weights@.len(),
            1 <= roll <= suffix_sum(weights@, i as int),
            pick_from(weights@, 0, r0 as int) == pick_from(weights@, i as int, roll as int),
            total > 0,
            total as nat == suffix_sum(weights@, 0),
            (r0, *seed) == rand_u32_spec(*old(seed), 1, total),
        decreases n - i,
    {
        let w = weights[i];
        if w != 0 {
            if roll <= w {
                return i;
            }
            roll = roll - w;
        }
        i = i + 1;
    }
    if n > 0 {
        n - 1
    } else {
        0
    }
}

/// A later suffix of the weights sums to no more than an earlier one.
proof fn lemma_suffix_sum_le(w: Seq<u32>, i: int, j: int)
    requires
        0 <= i <= j,
    ensures
        suffix_sum(w, j) <= suffix_sum(w, i),
    decreases j - i,
{
    if i < j && i < w.len() {
        lemma_suffix_sum_le(w, i + 1, j);
    }
}

/// The grade a draw gives: single roots 10%, double 30%, triple 40%,
/// mixed 20%.
pub open spec fn grade_of_index(i: usize) -> Grade {
    if i == 0 {
        Grade::Heavenly
    } else if i == 1 {
        Grade::Double
    } else if i == 2 {
        Grade::Triple
    } else {
        Grade::Pseudo
    }
}

/// The weights of the root grades.
pub open spec fn grade_weights() -> Seq<u32> {
    seq![10u32, 30u32, 40u32, 20u32]
}

/// Draws a spiritual-root grade.
pub fn random_root_grade(seed: &mut u64) -> (g: Grade)
    ensures
        g == grade_of_index(weighted_spec(*old(seed), grade_weights()).0),
        *final(seed) == weighted_spec(*old(seed), grade_weights()).1,
{
    let mut w: Vec<u32> = Vec::new();
    w.push(10);
    w.push(30);
    w.push(40);
    w.push(20);
    assert(w@ =~= grade_weights());
    assert(suffix_sum(w@, 0) == 100) by {
        reveal_with_fuel(suffix_sum, 5);
    }
    let i = choose_weighted_index(seed, &w);
    if i == 0 {
        Grade::Heavenly
    } else if i == 1 {
        Grade::Double
    } else if i == 2 {
        Grade::Triple
    } else {
        Grade::Pseudo
    }
}

/// The element a draw from `0..=4` gives.
pub open spec fn element_of(v: u32) -> Element {
    if v == 0 {
        Element::Metal
    } else if v == 1 {
        Element::Wood
    } else if v == 2 {
        Element::Water
    } else if v == 3 {
        Element::Fire
    } else {
        Element::Earth
    }
}

/// Draws one of the five basic elements.
pub fn random_element(seed: &mut u64) -> (e: Element)
    ensures
        e == element_of(rand_u32_spec(*old(seed), 0, 4).0),
        *final(seed) == rand_u32_spec(*old(seed), 0, 4).1,
{
    let v = rand_u32(seed, 0, 4);
    if v == 0 {
        Element::Metal
    } else if v == 1 {
        Element::Wood
    } else if v == 2 {
        Element::Water
    } else if v == 3 {
        Element::Fire
    } else {
        Element::Earth
    }
}

// ---------------------------------------------------------------------------
// Starting realm
// ---------------------------------------------------------------------------
/// The weights beyond the third realm: four points shared out, each realm
/// getting at least one.
pub open spec fn extra_weights(remain: u32, slots: u32, count: nat) -> Seq<u32>
    decreases count,
{
    if count == 0 || slots == 0 {
        Seq::empty()
    } else {
        let p = if remain / slots > 1 {
            remain / slots
        } else {
            1
        };
        seq![p] + extra_weights(if remain > p { (remain - p) as u32 } else { 0 }, slots, (count - 1) as nat)
    }
}

/// The weights of the starting realms, lowest first: the lowest realms are
/// by far the likeliest.
pub open spec fn realm_weights_spec(n: nat) -> Seq<u32> {
    if n == 0 {
        Seq::empty()
    } else if n == 1 {
        seq![100u32]
    } else if n == 2 {
        seq![75u32, 25u32]
    } else if n == 3 {
        seq![70u32, 22u32, 8u32]
    } else {
        seq![68u32, 20u32, 8u32] + extra_weights(4, (n - 3) as u32, (n - 3) as nat)
    }
}

/// The extra realms' weights sum to at most `remain + count`, and there are
/// `count` of them when there is a slot.
proof fn lemma_extra_weights_sum(remain: u32, slots: u32, count: nat)
    ensures
        suffix_sum(extra_weights(remain, slots, count), 0) <= remain + count,
        extra_weights(remain, slots, count).len() == if slots == 0 {
            0
        } else {
            count
        },
    decreases count,
{
    if count > 0 && slots > 0 {
        let p = if remain / slots > 1 {
            remain / slots
        } else {
            1
        };
        let next = if remain > p {
            (remain - p) as u32
        } else {
            0
        };
        lemma_extra_weights_sum(next, slots, (count - 1) as nat);
        let rest = extra_weights(next, slots, (count - 1) as nat);
        let all = extra_weights(remain, slots, count);
        assert(all == seq![p] + rest);
        assert(all.subrange(1, all.len() as int) =~= rest);
        lemma_suffix_sum_shift(all, rest, 1);
        assert(p <= remain || p == 1) by (nonlinear_arith)
            requires
                slots > 0,
                p == (if remain / slots > 1 {
                    remain / slots
                } else {
                    1
                }),
        ;
    }
}

/// Suffix sums of a list are those of its tail, shifted by one.
proof fn lemma_suffix_sum_shift(all: Seq<u32>, rest: Seq<u32>, k: int)
    requires
        0 <= k <= all.len(),
        rest == all.subrange(k, all.len() as int),
    ensures
        suffix_sum(all, k) == suffix_sum(rest, 0),
        k == 1 ==> suffix_sum(all, 0) == all[0] + suffix_sum(rest, 0),
{
    lemma_suffix_sum_offset(all, rest, k, 0);
}

/// Suffix sums agree on lists that agree from an offset on.
proof fn lemma_suffix_sum_offset(a: Seq<u32>, b: Seq<u32>, off: int, j: int)
    requires
        0 <= off <= a.len(),
        b == a.subrange(off, a.len() as int),
        0 <= j,
    ensures
        suffix_sum(a, j + off) == suffix_sum(b, j),
    decreases a.len() - j,
{
    if j + off < a.len() {
        lemma_suffix_sum_offset(a, b, off, j + 1);
        assert(a[j + off] == b[j]);
    }
}

/// The weights of the starting realms.
pub fn realm_weights(n: usize) -> (w: Vec<u32>)
    requires
        n <= u32::MAX,
    ensures
        w@ == realm_weights_spec(n as nat),
        w@.len() == n,
        suffix_sum(w@, 0) <= 100 + n,
{
    let mut w: Vec<u32> = Vec::new();
    if n == 0 {
        assert(w@ =~= realm_weights_spec(0));
        return w;
    }
    if n == 1 {
        w.push(100);
        assert(w@ =~= realm_weights_spec(1));
        assert(suffix_sum(w@, 0) == 100) by {
            reveal_with_fuel(suffix_sum, 2);
        }
        return w;
    }
    if n == 2 {
        w.push(75);
        w.push(25);
        assert(w@ =~= realm_weights_spec(2));
        assert(suffix_sum(w@, 0) == 100) by {
            reveal_with_fuel(suffix_sum, 3);
        }
        return w;
    }
    if n == 3 {
        w.push(70);
        w.push(22);
        w.push(8);
        assert(w@ =~= realm_weights_spec(3));
        assert(suffix_sum(w@, 0) == 100) by {
            reveal_with_fuel(suffix_sum, 4);
        }
        return w;
    }
    w.push(68);
    w.push(20);
    w.push(8);
    let slots: u32 = (n - 3) as u32;
    let mut remain: u32 = 4;
    let mut k: u32 = 0;
    let ghost head = seq![68u32, 20u32, 8u32];
    assert(w@ =~= head);
    assert(extra_weights(4, slots, slots as nat) =~= Seq::<u32>::empty() + extra_weights(
        4,
        slots,
        slots as nat,
    ));
    while k < slots
        invariant
            slots > 0,
            k <= slots,
            slots == n - 3,
            head + extra_weights(4, slots, slots as nat) == w@ + extra_weights(
                remain,
                slots,
                (slots - k) as nat,
            ),
            w@.len() == 3 + k,
        decreases slots - k,
    {
        let q = remain / slots;
        let portion = if q > 1 {
            q
        } else {
            1
        };
        let ghost before = w@;
        w.push(portion);
        let next = if remain > portion {
            remain - portion
        } else {
            0
        };
        assert(extra_weights(remain, slots, (slots - k) as nat) == seq![portion] + extra_weights(
            next,
            slots,
            (slots - k - 1) as nat,
        ));
        assert(before + (seq![portion] + extra_weights(next, slots, (slots - k - 1) as nat))
            =~= w@ + extra_weights(next, slots, (slots - k - 1) as nat));
        remain = next;
        k = k + 1;
    }
    assert(w@ + extra_weights(remain, slots, 0) =~= w@);
    proof {
        lemma_extra_weights_sum(4, slots, slots as nat);
        let ex = extra_weights(4, slots, slots as nat);
        assert(w@ == head + ex);
        assert(w@.subrange(3, w@.len() as int) =~= ex);
        lemma_suffix_sum_offset(w@, ex, 3, 0);
        assert(suffix_sum(w@, 0) == 68 + 20 + 8 + suffix_sum(w@, 3)) by {
            reveal_with_fuel(suffix_sum, 4);
        }
    }
    w
}

// ---------------------------------------------------------------------------
// Realms in level order
// ---------------------------------------------------------------------------
/// Position `a` comes before `b` in level order: lower level first, and in
/// the given order among equal levels.
pub open spec fn level_before(levels: Seq<u32>, a: usize, b: usize) -> bool {
    levels[a as int] < levels[b as int] || (levels[a as int] == levels[b as int] && a < b)
}

/// `order` lists every position of `levels` once, in level order (what a
/// stable sort by level gives).
pub open spec fn in_level_order(order: Seq<usize>, levels: Seq<u32>) -> bool {
    &&& order.len() == levels.len()
    &&& forall|k: int| 0 <= k < order.len() ==> #[trigger] order[k] < levels.len()
    &&& forall|a: int, b: int|
        0 <= a < b < order.len() ==> level_before(levels, #[trigger] order[a], #[trigger] order[b])
}

/// The first position from `k` on whose realm is above level `v`, or the
/// end of `order`.
pub open spec fn first_above(order: Seq<usize>, levels: Seq<u32>, v: u32, k: int) -> int
    decreases order.len() - k,
{
    if k >= order.len() {
        order.len() as int
    } else if levels[order[k] as int] > v {
        k
    } else {
        first_above(order, levels, v, k + 1)
    }
}

/// The first `m` positions sorted by level, each inserted after those of no
/// higher level: a stable sort.
pub open spec fn level_order_spec(levels: Seq<u32>, m: nat) -> Seq<usize>
    decreases m,
{
    if m == 0 {
        Seq::empty()
    } else {
        let o = level_order_spec(levels, (m - 1) as nat);
        o.insert(first_above(o, levels, levels[m - 1], 0), (m - 1) as usize)
    }
}

/// The positions of the realms in level order.
pub fn level_order(levels: &Vec<u32>) -> (order: Vec<usize>)
    ensures
        in_level_order(order@, levels@),
        order@ == level_order_spec(levels@, levels@.len()),
{
    let mut order: Vec<usize> = Vec::new();
    let mut i: usize = 0;
    while i < levels.len()
        invariant
            i <= levels@.len(),
            order@.len() == i,
            forall|k: int| 0 <= k < order@.len() ==> #[trigger] order@[k] < i,
            forall|a: int, b: int|
                0 <= a < b < order@.len() ==> level_before(
                    levels@,
                    #[trigger] order@[a],
                    #[trigger] order@[b],
                ),
            order@ == level_order_spec(levels@, i as nat),
        decreases levels@.len() - i,
    {
        let mut p: usize = 0;
        while p < order.len() && levels[order[p]] <= levels[i]
            invariant
                p <= order@.len(),
                i < levels@.len(),
                first_above(order@, levels@, levels@[i as int], p as int) == first_above(
                    order@,
                    levels@,
                    levels@[i as int],
                    0,
                ),
                forall|k: int| 0 <= k < order@.len() ==> #[trigger] order@[k] < i,
                forall|k: int| 0 <= k < p ==> levels@[#[trigger] order@[k] as int] <= levels@[i as int],
            decreases order@.len() - p,
        {
            p = p + 1;
        }
        let ghost old_o = order@;
        proof {
            assert forall|k: int| p <= k < old_o.len() implies levels@[#[trigger] old_o[k] as int]
                > levels@[i as int] by {
                if p < old_o.len() {
                    assert(levels@[old_o[p as int] as int] > levels@[i as int]);
                    if k > p {
                        assert(level_before(levels@, old_o[p as int], old_o[k]));
                    }
                }
            }
        }
        order.insert(p, i);
        proof {
            assert(p as int == first_above(old_o, levels@, levels@[i as int], 0));
            assert(level_order_spec(levels@, (i + 1) as nat) == old_o.insert(p as int, i));
            let o = order@;
            assert(o =~= old_o.insert(p as int, i));
            assert forall|a: int, b: int| 0 <= a < b < o.len() implies level_before(
                levels@,
                #[trigger] o[a],
                #[trigger] o[b],
            ) by {
                if b < p {
                } else if b == p {
                    assert(o[a] == old_o[a]);
                    assert(levels@[old_o[a] as int] <= levels@[i as int]);
                    assert(old_o[a] < i);
                } else if a < p {
                    assert(o[b] == old_o[b - 1]);
                    assert(levels@[old_o[a] as int] <= levels@[i as int]);
                } else if a == p {
                    assert(o[b] == old_o[b - 1]);
                } else {
                    assert(o[a] == old_o[a - 1]);
                    assert(o[b] == old_o[b - 1]);
                }
            }
            assert forall|k: int| 0 <= k < o.len() implies #[trigger] o[k] < i + 1 by {
                if k < p {
                    assert(o[k] == old_o[k]);
                } else if k > p {
                    assert(o[k] == old_o[k - 1]);
                }
            }
        }
        i = i + 1;
    }
    order
}

// ---------------------------------------------------------------------------
// Random start profile
// ---------------------------------------------------------------------------
/// What a random start gives the player. The root's affinity is drawn as a
/// raw generator value, which the caller scales into the grade's range.
#[derive(Debug, Clone, Copy, PartialEq, Eq, Structural)]
pub struct StartProfile {
    pub realm_index: usize,
    pub sub_level: u32,
    pub grade: Grade,
    pub affinity_draw: u64,
    pub element: Element,
    pub location_index: Option<usize>,
    pub starting_age: u32,
    pub max_age: u32,
}

/// Lifespan bonus of a root grade.
pub open spec fn grade_bonus(g: Grade) -> i32 {
    match g {
        Grade::Heavenly => 35,
        Grade::Double => 22,
        Grade::Triple => 12,
        Grade::Pseudo => 0,
    }
}

/// The part of a random start drawn from the seed, before the life
/// expectancy is worked out from it.
#[derive(Debug, Clone, Copy, PartialEq, Eq, Structural)]
pub struct StartDraw {
    pub realm_index: usize,
    pub realm_level: u32,
    pub sub_level: u32,
    pub grade: Grade,
    pub affinity_draw: u64,
    pub element: Element,
    pub location_index: Option<usize>,
    pub starting_age: u32,
    pub jitter: u32,
}

/// The draws of a random start from `seed` for realms of the given levels
/// (in script order, at least one) and `location_count` locations: the
/// starting realm by the realm weights in level order, its sub-level, the
/// root grade, the affinity draw, the element, the location, the age (older
/// for higher realms) and the jitter of the life expectancy.
pub open spec fn start_draw_spec(seed: u64, levels: Seq<u32>, location_count: nat) -> StartDraw {
    let n = levels.len();
    let order = level_order_spec(levels, n);
    let (pick, s1) = weighted_spec(seed, realm_weights_spec(n));
    let idx = if pick < n - 1 {
        pick
    } else {
        (n - 1) as usize
    };
    let realm_index = order[idx as int];
    let (sub_level, s2) = rand_u32_spec(s1, 0, 2);
    let (g, s3) = weighted_spec(s2, grade_weights());
    let s4 = xorshift(s3);
    let (e, s5) = rand_u32_spec(s4, 0, 4);
    let (location_index, s6) = if location_count == 0 {
        (None, s5)
    } else {
        let (l, s) = rand_u32_spec(s5, 0, (location_count - 1) as u32);
        (Some(l as usize), s)
    };
    let age_min = (15 + idx * 2) as u32;
    let (age, s7) = rand_u32_spec(s6, age_min, (age_min + 8) as u32);
    let (jitter, s8) = rand_u32_spec(s7, 0, 10);
    StartDraw {
        realm_index,
        realm_level: levels[realm_index as int],
        sub_level,
        grade: grade_of_index(g),
        affinity_draw: s4,
        element: element_of(e),
        location_index,
        starting_age: age,
        jitter,
    }
}

/// The realm's lifespan bonus, eight years per level above the first, as an
/// unsigned 32-bit product.
pub open spec fn realm_bonus(level: u32) -> int {
    if level >= 1 {
        (level - 1) * 8
    } else {
        0
    }
}

/// That bonus read as a signed 32-bit number: a product above `i32::MAX`
/// wraps around to a negative one.
pub open spec fn signed_realm_bonus(level: u32) -> int {
    if realm_bonus(level) > i32::MAX {
        realm_bonus(level) - 0x1_0000_0000
    } else {
        realm_bonus(level)
    }
}

/// The base life expectancy of a draw: 95 years plus the grade's and the
/// realm's bonus and the jitter.
pub open spec fn base_max_age(d: StartDraw) -> int {
    95 + grade_bonus(d.grade) + signed_realm_bonus(d.realm_level) + d.jitter
}

/// The lifespan of a draw cannot be worked out: the realm bonus overflows
/// 32 bits, or the life expectancy overflows a signed 32-bit number.
pub open spec fn lifespan_overflows(d: StartDraw) -> bool {
    realm_bonus(d.realm_level) > u32::MAX || base_max_age(d) > i32::MAX
}

/// The start a draw gives: its life expectancy is the base one, but at least
/// forty years beyond the starting age.
pub open spec fn profile_of(d: StartDraw) -> StartProfile {
    let min_required = d.starting_age + 40;
    StartProfile {
        realm_index: d.realm_index,
        sub_level: d.sub_level,
        grade: d.grade,
        affinity_draw: d.affinity_draw,
        element: d.element,
        location_index: d.location_index,
        starting_age: d.starting_age,
        max_age: (if base_max_age(d) < min_required {
            min_required
        } else {
            base_max_age(d)
        }) as u32,
    }
}

/// The most realms a random start can choose among: beyond it the starting
/// age of the last realms (`15 + 2 * index` plus up to 8 years) plus the 40
/// years of lifespan it is owed no longer fits the signed 32-bit arithmetic
/// the lifespan is worked out in.
pub const MAX_RANDOM_REALMS: usize = 1073741793;

/// Draws a random start from `seed`.
pub fn draw_random_start(seed: u64, levels: &Vec<u32>, location_count: usize) -> (d: StartDraw)
    requires
        0 < levels@.len() <= MAX_RANDOM_REALMS,
        location_count <= u32::MAX,
    ensures
        d == start_draw_spec(seed, levels@, location_count as nat),
        d.realm_index < levels@.len(),
        d.realm_level == levels@[d.realm_index as int],
        d.sub_level <= 2,
        d.jitter <= 10,
        exists|idx: int|
            0 <= idx < levels@.len() && level_order_spec(levels@, levels@.len())[idx]
                == d.realm_index && 15 + 2 * idx <= d.starting_age <= 23 + 2 * idx,
        match d.location_index {
            Some(l) => l < location_count,
            None => location_count == 0,
        },
{
    let n = levels.len();
    let order = level_order(levels);
    let mut seed = seed;
    let ghost s0 = seed;
    let weights = realm_weights(n);
    let pick = choose_weighted_index(&mut seed, &weights);
    let idx = if pick < n - 1 {
        pick
    } else {
        n - 1
    };
    let realm_index = order[idx];
    let sub_level = rand_u32(&mut seed, 0, 2);
    let grade = random_root_grade(&mut seed);
    let affinity_draw = rng_next(&mut seed);
    let element = random_element(&mut seed);
    let location_index = if location_count == 0 {
        None
    } else {
        let l = rand_u32(&mut seed, 0, (location_count - 1) as u32);
        Some(l as usize)
    };
    let age_min: u32 = 15 + idx as u32 * 2;
    let starting_age = rand_u32(&mut seed, age_min, age_min + 8);
    let jitter = rand_u32(&mut seed, 0, 10);
    let d = StartDraw {
        realm_index,
        realm_level: levels[realm_index],
        sub_level,
        grade,
        affinity_draw,
        element,
        location_index,
        starting_age,
        jitter,
    };
    assert(d == start_draw_spec(s0, levels@, location_count as nat));
    assert(level_order_spec(levels@, levels@.len())[idx as int] == d.realm_index);
    d
}

/// Whether the life expectancy of a draw cannot be worked out.
pub fn start_lifespan_overflows(d: &StartDraw) -> (b: bool)
    ensures
        b == lifespan_overflows(*d),
{
    let raw: u64 = if d.realm_level >= 1 {
        (d.realm_level as u64 - 1) * 8
    } else {
        0
    };
    if raw > u32::MAX as u64 {
        return true;
    }
    let signed: i64 = if raw > i32::MAX as u64 {
        raw as i64 - 0x1_0000_0000
    } else {
        raw as i64
    };
    let gb: i64 = match d.grade {
        Grade::Heavenly => 35,
        Grade::Double => 22,
        Grade::Triple => 12,
        Grade::Pseudo => 0,
    };
    95 + gb + signed + d.jitter as i64 > i32::MAX as i64
}

/// The start a draw gives.
pub fn finish_start(d: &StartDraw) -> (p: StartProfile)
    requires
        !lifespan_overflows(*d),
        d.starting_age + 40 <= i32::MAX,
    ensures
        p == profile_of(*d),
        p.max_age >= p.starting_age + 40,
{
    let raw: u64 = if d.realm_level >= 1 {
        (d.realm_level as u64 - 1) * 8
    } else {
        0
    };
    let signed: i64 = if raw > i32::MAX as u64 {
        raw as i64 - 0x1_0000_0000
    } else {
        raw as i64
    };
    let gb: i64 = match d.grade {
        Grade::Heavenly => 35,
        Grade::Double => 22,
        Grade::Triple => 12,
        Grade::Pseudo => 0,
    };
    let base: i64 = 95 + gb + signed + d.jitter as i64;
    let min_required: i64 = d.starting_age as i64 + 40;
    let max_age: i64 = if base < min_required {
        min_required
    } else {
        base
    };
    StartProfile {
        realm_index: d.realm_index,
        sub_level: d.sub_level,
        grade: d.grade,
        affinity_draw: d.affinity_draw,
        element: d.element,
        location_index: d.location_index,
        starting_age: d.starting_age,
        max_age: max_age as u32,
    }
}

/// Draws the start of a randomly generated script; `None` when the script
/// has no realms.
pub fn build_random_start_profile(seed: u64, levels: &Vec<u32>, location_count: usize) -> (r:
    Option<StartProfile>)
    requires
        levels@.len() <= MAX_RANDOM_REALMS,
        location_count <= u32::MAX,
        levels@.len() > 0 ==> !lifespan_overflows(
            start_draw_spec(seed, levels@, location_count as nat),
        ),
    ensures
        r == if levels@.len() == 0 {
            None
        } else {
            Some(profile_of(start_draw_spec(seed, levels@, location_count as nat)))
        },
        r matches Some(p) ==> {
            &&& p.realm_index < levels@.len()
            &&& p.sub_level <= 2
            &&& p.max_age >= p.starting_age + 40
            &&& exists|idx: int|
                0 <= idx < levels@.len() && level_order_spec(levels@, levels@.len())[idx]
                    == p.realm_index && 15 + 2 * idx <= p.starting_age <= 23 + 2 * idx
            &&& match p.location_index {
                Some(l) => l < location_count,
                None => location_count == 0,
            }
        },
{
    if levels.len() == 0 {
        return None;
    }
    let d = draw_random_start(seed, levels, location_count);
    Some(finish_start(&d))
}

} // verus!
