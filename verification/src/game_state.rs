//! Game calendar and inventory/world records.
use vstd::prelude::*;

verus! {

/// An item in a character's inventory.
#[derive(Debug, Clone, PartialEq)]
pub struct Item {
    pub id: String,
    pub name: String,
    pub description: String,
    pub item_type: ItemType,
}

/// The kind of an item.
#[derive(Debug, Clone, Copy, PartialEq, Eq, Structural)]
pub enum ItemType {
    Technique,
    Artifact,
    Medicine,
    Material,
}

/// A world-wide event.
#[derive(Debug, Clone, PartialEq)]
pub struct GlobalEvent {
    pub id: String,
    pub name: String,
    pub description: String,
    pub timestamp: u64,
}

/// In-game date: 30-day months, 12-month years, plus the count of elapsed days.
#[derive(Debug, Clone, Copy, PartialEq, Eq, Structural)]
pub struct GameTime {
    pub year: u32,
    pub month: u32,
    pub day: u32,
    pub total_days: u32,
}

/// Day number of a date, counting the first day of year 1 as day 1.
pub open spec fn day_number(year: int, month: int, day: int) -> int {
    (year - 1) * 360 + (month - 1) * 30 + day
}

/// The date is a proper calendar date and `total_days` is its day number.
pub open spec fn calendar_consistent(t: GameTime) -> bool {
    &&& t.year >= 1
    &&& 1 <= t.month <= 12
    &&& 1 <= t.day <= 30
    &&& t.total_days == day_number(t.year as int, t.month as int, t.day as int)
}

/// Months carried out of a day count `d` by folding it into 1..=30.
pub open spec fn month_carry(d: int) -> int {
    if d <= 30 {
        0
    } else {
        (d - 1) / 30
    }
}

/// Years carried out of a month count `m` by folding it into 1..=12.
pub open spec fn year_carry(m: int) -> int {
    if m <= 12 {
        0
    } else {
        (m - 1) / 12
    }
}

/// The time after advancing `t` by `days` days.
pub open spec fn advanced(t: GameTime, days: u32) -> GameTime {
    let d0 = t.day + days;
    let k = month_carry(d0);
    let m0 = t.month + k;
    let j = year_carry(m0);
    GameTime {
        year: (t.year + j) as u32,
        month: (m0 - 12 * j) as u32,
        day: (d0 - 30 * k) as u32,
        total_days: (t.total_days + days) as u32,
    }
}

/// `advance_days` does not overflow on `t` and `days`.
pub open spec fn can_advance(t: GameTime, days: u32) -> bool {
    &&& t.total_days + days <= u32::MAX
    &&& t.day + days <= u32::MAX
    &&& t.month + month_carry(t.day + days) <= u32::MAX
    &&& t.year + year_carry(t.month + month_carry(t.day + days)) <= u32::MAX
}

impl GameTime {
    /// The date `year-month-day` with its day number.
    pub fn new(year: u32, month: u32, day: u32) -> (t: GameTime)
        requires
            year >= 1,
            month >= 1,
            day_number(year as int, month as int, day as int) <= u32::MAX,
        ensures
            t.year == year,
            t.month == month,
            t.day == day,
            t.total_days == day_number(year as int, month as int, day as int),
    {
        proof {
            assert((year - 1) * 360 <= day_number(year as int, month as int, day as int))
                by (nonlinear_arith)
                requires
                    year >= 1,
                    month >= 1,
            ;
            assert((month - 1) * 30 >= 0) by (nonlinear_arith)
                requires
                    month >= 1,
            ;
            assert((year - 1) * 360 >= 0) by (nonlinear_arith)
                requires
                    year >= 1,
            ;
        }
        let total_days = (year - 1) * 360 + (month - 1) * 30 + day;
        GameTime { year, month, day, total_days }
    }

    /// Moves the date forward by `days`, carrying days into months and months into years.
    pub fn advance_days(&mut self, days: u32)
        requires
            can_advance(*old(self), days),
        ensures
            *final(self) == advanced(*old(self), days),
    {
        let ghost t0 = *self;
        self.total_days = self.total_days + days;
        self.day = self.day + days;
        let ghost d0: int = self.day as int;
        let ghost k: int = month_carry(d0);
        proof {
            if d0 > 30 {
                assert(d0 - 30 * k >= 1 && d0 - 30 * k <= 30) by (nonlinear_arith)
                    requires
                        d0 > 30,
                        k == (d0 - 1) / 30,
                ;
            }
        }
        let ghost mut c: int = 0;
        while self.day > 30
            invariant
                0 <= c <= k,
                self.day == d0 - 30 * c,
                self.month == t0.month + c,
                self.year == t0.year,
                self.total_days == t0.total_days + days,
                t0.month + k <= u32::MAX,
                d0 == t0.day + days,
                k == month_carry(d0),
                d0 > 30 ==> d0 - 30 * k >= 1 && d0 - 30 * k <= 30,
            decreases self.day,
        {
            proof {
                assert(d0 > 30);
                if c == k {
                    assert(false);
                }
                c = c + 1;
            }
            self.day = self.day - 30;
            self.month = self.month + 1;
        }
        proof {
            if c < k {
                assert(d0 > 30);
                assert(d0 - 30 * c >= d0 - 30 * k + 30) by (nonlinear_arith)
                    requires
                        c < k,
                ;
                assert(false);
            }
        }
        let ghost m0: int = self.month as int;
        let ghost j: int = year_carry(m0);
        proof {
            if m0 > 12 {
                assert(m0 - 12 * j >= 1 && m0 - 12 * j <= 12) by (nonlinear_arith)
                    requires
                        m0 > 12,
                        j == (m0 - 1) / 12,
                ;
            }
        }
        let ghost mut e: int = 0;
        while self.month > 12
            invariant
                0 <= e <= j,
                self.month == m0 - 12 * e,
                self.year == t0.year + e,
                self.day == d0 - 30 * k,
                self.total_days == t0.total_days + days,
                t0.year + j <= u32::MAX,
                j == year_carry(m0),
                m0 > 12 ==> m0 - 12 * j >= 1 && m0 - 12 * j <= 12,
            decreases self.month,
        {
            proof {
                assert(m0 > 12);
                if e == j {
                    assert(false);
                }
                e = e + 1;
            }
            self.month = self.month - 12;
            self.year = self.year + 1;
        }
        proof {
            if e < j {
                assert(m0 > 12);
                assert(m0 - 12 * e >= m0 - 12 * j + 12) by (nonlinear_arith)
                    requires
                        e < j,
                ;
                assert(false);
            }
        }
    }
}

/// Advancing a consistent date keeps it consistent, and the day number grows
/// by exactly the number of days advanced.
pub proof fn advance_keeps_calendar(t: GameTime, days: u32)
    requires
        calendar_consistent(t),
        can_advance(t, days),
    ensures
        calendar_consistent(advanced(t, days)),
        advanced(t, days).total_days == t.total_days + days,
{
    let d0 = t.day + days;
    let k = month_carry(d0);
    let m0 = t.month + k;
    let j = year_carry(m0);
    let r = advanced(t, days);
    assert(1 <= d0 - 30 * k <= 30) by (nonlinear_arith)
        requires
            d0 >= 1,
            k == (if d0 <= 30 { 0 } else { (d0 - 1) / 30 }),
    ;
    assert(1 <= m0 - 12 * j <= 12) by (nonlinear_arith)
        requires
            m0 >= 1,
            j == (if m0 <= 12 { 0 } else { (m0 - 1) / 12 }),
    ;
    assert(day_number(t.year + j, m0 - 12 * j, d0 - 30 * k) == day_number(
        t.year as int,
        t.month as int,
        t.day as int,
    ) + days) by (nonlinear_arith)
        requires
            d0 == t.day + days,
            m0 == t.month + k,
    ;
}

} // verus!
