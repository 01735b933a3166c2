//! Cultivation attributes that carry no fractional values.
use vstd::prelude::*;

verus! {

/// Element of a spiritual root.
#[derive(Debug, Clone, Copy, PartialEq, Eq, Structural)]
pub enum Element {
    Metal,
    Wood,
    Water,
    Fire,
    Earth,
    Thunder,
    Wind,
    Ice,
}

/// Quality of a spiritual root.
#[derive(Debug, Clone, Copy, PartialEq, Eq, Structural)]
pub enum Grade {
    Heavenly,
    Pseudo,
    Triple,
    Double,
}

/// Age and life expectancy of a cultivator.
#[derive(Debug, Clone, Copy, PartialEq, Eq, Structural)]
pub struct Lifespan {
    pub current_age: u32,
    pub max_age: u32,
    pub realm_bonus: u32,
}

impl Lifespan {
    /// A lifespan with the given age, base limit and realm bonus.
    pub fn new(current_age: u32, max_age: u32, realm_bonus: u32) -> (l: Lifespan)
        ensures
            l.current_age == current_age,
            l.max_age == max_age,
            l.realm_bonus == realm_bonus,
    {
        Lifespan { current_age, max_age, realm_bonus }
    }

    /// Base limit plus realm bonus.
    pub fn total_max_age(&self) -> (n: u32)
        requires
            self.max_age + self.realm_bonus <= u32::MAX,
        ensures
            n == self.max_age + self.realm_bonus,
    {
        self.max_age + self.realm_bonus
    }

    /// Alive while younger than the total limit.
    pub fn is_alive(&self) -> (b: bool)
        requires
            self.max_age + self.realm_bonus <= u32::MAX,
        ensures
            b == (self.current_age < self.max_age + self.realm_bonus),
    {
        self.current_age < self.total_max_age()
    }

    /// Years left before the total limit, or 0 once it is reached.
    pub fn remaining_years(&self) -> (n: u32)
        requires
            self.max_age + self.realm_bonus <= u32::MAX,
        ensures
            n == if self.current_age < self.max_age + self.realm_bonus {
                self.max_age + self.realm_bonus - self.current_age
            } else {
                0
            },
    {
        self.total_max_age().saturating_sub(self.current_age)
    }
}

/// A cultivator is alive exactly when some years remain.
pub proof fn alive_iff_years_remain(l: Lifespan)
    requires
        l.max_age + l.realm_bonus <= u32::MAX,
    ensures
        (l.current_age < l.max_age + l.realm_bonus) <==> (if l.current_age < l.max_age
            + l.realm_bonus {
            l.max_age + l.realm_bonus - l.current_age
        } else {
            0
        }) > 0,
{
}

/// Name of a sub-level within a realm: early, middle, late, perfected.
pub open spec fn sub_level_name_spec(sub_level: u32) -> Seq<char> {
    if sub_level == 0 {
        "初期"@
    } else if sub_level == 1 {
        "中期"@
    } else if sub_level == 2 {
        "后期"@
    } else if sub_level == 3 {
        "圆满期"@
    } else {
        "未知"@
    }
}

/// The display name of a realm sub-level.
pub fn sub_level_name(sub_level: u32) -> (s: &'static str)
    ensures
        s@ == sub_level_name_spec(sub_level),
{
    if sub_level == 0 {
        "初期"
    } else if sub_level == 1 {
        "中期"
    } else if sub_level == 2 {
        "后期"
    } else if sub_level == 3 {
        "圆满期"
    } else {
        "未知"
    }
}

} // verus!
