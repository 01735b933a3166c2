//! The numerical rules that decide action outcomes, breakthroughs, combat and ageing.
use crate::models::Lifespan;
use crate::text::{append_str, decimal, push_decimal};
use vstd::prelude::*;

verus! {

/// Something a character can do.
#[derive(Debug, Clone, PartialEq, Eq)]
pub enum Action {
    Cultivate,
    Combat { target_id: String },
    Breakthrough,
    Rest,
    Custom { description: String },
}

/// An action with its texts as character sequences.
pub enum ActionView {
    Cultivate,
    Combat(Seq<char>),
    Breakthrough,
    Rest,
    Custom(Seq<char>),
}

impl View for Action {
    type V = ActionView;

    open spec fn view(&self) -> ActionView {
        match self {
            Action::Cultivate => ActionView::Cultivate,
            Action::Combat { target_id } => ActionView::Combat(target_id@),
            Action::Breakthrough => ActionView::Breakthrough,
            Action::Rest => ActionView::Rest,
            Action::Custom { description } => ActionView::Custom(description@),
        }
    }
}

impl Action {
    /// A variant-by-variant copy.
    pub fn duplicate(&self) -> (r: Action)
        ensures
            r == *self,
    {
        match self {
            Action::Cultivate => Action::Cultivate,
            Action::Combat { target_id } => Action::Combat { target_id: target_id.clone() },
            Action::Breakthrough => Action::Breakthrough,
            Action::Rest => Action::Rest,
            Action::Custom { description } => Action::Custom { description: description.clone() },
        }
    }
}

/// Where and when an action happens.
#[derive(Debug, Clone, PartialEq, Eq)]
pub struct Context {
    pub location: String,
    pub time_of_day: String,
    pub weather: Option<String>,
}

/// Outcome of an action.
#[derive(Debug, Clone, PartialEq, Eq)]
pub struct ActionResult {
    pub success: bool,
    pub description: String,
    pub stat_changes: Vec<StatChange>,
    pub events: Vec<String>,
}

/// A change to one attribute.
#[derive(Debug, Clone, PartialEq, Eq)]
pub struct StatChange {
    pub stat_name: String,
    pub old_value: String,
    pub new_value: String,
}

/// Outcome of a fight.
#[derive(Debug, Clone, PartialEq, Eq)]
pub struct CombatResult {
    pub winner_id: String,
    pub loser_id: String,
    pub damage_dealt: u32,
    pub description: String,
}

/// What the action rules read of a character. The two values that come from
/// the fractional spiritual-root affinity are worked out by the caller: the
/// cultivation progress as displayed text, and whether a breakthrough succeeds.
#[derive(Debug, Clone, PartialEq, Eq)]
pub struct ActorSnapshot {
    pub realm_name: String,
    pub realm_level: u32,
    pub sub_level: u32,
    pub combat_power: u64,
    pub cultivation_progress: String,
    pub breakthrough_ready: bool,
}

/// Sequence views of a list of strings.
pub open spec fn views(v: Seq<String>) -> Seq<Seq<char>> {
    v.map_values(|s: String| s@)
}

/// The result each action produces.
pub open spec fn action_outcome(
    actor: ActorSnapshot,
    action: ActionView,
    context: Context,
) -> (bool, Seq<char>, Seq<Seq<char>>) {
    match action {
        ActionView::Cultivate => (
            true,
            "Cultivated successfully. Progress: "@ + actor.cultivation_progress@ + "%"@,
            seq!["Cultivation session completed"@],
        ),
        ActionView::Combat(target_id) => (
            true,
            "Combat initiated with "@ + target_id,
            seq!["Combat started at "@ + context.location@],
        ),
        ActionView::Breakthrough => if actor.breakthrough_ready {
            (
                true,
                "Successfully broke through to the next sub-level of "@ + actor.realm_name@
                    + "!"@,
                seq!["Breakthrough successful"@],
            )
        } else {
            (
                false,
                "Breakthrough attempt failed. Need more preparation."@,
                seq!["Breakthrough failed"@],
            )
        },
        ActionView::Rest => (true, "Character rested and recovered energy"@, Seq::empty()),
        ActionView::Custom(description) => (true, description, Seq::empty()),
    }
}

/// `r` is the result `action_outcome` describes, with no stat changes.
pub open spec fn is_outcome(r: ActionResult, actor: ActorSnapshot, action: ActionView, context: Context) -> bool {
    let o = action_outcome(actor, action, context);
    &&& r.success == o.0
    &&& r.description@ == o.1
    &&& r.stat_changes@.len() == 0
    &&& views(r.events@) == o.2
}

/// A breakthrough target is the next sub-level of the same realm (at most
/// sub-level 3), or sub-level 0 of the next realm from the peak (sub-level 3).
pub open spec fn breakthrough_allowed(
    current_level: u32,
    current_sub: u32,
    target_level: u32,
    target_sub: u32,
) -> bool {
    if target_level == current_level {
        target_sub == current_sub + 1 && target_sub <= 3
    } else if target_level == current_level + 1 {
        current_sub == 3 && target_sub == 0
    } else {
        false
    }
}

/// Signed difference of two powers, each read as a 64-bit signed value.
pub open spec fn power_diff(attacker: u64, defender: u64) -> int {
    (attacker as i64) - (defender as i64)
}

/// Damage before the minimum of one is applied.
pub open spec fn raw_damage(attacker: u64, defender: u64) -> u32 {
    let d = power_diff(attacker, defender);
    if d > 0 {
        (d / 10) as u32
    } else {
        ((-d) / 10) as u32
    }
}

/// The rules engine for actions.
#[derive(Debug, Clone, Copy)]
pub struct NumericalSystem {}

impl NumericalSystem {
    /// The rules engine.
    pub fn new() -> (s: NumericalSystem) {
        NumericalSystem {  }
    }

    /// The result of `action` by `actor` in `context`.
    pub fn calculate_action_result(
        &self,
        actor: &ActorSnapshot,
        action: &Action,
        context: &Context,
    ) -> (r: ActionResult)
        ensures
            is_outcome(r, *actor, action@, *context),
    {
        match action {
            Action::Cultivate => {
                let mut d = "Cultivated successfully. Progress: ".to_string();
                append_str(&mut d, actor.cultivation_progress.as_str());
                append_str(&mut d, "%");
                let mut events: Vec<String> = Vec::new();
                events.push("Cultivation session completed".to_string());
                let r = ActionResult { success: true, description: d, stat_changes: Vec::new(), events };
                assert(views(r.events@) =~= seq!["Cultivation session completed"@]);
                r
            },
            Action::Combat { target_id } => {
                let mut d = "Combat initiated with ".to_string();
                append_str(&mut d, target_id.as_str());
                let mut e = "Combat started at ".to_string();
                append_str(&mut e, context.location.as_str());
                let mut events: Vec<String> = Vec::new();
                events.push(e);
                let r = ActionResult { success: true, description: d, stat_changes: Vec::new(), events };
                assert(views(r.events@) =~= seq!["Combat started at "@ + context.location@]);
                r
            },
            Action::Breakthrough => {
                let mut events: Vec<String> = Vec::new();
                if actor.breakthrough_ready {
                    let mut d = "Successfully broke through to the next sub-level of ".to_string();
                    append_str(&mut d, actor.realm_name.as_str());
                    append_str(&mut d, "!");
                    events.push("Breakthrough successful".to_string());
                    let r = ActionResult { success: true, description: d, stat_changes: Vec::new(), events };
                    assert(views(r.events@) =~= seq!["Breakthrough successful"@]);
                    r
                } else {
                    events.push("Breakthrough failed".to_string());
                    let r = ActionResult {
                        success: false,
                        description: "Breakthrough attempt failed. Need more preparation.".to_string(),
                        stat_changes: Vec::new(),
                        events,
                    };
                    assert(views(r.events@) =~= seq!["Breakthrough failed"@]);
                    r
                }
            },
            Action::Rest => {
                let r = ActionResult {
                    success: true,
                    description: "Character rested and recovered energy".to_string(),
                    stat_changes: Vec::new(),
                    events: Vec::new(),
                };
                assert(views(r.events@) =~= Seq::<Seq<char>>::empty());
                r
            },
            Action::Custom { description } => {
                let r = ActionResult {
                    success: true,
                    description: description.clone(),
                    stat_changes: Vec::new(),
                    events: Vec::new(),
                };
                assert(views(r.events@) =~= Seq::<Seq<char>>::empty());
                r
            },
        }
    }

    /// Whether a character at `(current_level, current_sub)` may break through
    /// to `(target_level, target_sub)`.
    pub fn validate_realm_breakthrough(
        &self,
        current_level: u32,
        current_sub: u32,
        target_level: u32,
        target_sub: u32,
    ) -> (b: bool)
        requires
            current_level < u32::MAX,
            current_sub < u32::MAX,
        ensures
            b == breakthrough_allowed(current_level, current_sub, target_level, target_sub),
    {
        if target_level == current_level {
            target_sub == current_sub + 1 && target_sub <= 3
        } else if target_level == current_level + 1 {
            current_sub == 3 && target_sub == 0
        } else {
            false
        }
    }

    /// The fight between an attacker and a defender of the given combat powers:
    /// the stronger wins (the defender on a tie), damage is a tenth of the gap
    /// (at least one).
    pub fn calculate_combat_outcome(&self, attacker_power: u64, defender_power: u64) -> (r:
        CombatResult)
        requires
            i64::MIN < power_diff(attacker_power, defender_power) <= i64::MAX,
        ensures
            power_diff(attacker_power, defender_power) > 0 ==> r.winner_id@ == "attacker"@
                && r.loser_id@ == "defender"@,
            power_diff(attacker_power, defender_power) <= 0 ==> r.winner_id@ == "defender"@
                && r.loser_id@ == "attacker"@,
            r.damage_dealt == if raw_damage(attacker_power, defender_power) >= 1 {
                raw_damage(attacker_power, defender_power)
            } else {
                1
            },
            r.description@ == r.winner_id@ + " defeated "@ + r.loser_id@ + " with "@ + decimal(
                raw_damage(attacker_power, defender_power) as nat,
            ) + " damage"@,
    {
        let a = attacker_power as i64;
        let d = defender_power as i64;
        let diff = a - d;
        let (winner, loser, damage): (&str, &str, u32) = if diff > 0 {
            ("attacker", "defender", (diff / 10) as u32)
        } else {
            ("defender", "attacker", ((-diff) / 10) as u32)
        };
        let mut description = winner.to_string();
        append_str(&mut description, " defeated ");
        append_str(&mut description, loser);
        append_str(&mut description, " with ");
        push_decimal(&mut description, damage as u64);
        append_str(&mut description, " damage");
        CombatResult {
            winner_id: winner.to_string(),
            loser_id: loser.to_string(),
            damage_dealt: if damage >= 1 {
                damage
            } else {
                1
            },
            description,
        }
    }

    /// Ages a character by `time_passed` years.
    pub fn update_lifespan(&self, lifespan: &mut Lifespan, time_passed: u32)
        requires
            old(lifespan).current_age + time_passed <= u32::MAX,
        ensures
            final(lifespan).current_age == old(lifespan).current_age + time_passed,
            final(lifespan).max_age == old(lifespan).max_age,
            final(lifespan).realm_bonus == old(lifespan).realm_bonus,
    {
        lifespan.current_age = lifespan.current_age + time_passed;
    }
}

} // verus!
