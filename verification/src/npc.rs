//! Non-player characters: personality traits, relationships and the rules by
//! which they decide how to react.
use crate::llm_service::LLMResponse;
use crate::prompt_builder::{
    fitted_prompt, no_limit, shown_history, PromptBuilder, PromptConstraints, PromptContext,
    PromptTemplate,
};
use crate::response_validator::{
    error_text, json_pointer_str, json_str_at, response_check, ResponseValidator,
    ValidationConstraints,
};
use crate::script_manager::contains_string;
use crate::text::{
    append_str, contains, contains_spec, str_eq, string_views, to_lowercase, unicode_lowercase,
};
use vstd::prelude::*;

verus! {

/// A character trait that colours an NPC's decisions.
#[derive(Debug, Clone, Copy, PartialEq, Eq, Structural)]
pub enum PersonalityTrait {
    Calm,
    Aggressive,
    Cautious,
    Ambitious,
    Righteous,
    Scheming,
}

/// Something an NPC strives for.
#[derive(Debug, Clone, PartialEq, Eq)]
pub struct Goal {
    pub description: String,
    pub priority: u8,
}

/// One interaction that changed a relationship.
#[derive(Debug, Clone, PartialEq, Eq)]
pub struct InteractionRecord {
    pub timestamp: u64,
    pub event: String,
    pub affinity_change: i32,
    pub trust_change: i32,
}

/// How an NPC regards another character; affinity and trust stay in
/// `-100..=100`.
#[derive(Debug, Clone, PartialEq, Eq)]
pub struct Relationship {
    pub target_id: String,
    pub affinity: i32,
    pub trust: i32,
    pub history: Vec<InteractionRecord>,
}

/// What an NPC decided to do, and why.
#[derive(Debug, Clone, PartialEq, Eq)]
pub struct NPCDecision {
    pub npc_id: String,
    pub action: String,
    pub reason: String,
}

/// `v` raised to `lo`, then lowered to `hi`.
pub open spec fn clamp_spec(v: int, lo: int, hi: int) -> int {
    let a = if v < lo {
        lo
    } else {
        v
    };
    if a > hi {
        hi
    } else {
        a
    }
}

/// `value.max(min).min(max)`.
pub fn clamp_i32(value: i32, min: i32, max: i32) -> (r: i32)
    ensures
        r == clamp_spec(value as int, min as int, max as int),
{
    let a = if value < min {
        min
    } else {
        value
    };
    if a > max {
        max
    } else {
        a
    }
}

/// Clamping into a non-empty range lands in it, and leaves values already in
/// it unchanged.
pub proof fn clamp_lands_in_range(v: int, lo: int, hi: int)
    requires
        lo <= hi,
    ensures
        lo <= clamp_spec(v, lo, hi) <= hi,
        lo <= v <= hi ==> clamp_spec(v, lo, hi) == v,
{
}

impl Relationship {
    /// A neutral relationship with no history.
    pub fn new(target_id: &str) -> (r: Relationship)
        ensures
            r.target_id@ == target_id@,
            r.affinity == 0,
            r.trust == 0,
            r.history@.len() == 0,
    {
        Relationship { target_id: target_id.to_string(), affinity: 0, trust: 0, history: Vec::new() }
    }

    /// Records an interaction: affinity and trust move by the deltas and are
    /// clamped to `-100..=100`; the interaction is appended to the history.
    pub fn apply_interaction(
        &mut self,
        affinity_delta: i32,
        trust_delta: i32,
        event_desc: &str,
        timestamp: u64,
    )
        requires
            i32::MIN <= old(self).affinity + affinity_delta <= i32::MAX,
            i32::MIN <= old(self).trust + trust_delta <= i32::MAX,
        ensures
            final(self).target_id == old(self).target_id,
            final(self).affinity == clamp_spec(old(self).affinity + affinity_delta, -100, 100),
            final(self).trust == clamp_spec(old(self).trust + trust_delta, -100, 100),
            -100 <= final(self).affinity <= 100,
            -100 <= final(self).trust <= 100,
            final(self).history@.len() == old(self).history@.len() + 1,
            final(self).history@.subrange(0, old(self).history@.len() as int) == old(self).history@,
            final(self).history@.last().timestamp == timestamp,
            final(self).history@.last().event@ == event_desc@,
            final(self).history@.last().affinity_change == affinity_delta,
            final(self).history@.last().trust_change == trust_delta,
    {
        self.affinity = clamp_i32(self.affinity + affinity_delta, -100, 100);
        self.trust = clamp_i32(self.trust + trust_delta, -100, 100);
        self.history.push(
            InteractionRecord {
                timestamp,
                event: event_desc.to_string(),
                affinity_change: affinity_delta,
                trust_change: trust_delta,
            },
        );
        assert(self.history@.subrange(0, self.history@.len() - 1) =~= old(self).history@);
    }
}

/// Whether the traits include the given one.
pub open spec fn has_trait(traits: Seq<PersonalityTrait>, t: PersonalityTrait) -> bool {
    exists|i: int| 0 <= i < traits.len() && traits[i] == t
}

/// Whether the traits include `t`.
fn has_trait_exec(traits: &Vec<PersonalityTrait>, t: PersonalityTrait) -> (r: bool)
    ensures
        r == has_trait(traits@, t),
{
    let mut i: usize = 0;
    while i < traits.len()
        invariant
            i <= traits@.len(),
            forall|k: int| 0 <= k < i ==> traits@[k] != t,
        decreases traits@.len() - i,
    {
        if traits[i] == t {
            return true;
        }
        i = i + 1;
    }
    false
}

/// The action chosen without a model: defend around fighting, grab around
/// riches, otherwise watch. The situation is matched in lower case.
pub open spec fn fallback_action(situation: Seq<char>) -> Seq<char> {
    let lower = unicode_lowercase(situation);
    if contains_spec(lower, "combat"@) || contains_spec(lower, "battle"@) {
        "prepare_defense"@
    } else if contains_spec(lower, "resource"@) || contains_spec(lower, "treasure"@) {
        "secure_resource"@
    } else {
        "observe_and_plan"@
    }
}

/// A decision made by rule when no model answer is at hand.
pub fn generate_fallback_decision(npc_id: &str, situation: &str) -> (d: NPCDecision)
    ensures
        d.npc_id@ == npc_id@,
        d.action@ == fallback_action(situation@),
        d.reason@ == "Fallback decision for situation: "@ + situation@,
{
    let lower = to_lowercase(situation);
    let action = if contains(lower.as_str(), "combat") || contains(lower.as_str(), "battle") {
        "prepare_defense"
    } else if contains(lower.as_str(), "resource") || contains(lower.as_str(), "treasure") {
        "secure_resource"
    } else {
        "observe_and_plan"
    };
    let mut reason = "Fallback decision for situation: ".to_string();
    append_str(&mut reason, situation);
    NPCDecision { npc_id: npc_id.to_string(), action: action.to_string(), reason }
}

/// The action after the personality check: a cautious NPC drops reckless
/// actions for watching, and an aggressive one turns watching into
/// intervening.
pub open spec fn adjusted_action(traits: Seq<PersonalityTrait>, action: Seq<char>) -> Seq<char> {
    let a1 = if has_trait(traits, PersonalityTrait::Cautious) && contains_spec(action, "reckless"@) {
        "observe_and_plan"@
    } else {
        action
    };
    if has_trait(traits, PersonalityTrait::Aggressive) && a1 == "observe_and_plan"@ {
        "intervene"@
    } else {
        a1
    }
}

/// The reason after the personality check: a note is appended for each
/// adjustment made.
pub open spec fn adjusted_reason(
    traits: Seq<PersonalityTrait>,
    action: Seq<char>,
    reason: Seq<char>,
) -> Seq<char> {
    let cautious = has_trait(traits, PersonalityTrait::Cautious) && contains_spec(
        action,
        "reckless"@,
    );
    let a1 = if cautious {
        "observe_and_plan"@
    } else {
        action
    };
    let r1 = if cautious {
        reason + " | adjusted for cautious personality"@
    } else {
        reason
    };
    if has_trait(traits, PersonalityTrait::Aggressive) && a1 == "observe_and_plan"@ {
        r1 + " | adjusted for aggressive personality"@
    } else {
        r1
    }
}

/// Adjusts a decision to the NPC's personality.
pub fn validate_decision_against_personality(
    traits: &Vec<PersonalityTrait>,
    decision: NPCDecision,
) -> (d: NPCDecision)
    ensures
        d.npc_id == decision.npc_id,
        d.action@ == adjusted_action(traits@, decision.action@),
        d.reason@ == adjusted_reason(traits@, decision.action@, decision.reason@),
{
    let is_cautious = has_trait_exec(traits, PersonalityTrait::Cautious);
    let is_aggressive = has_trait_exec(traits, PersonalityTrait::Aggressive);
    let mut d = decision;
    if is_cautious && contains(d.action.as_str(), "reckless") {
        d.action = "observe_and_plan".to_string();
        append_str(&mut d.reason, " | adjusted for cautious personality");
    }
    if is_aggressive && str_eq(d.action.as_str(), "observe_and_plan") {
        d.action = "intervene".to_string();
        append_str(&mut d.reason, " | adjusted for aggressive personality");
    }
    d
}

/// How an NPC reacts to an event: to a major event an aggressive NPC
/// intervenes, a cautious one watches carefully, others respond; to a minor
/// one a cautious NPC watches and others acknowledge it.
pub open spec fn reaction_action(traits: Seq<PersonalityTrait>, major: bool) -> Seq<char> {
    if major {
        if has_trait(traits, PersonalityTrait::Aggressive) {
            "intervene"@
        } else if has_trait(traits, PersonalityTrait::Cautious) {
            "observe_carefully"@
        } else {
            "respond"@
        }
    } else if has_trait(traits, PersonalityTrait::Cautious) {
        "observe"@
    } else {
        "acknowledge"@
    }
}

/// How personality decides a reaction. To a major event: an NPC with an
/// aggressive trait intervenes; one without it but with a cautious trait
/// observes carefully; one with neither responds. To a minor event: an NPC
/// with a cautious trait observes; one without it acknowledges.
pub proof fn reaction_follows_personality(traits: Seq<PersonalityTrait>, major: bool)
    ensures
        major && (exists|i: int| 0 <= i < traits.len() && traits[i] == PersonalityTrait::Aggressive)
            ==> reaction_action(traits, major) == "intervene"@,
        major && (forall|i: int| 0 <= i < traits.len() ==> traits[i] != PersonalityTrait::Aggressive)
            && (exists|i: int| 0 <= i < traits.len() && traits[i] == PersonalityTrait::Cautious)
            ==> reaction_action(traits, major) == "observe_carefully"@,
        major && (forall|i: int|
            0 <= i < traits.len() ==> traits[i] != PersonalityTrait::Aggressive && traits[i]
                != PersonalityTrait::Cautious) ==> reaction_action(traits, major) == "respond"@,
        !major && (exists|i: int| 0 <= i < traits.len() && traits[i] == PersonalityTrait::Cautious)
            ==> reaction_action(traits, major) == "observe"@,
        !major && (forall|i: int| 0 <= i < traits.len() ==> traits[i] != PersonalityTrait::Cautious)
            ==> reaction_action(traits, major) == "acknowledge"@,
{
}

/// The reaction of an NPC (its traits, when it is known) to an event;
/// `major` tells whether the event's importance reaches the threshold for
/// major events.
pub fn generate_reaction_decision(
    npc_id: &str,
    traits: Option<&Vec<PersonalityTrait>>,
    major: bool,
    description: &str,
) -> (d: NPCDecision)
    ensures
        d.npc_id@ == npc_id@,
        match traits {
            None => d.action@ == "ignore"@ && d.reason@ == "npc not found"@,
            Some(t) => d.action@ == reaction_action(t@, major) && d.reason@ == "Reaction to event: "@
                + description@,
        },
{
    match traits {
        None => NPCDecision {
            npc_id: npc_id.to_string(),
            action: "ignore".to_string(),
            reason: "npc not found".to_string(),
        },
        Some(t) => {
            let has_aggressive = has_trait_exec(t, PersonalityTrait::Aggressive);
            let has_cautious = has_trait_exec(t, PersonalityTrait::Cautious);
            let action = if major {
                if has_aggressive {
                    "intervene"
                } else if has_cautious {
                    "observe_carefully"
                } else {
                    "respond"
                }
            } else if has_cautious {
                "observe"
            } else {
                "acknowledge"
            };
            let mut reason = "Reaction to event: ".to_string();
            append_str(&mut reason, description);
            NPCDecision { npc_id: npc_id.to_string(), action: action.to_string(), reason }
        },
    }
}

/// The pairs `(i, j)` with `j < upto` and `j != i`, in order of `j`.
pub open spec fn row_upto(i: nat, upto: nat) -> Seq<(usize, usize)>
    decreases upto,
{
    if upto == 0 {
        Seq::empty()
    } else if upto - 1 != i {
        row_upto(i, (upto - 1) as nat).push((i as usize, (upto - 1) as usize))
    } else {
        row_upto(i, (upto - 1) as nat)
    }
}

/// All ordered pairs of distinct indices below `n` whose first index is below
/// `rows`, row by row.
pub open spec fn pairs_before(n: nat, rows: nat) -> Seq<(usize, usize)>
    decreases rows,
{
    if rows == 0 {
        Seq::empty()
    } else {
        pairs_before(n, (rows - 1) as nat) + row_upto((rows - 1) as nat, n)
    }
}

/// The NPCs an event reaches: those it names that are known, in the order
/// named; every known NPC when it names none.
pub open spec fn affected_spec(involved: Seq<String>, known: Seq<String>) -> Seq<String> {
    if involved.len() == 0 {
        known
    } else {
        involved.filter(|x: String| string_views(known).contains(x@))
    }
}

/// The ids of the NPCs an event reaches.
pub fn affected_npc_ids(involved: &Vec<String>, known: &Vec<String>) -> (r: Vec<String>)
    ensures
        r@ == affected_spec(involved@, known@),
{
    let mut out: Vec<String> = Vec::new();
    if involved.len() == 0 {
        let mut i: usize = 0;
        while i < known.len()
            invariant
                i <= known@.len(),
                out@ == known@.take(i as int),
            decreases known@.len() - i,
        {
            out.push(known[i].clone());
            i = i + 1;
            assert(out@ =~= known@.take(i as int));
        }
        assert(known@.take(known@.len() as int) =~= known@);
        return out;
    }
    let ghost pred = |x: String| string_views(known@).contains(x@);
    let mut i: usize = 0;
    while i < involved.len()
        invariant
            i <= involved@.len(),
            pred == (|x: String| string_views(known@).contains(x@)),
            out@ == involved@.take(i as int).filter(pred),
        decreases involved@.len() - i,
    {
        let id = &involved[i];
        let keep = contains_string(known, id.as_str());
        proof {
            assert(involved@.take(i + 1) =~= involved@.take(i as int).push(*id));
            involved@.take(i as int).lemma_filter_push(*id, pred);
        }
        if keep {
            out.push(id.clone());
        }
        i = i + 1;
    }
    assert(involved@.take(involved@.len() as int) =~= involved@);
    out
}

/// The ordered pairs of distinct positions among `n` involved characters, in
/// the order in which relationships between them are updated.
pub fn pairwise_pairs(n: usize) -> (r: Vec<(usize, usize)>)
    ensures
        r@ == pairs_before(n as nat, n as nat),
{
    let mut r: Vec<(usize, usize)> = Vec::new();
    let mut i: usize = 0;
    while i < n
        invariant
            i <= n,
            r@ == pairs_before(n as nat, i as nat),
        decreases n - i,
    {
        let mut j: usize = 0;
        while j < n
            invariant
                i < n,
                j <= n,
                r@ == pairs_before(n as nat, i as nat) + row_upto(i as nat, j as nat),
            decreases n - j,
        {
            if i != j {
                r.push((i, j));
                assert(r@ =~= pairs_before(n as nat, i as nat) + row_upto(i as nat, (j + 1) as nat));
            } else {
                assert(row_upto(i as nat, (j + 1) as nat) == row_upto(i as nat, j as nat));
            }
            j = j + 1;
        }
        assert(pairs_before(n as nat, (i + 1) as nat) == pairs_before(n as nat, i as nat)
            + row_upto(i as nat, n as nat));
        i = i + 1;
    }
    r
}

/// Row `i` up to `upto` holds only pairs `(i, b)` with `b < upto` and `b != i`, and
/// holds each of them.
proof fn lemma_row_upto(i: nat, upto: nat, b: nat)
    requires
        i <= usize::MAX,
        upto <= usize::MAX,
    ensures
        row_upto(i, upto).contains((i as usize, b as usize)) <== (b < upto && b != i),
        forall|k: int| 0 <= k < row_upto(i, upto).len() ==> {
            let p = #[trigger] row_upto(i, upto)[k];
            p.0 == i && p.1 < upto && p.1 != i
        },
    decreases upto,
{
    if upto > 0 {
        lemma_row_upto(i, (upto - 1) as nat, b);
        let prev = row_upto(i, (upto - 1) as nat);
        if upto - 1 != i {
            assert(row_upto(i, upto) == prev.push((i as usize, (upto - 1) as usize)));
            if b < upto && b != i {
                if b == upto - 1 {
                    assert(row_upto(i, upto)[prev.len() as int] == (i as usize, b as usize));
                } else {
                    let k = choose|k: int| 0 <= k < prev.len() && prev[k] == (i as usize, b as usize);
                    assert(row_upto(i, upto)[k] == (i as usize, b as usize));
                }
            }
        }
    }
}

/// The pairs updated for `n` involved characters are exactly the ordered
/// pairs of distinct positions below `n`.
pub proof fn pairwise_pairs_are_all_distinct_pairs(n: nat, rows: nat, a: nat, b: nat)
    requires
        rows <= n <= usize::MAX,
    ensures
        pairs_before(n, rows).contains((a as usize, b as usize)) <== (a < rows && b < n && a
            != b),
        forall|k: int| 0 <= k < pairs_before(n, rows).len() ==> {
            let p = #[trigger] pairs_before(n, rows)[k];
            p.0 < rows && p.1 < n && p.0 != p.1
        },
    decreases rows,
{
    if rows > 0 {
        let r = (rows - 1) as nat;
        pairwise_pairs_are_all_distinct_pairs(n, r, a, b);
        lemma_row_upto(r, n, b);
        let prev = pairs_before(n, r);
        let row = row_upto(r, n);
        assert(pairs_before(n, rows) == prev + row);
        assert forall|k: int| 0 <= k < pairs_before(n, rows).len() implies {
            let p = #[trigger] pairs_before(n, rows)[k];
            p.0 < rows && p.1 < n && p.0 != p.1
        } by {
            if k >= prev.len() {
                assert(pairs_before(n, rows)[k] == row[k - prev.len()]);
            } else {
                assert(pairs_before(n, rows)[k] == prev[k]);
            }
        }
        if a < rows && b < n && a != b {
            if a == r {
                let k = choose|k: int| 0 <= k < row.len() && row[k] == (a as usize, b as usize);
                assert(pairs_before(n, rows)[prev.len() + k] == (a as usize, b as usize));
            } else {
                let k = choose|k: int| 0 <= k < prev.len() && prev[k] == (a as usize, b as usize);
                assert(pairs_before(n, rows)[k] == (a as usize, b as usize));
            }
        }
    }
}

/// What the model's answer to a decision prompt yields: the response check
/// (non-empty, JSON), then the string fields `action` and `reason`.
pub open spec fn llm_decision_outcome(text: Seq<char>) -> Result<(Seq<char>, Seq<char>), Seq<char>> {
    let c = ValidationConstraints {
        require_json: true,
        max_realm_level: None,
        min_combat_power: None,
        max_combat_power: None,
        max_current_age: None,
    };
    match response_check(text, c) {
        Err(e) => Err(error_text(e)),
        Ok(_) => match json_str_at(text, "/action"@) {
            None => Err("LLM decision missing action"@),
            Some(a) => match json_str_at(text, "/reason"@) {
                None => Err("LLM decision missing reason"@),
                Some(r) => Ok((a, r)),
            },
        },
    }
}

/// Reads an NPC decision out of a model response.
pub fn decision_from_response(
    validator: &ResponseValidator,
    npc_id: &str,
    response: &LLMResponse,
) -> (r: Result<NPCDecision, String>)
    ensures
        match (r, llm_decision_outcome(response.text@)) {
            (Ok(d), Ok((a, why))) => d.npc_id@ == npc_id@ && d.action@ == a && d.reason@ == why,
            (Err(m), Err(e)) => m@ == e,
            _ => false,
        },
{
    let c = ValidationConstraints {
        require_json: true,
        max_realm_level: None,
        min_combat_power: None,
        max_combat_power: None,
        max_current_age: None,
    };
    match validator.validate_response(response, &c) {
        Err(e) => {
            return Err(e.to_string());
        },
        Ok(_) => {},
    }
    let action = match json_pointer_str(response.text.as_str(), "/action") {
        None => {
            return Err("LLM decision missing action".to_string());
        },
        Some(a) => a,
    };
    let reason = match json_pointer_str(response.text.as_str(), "/reason") {
        None => {
            return Err("LLM decision missing reason".to_string());
        },
        Some(r) => r,
    };
    Ok(NPCDecision { npc_id: npc_id.to_string(), action, reason })
}

/// The decision an NPC takes: the model's when it gave one, else the rule
/// fallback; either way adjusted to the NPC's personality.
pub fn finish_decision(
    npc_id: &str,
    traits: &Vec<PersonalityTrait>,
    situation: &str,
    from_model: Option<NPCDecision>,
) -> (d: NPCDecision)
    ensures
        match from_model {
            Some(m) => d.npc_id == m.npc_id && d.action@ == adjusted_action(traits@, m.action@)
                && d.reason@ == adjusted_reason(traits@, m.action@, m.reason@),
            None => d.npc_id@ == npc_id@ && d.action@ == adjusted_action(
                traits@,
                fallback_action(situation@),
            ) && d.reason@ == adjusted_reason(
                traits@,
                fallback_action(situation@),
                "Fallback decision for situation: "@ + situation@,
            ),
        },
{
    let decision = match from_model {
        Some(m) => m,
        None => generate_fallback_decision(npc_id, situation),
    };
    validate_decision_against_personality(traits, decision)
}

/// The most recent memories first, at most five of them.
pub open spec fn recent_first(events: Seq<String>) -> Seq<String> {
    let n = if events.len() < 5 {
        events.len()
    } else {
        5
    };
    Seq::new(n, |k: int| events[events.len() - 1 - k])
}

/// The context of a decision prompt for an NPC.
pub open spec fn npc_context_fits(
    c: PromptContext,
    name: Seq<char>,
    realm: Seq<char>,
    combat_power: u64,
    memories: Seq<String>,
    situation: Seq<char>,
) -> bool {
    &&& c.scene matches Some(s) && s@ == situation
    &&& c.location is None
    &&& c.actor_name matches Some(n) && n@ == name
    &&& c.actor_realm matches Some(r) && r@ == realm
    &&& c.actor_combat_power == Some(combat_power)
    &&& c.history_events@ == recent_first(memories)
    &&& c.world_setting_summary matches Some(w) && w@
        == "Cultivation world with strict numerical rules"@
}

/// The rules of a decision prompt: realistic, executable actions, answered
/// as a JSON object with `action` and `reason`.
pub open spec fn npc_constraints_fit(k: PromptConstraints) -> bool {
    &&& k.numerical_rules@.len() == 2
    &&& k.numerical_rules@[0]@ == "action must not violate combat power realism"@
    &&& k.numerical_rules@[1]@ == "decision should be executable in current realm"@
    &&& k.world_rules@.len() == 2
    &&& k.world_rules@[0]@ == "respond in strict JSON only"@
    &&& k.world_rules@[1]@ == "json keys: action, reason"@
    &&& k.output_schema_hint matches Some(h) && h@ == "{\"action\":\"string\",\"reason\":\"string\"}"@
}

/// The prompt asking the model for an NPC's decision, within 400 tokens.
pub fn npc_decision_prompt(
    builder: &PromptBuilder,
    name: &str,
    realm: &str,
    combat_power: u64,
    memories: &Vec<String>,
    situation: &str,
) -> (s: String)
    ensures
        exists|c: PromptContext, k: PromptConstraints|
            npc_context_fits(c, name@, realm@, combat_power, memories@, situation@)
                && npc_constraints_fit(k) && s@ == fitted_prompt(
                PromptTemplate::NpcDecision,
                c,
                k,
                shown_history(c, builder.max_history()),
                no_limit(),
                400,
            ),
{
    let mut history: Vec<String> = Vec::new();
    let n = memories.len();
    let take: usize = if n < 5 {
        n
    } else {
        5
    };
    let mut k: usize = 0;
    while k < take
        invariant
            take <= n == memories@.len(),
            take == recent_first(memories@).len(),
            k <= take,
            history@ == recent_first(memories@).take(k as int),
        decreases take - k,
    {
        history.push(memories[n - 1 - k].clone());
        assert(history@ =~= recent_first(memories@).take(k + 1));
        k = k + 1;
    }
    assert(history@ =~= recent_first(memories@));
    let context = PromptContext {
        scene: Some(situation.to_string()),
        location: None,
        actor_name: Some(name.to_string()),
        actor_realm: Some(realm.to_string()),
        actor_combat_power: Some(combat_power),
        history_events: history,
        world_setting_summary: Some("Cultivation world with strict numerical rules".to_string()),
    };
    let constraints = PromptConstraints {
        numerical_rules: vec![
            "action must not violate combat power realism".to_string(),
            "decision should be executable in current realm".to_string(),
        ],
        world_rules: vec![
            "respond in strict JSON only".to_string(),
            "json keys: action, reason".to_string(),
        ],
        output_schema_hint: Some("{\"action\":\"string\",\"reason\":\"string\"}".to_string()),
    };
    builder.build_prompt_with_token_limit(PromptTemplate::NpcDecision, &context, &constraints, 400)
}

} // verus!
