//! Building language-model prompts from scene context and rule constraints,
//! within a token budget.
use crate::text::{
    append_str, chars_of, contains_spec, decimal, lemma_contains_extend, lemma_contains_parts,
    lemma_contains_trans, push_decimal, string_from_chars, take_chars, word_count,
    word_count_spec,
};
use vstd::prelude::*;

verus! {

/// Default number of history entries a prompt shows.
pub const DEFAULT_MAX_HISTORY_ITEMS: usize = 12;

/// What the prompt asks the model to produce.
#[derive(Debug, Clone, Copy, PartialEq, Eq, Structural)]
pub enum PromptTemplate {
    ScriptGeneration,
    OptionGeneration,
    NpcDecision,
    PlotGeneration,
}

/// The task line of each template.
pub open spec fn instruction_spec(t: PromptTemplate) -> Seq<char> {
    match t {
        PromptTemplate::ScriptGeneration => "Generate a complete cultivation world script with coherent settings."@,
        PromptTemplate::OptionGeneration => "Generate 2 to 5 actionable player options for the current scene."@,
        PromptTemplate::NpcDecision => "Generate an NPC decision consistent with personality and memory."@,
        PromptTemplate::PlotGeneration => "Generate novel-style plot text that follows from the latest events."@,
    }
}

impl PromptTemplate {
    /// The task line of this template.
    pub fn instruction(&self) -> (s: &'static str)
        ensures
            s@ == instruction_spec(*self),
    {
        match self {
            PromptTemplate::ScriptGeneration => "Generate a complete cultivation world script with coherent settings.",
            PromptTemplate::OptionGeneration => "Generate 2 to 5 actionable player options for the current scene.",
            PromptTemplate::NpcDecision => "Generate an NPC decision consistent with personality and memory.",
            PromptTemplate::PlotGeneration => "Generate novel-style plot text that follows from the latest events.",
        }
    }
}

/// Scene facts the prompt reports.
#[derive(Debug, Clone, Default, PartialEq, Eq)]
pub struct PromptContext {
    pub scene: Option<String>,
    pub location: Option<String>,
    pub actor_name: Option<String>,
    pub actor_realm: Option<String>,
    pub actor_combat_power: Option<u64>,
    pub history_events: Vec<String>,
    pub world_setting_summary: Option<String>,
}

/// Rules the model's answer must respect.
#[derive(Debug, Clone, Default, PartialEq, Eq)]
pub struct PromptConstraints {
    pub numerical_rules: Vec<String>,
    pub world_rules: Vec<String>,
    pub output_schema_hint: Option<String>,
}

/// Renders prompts, showing at most `max_history_items` history entries.
#[derive(Debug, Clone)]
pub struct PromptBuilder {
    max_history_items: usize,
}

/// `usize::MAX`, the text limit that truncates nothing.
pub open spec fn no_limit() -> usize {
    usize::MAX
}

/// Token estimate: the number of words, or a quarter of the characters
/// (rounded up) when there are no words; capped at `u32::MAX`.
pub open spec fn token_estimate(s: Seq<char>) -> nat {
    let w = word_count_spec(s);
    if w > 0 {
        if w <= u32::MAX {
            w
        } else {
            u32::MAX as nat
        }
    } else {
        let plus = if s.len() + 3 <= usize::MAX {
            s.len() + 3
        } else {
            usize::MAX as nat
        };
        let approx = plus / 4;
        if approx <= u32::MAX {
            approx
        } else {
            u32::MAX as nat
        }
    }
}

/// Estimated number of tokens in `text`.
pub fn estimate_token_count(text: &str) -> (n: u32)
    ensures
        n == token_estimate(text@),
{
    let words = word_count(text);
    if words > 0 {
        if words <= u32::MAX as usize {
            return words as u32;
        } else {
            return u32::MAX;
        }
    }
    let v = chars_of(text);
    let chars = v.len();
    let plus = chars.saturating_add(3);
    let approx = plus / 4;
    if approx <= u32::MAX as usize {
        approx as u32
    } else {
        u32::MAX
    }
}

/// `t` cut to `limit` characters, with `...` appended when something was cut.
pub open spec fn trunc_spec(t: Seq<char>, limit: nat) -> Seq<char> {
    if t.len() <= limit {
        t
    } else {
        t.take(limit as int) + "..."@
    }
}

/// Cuts `text` to `limit` characters, marking a cut with `...`.
pub fn truncate_text(text: &str, limit: usize) -> (s: String)
    ensures
        s@ == trunc_spec(text@, limit as nat),
        text@.len() <= usize::MAX,
{
    let v = chars_of(text);
    if v.len() <= limit {
        return text.to_string();
    }
    let mut out = string_from_chars(&v.as_slice()[0..limit]);
    append_str(&mut out, "...");
    out
}

/// A `label` line for an optional value, or nothing.
pub open spec fn opt_line(label: Seq<char>, v: Option<String>, limit: nat) -> Seq<char> {
    match v {
        Some(s) => label + trunc_spec(s@, limit) + "\n"@,
        None => Seq::empty(),
    }
}

/// History lines `- {event}` for the events from index `start` on.
pub open spec fn history_lines(ev: Seq<String>, start: int, limit: nat) -> Seq<char>
    decreases ev.len() - start,
{
    if start < 0 || start >= ev.len() {
        Seq::empty()
    } else {
        "- "@ + trunc_spec(ev[start]@, limit) + "\n"@ + history_lines(ev, start + 1, limit)
    }
}

/// Rule lines `- {rule}` for the rules from index `start` on.
pub open spec fn rule_lines(rules: Seq<String>, start: int) -> Seq<char>
    decreases rules.len() - start,
{
    if start < 0 || start >= rules.len() {
        Seq::empty()
    } else {
        "- "@ + rules[start]@ + "\n"@ + rule_lines(rules, start + 1)
    }
}

/// The numerical-rules block.
pub open spec fn numerical_block(rules: Seq<String>) -> Seq<char> {
    if rules.len() == 0 {
        "NumericalRules:\n- none\n"@
    } else {
        "NumericalRules:\n"@ + rule_lines(rules, 0)
    }
}

/// The world-rules block.
pub open spec fn world_block(rules: Seq<String>) -> Seq<char> {
    if rules.len() == 0 {
        "WorldRules:\n- none\n"@
    } else {
        "WorldRules:\n"@ + rule_lines(rules, 0)
    }
}

/// The context block: present facts, then the last `history_count` events.
pub open spec fn context_block(c: PromptContext, history_count: nat, limit: nat) -> Seq<char> {
    let n = c.history_events@.len();
    let start = if history_count <= n {
        n - history_count
    } else {
        0
    };
    "[Context]\n"@ + opt_line("Scene: "@, c.scene, limit) + opt_line(
        "Location: "@,
        c.location,
        limit,
    ) + opt_line("Actor: "@, c.actor_name, limit) + opt_line("Realm: "@, c.actor_realm, limit)
        + match c.actor_combat_power {
        Some(p) => "CombatPower: "@ + decimal(p as nat) + "\n"@,
        None => Seq::empty(),
    } + opt_line("WorldSetting: "@, c.world_setting_summary, limit) + "RecentHistory:\n"@
        + history_lines(c.history_events@, start, limit) + if history_count == 0 {
        "- none\n"@
    } else {
        Seq::empty()
    } + "\n"@
}

/// The output-requirements block.
pub open spec fn output_block(k: PromptConstraints) -> Seq<char> {
    "\n[OutputRequirements]\n"@ + match k.output_schema_hint {
        Some(h) => h@ + "\n"@,
        None => "Return valid JSON with deterministic fields when possible.\n"@,
    } + "Do not violate any numerical or world constraints.\n"@
}

/// A full prompt: task, context, constraints and output requirements.
pub open spec fn render_spec(
    t: PromptTemplate,
    c: PromptContext,
    k: PromptConstraints,
    history_count: nat,
    limit: nat,
) -> Seq<char> {
    "[Task]\n"@ + instruction_spec(t) + "\n\n"@ + context_block(c, history_count, limit)
        + "[Constraints]\n"@ + numerical_block(k.numerical_rules@) + world_block(
        k.world_rules@,
    ) + output_block(k)
}

/// `4 * n`, stopping at `usize::MAX`.
pub open spec fn chars_budget(n: u32) -> nat {
    if n as nat * 4 <= usize::MAX {
        n as nat * 4
    } else {
        usize::MAX as nat
    }
}

/// The longest prefix of `p`, of at most `n` characters, whose token estimate
/// is within `budget` (the empty prefix, estimated at no tokens, always is).
pub open spec fn fitting_prefix(p: Seq<char>, n: nat, budget: u32) -> Seq<char>
    decreases n,
{
    let q = take_chars(p, n as int);
    if token_estimate(q) <= budget || n == 0 {
        q
    } else {
        fitting_prefix(p, (n - 1) as nat, budget)
    }
}

/// Budget-fitting search: fewer history entries first, then shorter text
/// (256, then 128 characters), and as a last resort a cut of the text to the
/// longest prefix of at most four characters per token that fits the budget.
pub open spec fn fitted_prompt(
    t: PromptTemplate,
    c: PromptContext,
    k: PromptConstraints,
    history_count: nat,
    limit: usize,
    budget: u32,
) -> Seq<char>
    decreases history_count, if limit > 256 {
        2nat
    } else if limit > 128 {
        1nat
    } else {
        0nat
    },
{
    let p = render_spec(t, c, k, history_count, limit as nat);
    if token_estimate(p) <= budget {
        p
    } else if history_count > 0 {
        fitted_prompt(t, c, k, (history_count - 1) as nat, limit, budget)
    } else if limit > 256 {
        fitted_prompt(t, c, k, 0, 256, budget)
    } else if limit > 128 {
        fitted_prompt(t, c, k, 0, 128, budget)
    } else {
        fitting_prefix(
            p,
            if chars_budget(budget) < p.len() {
                chars_budget(budget)
            } else {
                p.len()
            },
            budget,
        )
    }
}

/// Every text of `c` that a prompt showing the last `history_count` events
/// prints has a length that fits in `usize`, as every text held in memory does.
pub open spec fn texts_fit(c: PromptContext, history_count: nat) -> bool {
    &&& (c.scene matches Some(s) ==> s@.len() <= usize::MAX)
    &&& (c.location matches Some(s) ==> s@.len() <= usize::MAX)
    &&& (c.actor_name matches Some(s) ==> s@.len() <= usize::MAX)
    &&& (c.actor_realm matches Some(s) ==> s@.len() <= usize::MAX)
    &&& (c.world_setting_summary matches Some(s) ==> s@.len() <= usize::MAX)
    &&& forall|i: int|
        c.history_events@.len() - history_count <= i < c.history_events@.len() && 0 <= i
            ==> (#[trigger] c.history_events@[i])@.len() <= usize::MAX
}

/// `p` starts with the task and its instruction, and shows the scene,
/// location, actor, realm, combat power and world setting on their labelled
/// lines, each of the last `shown` history events, each numerical and world
/// rule, and the output schema hint.
pub open spec fn shows_context(
    p: Seq<char>,
    t: PromptTemplate,
    c: PromptContext,
    k: PromptConstraints,
    shown: nat,
) -> bool {
    &&& ("[Task]\n"@ + instruction_spec(t)).is_prefix_of(p)
    &&& contains_spec(p, instruction_spec(t))
    &&& (c.scene matches Some(s) ==> contains_spec(p, "Scene: "@ + s@))
    &&& (c.location matches Some(s) ==> contains_spec(p, "Location: "@ + s@))
    &&& (c.actor_name matches Some(s) ==> contains_spec(p, "Actor: "@ + s@))
    &&& (c.actor_realm matches Some(s) ==> contains_spec(p, "Realm: "@ + s@))
    &&& (c.actor_combat_power matches Some(n) ==> contains_spec(
        p,
        "CombatPower: "@ + decimal(n as nat),
    ))
    &&& (c.world_setting_summary matches Some(s) ==> contains_spec(p, "WorldSetting: "@ + s@))
    &&& forall|i: int|
        c.history_events@.len() - shown <= i < c.history_events@.len() && 0 <= i
            ==> contains_spec(p, "- "@ + (#[trigger] c.history_events@[i])@)
    &&& forall|i: int|
        0 <= i < k.numerical_rules@.len() ==> contains_spec(
            p,
            "- "@ + (#[trigger] k.numerical_rules@[i])@,
        )
    &&& forall|i: int|
        0 <= i < k.world_rules@.len() ==> contains_spec(p, "- "@ + (#[trigger] k.world_rules@[i])@)
    &&& (k.output_schema_hint matches Some(h) ==> contains_spec(p, h@))
}

/// Number of history entries a builder with the given cap shows.
pub open spec fn shown_history(c: PromptContext, max_history: usize) -> nat {
    if c.history_events@.len() <= max_history {
        c.history_events@.len()
    } else {
        max_history as nat
    }
}

impl PromptBuilder {
    /// Most history entries shown.
    pub closed spec fn max_history(&self) -> usize {
        self.max_history_items
    }

    /// A builder showing at most `max(max_history_items, 1)` history entries.
    pub fn new(max_history_items: usize) -> (b: PromptBuilder)
        ensures
            b.max_history() == if max_history_items >= 1 {
                max_history_items
            } else {
                1
            },
    {
        PromptBuilder { max_history_items: if max_history_items >= 1 { max_history_items } else { 1 } }
    }

    /// A builder with the default history cap.
    pub fn default_builder() -> (b: PromptBuilder)
        ensures
            b.max_history() == DEFAULT_MAX_HISTORY_ITEMS,
    {
        PromptBuilder::new(DEFAULT_MAX_HISTORY_ITEMS)
    }

    /// The prompt with no token budget.
    pub fn build_prompt(
        &self,
        template: PromptTemplate,
        context: &PromptContext,
        constraints: &PromptConstraints,
    ) -> (s: String)
        ensures
            s@ == fitted_prompt(
                template,
                *context,
                *constraints,
                shown_history(*context, self.max_history()),
                no_limit(),
                u32::MAX,
            ),
            s@ == render_spec(
                template,
                *context,
                *constraints,
                shown_history(*context, self.max_history()),
                usize::MAX as nat,
            ),
            shows_context(
                s@,
                template,
                *context,
                *constraints,
                shown_history(*context, self.max_history()),
            ),
    {
        // No estimate exceeds `u32::MAX`, so the full rendering always fits.
        let shown: usize = if context.history_events.len() <= self.max_history_items {
            context.history_events.len()
        } else {
            self.max_history_items
        };
        let s = self.render_prompt(template, context, constraints, shown, usize::MAX);
        proof {
            unlimited_prompt_is_full(template, *context, *constraints, shown as nat);
            built_prompt_shows_context(*self, template, *context, *constraints);
        }
        s
    }

    /// The prompt cut down to fit `max(max_prompt_tokens, 1)` estimated tokens.
    pub fn build_prompt_with_token_limit(
        &self,
        template: PromptTemplate,
        context: &PromptContext,
        constraints: &PromptConstraints,
        max_prompt_tokens: u32,
    ) -> (s: String)
        ensures
            token_estimate(s@) <= if max_prompt_tokens >= 1 {
                max_prompt_tokens
            } else {
                1
            },
            s@ == fitted_prompt(
                template,
                *context,
                *constraints,
                shown_history(*context, self.max_history()),
                no_limit(),
                if max_prompt_tokens >= 1 {
                    max_prompt_tokens
                } else {
                    1
                },
            ),
    {
        let token_limit: u32 = if max_prompt_tokens >= 1 {
            max_prompt_tokens
        } else {
            1
        };
        proof {
            fitted_prompt_fits(
                template,
                *context,
                *constraints,
                shown_history(*context, self.max_history()),
                no_limit(),
                token_limit,
            );
        }
        let mut history_count: usize = if context.history_events.len() <= self.max_history_items {
            context.history_events.len()
        } else {
            self.max_history_items
        };
        let mut text_limit: usize = usize::MAX;
        let ghost target = fitted_prompt(
            template,
            *context,
            *constraints,
            history_count as nat,
            text_limit,
            token_limit,
        );
        loop
            invariant
                fitted_prompt(
                    template,
                    *context,
                    *constraints,
                    history_count as nat,
                    text_limit,
                    token_limit,
                ) == target,
                token_estimate(target) <= token_limit,
                token_limit == if max_prompt_tokens >= 1 {
                    max_prompt_tokens
                } else {
                    1
                },
                target == fitted_prompt(
                    template,
                    *context,
                    *constraints,
                    shown_history(*context, self.max_history()),
                    no_limit(),
                    if max_prompt_tokens >= 1 {
                        max_prompt_tokens
                    } else {
                        1
                    },
                ),
            decreases history_count, if text_limit > 256 {
                2nat
            } else if text_limit > 128 {
                1nat
            } else {
                0nat
            },
        {
            let prompt = self.render_prompt(
                template,
                context,
                constraints,
                history_count,
                text_limit,
            );
            if self.estimate_prompt_tokens(prompt.as_str()) <= token_limit {
                return prompt;
            }
            if history_count > 0 {
                history_count = history_count - 1;
                continue ;
            }
            if text_limit > 256 {
                text_limit = 256;
                continue ;
            }
            if text_limit > 128 {
                text_limit = 128;
                continue ;
            }
            let max_chars: usize = if token_limit as usize > usize::MAX / 4 {
                usize::MAX
            } else {
                token_limit as usize * 4
            };
            let v = chars_of(prompt.as_str());
            let mut n: usize = if max_chars < v.len() {
                max_chars
            } else {
                v.len()
            };
            let ghost start = n as nat;
            assert(max_chars as nat == chars_budget(token_limit));
            assert(target == fitting_prefix(prompt@, start, token_limit));
            loop
                invariant
                    n <= v@.len(),
                    v@ == prompt@,
                    fitting_prefix(prompt@, n as nat, token_limit) == target,
                    token_estimate(target) <= token_limit,
                    token_limit == if max_prompt_tokens >= 1 {
                        max_prompt_tokens
                    } else {
                        1
                    },
                    target == fitted_prompt(
                        template,
                        *context,
                        *constraints,
                        shown_history(*context, self.max_history()),
                        no_limit(),
                        if max_prompt_tokens >= 1 {
                            max_prompt_tokens
                        } else {
                            1
                        },
                    ),
                decreases n,
            {
                let q = string_from_chars(&v.as_slice()[0..n]);
                proof {
                    if n as int == v@.len() {
                        assert(v@.subrange(0, n as int) =~= v@);
                    }
                }
                if self.estimate_prompt_tokens(q.as_str()) <= token_limit || n == 0 {
                    return q;
                }
                n = n - 1;
            }
        }
    }

    /// Estimated tokens of a prompt.
    pub fn estimate_prompt_tokens(&self, prompt: &str) -> (n: u32)
        ensures
            n == token_estimate(prompt@),
    {
        estimate_token_count(prompt)
    }

    /// Renders the prompt with the last `history_count` events and values cut
    /// to `text_limit` characters.
    pub fn render_prompt(
        &self,
        template: PromptTemplate,
        context: &PromptContext,
        constraints: &PromptConstraints,
        history_count: usize,
        text_limit: usize,
    ) -> (s: String)
        ensures
            s@ == render_spec(
                template,
                *context,
                *constraints,
                history_count as nat,
                text_limit as nat,
            ),
            texts_fit(*context, history_count as nat),
    {
        let mut prompt = "[Task]\n".to_string();
        append_str(&mut prompt, template.instruction());
        append_str(&mut prompt, "\n\n");
        let c = render_context(context, history_count, text_limit);
        append_str(&mut prompt, c.as_str());
        append_str(&mut prompt, "[Constraints]\n");
        let n = render_rules(&constraints.numerical_rules, true);
        append_str(&mut prompt, n.as_str());
        let w = render_rules(&constraints.world_rules, false);
        append_str(&mut prompt, w.as_str());
        append_str(&mut prompt, "\n[OutputRequirements]\n");
        match &constraints.output_schema_hint {
            Some(h) => {
                append_str(&mut prompt, h.as_str());
                append_str(&mut prompt, "\n");
            },
            None => {
                append_str(&mut prompt, "Return valid JSON with deterministic fields when possible.\n");
            },
        }
        append_str(&mut prompt, "Do not violate any numerical or world constraints.\n");
        proof {
            let t = "[Task]\n"@;
            assert(prompt@ =~= render_spec(
                template,
                *context,
                *constraints,
                history_count as nat,
                text_limit as nat,
            ));
        }
        prompt
    }
}

/// Appends a labelled line for a value that is present.
fn push_opt_line(out: &mut String, label: &str, v: &Option<String>, limit: usize)
    ensures
        final(out)@ == old(out)@ + opt_line(label@, *v, limit as nat),
        v matches Some(t) ==> t@.len() <= usize::MAX,
{
    match v {
        Some(s) => {
            append_str(out, label);
            let t = truncate_text(s.as_str(), limit);
            append_str(out, t.as_str());
            append_str(out, "\n");
            assert(final(out)@ =~= old(out)@ + opt_line(label@, *v, limit as nat));
        },
        None => {
            assert(old(out)@ + opt_line(label@, *v, limit as nat) =~= old(out)@);
        },
    }
}

/// The context block of a prompt.
fn render_context(c: &PromptContext, history_count: usize, limit: usize) -> (s: String)
    ensures
        s@ == context_block(*c, history_count as nat, limit as nat),
        texts_fit(*c, history_count as nat),
{
    let mut out = "[Context]\n".to_string();
    push_opt_line(&mut out, "Scene: ", &c.scene, limit);
    push_opt_line(&mut out, "Location: ", &c.location, limit);
    push_opt_line(&mut out, "Actor: ", &c.actor_name, limit);
    push_opt_line(&mut out, "Realm: ", &c.actor_realm, limit);
    let ghost before_power = out@;
    match c.actor_combat_power {
        Some(p) => {
            append_str(&mut out, "CombatPower: ");
            push_decimal(&mut out, p);
            append_str(&mut out, "\n");
        },
        None => {},
    }
    push_opt_line(&mut out, "WorldSetting: ", &c.world_setting_summary, limit);
    append_str(&mut out, "RecentHistory:\n");
    let n = c.history_events.len();
    let start: usize = if history_count <= n {
        n - history_count
    } else {
        0
    };
    let ghost prefix = out@;
    let mut i = start;
    while i < n
        invariant
            start <= i <= n,
            n == c.history_events@.len(),
            out@ + history_lines(c.history_events@, i as int, limit as nat) == prefix
                + history_lines(c.history_events@, start as int, limit as nat),
            forall|j: int| start <= j < i ==> (#[trigger] c.history_events@[j])@.len() <= usize::MAX,
        decreases n - i,
    {
        let ghost before = out@;
        append_str(&mut out, "- ");
        let t = truncate_text(c.history_events[i].as_str(), limit);
        append_str(&mut out, t.as_str());
        append_str(&mut out, "\n");
        proof {
            assert(history_lines(c.history_events@, i as int, limit as nat) =~= "- "@ + trunc_spec(
                c.history_events@[i as int]@,
                limit as nat,
            ) + "\n"@ + history_lines(c.history_events@, i + 1, limit as nat));
            assert(out@ + history_lines(c.history_events@, i + 1, limit as nat) =~= before
                + history_lines(c.history_events@, i as int, limit as nat));
        }
        i = i + 1;
    }
    assert(out@ =~= prefix + history_lines(c.history_events@, start as int, limit as nat));
    if history_count == 0 {
        append_str(&mut out, "- none\n");
    }
    append_str(&mut out, "\n");
    assert(out@ =~= context_block(*c, history_count as nat, limit as nat));
    out
}

/// The lines of a rule block.
fn render_rules(rules: &Vec<String>, numerical: bool) -> (s: String)
    ensures
        s@ == if numerical {
            numerical_block(rules@)
        } else {
            world_block(rules@)
        },
{
    if rules.len() == 0 {
        if numerical {
            return "NumericalRules:\n- none\n".to_string();
        } else {
            return "WorldRules:\n- none\n".to_string();
        }
    }
    let mut out = if numerical {
        "NumericalRules:\n".to_string()
    } else {
        "WorldRules:\n".to_string()
    };
    let ghost prefix = out@;
    let mut i: usize = 0;
    while i < rules.len()
        invariant
            i <= rules@.len(),
            out@ + rule_lines(rules@, i as int) == prefix + rule_lines(rules@, 0),
        decreases rules@.len() - i,
    {
        let ghost before = out@;
        append_str(&mut out, "- ");
        append_str(&mut out, rules[i].as_str());
        append_str(&mut out, "\n");
        proof {
            assert(rule_lines(rules@, i as int) =~= "- "@ + rules@[i as int]@ + "\n"@ + rule_lines(
                rules@,
                i + 1,
            ));
            assert(out@ + rule_lines(rules@, i + 1) =~= before + rule_lines(rules@, i as int));
        }
        i = i + 1;
    }
    assert(out@ =~= prefix + rule_lines(rules@, 0));
    out
}

// ---------------------------------------------------------------------------
// Laws
// ---------------------------------------------------------------------------
/// The longest fitting prefix is within the budget.
proof fn lemma_fitting_prefix_fits(p: Seq<char>, n: nat, budget: u32)
    ensures
        token_estimate(fitting_prefix(p, n, budget)) <= budget,
    decreases n,
{
    let q = take_chars(p, n as int);
    if token_estimate(q) <= budget {
    } else if n == 0 {
        assert(q =~= Seq::<char>::empty());
        assert(word_count_spec(q) == 0);
    } else {
        lemma_fitting_prefix_fits(p, (n - 1) as nat, budget);
    }
}

/// A prompt fitted to a budget never has a token estimate above the budget.
pub proof fn fitted_prompt_fits(
    t: PromptTemplate,
    c: PromptContext,
    k: PromptConstraints,
    history_count: nat,
    limit: usize,
    budget: u32,
)
    ensures
        token_estimate(fitted_prompt(t, c, k, history_count, limit, budget)) <= budget,
    decreases history_count, if limit > 256 {
        2nat
    } else if limit > 128 {
        1nat
    } else {
        0nat
    },
{
    let p = render_spec(t, c, k, history_count, limit as nat);
    if token_estimate(p) <= budget {
    } else if history_count > 0 {
        fitted_prompt_fits(t, c, k, (history_count - 1) as nat, limit, budget);
    } else if limit > 256 {
        fitted_prompt_fits(t, c, k, 0, 256, budget);
    } else if limit > 128 {
        fitted_prompt_fits(t, c, k, 0, 128, budget);
    } else {
        let n = if chars_budget(budget) < p.len() {
            chars_budget(budget)
        } else {
            p.len()
        };
        lemma_fitting_prefix_fits(p, n, budget);
    }
}

/// With no budget to speak of, nothing is cut: the prompt is the full
/// rendering.
pub proof fn unlimited_prompt_is_full(
    t: PromptTemplate,
    c: PromptContext,
    k: PromptConstraints,
    history_count: nat,
)
    ensures
        fitted_prompt(t, c, k, history_count, no_limit(), u32::MAX) == render_spec(
            t,
            c,
            k,
            history_count,
            usize::MAX as nat,
        ),
{
}

/// Each shown history item appears in the history lines.
proof fn lemma_history_lines_contain(ev: Seq<String>, start: int, i: int, limit: nat)
    requires
        0 <= start <= i < ev.len(),
        ev[i]@.len() <= limit,
    ensures
        contains_spec(history_lines(ev, start, limit), "- "@ + ev[i]@),
    decreases i - start,
{
    let head = "- "@ + trunc_spec(ev[start]@, limit) + "\n"@;
    let rest = history_lines(ev, start + 1, limit);
    assert(history_lines(ev, start, limit) == head + rest);
    if i == start {
        assert(head =~= ("- "@ + ev[i]@) + "\n"@);
        lemma_contains_parts("- "@ + ev[i]@, "\n"@);
        lemma_contains_parts(head, rest);
        lemma_contains_trans(head + rest, head, "- "@ + ev[i]@);
    } else {
        lemma_history_lines_contain(ev, start + 1, i, limit);
        lemma_contains_extend(rest, "- "@ + ev[i]@, head);
    }
}

/// Each rule appears in the rule lines.
proof fn lemma_rule_lines_contain(rules: Seq<String>, start: int, i: int)
    requires
        0 <= start <= i < rules.len(),
    ensures
        contains_spec(rule_lines(rules, start), "- "@ + rules[i]@),
    decreases i - start,
{
    let head = "- "@ + rules[start]@ + "\n"@;
    let rest = rule_lines(rules, start + 1);
    assert(rule_lines(rules, start) == head + rest);
    if i == start {
        lemma_contains_parts("- "@ + rules[i]@, "\n"@);
        lemma_contains_parts(head, rest);
        lemma_contains_trans(head + rest, head, "- "@ + rules[i]@);
    } else {
        lemma_rule_lines_contain(rules, start + 1, i);
        lemma_contains_extend(rest, "- "@ + rules[i]@, head);
    }
}

/// A present value appears in its labelled line.
proof fn lemma_opt_line_contains(label: Seq<char>, v: Option<String>, limit: nat)
    requires
        v matches Some(s) ==> s@.len() <= limit,
    ensures
        v matches Some(s) ==> contains_spec(opt_line(label, v, limit), label + s@),
{
    if let Some(s) = v {
        lemma_contains_parts(label + s@, "\n"@);
    }
}

/// Every text of the context and every rule shows in a prompt rendered
/// without cuts: scene, location, actor, realm, combat power, world setting,
/// each shown history event, and each numerical and world rule, each on its
/// own labelled line.
pub proof fn full_prompt_shows_context(
    t: PromptTemplate,
    c: PromptContext,
    k: PromptConstraints,
    history_count: nat,
)
    requires
        texts_fit(c, history_count),
    ensures
        ({
            let p = render_spec(t, c, k, history_count, usize::MAX as nat);
            &&& (c.scene matches Some(s) ==> contains_spec(p, "Scene: "@ + s@))
            &&& (c.location matches Some(s) ==> contains_spec(p, "Location: "@ + s@))
            &&& (c.actor_name matches Some(s) ==> contains_spec(p, "Actor: "@ + s@))
            &&& (c.actor_realm matches Some(s) ==> contains_spec(p, "Realm: "@ + s@))
            &&& (c.actor_combat_power matches Some(n) ==> contains_spec(
                p,
                "CombatPower: "@ + decimal(n as nat),
            ))
            &&& (c.world_setting_summary matches Some(s) ==> contains_spec(
                p,
                "WorldSetting: "@ + s@,
            ))
            &&& forall|i: int|
                c.history_events@.len() - history_count <= i < c.history_events@.len() && 0 <= i
                    ==> contains_spec(p, "- "@ + (#[trigger] c.history_events@[i])@)
            &&& forall|i: int|
                0 <= i < k.numerical_rules@.len() ==> contains_spec(
                    p,
                    "- "@ + (#[trigger] k.numerical_rules@[i])@,
                )
            &&& forall|i: int|
                0 <= i < k.world_rules@.len() ==> contains_spec(
                    p,
                    "- "@ + (#[trigger] k.world_rules@[i])@,
                )
        }),
{
    let lim = usize::MAX as nat;
    let p = render_spec(t, c, k, history_count, lim);
    let n = c.history_events@.len();
    let start = if history_count <= n {
        n - history_count
    } else {
        0
    };
    let l0 = "[Context]\n"@;
    let l1 = opt_line("Scene: "@, c.scene, lim);
    let l2 = opt_line("Location: "@, c.location, lim);
    let l3 = opt_line("Actor: "@, c.actor_name, lim);
    let l4 = opt_line("Realm: "@, c.actor_realm, lim);
    let l5 = match c.actor_combat_power {
        Some(pw) => "CombatPower: "@ + decimal(pw as nat) + "\n"@,
        None => Seq::<char>::empty(),
    };
    let l6 = opt_line("WorldSetting: "@, c.world_setting_summary, lim);
    let l7 = "RecentHistory:\n"@;
    let l8 = history_lines(c.history_events@, start, lim);
    let l9 = if history_count == 0 {
        "- none\n"@
    } else {
        Seq::<char>::empty()
    };
    let l10 = "\n"@;
    let cb = context_block(c, history_count, lim);
    assert(cb == l0 + l1 + l2 + l3 + l4 + l5 + l6 + l7 + l8 + l9 + l10);
    let a = "[Task]\n"@ + instruction_spec(t) + "\n\n"@;
    let cs = "[Constraints]\n"@;
    let nb = numerical_block(k.numerical_rules@);
    let wb = world_block(k.world_rules@);
    let ob = output_block(k);
    assert(p == a + cb + cs + nb + wb + ob);
    // the context block, the numerical block and the world block occur in p
    lemma_contains_parts(a, cb);
    lemma_contains_extend(a + cb, cb, cs);
    lemma_contains_extend(a + cb + cs, cb, nb);
    lemma_contains_extend(a + cb + cs + nb, cb, wb);
    lemma_contains_extend(a + cb + cs + nb + wb, cb, ob);
    lemma_contains_parts(a + cb + cs, nb);
    lemma_contains_extend(a + cb + cs + nb, nb, wb);
    lemma_contains_extend(a + cb + cs + nb + wb, nb, ob);
    lemma_contains_parts(a + cb + cs + nb, wb);
    lemma_contains_extend(a + cb + cs + nb + wb, wb, ob);
    // each line of the context block occurs in it
    lemma_line_in_block(l0, l1, l2, l3, l4, l5, l6, l7, l8, l9, l10);
    lemma_opt_line_contains("Scene: "@, c.scene, lim);
    lemma_opt_line_contains("Location: "@, c.location, lim);
    lemma_opt_line_contains("Actor: "@, c.actor_name, lim);
    lemma_opt_line_contains("Realm: "@, c.actor_realm, lim);
    lemma_opt_line_contains("WorldSetting: "@, c.world_setting_summary, lim);
    if let Some(s) = c.scene {
        lemma_contains_trans(cb, l1, "Scene: "@ + s@);
        lemma_contains_trans(p, cb, "Scene: "@ + s@);
    }
    if let Some(s) = c.location {
        lemma_contains_trans(cb, l2, "Location: "@ + s@);
        lemma_contains_trans(p, cb, "Location: "@ + s@);
    }
    if let Some(s) = c.actor_name {
        lemma_contains_trans(cb, l3, "Actor: "@ + s@);
        lemma_contains_trans(p, cb, "Actor: "@ + s@);
    }
    if let Some(s) = c.actor_realm {
        lemma_contains_trans(cb, l4, "Realm: "@ + s@);
        lemma_contains_trans(p, cb, "Realm: "@ + s@);
    }
    if let Some(pw) = c.actor_combat_power {
        lemma_contains_parts("CombatPower: "@ + decimal(pw as nat), "\n"@);
        lemma_contains_trans(cb, l5, "CombatPower: "@ + decimal(pw as nat));
        lemma_contains_trans(p, cb, "CombatPower: "@ + decimal(pw as nat));
    }
    if let Some(s) = c.world_setting_summary {
        lemma_contains_trans(cb, l6, "WorldSetting: "@ + s@);
        lemma_contains_trans(p, cb, "WorldSetting: "@ + s@);
    }
    assert forall|i: int|
        n - history_count <= i < n && 0 <= i implies contains_spec(
        p,
        "- "@ + (#[trigger] c.history_events@[i])@,
    ) by {
        lemma_history_lines_contain(c.history_events@, start, i, lim);
        lemma_contains_trans(cb, l8, "- "@ + c.history_events@[i]@);
        lemma_contains_trans(p, cb, "- "@ + c.history_events@[i]@);
    }
    assert forall|i: int| 0 <= i < k.numerical_rules@.len() implies contains_spec(
        p,
        "- "@ + (#[trigger] k.numerical_rules@[i])@,
    ) by {
        lemma_rule_lines_contain(k.numerical_rules@, 0, i);
        lemma_contains_parts("NumericalRules:\n"@, rule_lines(k.numerical_rules@, 0));
        lemma_contains_trans(nb, rule_lines(k.numerical_rules@, 0), "- "@ + k.numerical_rules@[i]@);
        lemma_contains_trans(p, nb, "- "@ + k.numerical_rules@[i]@);
    }
    assert forall|i: int| 0 <= i < k.world_rules@.len() implies contains_spec(
        p,
        "- "@ + (#[trigger] k.world_rules@[i])@,
    ) by {
        lemma_rule_lines_contain(k.world_rules@, 0, i);
        lemma_contains_parts("WorldRules:\n"@, rule_lines(k.world_rules@, 0));
        lemma_contains_trans(wb, rule_lines(k.world_rules@, 0), "- "@ + k.world_rules@[i]@);
        lemma_contains_trans(p, wb, "- "@ + k.world_rules@[i]@);
    }
}

/// The prompt `build_prompt` gives shows everything it was given: the task's
/// instruction, scene, location, actor, realm, combat power and world setting
/// on their labelled lines, each history event the builder keeps (the latest
/// ones), each numerical and world rule, and the output schema hint.
pub proof fn built_prompt_shows_context(
    b: PromptBuilder,
    t: PromptTemplate,
    c: PromptContext,
    k: PromptConstraints,
)
    requires
        texts_fit(c, shown_history(c, b.max_history())),
    ensures
        shows_context(
            fitted_prompt(t, c, k, shown_history(c, b.max_history()), no_limit(), u32::MAX),
            t,
            c,
            k,
            shown_history(c, b.max_history()),
        ),
{
    let shown = shown_history(c, b.max_history());
    unlimited_prompt_is_full(t, c, k, shown);
    full_prompt_shows_context(t, c, k, shown);
    let lim = usize::MAX as nat;
    let p = render_spec(t, c, k, shown, lim);
    let a = "[Task]\n"@ + instruction_spec(t) + "\n\n"@;
    let cb = context_block(c, shown, lim);
    let rest = "[Constraints]\n"@ + numerical_block(k.numerical_rules@) + world_block(
        k.world_rules@,
    );
    let ob = output_block(k);
    assert(p == a + cb + rest + ob);
    assert(p.subrange(0, ("[Task]\n"@ + instruction_spec(t)).len() as int) =~= "[Task]\n"@
        + instruction_spec(t));
    lemma_contains_parts("[Task]\n"@, instruction_spec(t));
    lemma_contains_extend("[Task]\n"@ + instruction_spec(t), instruction_spec(t), "\n\n"@);
    lemma_contains_extend(a, instruction_spec(t), cb);
    lemma_contains_extend(a + cb, instruction_spec(t), rest);
    lemma_contains_extend(a + cb + rest, instruction_spec(t), ob);
    if let Some(h) = k.output_schema_hint {
        let tail = "Do not violate any numerical or world constraints.\n"@;
        assert(ob == "\n[OutputRequirements]\n"@ + (h@ + "\n"@) + tail);
        lemma_contains_parts(h@, "\n"@);
        lemma_contains_parts("\n[OutputRequirements]\n"@, h@ + "\n"@);
        lemma_contains_trans(
            "\n[OutputRequirements]\n"@ + (h@ + "\n"@),
            h@ + "\n"@,
            h@,
        );
        lemma_contains_extend("\n[OutputRequirements]\n"@ + (h@ + "\n"@), h@, tail);
        lemma_contains_extend(ob, h@, a + cb + rest);
    }
}

/// A line appears in the block that holds it.
proof fn lemma_line_in_block(
    l0: Seq<char>,
    l1: Seq<char>,
    l2: Seq<char>,
    l3: Seq<char>,
    l4: Seq<char>,
    l5: Seq<char>,
    l6: Seq<char>,
    l7: Seq<char>,
    l8: Seq<char>,
    l9: Seq<char>,
    l10: Seq<char>,
)
    ensures
        ({
            let b = l0 + l1 + l2 + l3 + l4 + l5 + l6 + l7 + l8 + l9 + l10;
            &&& contains_spec(b, l1)
            &&& contains_spec(b, l2)
            &&& contains_spec(b, l3)
            &&& contains_spec(b, l4)
            &&& contains_spec(b, l5)
            &&& contains_spec(b, l6)
            &&& contains_spec(b, l8)
        }),
{
    let b1 = l0 + l1;
    let b2 = b1 + l2;
    let b3 = b2 + l3;
    let b4 = b3 + l4;
    let b5 = b4 + l5;
    let b6 = b5 + l6;
    let b7 = b6 + l7;
    let b8 = b7 + l8;
    let b9 = b8 + l9;
    let b10 = b9 + l10;
    lemma_contains_parts(l0, l1);
    lemma_contains_parts(b1, l2);
    lemma_contains_parts(b2, l3);
    lemma_contains_parts(b3, l4);
    lemma_contains_parts(b4, l5);
    lemma_contains_parts(b5, l6);
    lemma_contains_parts(b7, l8);
    lemma_contains_parts(b1, l2);
    lemma_contains_parts(b2, l3);
    lemma_contains_parts(b3, l4);
    lemma_contains_parts(b4, l5);
    lemma_contains_parts(b5, l6);
    lemma_contains_parts(b6, l7);
    lemma_contains_parts(b7, l8);
    lemma_contains_parts(b8, l9);
    lemma_contains_parts(b9, l10);
    // each prefix occurs in the whole block
    lemma_contains_trans(b10, b9, b8);
    lemma_contains_trans(b10, b8, b7);
    lemma_contains_trans(b10, b7, b6);
    lemma_contains_trans(b10, b6, b5);
    lemma_contains_trans(b10, b5, b4);
    lemma_contains_trans(b10, b4, b3);
    lemma_contains_trans(b10, b3, b2);
    lemma_contains_trans(b10, b2, b1);
    lemma_contains_trans(b10, b1, l1);
    lemma_contains_trans(b10, b2, l2);
    lemma_contains_trans(b10, b3, l3);
    lemma_contains_trans(b10, b4, l4);
    lemma_contains_trans(b10, b5, l5);
    lemma_contains_trans(b10, b6, l6);
    lemma_contains_trans(b10, b8, l8);
}

} // verus!
