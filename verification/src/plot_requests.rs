//! The requests the plot engine sends to the language model: what each
//! prompt is built from, and the token budgets of the request and its retry.
use crate::numerical_system::{Action, ActionResult};
use crate::plot_engine::{join_spec, join_strings, PlayerOption, PlotState};
use crate::prompt_builder::{
    fitted_prompt, no_limit, shown_history, PromptBuilder, PromptConstraints, PromptContext,
    PromptTemplate,
};
use crate::text::{append_str, decimal, decimal_string, opt_view, string_views};
use vstd::prelude::*;

verus! {

/// A prompt with the number of tokens the answer may use.
#[derive(Debug, Clone, PartialEq, Eq)]
pub struct PlotRequest {
    pub prompt: String,
    pub max_tokens: u32,
}

/// The context holds exactly the given texts.
pub open spec fn context_is(
    c: PromptContext,
    scene: Option<Seq<char>>,
    location: Option<Seq<char>>,
    actor_name: Option<Seq<char>>,
    actor_realm: Option<Seq<char>>,
    power: Option<u64>,
    history: Seq<Seq<char>>,
    world: Option<Seq<char>>,
) -> bool {
    &&& opt_view(c.scene) == scene
    &&& opt_view(c.location) == location
    &&& opt_view(c.actor_name) == actor_name
    &&& opt_view(c.actor_realm) == actor_realm
    &&& c.actor_combat_power == power
    &&& string_views(c.history_events@) == history
    &&& opt_view(c.world_setting_summary) == world
}

/// The constraints hold exactly the given rules and hint.
pub open spec fn constraints_are(
    k: PromptConstraints,
    numerical: Seq<Seq<char>>,
    world: Seq<Seq<char>>,
    hint: Option<Seq<char>>,
) -> bool {
    &&& string_views(k.numerical_rules@) == numerical
    &&& string_views(k.world_rules@) == world
    &&& opt_view(k.output_schema_hint) == hint
}

/// The prompt the builder renders for a template, context and constraints
/// within a token limit (a limit of 0 counts as 1).
pub open spec fn rendered(
    b: PromptBuilder,
    t: PromptTemplate,
    c: PromptContext,
    k: PromptConstraints,
    limit: u32,
) -> Seq<char> {
    fitted_prompt(
        t,
        c,
        k,
        shown_history(c, b.max_history()),
        no_limit(),
        if limit >= 1 {
            limit
        } else {
            1
        },
    )
}

/// Appends a copy of `s`.
pub(crate) fn push_item(v: &mut Vec<String>, s: &str)
    ensures
        string_views(final(v)@) == string_views(old(v)@).push(s@),
{
    let ghost before = v@;
    v.push(s.to_string());
    assert(string_views(v@) =~= string_views(before).push(s@));
}

/// A list holding one rule.
pub(crate) fn one_rule(a: &str) -> (v: Vec<String>)
    ensures
        string_views(v@) == seq![a@],
{
    let mut v: Vec<String> = Vec::new();
    assert(string_views(v@) =~= Seq::<Seq<char>>::empty());
    push_item(&mut v, a);
    assert(string_views(v@) =~= seq![a@]);
    v
}

/// A list of three rules, in order.
pub(crate) fn rules3(a: &str, b: &str, c: &str) -> (v: Vec<String>)
    ensures
        string_views(v@) == seq![a@, b@, c@],
{
    let mut v = one_rule(a);
    push_item(&mut v, b);
    push_item(&mut v, c);
    assert(string_views(v@) =~= seq![a@, b@, c@]);
    v
}

/// A list of four rules, in order.
pub(crate) fn rules4(a: &str, b: &str, c: &str, d: &str) -> (v: Vec<String>)
    ensures
        string_views(v@) == seq![a@, b@, c@, d@],
{
    let mut v = rules3(a, b, c);
    push_item(&mut v, d);
    assert(string_views(v@) =~= seq![a@, b@, c@, d@]);
    v
}

/// A list of five rules, in order.
fn rules5(a: &str, b: &str, c: &str, d: &str, e: &str) -> (v: Vec<String>)
    ensures
        string_views(v@) == seq![a@, b@, c@, d@, e@],
{
    let mut v = rules4(a, b, c, d);
    push_item(&mut v, e);
    assert(string_views(v@) =~= seq![a@, b@, c@, d@, e@]);
    v
}

/// A list of six rules, in order.
fn rules6(a: &str, b: &str, c: &str, d: &str, e: &str, f: &str) -> (v: Vec<String>)
    ensures
        string_views(v@) == seq![a@, b@, c@, d@, e@, f@],
{
    let mut v = rules5(a, b, c, d, e);
    push_item(&mut v, f);
    assert(string_views(v@) =~= seq![a@, b@, c@, d@, e@, f@]);
    v
}

/// A list of seven rules, in order.
fn rules7(a: &str, b: &str, c: &str, d: &str, e: &str, f: &str, g: &str) -> (v: Vec<String>)
    ensures
        string_views(v@) == seq![a@, b@, c@, d@, e@, f@, g@],
{
    let mut v = rules6(a, b, c, d, e, f);
    push_item(&mut v, g);
    assert(string_views(v@) =~= seq![a@, b@, c@, d@, e@, f@, g@]);
    v
}

/// An empty history.
pub(crate) fn no_history() -> (v: Vec<String>)
    ensures
        string_views(v@) == Seq::<Seq<char>>::empty(),
{
    let v: Vec<String> = Vec::new();
    assert(string_views(v@) =~= Seq::<Seq<char>>::empty());
    v
}

/// Copies of the strings.
fn copy_strings(src: &Vec<String>) -> (v: Vec<String>)
    ensures
        string_views(v@) == string_views(src@),
{
    let mut v: Vec<String> = Vec::new();
    let mut i: usize = 0;
    while i < src.len()
        invariant
            i <= src@.len(),
            string_views(v@) == string_views(src@.take(i as int)),
        decreases src@.len() - i,
    {
        push_item(&mut v, src[i].as_str());
        assert(string_views(src@.take(i + 1)) =~= string_views(src@.take(i as int)).push(
            src@[i as int]@,
        ));
        i = i + 1;
    }
    assert(src@.take(src@.len() as int) =~= src@);
    v
}

// ---------------------------------------------------------------------------
// Budgets
// ---------------------------------------------------------------------------
/// `v` capped at `hi`, then raised to `lo`.
pub open spec fn capped(v: u32, hi: u32, lo: u32) -> u32 {
    let a = if v < hi {
        v
    } else {
        hi
    };
    if a > lo {
        a
    } else {
        lo
    }
}

/// `v * k`, saturating at `u32::MAX`.
pub open spec fn sat_mul(v: u32, k: u32) -> u32 {
    if v * k > u32::MAX {
        u32::MAX
    } else {
        (v * k) as u32
    }
}

/// `v` limited to `hi` and raised to `lo`.
fn capped_exec(v: u32, hi: u32, lo: u32) -> (r: u32)
    ensures
        r == capped(v, hi, lo),
{
    let a = if v < hi {
        v
    } else {
        hi
    };
    if a > lo {
        a
    } else {
        lo
    }
}

/// `v * k`, stopping at `u32::MAX`.
fn sat_mul_exec(v: u32, k: u32) -> (r: u32)
    ensures
        r == sat_mul(v, k),
{
    assert((v as int) * (k as int) <= 0xffff_ffff * 0xffff_ffff) by (nonlinear_arith)
        requires
            v <= 0xffff_ffff,
            k <= 0xffff_ffff,
    ;
    let p: u64 = v as u64 * k as u64;
    if p > 4294967295 {
        4294967295
    } else {
        p as u32
    }
}

/// Token budgets of a request that is retried with a shorter prompt when it
/// fails: `(answer tokens, prompt limit, retry prompt limit, retry answer
/// tokens)`. The answer budget is the configured one capped at `hi` and
/// raised to `lo`; prompts may use six times it, the retry three times, and
/// the retry's answer half of it but at least `retry_min`.
pub open spec fn budgets(config_max: u32, hi: u32, lo: u32, retry_min: u32) -> (u32, u32, u32, u32) {
    let out = capped(config_max, hi, lo);
    (
        out,
        sat_mul(out, 6),
        sat_mul(out, 3),
        if out / 2 > retry_min {
            out / 2
        } else {
            retry_min
        },
    )
}

/// The answer budget, prompt limit, retry limit and retry budget.
fn budgets_exec(config_max: u32, hi: u32, lo: u32, retry_min: u32) -> (r: (u32, u32, u32, u32))
    ensures
        r == budgets(config_max, hi, lo, retry_min),
{
    let out = capped_exec(config_max, hi, lo);
    let half = out / 2;
    (out, sat_mul_exec(out, 6), sat_mul_exec(out, 3), if half > retry_min {
        half
    } else {
        retry_min
    })
}

// ---------------------------------------------------------------------------
// Chapter segments
// ---------------------------------------------------------------------------
/// The last `n` chapter segments, latest first.
pub open spec fn latest_first(content: Seq<String>, n: nat) -> Seq<String> {
    let m = if content.len() < n {
        content.len()
    } else {
        n
    };
    Seq::new(m, |k: int| content[content.len() - 1 - k])
}

/// The last `n` segments, latest first.
fn latest_first_exec(content: &Vec<String>, n: usize) -> (r: Vec<String>)
    ensures
        r@ == latest_first(content@, n as nat),
{
    let len = content.len();
    let m = if len < n {
        len
    } else {
        n
    };
    let mut r: Vec<String> = Vec::new();
    let mut k: usize = 0;
    while k < m
        invariant
            m <= len == content@.len(),
            m == latest_first(content@, n as nat).len(),
            k <= m,
            r@ == latest_first(content@, n as nat).take(k as int),
        decreases m - k,
    {
        r.push(content[len - 1 - k].clone());
        assert(r@ =~= latest_first(content@, n as nat).take(k + 1));
        k = k + 1;
    }
    assert(r@ =~= latest_first(content@, n as nat));
    r
}

/// The stylistic guidance shared by the segment prompts.
pub open spec fn style_summary(style: Seq<char>) -> Seq<char> {
    "小说风格："@ + style + "；请生成一段承接剧情的小说文本。玩家每章需要 2-3 次互动。"@
}

/// The style line of a segment request.
fn style_summary_exec(style: &str) -> (s: String)
    ensures
        s@ == style_summary(style@),
{
    let mut s = "小说风格：".to_string();
    append_str(&mut s, style);
    append_str(&mut s, "；请生成一段承接剧情的小说文本。玩家每章需要 2-3 次互动。");
    s
}

/// The schema the segment answers must follow.
pub open spec fn segment_hint() -> Seq<char> {
    "{\"segment_text\":\"string\",\"needs_player_input\":true|false,\"chapter_end\":true|false,\"chapter_title\":\"string\",\"chapter_summary\":\"string\",\"options\":[\"string\"]}"@
}

/// The answer shape of a segment request.
fn segment_hint_exec() -> (s: String)
    ensures
        s@ == segment_hint(),
{
    "{\"segment_text\":\"string\",\"needs_player_input\":true|false,\"chapter_end\":true|false,\"chapter_title\":\"string\",\"chapter_summary\":\"string\",\"options\":[\"string\"]}".to_string()
}

/// The numerical rules of a segment request.
pub open spec fn segment_numerical_rules() -> Seq<Seq<char>> {
    seq!["必须与行动结果保持一致"@, "每章需要 2-3 次玩家介入点"@, "章节总字数目标 5000-7000 字"@]
}

/// The numerical rules of a segment request.
fn segment_numerical_rules_exec() -> (v: Vec<String>)
    ensures
        string_views(v@) == segment_numerical_rules(),
{
    rules3("必须与行动结果保持一致", "每章需要 2-3 次玩家介入点", "章节总字数目标 5000-7000 字")
}

/// The world rules of a segment request.
pub open spec fn segment_world_rules() -> Seq<Seq<char>> {
    seq![
        "输出严格 JSON"@,
        "segment_text 必须为中文小说叙事"@,
        "segment_text 不要包含选项列表"@,
        "needs_player_input 为 true 时，必须给出 2-4 个 options"@,
        "chapter_end 仅在章节接近尾声时为 true"@,
    ]
}

/// The world rules of a segment request.
fn segment_world_rules_exec() -> (v: Vec<String>)
    ensures
        string_views(v@) == segment_world_rules(),
{
    rules5(
        "输出严格 JSON",
        "segment_text 必须为中文小说叙事",
        "segment_text 不要包含选项列表",
        "needs_player_input 为 true 时，必须给出 2-4 个 options",
        "chapter_end 仅在章节接近尾声时为 true",
    )
}

/// The scene line of a segment request: chapter, action result and the
/// latest three segments.
pub open spec fn segment_scene(state: PlotState, result: ActionResult) -> Seq<char> {
    "章节 "@ + decimal(state.current_chapter.index as nat) + "，玩家行动结果："@
        + result.description@ + "。当前剧情片段："@ + join_spec(
        latest_first(state.current_chapter.content@, 3),
        " / "@,
    )
}

/// The request for the next chapter segment.
pub open spec fn is_segment_request(
    r: PlotRequest,
    b: PromptBuilder,
    state: PlotState,
    result: ActionResult,
) -> bool {
    &&& r.max_tokens == 900
    &&& exists|c: PromptContext, k: PromptConstraints|
        context_is(
            c,
            Some(segment_scene(state, result)),
            Some(state.current_scene.location@),
            Some("player"@),
            None,
            None,
            string_views(result.events@),
            Some(style_summary(state.settings.novel_style@)),
        ) && constraints_are(
            k,
            segment_numerical_rules(),
            segment_world_rules(),
            Some(segment_hint()),
        ) && r.prompt@ == rendered(b, PromptTemplate::PlotGeneration, c, k, 1200)
}

/// The request for the next chapter segment.
pub fn chapter_segment_request(
    builder: &PromptBuilder,
    state: &PlotState,
    result: &ActionResult,
) -> (r: PlotRequest)
    ensures
        is_segment_request(r, *builder, *state, *result),
{
    let recent = latest_first_exec(&state.current_chapter.content, 3);
    let mut scene = "章节 ".to_string();
    append_str(&mut scene, decimal_string(state.current_chapter.index as u64).as_str());
    append_str(&mut scene, "，玩家行动结果：");
    append_str(&mut scene, result.description.as_str());
    append_str(&mut scene, "。当前剧情片段：");
    append_str(&mut scene, join_strings(&recent, " / ").as_str());
    let context = PromptContext {
        scene: Some(scene),
        location: Some(state.current_scene.location.clone()),
        actor_name: Some("player".to_string()),
        actor_realm: None,
        actor_combat_power: None,
        history_events: copy_strings(&result.events),
        world_setting_summary: Some(style_summary_exec(state.settings.novel_style.as_str())),
    };
    let constraints = PromptConstraints {
        numerical_rules: segment_numerical_rules_exec(),
        world_rules: segment_world_rules_exec(),
        output_schema_hint: Some(segment_hint_exec()),
    };
    let prompt = builder.build_prompt_with_token_limit(
        PromptTemplate::PlotGeneration,
        &context,
        &constraints,
        1200,
    );
    assert(context_is(
        context,
        Some(segment_scene(*state, *result)),
        Some(state.current_scene.location@),
        Some("player"@),
        None,
        None,
        string_views(result.events@),
        Some(style_summary(state.settings.novel_style@)),
    ));
    assert(constraints_are(
        constraints,
        segment_numerical_rules(),
        segment_world_rules(),
        Some(segment_hint()),
    ));
    assert(prompt@ == rendered(*builder, PromptTemplate::PlotGeneration, context, constraints, 1200));
    PlotRequest { prompt, max_tokens: 900 }
}

/// A request whose prompt is rendered within `limit` tokens.
pub(crate) fn render_request(
    builder: &PromptBuilder,
    template: PromptTemplate,
    context: &PromptContext,
    constraints: &PromptConstraints,
    limit: u32,
    max_tokens: u32,
) -> (r: PlotRequest)
    ensures
        r.prompt@ == rendered(*builder, template, *context, *constraints, limit),
        r.max_tokens == max_tokens,
{
    let prompt = builder.build_prompt_with_token_limit(template, context, constraints, limit);
    PlotRequest { prompt, max_tokens }
}

/// The scene line of a streamed segment request: chapter, the player's
/// choice to be woven into the text, and the latest two segments.
pub open spec fn segment_scene_streamed(state: PlotState, result: ActionResult) -> Seq<char> {
    "章节 "@ + decimal(state.current_chapter.index as nat) + "，玩家刚刚的选择是："@
        + result.description@
        + "。请在正文中自然写入该行动，而不是复述为“玩家行动”。当前剧情片段："@ + join_spec(
        latest_first(state.current_chapter.content@, 2),
        " / "@,
    )
}

/// The world rules of a streamed segment request.
pub open spec fn streamed_world_rules() -> Seq<Seq<char>> {
    seq![
        "输出严格 JSON"@,
        "segment_text 必须为中文小说叙事"@,
        "segment_text 不要包含选项列表"@,
        "不要复述或改写已出现的段落"@,
        "每次输出 500-900 字"@,
        "needs_player_input 为 true 时，必须给出 2-4 个 options"@,
        "chapter_end 仅在章节接近尾声时为 true"@,
    ]
}

/// The world rules of the shorter retry of a streamed segment request.
pub open spec fn streamed_retry_world_rules() -> Seq<Seq<char>> {
    seq![
        "输出严格 JSON"@,
        "segment_text 必须为中文小说叙事"@,
        "segment_text 不要包含选项列表"@,
        "不要复述或改写已出现的段落"@,
        "每次输出 300-600 字"@,
        "needs_player_input 为 true 时，必须给出 2-4 个 options"@,
    ]
}

/// A streamed segment request and its retry.
pub open spec fn is_streamed_segment_requests(
    r: (PlotRequest, PlotRequest),
    b: PromptBuilder,
    state: PlotState,
    result: ActionResult,
    config_max: u32,
) -> bool {
    let (out, limit, retry_limit, retry_max) = budgets(config_max, 1000, 300, 200);
    &&& r.0.max_tokens == out
    &&& r.1.max_tokens == retry_max
    &&& exists|c: PromptContext, k: PromptConstraints, k2: PromptConstraints|
        context_is(
            c,
            Some(segment_scene_streamed(state, result)),
            Some(state.current_scene.location@),
            Some("player"@),
            None,
            None,
            string_views(result.events@),
            Some(style_summary(state.settings.novel_style@)),
        ) && constraints_are(
            k,
            segment_numerical_rules(),
            streamed_world_rules(),
            Some(segment_hint()),
        ) && constraints_are(
            k2,
            seq!["必须与行动结果保持一致"@],
            streamed_retry_world_rules(),
            Some(segment_hint()),
        ) && r.0.prompt@ == rendered(b, PromptTemplate::PlotGeneration, c, k, limit)
            && r.1.prompt@ == rendered(b, PromptTemplate::PlotGeneration, c, k2, retry_limit)
}

/// The request for the next chapter segment when answers are awaited, with
/// the shorter request to send if it fails; budgets follow the configured
/// answer size.
pub fn chapter_segment_requests_streamed(
    builder: &PromptBuilder,
    state: &PlotState,
    result: &ActionResult,
    config_max_tokens: u32,
) -> (r: (PlotRequest, PlotRequest))
    ensures
        is_streamed_segment_requests(r, *builder, *state, *result, config_max_tokens),
{
    let recent = latest_first_exec(&state.current_chapter.content, 2);
    let mut scene = "章节 ".to_string();
    append_str(&mut scene, decimal_string(state.current_chapter.index as u64).as_str());
    append_str(&mut scene, "，玩家刚刚的选择是：");
    append_str(&mut scene, result.description.as_str());
    append_str(&mut scene, "。请在正文中自然写入该行动，而不是复述为“玩家行动”。当前剧情片段：");
    append_str(&mut scene, join_strings(&recent, " / ").as_str());
    let context = PromptContext {
        scene: Some(scene),
        location: Some(state.current_scene.location.clone()),
        actor_name: Some("player".to_string()),
        actor_realm: None,
        actor_combat_power: None,
        history_events: copy_strings(&result.events),
        world_setting_summary: Some(style_summary_exec(state.settings.novel_style.as_str())),
    };
    let world = rules7("输出严格 JSON", "segment_text 必须为中文小说叙事", "segment_text 不要包含选项列表", "不要复述或改写已出现的段落", "每次输出 500-900 字", "needs_player_input 为 true 时，必须给出 2-4 个 options", "chapter_end 仅在章节接近尾声时为 true");
    let constraints = PromptConstraints {
        numerical_rules: segment_numerical_rules_exec(),
        world_rules: world,
        output_schema_hint: Some(segment_hint_exec()),
    };
    let retry_world = rules6("输出严格 JSON", "segment_text 必须为中文小说叙事", "segment_text 不要包含选项列表", "不要复述或改写已出现的段落", "每次输出 300-600 字", "needs_player_input 为 true 时，必须给出 2-4 个 options");
    let retry_constraints = PromptConstraints {
        numerical_rules: one_rule("必须与行动结果保持一致"),
        world_rules: retry_world,
        output_schema_hint: Some(segment_hint_exec()),
    };
    let (out, limit, retry_limit, retry_max) = budgets_exec(config_max_tokens, 1000, 300, 200);
    let main = render_request(
        builder,
        PromptTemplate::PlotGeneration,
        &context,
        &constraints,
        limit,
        out,
    );
    let retry = render_request(
        builder,
        PromptTemplate::PlotGeneration,
        &context,
        &retry_constraints,
        retry_limit,
        retry_max,
    );
    assert(context_is(
        context,
        Some(segment_scene_streamed(*state, *result)),
        Some(state.current_scene.location@),
        Some("player"@),
        None,
        None,
        string_views(result.events@),
        Some(style_summary(state.settings.novel_style@)),
    ));
    assert(constraints_are(
        constraints,
        segment_numerical_rules(),
        streamed_world_rules(),
        Some(segment_hint()),
    ));
    assert(constraints_are(
        retry_constraints,
        seq!["必须与行动结果保持一致"@],
        streamed_retry_world_rules(),
        Some(segment_hint()),
    ));
    (main, retry)
}

/// The request for a short plain-text plot passage.
pub open spec fn is_plot_text_request(
    r: PlotRequest,
    b: PromptBuilder,
    state: PlotState,
    result: ActionResult,
) -> bool {
    &&& r.max_tokens == 220
    &&& exists|c: PromptContext, k: PromptConstraints|
        context_is(
            c,
            Some(state.current_scene.description@),
            Some(state.current_scene.location@),
            Some("player"@),
            None,
            None,
            string_views(result.events@),
            Some("修仙小说风格，强调场景、事件与 NPC 反应"@),
        ) && constraints_are(
            k,
            seq!["必须与行动结果保持一致"@],
            seq!["仅输出纯文本"@, "使用简洁的小说叙事"@, "必须使用中文"@],
            None,
        ) && r.prompt@ == rendered(b, PromptTemplate::PlotGeneration, c, k, 360)
}

/// The request for a short plain-text plot passage.
pub fn plot_text_request(builder: &PromptBuilder, state: &PlotState, result: &ActionResult) -> (r:
    PlotRequest)
    ensures
        is_plot_text_request(r, *builder, *state, *result),
{
    let context = PromptContext {
        scene: Some(state.current_scene.description.clone()),
        location: Some(state.current_scene.location.clone()),
        actor_name: Some("player".to_string()),
        actor_realm: None,
        actor_combat_power: None,
        history_events: copy_strings(&result.events),
        world_setting_summary: Some("修仙小说风格，强调场景、事件与 NPC 反应".to_string()),
    };
    let world = rules3("仅输出纯文本", "使用简洁的小说叙事", "必须使用中文");
    let constraints = PromptConstraints {
        numerical_rules: one_rule("必须与行动结果保持一致"),
        world_rules: world,
        output_schema_hint: None,
    };
    let r = render_request(builder, PromptTemplate::PlotGeneration, &context, &constraints, 360, 220);
    assert(context_is(
        context,
        Some(state.current_scene.description@),
        Some(state.current_scene.location@),
        Some("player"@),
        None,
        None,
        string_views(result.events@),
        Some("修仙小说风格，强调场景、事件与 NPC 反应"@),
    ));
    assert(constraints_are(
        constraints,
        seq!["必须与行动结果保持一致"@],
        seq!["仅输出纯文本"@, "使用简洁的小说叙事"@, "必须使用中文"@],
        None,
    ));
    r
}

/// The world rules of an opening request, ending with its length rule.
pub open spec fn opening_world_rules(length_rule: Seq<char>) -> Seq<Seq<char>> {
    seq![
        "输出严格 JSON"@,
        "必须是中文"@,
        "segment_text 为中文小说叙事，不能包含选项列表"@,
        "options 必须为 2-4 条简洁选项"@,
        length_rule,
    ]
}

/// The schema the opening answers must follow.
pub open spec fn opening_hint() -> Seq<char> {
    "{\"segment_text\":\"string\",\"options\":[\"string\"]}"@
}

/// The opening request and its shorter retry.
pub open spec fn is_opening_requests(
    r: (PlotRequest, PlotRequest),
    b: PromptBuilder,
    player_name: Seq<char>,
    realm_name: Seq<char>,
    spiritual_root: Seq<char>,
    location: Seq<char>,
    config_max: u32,
) -> bool {
    let (out, limit, retry_limit, retry_max) = budgets(config_max, 420, 120, 120);
    &&& r.0.max_tokens == out
    &&& r.1.max_tokens == retry_max
    &&& exists|c: PromptContext, c2: PromptContext, k: PromptConstraints, k2: PromptConstraints|
        context_is(
            c,
            Some("请生成修仙小说的第一段开篇剧情，并在结尾抛出行动选择点"@),
            Some(location),
            Some(player_name),
            Some(realm_name),
            None,
            Seq::empty(),
            Some("主角灵根："@ + spiritual_root),
        ) && context_is(
            c2,
            Some("生成修仙小说开篇，保持简洁但有画面感"@),
            Some(location),
            Some(player_name),
            Some(realm_name),
            None,
            Seq::empty(),
            Some("主角灵根："@ + spiritual_root),
        ) && constraints_are(
            k,
            seq!["不得出现跨境界夸张成长"@],
            opening_world_rules("长度控制在 200 到 380 字"@),
            Some(opening_hint()),
        ) && constraints_are(
            k2,
            seq!["不得出现跨境界夸张成长"@],
            opening_world_rules("长度控制在 160 到 260 字"@),
            Some(opening_hint()),
        ) && r.0.prompt@ == rendered(b, PromptTemplate::PlotGeneration, c, k, limit)
            && r.1.prompt@ == rendered(b, PromptTemplate::PlotGeneration, c2, k2, retry_limit)
}

/// The rules of an opening request with the given length rule.
fn opening_constraints(length_rule: &str) -> (k: PromptConstraints)
    ensures
        constraints_are(
            k,
            seq!["不得出现跨境界夸张成长"@],
            opening_world_rules(length_rule@),
            Some(opening_hint()),
        ),
{
    let world = rules5(
        "输出严格 JSON",
        "必须是中文",
        "segment_text 为中文小说叙事，不能包含选项列表",
        "options 必须为 2-4 条简洁选项",
        length_rule,
    );
    PromptConstraints {
        numerical_rules: one_rule("不得出现跨境界夸张成长"),
        world_rules: world,
        output_schema_hint: Some("{\"segment_text\":\"string\",\"options\":[\"string\"]}".to_string()),
    }
}

/// The context of an opening request.
fn opening_context(
    scene: &str,
    player_name: &str,
    realm_name: &str,
    spiritual_root: &str,
    location: &str,
) -> (c: PromptContext)
    ensures
        context_is(
            c,
            Some(scene@),
            Some(location@),
            Some(player_name@),
            Some(realm_name@),
            None,
            Seq::empty(),
            Some("主角灵根："@ + spiritual_root@),
        ),
{
    let mut summary = "主角灵根：".to_string();
    append_str(&mut summary, spiritual_root);
    PromptContext {
        scene: Some(scene.to_string()),
        location: Some(location.to_string()),
        actor_name: Some(player_name.to_string()),
        actor_realm: Some(realm_name.to_string()),
        actor_combat_power: None,
        history_events: no_history(),
        world_setting_summary: Some(summary),
    }
}

/// The opening request and the shorter one to send if it fails; budgets
/// follow the configured answer size.
pub fn opening_requests(
    builder: &PromptBuilder,
    player_name: &str,
    realm_name: &str,
    spiritual_root: &str,
    location: &str,
    config_max_tokens: u32,
) -> (r: (PlotRequest, PlotRequest))
    ensures
        is_opening_requests(
            r,
            *builder,
            player_name@,
            realm_name@,
            spiritual_root@,
            location@,
            config_max_tokens,
        ),
{
    let c = opening_context(
        "请生成修仙小说的第一段开篇剧情，并在结尾抛出行动选择点",
        player_name,
        realm_name,
        spiritual_root,
        location,
    );
    let c2 = opening_context(
        "生成修仙小说开篇，保持简洁但有画面感",
        player_name,
        realm_name,
        spiritual_root,
        location,
    );
    let k = opening_constraints("长度控制在 200 到 380 字");
    let k2 = opening_constraints("长度控制在 160 到 260 字");
    let (out, limit, retry_limit, retry_max) = budgets_exec(config_max_tokens, 420, 120, 120);
    let main = render_request(builder, PromptTemplate::PlotGeneration, &c, &k, limit, out);
    let retry = render_request(
        builder,
        PromptTemplate::PlotGeneration,
        &c2,
        &k2,
        retry_limit,
        retry_max,
    );
    (main, retry)
}

/// The request asking the model what a free-text action amounts to.
pub open spec fn is_action_request(
    r: PlotRequest,
    b: PromptBuilder,
    free_text: Seq<char>,
    location: Seq<char>,
    realm_name: Seq<char>,
    combat_power: u64,
) -> bool {
    &&& r.max_tokens == 128
    &&& exists|c: PromptContext, k: PromptConstraints|
        context_is(
            c,
            Some(free_text),
            Some(location),
            Some("player"@),
            Some(realm_name),
            Some(combat_power),
            Seq::empty(),
            Some("请把玩家自由输入解析为一个游戏内可执行行动"@),
        ) && constraints_are(
            k,
            seq!["必须符合当前境界和战力约束"@],
            seq![
                "只输出严格 JSON"@,
                "JSON 字段: action,target,description"@,
                "action 仅允许 cultivate|rest|breakthrough|combat|custom"@,
                "description 必须为中文"@,
            ],
            Some(
                "{\"action\":\"cultivate|rest|breakthrough|combat|custom\",\"target\":\"optional string\",\"description\":\"optional string\"}"@,
            ),
        ) && r.prompt@ == rendered(b, PromptTemplate::OptionGeneration, c, k, 300)
}

/// The request asking the model what a free-text action amounts to.
pub fn action_parse_request(
    builder: &PromptBuilder,
    free_text: &str,
    location: &str,
    realm_name: &str,
    combat_power: u64,
) -> (r: PlotRequest)
    ensures
        is_action_request(r, *builder, free_text@, location@, realm_name@, combat_power),
{
    let context = PromptContext {
        scene: Some(free_text.to_string()),
        location: Some(location.to_string()),
        actor_name: Some("player".to_string()),
        actor_realm: Some(realm_name.to_string()),
        actor_combat_power: Some(combat_power),
        history_events: no_history(),
        world_setting_summary: Some("请把玩家自由输入解析为一个游戏内可执行行动".to_string()),
    };
    let world = rules4("只输出严格 JSON", "JSON 字段: action,target,description", "action 仅允许 cultivate|rest|breakthrough|combat|custom", "description 必须为中文");
    let constraints = PromptConstraints {
        numerical_rules: one_rule("必须符合当前境界和战力约束"),
        world_rules: world,
        output_schema_hint: Some(
            "{\"action\":\"cultivate|rest|breakthrough|combat|custom\",\"target\":\"optional string\",\"description\":\"optional string\"}".to_string(),
        ),
    };
    let r = render_request(
        builder,
        PromptTemplate::OptionGeneration,
        &context,
        &constraints,
        300,
        128,
    );
    assert(context_is(
        context,
        Some(free_text@),
        Some(location@),
        Some("player"@),
        Some(realm_name@),
        Some(combat_power),
        Seq::empty(),
        Some("请把玩家自由输入解析为一个游戏内可执行行动"@),
    ));
    assert(constraints_are(
        constraints,
        seq!["必须符合当前境界和战力约束"@],
        seq![
            "只输出严格 JSON"@,
            "JSON 字段: action,target,description"@,
            "action 仅允许 cultivate|rest|breakthrough|combat|custom"@,
            "description 必须为中文"@,
        ],
        Some(
            "{\"action\":\"cultivate|rest|breakthrough|combat|custom\",\"target\":\"optional string\",\"description\":\"optional string\"}"@,
        ),
    ));
    r
}

/// The label of an action kind, as offered to the model.
pub open spec fn action_label(a: Action) -> Seq<char> {
    match a {
        Action::Cultivate => "cultivate"@,
        Action::Combat { .. } => "combat"@,
        Action::Breakthrough => "breakthrough"@,
        Action::Rest => "rest"@,
        Action::Custom { .. } => "custom"@,
    }
}

/// The labels of the options' actions, joined with commas.
pub open spec fn joined_labels(opts: Seq<PlayerOption>) -> Seq<char>
    decreases opts.len(),
{
    if opts.len() == 0 {
        Seq::empty()
    } else if opts.len() == 1 {
        action_label(opts[0].action)
    } else {
        joined_labels(opts.drop_last()) + ","@ + action_label(opts.last().action)
    }
}

/// The label of an action.
fn action_label_exec(a: &Action) -> (s: &'static str)
    ensures
        s@ == action_label(*a),
{
    match a {
        Action::Cultivate => "cultivate",
        Action::Combat { .. } => "combat",
        Action::Breakthrough => "breakthrough",
        Action::Rest => "rest",
        Action::Custom { .. } => "custom",
    }
}

/// The labels of the options, joined by commas.
fn joined_labels_exec(opts: &Vec<PlayerOption>) -> (s: String)
    ensures
        s@ == joined_labels(opts@),
{
    let mut out = String::new();
    let mut i: usize = 0;
    while i < opts.len()
        invariant
            i <= opts@.len(),
            out@ == joined_labels(opts@.take(i as int)),
        decreases opts@.len() - i,
    {
        assert(opts@.take(i + 1).drop_last() =~= opts@.take(i as int));
        if i > 0 {
            append_str(&mut out, ",");
        }
        append_str(&mut out, action_label_exec(&opts[i].action));
        if i == 0 {
            assert(out@ =~= action_label(opts@[0].action));
        }
        i = i + 1;
    }
    assert(opts@.take(opts@.len() as int) =~= opts@);
    out
}

/// The request asking the model whether a free-text action is reasonable
/// given the actions on offer.
pub open spec fn is_verdict_request(
    r: PlotRequest,
    b: PromptBuilder,
    free_text: Seq<char>,
    options: Seq<PlayerOption>,
) -> bool {
    &&& r.max_tokens == 96
    &&& exists|c: PromptContext, k: PromptConstraints|
        context_is(
            c,
            Some("玩家输入: "@ + free_text + " | 可用行动: "@ + joined_labels(options)),
            None,
            Some("player"@),
            None,
            None,
            Seq::empty(),
            Some("请判断玩家行动在当前修仙场景下是否合理"@),
        ) && constraints_are(
            k,
            seq!["拒绝违反境界与能力约束的行动"@],
            seq!["只输出严格 JSON"@, "JSON 字段: reasonable,reason"@, "reason 必须为中文"@],
            Some("{\"reasonable\":true|false,\"reason\":\"string\"}"@),
        ) && r.prompt@ == rendered(b, PromptTemplate::OptionGeneration, c, k, 220)
}

/// The request asking the model whether a free-text action is reasonable.
pub fn verdict_request(builder: &PromptBuilder, free_text: &str, options: &Vec<PlayerOption>) -> (r:
    PlotRequest)
    ensures
        is_verdict_request(r, *builder, free_text@, options@),
{
    let mut scene = "玩家输入: ".to_string();
    append_str(&mut scene, free_text);
    append_str(&mut scene, " | 可用行动: ");
    append_str(&mut scene, joined_labels_exec(options).as_str());
    let context = PromptContext {
        scene: Some(scene),
        location: None,
        actor_name: Some("player".to_string()),
        actor_realm: None,
        actor_combat_power: None,
        history_events: no_history(),
        world_setting_summary: Some("请判断玩家行动在当前修仙场景下是否合理".to_string()),
    };
    let world = rules3("只输出严格 JSON", "JSON 字段: reasonable,reason", "reason 必须为中文");
    let constraints = PromptConstraints {
        numerical_rules: one_rule("拒绝违反境界与能力约束的行动"),
        world_rules: world,
        output_schema_hint: Some("{\"reasonable\":true|false,\"reason\":\"string\"}".to_string()),
    };
    let r = render_request(builder, PromptTemplate::OptionGeneration, &context, &constraints, 220, 96);
    assert(context_is(
        context,
        Some("玩家输入: "@ + free_text@ + " | 可用行动: "@ + joined_labels(options@)),
        None,
        Some("player"@),
        None,
        None,
        Seq::empty(),
        Some("请判断玩家行动在当前修仙场景下是否合理"@),
    ));
    assert(constraints_are(
        constraints,
        seq!["拒绝违反境界与能力约束的行动"@],
        seq!["只输出严格 JSON"@, "JSON 字段: reasonable,reason"@, "reason 必须为中文"@],
        Some("{\"reasonable\":true|false,\"reason\":\"string\"}"@),
    ));
    r
}

} // verus!
