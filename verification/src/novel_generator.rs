//! Turning the event history into a novel: events in time order, grouped
//! into chapters, each written by the model or from the events themselves.
use crate::event_log::{stable_sort_by_key, stable_sorted_from, GameEvent};
use crate::plot_requests::{
    constraints_are, context_is, one_rule, push_item, render_request, rendered, rules3,
    PlotRequest,
};
use crate::prompt_builder::{PromptBuilder, PromptConstraints, PromptContext, PromptTemplate};
use crate::text::{append_str, decimal, opt_view, push_decimal, string_views};
use vstd::prelude::*;

verus! {

broadcast use vstd::seq_lib::group_seq_lib_default;

/// One chapter of the novel, with the ids of the events it tells.
#[derive(Debug, Clone, PartialEq, Eq)]
pub struct Chapter {
    pub index: u32,
    pub title: String,
    pub content: String,
    pub source_event_ids: Vec<u64>,
}

/// A novel made from a game's events.
#[derive(Debug, Clone, PartialEq, Eq)]
pub struct Novel {
    pub title: String,
    pub chapters: Vec<Chapter>,
    pub total_events: usize,
}

/// Events told per chapter.
pub const CHAPTER_EVENT_BATCH_SIZE: usize = 8;

/// `s` cut into consecutive groups of `k` events, the last one possibly
/// shorter.
pub open spec fn chunks_spec(s: Seq<GameEvent>, k: nat) -> Seq<Seq<GameEvent>>
    decreases s.len(),
{
    if s.len() == 0 || k == 0 {
        Seq::empty()
    } else if s.len() <= k {
        seq![s]
    } else {
        seq![s.take(k as int)] + chunks_spec(s.skip(k as int), k)
    }
}

/// Copies of the events from `a` up to `b`.
fn copy_events(v: &Vec<GameEvent>, a: usize, b: usize) -> (r: Vec<GameEvent>)
    requires
        a <= b <= v@.len(),
    ensures
        r@ == v@.subrange(a as int, b as int),
{
    let mut r: Vec<GameEvent> = Vec::new();
    let mut i = a;
    while i < b
        invariant
            a <= i <= b <= v@.len(),
            r@ == v@.subrange(a as int, i as int),
        decreases b - i,
    {
        r.push(v[i].duplicate());
        i = i + 1;
        assert(r@ =~= v@.subrange(a as int, i as int));
    }
    r
}

/// The events in time order (by timestamp, then id; ties keep their order),
/// cut into chapter-sized groups.
pub fn novel_chunks(events: &Vec<GameEvent>) -> (r: Vec<Vec<GameEvent>>)
    ensures
        exists|ordered: Seq<GameEvent>|
            stable_sorted_from(ordered, events@) && r@.map_values(|c: Vec<GameEvent>| c@)
                == chunks_spec(ordered, CHAPTER_EVENT_BATCH_SIZE as nat),
{
    let all = copy_events(events, 0, events.len());
    assert(all@ =~= events@);
    let ordered = stable_sort_by_key(all);
    let n = ordered.len();
    let k = CHAPTER_EVENT_BATCH_SIZE;
    let mut out: Vec<Vec<GameEvent>> = Vec::new();
    let mut i: usize = 0;
    assert(ordered@.skip(0) =~= ordered@);
    assert(out@.map_values(|c: Vec<GameEvent>| c@) =~= Seq::<Seq<GameEvent>>::empty());
    while i < n
        invariant
            n == ordered@.len(),
            i <= n,
            k == CHAPTER_EVENT_BATCH_SIZE,
            chunks_spec(ordered@, k as nat) == out@.map_values(|c: Vec<GameEvent>| c@)
                + chunks_spec(ordered@.skip(i as int), k as nat),
        decreases n - i,
    {
        let ghost rest = ordered@.skip(i as int);
        let end = if n - i <= k {
            n
        } else {
            i + k
        };
        let chunk = copy_events(&ordered, i, end);
        let ghost before = out@.map_values(|c: Vec<GameEvent>| c@);
        out.push(chunk);
        assert(out@.map_values(|c: Vec<GameEvent>| c@) =~= before.push(chunk@));
        if end == n {
            assert(chunk@ =~= rest);
            assert(chunks_spec(rest, k as nat) == seq![rest]);
            assert(ordered@.skip(n as int) =~= Seq::<GameEvent>::empty());
            assert(before + seq![rest] =~= before.push(chunk@) + chunks_spec(
                ordered@.skip(n as int),
                k as nat,
            ));
        } else {
            assert(chunk@ =~= rest.take(k as int));
            assert(rest.skip(k as int) =~= ordered@.skip(end as int));
            assert(before + (seq![rest.take(k as int)] + chunks_spec(rest.skip(k as int), k as nat))
                =~= before.push(chunk@) + chunks_spec(ordered@.skip(end as int), k as nat));
        }
        i = end;
    }
    assert(ordered@.skip(n as int) =~= Seq::<GameEvent>::empty());
    assert(out@.map_values(|c: Vec<GameEvent>| c@) + Seq::<Seq<GameEvent>>::empty() =~= out@.map_values(
        |c: Vec<GameEvent>| c@,
    ));
    out
}

/// A non-empty history falls into at least one group of events, so every
/// history gives a novel with at least one chapter (an empty one gets the
/// quiet chapter).
pub proof fn nonempty_history_has_a_group(s: Seq<GameEvent>, k: nat)
    requires
        k > 0,
        s.len() > 0,
    ensures
        chunks_spec(s, k).len() > 0,
{
}

/// Cutting events into chapters loses, repeats and reorders nothing: the
/// chapters read in order give back the events, and every chapter is full
/// but possibly the last.
pub proof fn chunks_keep_every_event(s: Seq<GameEvent>, k: nat)
    requires
        k > 0,
    ensures
        chunks_spec(s, k).flatten() == s,
        forall|i: int|
            0 <= i < chunks_spec(s, k).len() ==> 0 < (#[trigger] chunks_spec(s, k)[i]).len() <= k,
        forall|i: int|
            0 <= i < chunks_spec(s, k).len() - 1 ==> (#[trigger] chunks_spec(s, k)[i]).len() == k,
    decreases s.len(),
{
    let ch = chunks_spec(s, k);
    if s.len() == 0 {
        assert(ch =~= Seq::<Seq<GameEvent>>::empty());
    } else if s.len() <= k {
        assert(ch == seq![s]);
        assert(seq![s].drop_first() =~= Seq::<Seq<GameEvent>>::empty());
        assert(seq![s].flatten() =~= s + Seq::<Seq<GameEvent>>::empty().flatten());
    } else {
        let rest = chunks_spec(s.skip(k as int), k);
        chunks_keep_every_event(s.skip(k as int), k);
        assert(ch == seq![s.take(k as int)] + rest);
        assert((seq![s.take(k as int)] + rest).drop_first() =~= rest);
        assert(ch.flatten() == s.take(k as int) + rest.flatten());
        assert(s.take(k as int) + s.skip(k as int) =~= s);
        assert forall|i: int| 0 <= i < ch.len() implies 0 < (#[trigger] ch[i]).len() <= k by {
            if i > 0 {
                assert(ch[i] == rest[i - 1]);
            }
        }
        assert forall|i: int| 0 <= i < ch.len() - 1 implies (#[trigger] ch[i]).len() == k by {
            if i > 0 {
                assert(ch[i] == rest[i - 1]);
            }
        }
    }
}

/// The title of a chapter.
pub open spec fn chapter_title_spec(index: u32) -> Seq<char> {
    "第"@ + decimal(index as nat) + "章：命途流转"@
}

/// One line of the fallback text for an event.
pub open spec fn event_line(e: GameEvent) -> Seq<char> {
    "第"@ + decimal(e.timestamp as nat) + "日："@ + e.description@ + "（"@ + e.event_type@ + "）"@
}

/// The event lines, each after a line break.
pub open spec fn event_lines(events: Seq<GameEvent>) -> Seq<char>
    decreases events.len(),
{
    if events.len() == 0 {
        Seq::empty()
    } else {
        event_lines(events.drop_last()) + "\n"@ + event_line(events.last())
    }
}

/// A chapter written from its events when the model gives no text.
pub open spec fn chapter_fallback_spec(events: Seq<GameEvent>) -> Seq<char> {
    if events.len() == 0 {
        "这一章尚未掀起波澜，主角在平静中积蓄力量。"@
    } else {
        "修行之路在以下片段中继续推进："@ + event_lines(events) + "\n"@
            + "故事尚未结束，你的下一次选择将决定后续走向。"@
    }
}

/// Writes a chapter from its events.
pub fn generate_chapter_fallback(events: &Vec<GameEvent>) -> (s: String)
    ensures
        s@ == chapter_fallback_spec(events@),
{
    if events.len() == 0 {
        return "这一章尚未掀起波澜，主角在平静中积蓄力量。".to_string();
    }
    let mut s = "修行之路在以下片段中继续推进：".to_string();
    let mut i: usize = 0;
    while i < events.len()
        invariant
            i <= events@.len(),
            s@ == "修行之路在以下片段中继续推进："@ + event_lines(events@.take(i as int)),
        decreases events@.len() - i,
    {
        assert(events@.take(i + 1).drop_last() =~= events@.take(i as int));
        let e = &events[i];
        append_str(&mut s, "\n");
        append_str(&mut s, "第");
        push_decimal(&mut s, e.timestamp);
        append_str(&mut s, "日：");
        append_str(&mut s, e.description.as_str());
        append_str(&mut s, "（");
        append_str(&mut s, e.event_type.as_str());
        append_str(&mut s, "）");
        i = i + 1;
    }
    assert(events@.take(events@.len() as int) =~= events@);
    append_str(&mut s, "\n");
    append_str(&mut s, "故事尚未结束，你的下一次选择将决定后续走向。");
    s
}

/// The ids of the events, in order.
pub open spec fn event_ids(events: Seq<GameEvent>) -> Seq<u64> {
    events.map_values(|e: GameEvent| e.id)
}

/// A chapter of the given events: the model's text when it gave one, else
/// the text written from the events.
pub open spec fn is_chapter(
    c: Chapter,
    index: u32,
    events: Seq<GameEvent>,
    model_text: Option<Seq<char>>,
) -> bool {
    &&& c.index == index
    &&& c.title@ == chapter_title_spec(index)
    &&& c.content@ == match model_text {
        Some(t) => t,
        None => chapter_fallback_spec(events),
    }
    &&& c.source_event_ids@ == event_ids(events)
}

/// A chapter from its events and the model's text, if any.
pub fn generate_chapter(index: u32, events: &Vec<GameEvent>, model_text: Option<String>) -> (c:
    Chapter)
    ensures
        is_chapter(c, index, events@, opt_view(model_text)),
{
    let mut ids: Vec<u64> = Vec::new();
    let mut i: usize = 0;
    while i < events.len()
        invariant
            i <= events@.len(),
            ids@ == event_ids(events@.take(i as int)),
        decreases events@.len() - i,
    {
        ids.push(events[i].id);
        i = i + 1;
        assert(ids@ =~= event_ids(events@.take(i as int)));
    }
    assert(events@.take(events@.len() as int) =~= events@);
    let mut title = "第".to_string();
    push_decimal(&mut title, index as u64);
    append_str(&mut title, "章：命途流转");
    let content = match model_text {
        Some(t) => t,
        None => generate_chapter_fallback(events),
    };
    Chapter { index, title, content, source_event_ids: ids }
}

/// The novel told when nothing has happened yet.
pub open spec fn is_empty_novel(n: Novel, title: Seq<char>) -> bool {
    &&& n.title@ == title
    &&& n.total_events == 0
    &&& n.chapters@.len() == 1
    &&& n.chapters@[0].index == 1
    &&& n.chapters@[0].title@ == "第1章：静水初澜"@
    &&& n.chapters@[0].content@ == "尚无重大事件发生，你的修行旅程正等待展开。"@
    &&& n.chapters@[0].source_event_ids@.len() == 0
}

/// The novel of a game: with no events, a single quiet chapter; else one
/// chapter per group of events, numbered from 1, each with the model's text
/// for it when there is one.
pub fn assemble_novel(
    title: &str,
    chunks: &Vec<Vec<GameEvent>>,
    model_texts: Vec<Option<String>>,
    total_events: usize,
) -> (n: Novel)
    requires
        model_texts@.len() == chunks@.len(),
        chunks@.len() < u32::MAX,
    ensures
        n.title@ == title@,
        total_events == 0 ==> is_empty_novel(n, title@),
        total_events > 0 ==> n.total_events == total_events && n.chapters@.len() == chunks@.len()
            && forall|i: int|
            0 <= i < chunks@.len() ==> is_chapter(
                #[trigger] n.chapters@[i],
                (i + 1) as u32,
                chunks@[i]@,
                opt_view(model_texts@[i]),
            ),
{
    if total_events == 0 {
        let chapter = Chapter {
            index: 1,
            title: "第1章：静水初澜".to_string(),
            content: "尚无重大事件发生，你的修行旅程正等待展开。".to_string(),
            source_event_ids: Vec::new(),
        };
        let mut chapters: Vec<Chapter> = Vec::new();
        chapters.push(chapter);
        return Novel { title: title.to_string(), chapters, total_events: 0 };
    }
    let mut chapters: Vec<Chapter> = Vec::new();
    let ghost all_texts = model_texts@;
    let mut i: usize = 0;
    while i < chunks.len()
        invariant
            i <= chunks@.len() < u32::MAX,
            all_texts.len() == chunks@.len(),
            chapters@.len() == i,
            model_texts@ == all_texts,
            forall|k: int|
                0 <= k < i ==> is_chapter(
                    #[trigger] chapters@[k],
                    (k + 1) as u32,
                    chunks@[k]@,
                    opt_view(all_texts[k]),
                ),
        decreases chunks@.len() - i,
    {
        let text = match &model_texts[i] {
            Some(t) => Some(t.clone()),
            None => None,
        };
        assert(opt_view(text) == opt_view(all_texts[i as int]));
        let c = generate_chapter((i + 1) as u32, &chunks[i], text);
        chapters.push(c);
        i = i + 1;
    }
    Novel { title: title.to_string(), chapters, total_events }
}

/// The text of an exported novel: title, event count, then each chapter's
/// heading and text.
pub open spec fn chapters_text(chapters: Seq<Chapter>) -> Seq<char>
    decreases chapters.len(),
{
    if chapters.len() == 0 {
        Seq::empty()
    } else {
        let c = chapters.last();
        chapters_text(chapters.drop_last()) + "第"@ + decimal(c.index as nat) + "章 - "@ + c.title@
            + "\n"@ + c.content@ + "\n\n"@
    }
}

/// The text of an exported novel.
pub open spec fn export_text_spec(n: Novel) -> Seq<char> {
    n.title@ + "\n\n"@ + "事件总数："@ + decimal(n.total_events as nat) + "\n\n"@ + chapters_text(
        n.chapters@,
    )
}

/// The text written when a novel is exported.
pub fn export_text(novel: &Novel) -> (s: String)
    ensures
        s@ == export_text_spec(*novel),
{
    let mut s = novel.title.clone();
    append_str(&mut s, "\n\n");
    append_str(&mut s, "事件总数：");
    push_decimal(&mut s, novel.total_events as u64);
    append_str(&mut s, "\n\n");
    let ghost head = s@;
    let mut i: usize = 0;
    while i < novel.chapters.len()
        invariant
            i <= novel.chapters@.len(),
            s@ == head + chapters_text(novel.chapters@.take(i as int)),
        decreases novel.chapters@.len() - i,
    {
        assert(novel.chapters@.take(i + 1).drop_last() =~= novel.chapters@.take(i as int));
        let c = &novel.chapters[i];
        append_str(&mut s, "第");
        push_decimal(&mut s, c.index as u64);
        append_str(&mut s, "章 - ");
        append_str(&mut s, c.title.as_str());
        append_str(&mut s, "\n");
        append_str(&mut s, c.content.as_str());
        append_str(&mut s, "\n\n");
        i = i + 1;
    }
    assert(novel.chapters@.take(novel.chapters@.len() as int) =~= novel.chapters@);
    s
}

/// The timeline lines shown to the model for a chapter.
pub open spec fn timeline_line(e: GameEvent) -> Seq<char> {
    "[t="@ + decimal(e.timestamp as nat) + "] "@ + e.event_type@ + ": "@ + e.description@
}

/// The timeline lines, joined with line breaks.
pub open spec fn timeline(events: Seq<GameEvent>) -> Seq<char>
    decreases events.len(),
{
    if events.len() == 0 {
        Seq::empty()
    } else if events.len() == 1 {
        timeline_line(events[0])
    } else {
        timeline(events.drop_last()) + "\n"@ + timeline_line(events.last())
    }
}

/// The timeline lines of the events, one per event.
fn timeline_exec(events: &Vec<GameEvent>) -> (s: String)
    ensures
        s@ == timeline(events@),
{
    let mut s = String::new();
    let mut i: usize = 0;
    while i < events.len()
        invariant
            i <= events@.len(),
            s@ == timeline(events@.take(i as int)),
        decreases events@.len() - i,
    {
        assert(events@.take(i + 1).drop_last() =~= events@.take(i as int));
        let e = &events[i];
        if i > 0 {
            append_str(&mut s, "\n");
        }
        let ghost before = s@;
        append_str(&mut s, "[t=");
        push_decimal(&mut s, e.timestamp);
        append_str(&mut s, "] ");
        append_str(&mut s, e.event_type.as_str());
        append_str(&mut s, ": ");
        append_str(&mut s, e.description.as_str());
        if i == 0 {
            assert(s@ =~= timeline_line(events@[0]));
        }
        i = i + 1;
    }
    assert(events@.take(events@.len() as int) =~= events@);
    s
}

/// The request asking the model to write a chapter from its events.
pub open spec fn is_chapter_request(r: PlotRequest, b: PromptBuilder, index: u32, events: Seq<
    GameEvent,
>) -> bool {
    &&& r.max_tokens == 500
    &&& exists|c: PromptContext, k: PromptConstraints|
        context_is(
            c,
            Some("请根据时间线事件生成第 "@ + decimal(index as nat) + " 章小说正文"@),
            None,
            Some("player"@),
            None,
            None,
            seq![timeline(events)],
            Some("修仙小说文风，保留事件顺序，章节结尾留出后续发展空间"@),
        ) && constraints_are(
            k,
            seq!["保持时间顺序，不可颠倒因果"@],
            seq!["仅输出中文纯文本"@, "字数控制在 300-700 字"@, "叙事风格接近连载网文"@],
            None,
        ) && r.prompt@ == rendered(b, PromptTemplate::PlotGeneration, c, k, 600)
}

/// The request asking the model to write a chapter from its events.
pub fn chapter_request(builder: &PromptBuilder, index: u32, events: &Vec<GameEvent>) -> (r:
    PlotRequest)
    ensures
        is_chapter_request(r, *builder, index, events@),
{
    let mut scene = "请根据时间线事件生成第 ".to_string();
    push_decimal(&mut scene, index as u64);
    append_str(&mut scene, " 章小说正文");
    let lines = timeline_exec(events);
    let mut history: Vec<String> = Vec::new();
    assert(string_views(history@) =~= Seq::<Seq<char>>::empty());
    push_item(&mut history, lines.as_str());
    assert(string_views(history@) =~= seq![lines@]);
    let context = PromptContext {
        scene: Some(scene),
        location: None,
        actor_name: Some("player".to_string()),
        actor_realm: None,
        actor_combat_power: None,
        history_events: history,
        world_setting_summary: Some("修仙小说文风，保留事件顺序，章节结尾留出后续发展空间".to_string()),
    };
    let constraints = PromptConstraints {
        numerical_rules: one_rule("保持时间顺序，不可颠倒因果"),
        world_rules: rules3("仅输出中文纯文本", "字数控制在 300-700 字", "叙事风格接近连载网文"),
        output_schema_hint: None,
    };
    let r = render_request(builder, PromptTemplate::PlotGeneration, &context, &constraints, 600, 500);
    assert(context_is(
        context,
        Some("请根据时间线事件生成第 "@ + decimal(index as nat) + " 章小说正文"@),
        None,
        Some("player"@),
        None,
        None,
        seq![timeline(events@)],
        Some("修仙小说文风，保留事件顺序，章节结尾留出后续发展空间"@),
    ));
    assert(constraints_are(
        constraints,
        seq!["保持时间顺序，不可颠倒因果"@],
        seq!["仅输出中文纯文本"@, "字数控制在 300-700 字"@, "叙事风格接近连载网文"@],
        None,
    ));
    r
}

} // verus!
