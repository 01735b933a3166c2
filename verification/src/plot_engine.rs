//! Plot progression: scenes, chapters, player options, action validation and
//! the rules that decide when the story pauses for the player.
use crate::numerical_system::{
    action_outcome, is_outcome, views, Action, ActionResult, ActionView, ActorSnapshot, Context,
    NumericalSystem, StatChange,
};
use crate::prompt_builder::PromptBuilder;
use crate::response_validator::ResponseValidator;
use crate::text::{
    append_str, ascii_lower_spec, char_count, chars_of, contains, contains_any,
    contains_any_spec, contains_spec, decimal,
    is_blank, prefix_chars, push_decimal, str_eq, take_chars, to_ascii_lowercase, trim,
    trim_spec, word_count, word_count_spec, lemma_trim_within,
};
use vstd::prelude::*;

verus! {

broadcast use vstd::seq_lib::group_seq_lib_default;

/// How the player acted.
#[derive(Debug, Clone, Copy, PartialEq, Eq, Structural)]
pub enum ActionType {
    FreeText,
    SelectedOption,
}

/// A player's input.
#[derive(Debug, Clone, PartialEq, Eq)]
pub struct PlayerAction {
    pub action_type: ActionType,
    pub content: String,
    pub selected_option_id: Option<usize>,
    pub meta: Option<ActionMeta>,
}

/// Extra information about a player's input.
#[derive(Debug, Clone, PartialEq, Eq)]
pub struct ActionMeta {
    pub action_kind: Option<String>,
}

/// A choice offered to the player.
#[derive(Debug, Clone, PartialEq, Eq)]
pub struct PlayerOption {
    pub id: usize,
    pub description: String,
    pub requirements: Vec<String>,
    pub action: Action,
}

/// A place in the story with the options it offers.
#[derive(Debug, Clone, PartialEq, Eq)]
pub struct Scene {
    pub id: String,
    pub name: String,
    pub description: String,
    pub location: String,
    pub available_options: Vec<PlayerOption>,
}

/// How chapters are paced.
#[derive(Debug, Clone, PartialEq, Eq)]
pub struct PlotSettings {
    pub recap_enabled: bool,
    pub novel_style: String,
    pub min_interactions_per_chapter: u8,
    pub max_interactions_per_chapter: u8,
    pub target_chapter_words_min: u32,
    pub target_chapter_words_max: u32,
}

impl PlotSettings {
    /// Recaps on, 2 to 3 interactions and 5000 to 7000 words per chapter.
    pub fn default_settings() -> (s: PlotSettings)
        ensures
            s.recap_enabled,
            s.novel_style@ == "修仙白话·第三人称"@,
            s.min_interactions_per_chapter == 2,
            s.max_interactions_per_chapter == 3,
            s.target_chapter_words_min == 5000,
            s.target_chapter_words_max == 7000,
    {
        PlotSettings {
            recap_enabled: true,
            novel_style: "修仙白话·第三人称".to_string(),
            min_interactions_per_chapter: 2,
            max_interactions_per_chapter: 3,
            target_chapter_words_min: 5000,
            target_chapter_words_max: 7000,
        }
    }
}

/// The chapter being written.
#[derive(Debug, Clone, PartialEq, Eq)]
pub struct ChapterState {
    pub index: u32,
    pub title: String,
    pub content: Vec<String>,
    pub summary: String,
    pub interaction_count: u8,
}

/// Words credited to one segment: its word count or half its characters,
/// whichever is larger.
pub open spec fn segment_words(s: Seq<char>) -> nat {
    let w = word_count_spec(s);
    let h = s.len() / 2;
    if w >= h {
        w
    } else {
        h
    }
}

/// Words credited to a list of segments.
pub open spec fn content_words(c: Seq<String>) -> nat
    decreases c.len(),
{
    if c.len() == 0 {
        0
    } else {
        content_words(c.drop_last()) + segment_words(c.last()@)
    }
}

/// Words credited to one segment.
pub fn segment_word_count(s: &str) -> (n: usize)
    ensures
        n == segment_words(s@),
{
    let w = word_count(s);
    let h = char_count(s) / 2;
    if w >= h {
        w
    } else {
        h
    }
}

impl ChapterState {
    /// An empty chapter.
    pub fn new(index: u32, title: String) -> (c: ChapterState)
        ensures
            c.index == index,
            c.title == title,
            c.content@.len() == 0,
            c.summary@ == Seq::<char>::empty(),
            c.interaction_count == 0,
    {
        ChapterState { index, title, content: Vec::new(), summary: String::new(), interaction_count: 0 }
    }

    /// Words credited to the chapter so far.
    pub fn word_count(&self) -> (n: usize)
        requires
            content_words(self.content@) <= usize::MAX,
        ensures
            n == content_words(self.content@),
    {
        let mut total: usize = 0;
        let mut i: usize = 0;
        while i < self.content.len()
            invariant
                i <= self.content@.len(),
                total == content_words(self.content@.take(i as int)),
                content_words(self.content@) <= usize::MAX,
            decreases self.content@.len() - i,
        {
            proof {
                assert(self.content@.take(i + 1).drop_last() =~= self.content@.take(i as int));
                lemma_content_words_prefix(self.content@, i + 1);
            }
            total = total + segment_word_count(self.content[i].as_str());
            i = i + 1;
        }
        assert(self.content@.take(self.content@.len() as int) =~= self.content@);
        total
    }
}

/// The words of a prefix of a chapter are at most those of the chapter.
proof fn lemma_content_words_prefix(c: Seq<String>, n: int)
    requires
        0 <= n <= c.len(),
    ensures
        content_words(c.take(n)) <= content_words(c),
    decreases c.len(),
{
    if n < c.len() {
        assert(c.drop_last().take(n) =~= c.take(n));
        lemma_content_words_prefix(c.drop_last(), n);
    } else {
        assert(c.take(n) =~= c);
    }
}

/// The whole plot: scene, history, pacing and chapters.
#[derive(Debug, Clone, PartialEq, Eq)]
pub struct PlotState {
    pub current_scene: Scene,
    pub plot_history: Vec<String>,
    pub is_waiting_for_input: bool,
    pub last_action_result: Option<ActionResult>,
    pub settings: PlotSettings,
    pub current_chapter: ChapterState,
    pub chapters: Vec<ChapterState>,
    pub segment_count: u32,
}

/// What one plot step produced.
#[derive(Debug, Clone, PartialEq, Eq)]
pub struct PlotUpdate {
    pub new_scene: Option<Scene>,
    pub plot_text: String,
    pub triggered_events: Vec<String>,
    pub state_changes: Vec<String>,
    pub is_waiting_for_input: bool,
    pub available_options: Vec<PlayerOption>,
    pub chapter_title: Option<String>,
    pub chapter_summary: Option<String>,
    pub chapter_end: bool,
}

/// Opening text with suggested options.
#[derive(Debug, Clone, PartialEq, Eq)]
pub struct OpeningPlot {
    pub text: String,
    pub options: Vec<String>,
}

/// A piece of chapter text and what should follow it.
#[derive(Debug, Clone, PartialEq, Eq)]
pub struct ChapterSegment {
    pub text: String,
    pub needs_player_input: bool,
    pub chapter_end: bool,
    pub chapter_title: Option<String>,
    pub chapter_summary: Option<String>,
    pub options: Vec<String>,
}

/// A copy of a list of strings.
pub fn clone_strings(v: &Vec<String>) -> (r: Vec<String>)
    ensures
        r@ == v@,
{
    let mut r: Vec<String> = Vec::new();
    let mut i: usize = 0;
    while i < v.len()
        invariant
            i <= v@.len(),
            r@ == v@.take(i as int),
        decreases v@.len() - i,
    {
        r.push(v[i].clone());
        i = i + 1;
        assert(r@ =~= v@.take(i as int));
    }
    assert(v@.take(v@.len() as int) =~= v@);
    r
}

/// `parts` joined with `sep` between consecutive parts.
pub open spec fn join_spec(parts: Seq<String>, sep: Seq<char>) -> Seq<char>
    decreases parts.len(),
{
    if parts.len() == 0 {
        Seq::empty()
    } else if parts.len() == 1 {
        parts[0]@
    } else {
        join_spec(parts.drop_last(), sep) + sep + parts.last()@
    }
}

/// Joins strings with a separator.
pub fn join_strings(parts: &Vec<String>, sep: &str) -> (s: String)
    ensures
        s@ == join_spec(parts@, sep@),
{
    let mut out = String::new();
    let mut i: usize = 0;
    while i < parts.len()
        invariant
            i <= parts@.len(),
            out@ == join_spec(parts@.take(i as int), sep@),
        decreases parts@.len() - i,
    {
        proof {
            assert(parts@.take(i + 1).drop_last() =~= parts@.take(i as int));
        }
        if i > 0 {
            append_str(&mut out, sep);
        }
        append_str(&mut out, parts[i].as_str());
        proof {
            if i == 0 {
                assert(out@ =~= parts@[0]@);
            }
        }
        i = i + 1;
    }
    assert(parts@.take(parts@.len() as int) =~= parts@);
    out
}

/// Chapter title used when none is given: `第{index}章 ` and the first eight
/// characters of the summary (trimmed), or `第{index}章 无题` for no summary.
pub open spec fn fallback_title_spec(index: u32, summary: Seq<char>) -> Seq<char> {
    let base = trim_spec(take_chars(summary, 8));
    if base.len() == 0 {
        "第"@ + decimal(index as nat) + "章 无题"@
    } else {
        "第"@ + decimal(index as nat) + "章 "@ + base
    }
}

/// Title for a chapter that was not named.
pub fn fallback_chapter_title(index: u32, summary: &str) -> (s: String)
    ensures
        s@ == fallback_title_spec(index, summary@),
{
    let first = prefix_chars(summary, 8);
    let base = trim(first.as_str());
    let mut out = "第".to_string();
    push_decimal(&mut out, index as u64);
    if base.as_str().is_empty() {
        append_str(&mut out, "章 无题");
    } else {
        append_str(&mut out, "章 ");
        append_str(&mut out, base.as_str());
    }
    out
}

impl Scene {
    /// A scene with no options.
    pub fn new(id: String, name: String, description: String, location: String) -> (s: Scene)
        ensures
            s.id == id,
            s.name == name,
            s.description == description,
            s.location == location,
            s.available_options@.len() == 0,
    {
        Scene { id, name, description, location, available_options: Vec::new() }
    }

    /// Adds an option at the end.
    pub fn add_option(&mut self, option: PlayerOption)
        ensures
            final(self).available_options@ == old(self).available_options@.push(option),
            final(self).id == old(self).id,
            final(self).name == old(self).name,
            final(self).description == old(self).description,
            final(self).location == old(self).location,
    {
        self.available_options.push(option);
    }
}

impl PlotState {
    /// The plot at the start of chapter one, waiting for the player.
    pub fn new(initial_scene: Scene) -> (p: PlotState)
        ensures
            p.current_scene == initial_scene,
            p.plot_history@.len() == 0,
            p.is_waiting_for_input,
            p.last_action_result is None,
            p.current_chapter.index == 1,
            p.current_chapter.title@ == "第一章"@,
            p.current_chapter.content@.len() == 0,
            p.current_chapter.summary@.len() == 0,
            p.current_chapter.interaction_count == 0,
            p.chapters@.len() == 0,
            p.segment_count == 0,
            p.settings.recap_enabled,
            p.settings.novel_style@ == "修仙白话·第三人称"@,
            p.settings.min_interactions_per_chapter == 2,
            p.settings.max_interactions_per_chapter == 3,
            p.settings.target_chapter_words_min == 5000,
            p.settings.target_chapter_words_max == 7000,
    {
        let chapter = ChapterState::new(1, "第一章".to_string());
        PlotState {
            current_scene: initial_scene,
            plot_history: Vec::new(),
            is_waiting_for_input: true,
            last_action_result: None,
            settings: PlotSettings::default_settings(),
            current_chapter: chapter,
            chapters: Vec::new(),
            segment_count: 0,
        }
    }

    /// Records text in the history.
    pub fn add_to_history(&mut self, text: String)
        ensures
            final(self).plot_history@ == old(self).plot_history@.push(text),
            final(self).current_scene == old(self).current_scene,
            final(self).current_chapter == old(self).current_chapter,
            final(self).chapters == old(self).chapters,
            final(self).segment_count == old(self).segment_count,
            final(self).is_waiting_for_input == old(self).is_waiting_for_input,
            final(self).last_action_result == old(self).last_action_result,
            final(self).settings == old(self).settings,
    {
        self.plot_history.push(text);
    }

    /// Adds a segment to the chapter and the history; the scene text becomes the
    /// chapter so far, paragraphs separated by blank lines.
    pub fn append_segment(&mut self, text: String)
        ensures
            final(self).plot_history@ == old(self).plot_history@.push(text),
            final(self).current_chapter.content@ == old(self).current_chapter.content@.push(text),
            final(self).current_chapter.index == old(self).current_chapter.index,
            final(self).current_chapter.title == old(self).current_chapter.title,
            final(self).current_chapter.summary == old(self).current_chapter.summary,
            final(self).current_chapter.interaction_count == old(
                self,
            ).current_chapter.interaction_count,
            final(self).segment_count == if old(self).segment_count == u32::MAX {
                u32::MAX
            } else {
                (old(self).segment_count + 1) as u32
            },
            final(self).current_scene.description@ == join_spec(
                old(self).current_chapter.content@.push(text),
                "\n\n"@,
            ),
            final(self).current_scene.id == old(self).current_scene.id,
            final(self).current_scene.name == old(self).current_scene.name,
            final(self).current_scene.location == old(self).current_scene.location,
            final(self).current_scene.available_options == old(
                self,
            ).current_scene.available_options,
            final(self).chapters == old(self).chapters,
            final(self).settings == old(self).settings,
            final(self).is_waiting_for_input == old(self).is_waiting_for_input,
            final(self).last_action_result == old(self).last_action_result,
    {
        self.plot_history.push(text.clone());
        self.current_chapter.content.push(text);
        self.segment_count = self.segment_count.saturating_add(1);
        self.current_scene.description = join_strings(&self.current_chapter.content, "\n\n");
    }

    /// Closes the current chapter (naming it from `title`, else from the summary)
    /// and opens the next one.
    pub fn finalize_chapter(&mut self, title: Option<String>, summary: Option<String>)
        requires
            old(self).current_chapter.index < u32::MAX,
        ensures
            ({
                let old_ch = old(self).current_chapter;
                let resolved_summary = match summary {
                    Some(s) => if trim_spec(s@).len() > 0 {
                        trim_spec(s@)
                    } else {
                        old_ch.summary@
                    },
                    None => old_ch.summary@,
                };
                let given = match title {
                    Some(t) => t@,
                    None => Seq::<char>::empty(),
                };
                let resolved_title = if trim_spec(given).len() == 0 {
                    fallback_title_spec(old_ch.index, resolved_summary)
                } else {
                    given
                };
                let closed = final(self).chapters@.last();
                &&& final(self).chapters@.len() == old(self).chapters@.len() + 1
                &&& final(self).chapters@.drop_last() == old(self).chapters@
                &&& closed.index == old_ch.index
                &&& closed.content@ == old_ch.content@
                &&& closed.interaction_count == old_ch.interaction_count
                &&& closed.summary@ == resolved_summary
                &&& closed.title@ == if trim_spec(resolved_title).len() > 0 {
                    trim_spec(resolved_title)
                } else {
                    old_ch.title@
                }
            }),
            final(self).current_chapter.index == old(self).current_chapter.index + 1,
            final(self).current_chapter.title@ == "第"@ + decimal(
                (old(self).current_chapter.index + 1) as nat,
            ) + "章"@,
            final(self).current_chapter.content@.len() == 0,
            final(self).current_chapter.summary@.len() == 0,
            final(self).current_chapter.interaction_count == 0,
            final(self).current_scene.name == final(self).current_chapter.title,
            final(self).current_scene.description@ == "新篇章即将展开。"@,
            final(self).current_scene.id == old(self).current_scene.id,
            final(self).current_scene.location == old(self).current_scene.location,
            final(self).current_scene.available_options == old(
                self,
            ).current_scene.available_options,
            final(self).segment_count == 0,
            final(self).plot_history == old(self).plot_history,
            final(self).settings == old(self).settings,
            final(self).is_waiting_for_input == old(self).is_waiting_for_input,
            final(self).last_action_result == old(self).last_action_result,
    {
        let ghost old_ch = self.current_chapter;
        let ghost spec_summary = match &summary {
            Some(s) => if trim_spec(s@).len() > 0 {
                trim_spec(s@)
            } else {
                old_ch.summary@
            },
            None => old_ch.summary@,
        };
        let ghost given = match &title {
            Some(t) => t@,
            None => Seq::<char>::empty(),
        };
        let ghost spec_title = if trim_spec(given).len() == 0 {
            fallback_title_spec(old_ch.index, spec_summary)
        } else {
            given
        };
        let mut resolved_summary = self.current_chapter.summary.clone();
        if let Some(s) = summary {
            if !is_blank(s.as_str()) {
                resolved_summary = trim(s.as_str());
                self.current_chapter.summary = resolved_summary.clone();
            }
        }
        assert(resolved_summary@ == spec_summary);
        assert(self.current_chapter.summary@ == spec_summary);
        let mut resolved_title = match title {
            Some(t) => t,
            None => String::new(),
        };
        assert(resolved_title@ == given);
        if is_blank(resolved_title.as_str()) {
            resolved_title = fallback_chapter_title(
                self.current_chapter.index,
                resolved_summary.as_str(),
            );
        }
        assert(resolved_title@ == spec_title);
        if !is_blank(resolved_title.as_str()) {
            self.current_chapter.title = trim(resolved_title.as_str());
            self.current_scene.name = self.current_chapter.title.clone();
        }
        let closing = ChapterState {
            index: self.current_chapter.index,
            title: self.current_chapter.title.clone(),
            content: clone_strings(&self.current_chapter.content),
            summary: self.current_chapter.summary.clone(),
            interaction_count: self.current_chapter.interaction_count,
        };
        assert(closing.title@ == if trim_spec(spec_title).len() > 0 {
            trim_spec(spec_title)
        } else {
            old_ch.title@
        });
        assert(closing.index == old_ch.index);
        assert(closing.content@ == old_ch.content@);
        self.chapters.push(closing);
        assert(self.chapters@.last() == closing);
        let next_index = self.current_chapter.index + 1;
        let mut next_title = "第".to_string();
        push_decimal(&mut next_title, next_index as u64);
        append_str(&mut next_title, "章");
        self.current_chapter = ChapterState::new(next_index, next_title.clone());
        self.current_scene.name = next_title;
        self.current_scene.description = "新篇章即将展开。".to_string();
        self.segment_count = 0;
        assert(self.chapters@.drop_last() =~= old(self).chapters@);
    }
}


/// An option with its texts as character sequences.
pub struct OptionView {
    pub id: usize,
    pub description: Seq<char>,
    pub requirements: Seq<Seq<char>>,
    pub action: ActionView,
}

impl View for PlayerOption {
    type V = OptionView;

    open spec fn view(&self) -> OptionView {
        OptionView {
            id: self.id,
            description: self.description@,
            requirements: views(self.requirements@),
            action: self.action@,
        }
    }
}

/// Views of a list of options.
pub open spec fn option_views(s: Seq<PlayerOption>) -> Seq<OptionView> {
    s.map_values(|o: PlayerOption| o@)
}

impl PlayerOption {
    /// A field-by-field copy.
    pub fn duplicate(&self) -> (r: PlayerOption)
        ensures
            r@ == self@,
    {
        let reqs = clone_strings(&self.requirements);
        PlayerOption {
            id: self.id,
            description: self.description.clone(),
            requirements: reqs,
            action: self.action.duplicate(),
        }
    }
}

/// A copy of a list of options.
pub fn clone_options(v: &Vec<PlayerOption>) -> (r: Vec<PlayerOption>)
    ensures
        option_views(r@) == option_views(v@),
{
    let mut r: Vec<PlayerOption> = Vec::new();
    let mut i: usize = 0;
    while i < v.len()
        invariant
            i <= v@.len(),
            option_views(r@) == option_views(v@.take(i as int)),
            r@.len() == i,
        decreases v@.len() - i,
    {
        let ghost old_r = r@;
        r.push(v[i].duplicate());
        proof {
            assert forall|k: int| 0 <= k < i + 1 implies #[trigger] option_views(r@)[k]
                == option_views(v@.take(i + 1))[k] by {
                if k < i {
                    assert(r@[k] == old_r[k]);
                    assert(option_views(old_r)[k] == option_views(v@.take(i as int))[k]);
                }
            }
        }
        i = i + 1;
        assert(option_views(r@) =~= option_views(v@.take(i as int)));
    }
    assert(v@.take(v@.len() as int) =~= v@);
    r
}

/// An option with no requirements.
pub open spec fn plain_option(id: usize, description: Seq<char>, action: ActionView) -> OptionView {
    OptionView { id, description, requirements: Seq::empty(), action }
}

/// Options offered when a scene has none of its own: cultivate; break
/// through while below sub-level 3; rest; then a place-specific option in the
/// sect or the city. Ids count up from 0.
pub open spec fn default_options(location: Seq<char>, realm_name: Seq<char>, sub_level: u32) -> Seq<
    OptionView,
> {
    let a = seq![plain_option(0, "静心修炼，稳固境界"@, ActionView::Cultivate)];
    let b = if sub_level < 3 {
        a.push(
            OptionView {
                id: 1,
                description: "尝试突破 "@ + realm_name,
                requirements: seq![
                    "当前境界："@ + realm_name + "（小层级 "@ + decimal(sub_level as nat) + "）"@,
                ],
                action: ActionView::Breakthrough,
            },
        )
    } else {
        a
    };
    let c = b.push(plain_option(b.len() as usize, "调息休整，恢复状态"@, ActionView::Rest));
    if location == "azure_cloud_sect"@ || location == "sect"@ {
        c.push(
            plain_option(
                c.len() as usize,
                "前往宗门藏经阁"@,
                ActionView::Custom("你在藏经阁翻阅典籍，寻找适合自己的修炼方向。"@),
            ),
        )
    } else if location == "city"@ {
        c.push(
            plain_option(
                c.len() as usize,
                "前往坊市探查消息"@,
                ActionView::Custom("你在坊市中打探情报，顺便寻找可用的修炼资源。"@),
            ),
        )
    } else {
        c
    }
}

/// A scene without options of its own offers between two and four default
/// options, numbered from 0 in order.
pub proof fn default_options_count(location: Seq<char>, realm_name: Seq<char>, sub_level: u32)
    ensures
        2 <= default_options(location, realm_name, sub_level).len() <= 4,
        forall|i: int|
            0 <= i < default_options(location, realm_name, sub_level).len() ==> (
            #[trigger] default_options(location, realm_name, sub_level)[i]).id == i,
{
}

/// A C0 or C1 control character (what `char::is_control` tests).
pub open spec fn is_control(c: char) -> bool {
    let u = c as u32;
    u <= 0x1F || (0x7F <= u && u <= 0x9F)
}

/// A control character other than newline, tab and carriage return.
pub open spec fn forbidden_control(c: char) -> bool {
    is_control(c) && c != '\n' && c != '\t' && c != '\r'
}

/// Checks on free text: not blank, at most 500 characters once trimmed, no
/// control characters other than line breaks and tabs.
pub open spec fn free_text_check(s: Seq<char>) -> Result<(), Seq<char>> {
    let t = trim_spec(s);
    if t.len() == 0 {
        Err("自由输入不能为空"@)
    } else if t.len() > 500 {
        Err("自由输入过长，请控制在 500 字以内"@)
    } else if exists|i: int| 0 <= i < t.len() && forbidden_control(#[trigger] t[i]) {
        Err("输入包含非法控制字符"@)
    } else {
        Ok(())
    }
}

/// Phrases that ask for something beyond the world's rules.
pub open spec fn overpowered_phrases() -> Seq<&'static str> {
    seq![
        "instant immortal",
        "instantly become immortal",
        "destroy the world",
        "god mode",
        "one punch kill everyone",
        "一拳秒杀所有人",
        "瞬间飞升",
        "毁灭世界",
        "无敌模式",
    ]
}

/// Words that ask for a breakthrough.
pub open spec fn breakthrough_words() -> Seq<&'static str> {
    seq!["breakthrough", "突破", "advance realm", "渡劫"]
}

/// Some option offers a breakthrough.
pub open spec fn offers_breakthrough(options: Seq<PlayerOption>) -> bool {
    exists|i: int| 0 <= i < options.len() && (#[trigger] options[i]).action is Breakthrough
}

/// Whether free text is reasonable: a model verdict against it rejects it;
/// so do over-powered phrases, and breakthrough words when no option offers one.
pub open spec fn reasonableness_check(
    s: Seq<char>,
    options: Seq<PlayerOption>,
    verdict: Option<(bool, Seq<char>)>,
) -> Result<(), Seq<char>> {
    let lower = ascii_lower_spec(s);
    let rejected = match verdict {
        Some((ok, reason)) => if ok {
            None
        } else {
            Some(reason)
        },
        None => None,
    };
    if rejected is Some {
        Err("该行动被判定为不合理："@ + rejected->0)
    } else if contains_any_spec(lower, overpowered_phrases()) {
        Err("该行动超出当前世界规则或角色能力范围"@)
    } else if !offers_breakthrough(options) && contains_any_spec(lower, breakthrough_words()) {
        Err("当前场景或境界条件不满足突破要求"@)
    } else {
        Ok(())
    }
}

/// Free text asking for something beyond the world's rules is rejected,
/// whatever the options and whatever the model's verdict.
pub proof fn overpowered_text_is_rejected(
    s: Seq<char>,
    options: Seq<PlayerOption>,
    verdict: Option<(bool, Seq<char>)>,
)
    requires
        contains_any_spec(ascii_lower_spec(s), overpowered_phrases()),
    ensures
        reasonableness_check(s, options, verdict) is Err,
{
}

/// An ASCII letter, digit, underscore or space.
pub open spec fn plain_char(c: char) -> bool {
    let u = c as u32;
    ||| (0x30 <= u && u <= 0x39)
    ||| (0x41 <= u && u <= 0x5A)
    ||| (0x61 <= u && u <= 0x7A)
    ||| u == 0x5F
    ||| u == 0x20
}

/// Free text of at most 120 ASCII letters, digits, underscores and spaces,
/// not blank, is accepted when no options are offered and no model verdict is
/// given, unless it names an over-powered feat or asks for a breakthrough.
pub proof fn plain_free_text_is_accepted(a: PlayerAction)
    requires
        a.action_type == ActionType::FreeText,
        a.content@.len() <= 120,
        forall|i: int| 0 <= i < a.content@.len() ==> plain_char(#[trigger] a.content@[i]),
        trim_spec(a.content@).len() > 0,
        !contains_any_spec(ascii_lower_spec(a.content@), overpowered_phrases()),
        !contains_any_spec(ascii_lower_spec(a.content@), breakthrough_words()),
    ensures
        action_check(a, Seq::<PlayerOption>::empty(), None) is Ok,
{
    let s = a.content@;
    let t = trim_spec(s);
    let off = lemma_trim_within(s);
    assert forall|i: int| 0 <= i < t.len() implies !forbidden_control(#[trigger] t[i]) by {
        assert(t[i] == s[off + i]);
        assert(plain_char(s[off + i]));
    }
}

/// The action asks to keep reading rather than to act.
pub open spec fn is_continue(a: PlayerAction) -> bool {
    a.meta matches Some(m) && m.action_kind matches Some(k) && k@ == "continue"@
}

/// Whether a player action is accepted, given the model's verdict on free text.
pub open spec fn action_check(
    a: PlayerAction,
    options: Seq<PlayerOption>,
    verdict: Option<(bool, Seq<char>)>,
) -> Result<(), Seq<char>> {
    match a.action_type {
        ActionType::SelectedOption => match a.selected_option_id {
            Some(id) => if id >= options.len() {
                Err("无效的选项 ID："@ + decimal(id as nat))
            } else {
                Ok(())
            },
            None => Err("选择选项时必须提供选项 ID"@),
        },
        ActionType::FreeText => if is_continue(a) {
            Ok(())
        } else {
            match free_text_check(a.content@) {
                Err(e) => Err(e),
                Ok(_) => reasonableness_check(a.content@, options, verdict),
            }
        },
    }
}

/// Words that mean cultivating.
pub open spec fn cultivate_words() -> Seq<&'static str> {
    seq!["修炼", "打坐", "cultivate", "meditate", "training"]
}

/// Words that mean resting.
pub open spec fn rest_words() -> Seq<&'static str> {
    seq!["休息", "调息", "rest", "sleep", "recover"]
}

/// Words that mean fighting.
pub open spec fn combat_words() -> Seq<&'static str> {
    seq!["战斗", "攻击", "fight", "combat", "duel"]
}

/// Words that ask for a breakthrough when reading free text.
pub open spec fn breakthrough_intent_words() -> Seq<&'static str> {
    seq!["突破", "breakthrough", "advance realm"]
}

/// The action free text asks for, by keyword: cultivate, break through, rest,
/// fight (an unknown target), else a custom action quoting the text.
pub open spec fn rules_action(s: Seq<char>) -> ActionView {
    let lower = ascii_lower_spec(s);
    if contains_any_spec(lower, cultivate_words()) {
        ActionView::Cultivate
    } else if contains_any_spec(lower, breakthrough_intent_words()) {
        ActionView::Breakthrough
    } else if contains_any_spec(lower, rest_words()) {
        ActionView::Rest
    } else if contains_any_spec(lower, combat_words()) {
        ActionView::Combat("unknown"@)
    } else {
        ActionView::Custom("玩家行动："@ + trim_spec(s))
    }
}

/// The action a validated player action performs.
pub open spec fn chosen_action(
    a: PlayerAction,
    options: Seq<PlayerOption>,
    interpreted: Option<Action>,
) -> ActionView {
    match a.action_type {
        ActionType::SelectedOption => options[a.selected_option_id->0 as int].action@,
        ActionType::FreeText => if is_continue(a) {
            ActionView::Custom("玩家翻页继续阅读"@)
        } else {
            match interpreted {
                Some(x) => x@,
                None => rules_action(a.content@),
            }
        },
    }
}

/// The pacing rules applied to a freshly generated segment.
pub open spec fn paced_flags(state: PlotState, seg: ChapterSegment) -> (bool, bool) {
    let ch = state.current_chapter;
    let st = state.settings;
    let words = content_words(ch.content@) + segment_words(seg.text@);
    let n1 = if ch.interaction_count >= st.max_interactions_per_chapter {
        false
    } else {
        seg.needs_player_input
    };
    let n2 = if ch.interaction_count < st.min_interactions_per_chapter && !n1
        && state.segment_count >= 2 {
        true
    } else {
        n1
    };
    let e1 = if words >= st.target_chapter_words_max && ch.interaction_count
        >= st.min_interactions_per_chapter {
        true
    } else {
        seg.chapter_end
    };
    let e2 = if e1 && ch.interaction_count < st.min_interactions_per_chapter {
        false
    } else {
        e1
    };
    let n3 = if n2 && ch.interaction_count >= st.max_interactions_per_chapter {
        false
    } else {
        n2
    };
    let n4 = if seg.options@.len() == 0 && !e2 && ch.interaction_count
        < st.max_interactions_per_chapter {
        true
    } else {
        n3
    };
    (n4, e2)
}

/// Chapter pacing: a chapter never ends before it has had its minimum number
/// of interactions; once it has, it ends when its words reach the target
/// maximum, and otherwise exactly when the model says so; from the maximum
/// number of interactions on no more input is asked for, and below it a
/// segment that offers no options and does not end the chapter asks for
/// input, as does every segment from the third on while the chapter is short
/// of its minimum.
pub proof fn chapter_pacing_laws(state: PlotState, seg: ChapterSegment)
    ensures
        ({
            let needs = paced_flags(state, seg).0;
            let end = paced_flags(state, seg).1;
            let count = state.current_chapter.interaction_count;
            let st = state.settings;
            let words = content_words(state.current_chapter.content@) + segment_words(seg.text@);
            &&& count < st.min_interactions_per_chapter ==> !end
            &&& count >= st.min_interactions_per_chapter && words >= st.target_chapter_words_max
                ==> end
            &&& count >= st.min_interactions_per_chapter && words < st.target_chapter_words_max
                ==> end == seg.chapter_end
            &&& count >= st.max_interactions_per_chapter ==> !needs
            &&& count < st.max_interactions_per_chapter && !end && seg.options@.len() == 0
                ==> needs
            &&& count < st.min_interactions_per_chapter && count < st.max_interactions_per_chapter
                && state.segment_count >= 2 ==> needs
        }),
{
}

/// The text written when no model text is available: where it happened,
/// what the player did, and the events that followed; trimmed.
pub open spec fn fallback_text_spec(location: Seq<char>, description: Seq<char>, events: Seq<String>) -> Seq<char> {
    let event_line = if events.len() == 0 {
        Seq::<char>::empty()
    } else {
        "随后传来的动静与风声里，"@ + join_spec(events, "；"@) + "。"@
    };
    trim_spec("在"@ + location + "，你"@ + description + "。"@ + event_line)
}

/// The opening text when no model text is available.
pub open spec fn opening_fallback_spec(
    player: Seq<char>,
    realm: Seq<char>,
    root: Seq<char>,
    location: Seq<char>,
) -> Seq<char> {
    "【开篇】"@ + player + "初入修行之路，身负"@ + root + "，当前境界为"@ + realm + "。你站在"@
        + location + "，四周灵气浮动，机缘与风险并存。你决定先从何处入手？"@
}

/// The line describing one stat change.
pub open spec fn change_line(c: StatChange) -> Seq<char> {
    c.stat_name@ + ": "@ + c.old_value@ + " -> "@ + c.new_value@
}

/// The options offered after a segment: turn the page at a chapter end, else
/// the segment's suggestions, when the segment waits for the player.
pub open spec fn segment_options(seg: ChapterSegment) -> Seq<OptionView> {
    if seg.chapter_end {
        seq![plain_option(0, "翻到下一章"@, ActionView::Custom("你翻动书页，进入新的篇章。"@))]
    } else if seg.needs_player_input {
        Seq::new(
            seg.options@.len(),
            |i: int| plain_option(i as usize, seg.options@[i]@, ActionView::Custom(seg.options@[i]@)),
        )
    } else {
        Seq::empty()
    }
}

/// `u` is the update a segment produces after an action.
pub open spec fn is_update_from(u: PlotUpdate, seg: ChapterSegment, r: ActionResult) -> bool {
    &&& u.new_scene is None
    &&& u.plot_text == seg.text
    &&& views(u.triggered_events@) == views(r.events@)
    &&& views(u.state_changes@) == r.stat_changes@.map_values(|c: StatChange| change_line(c))
    &&& u.is_waiting_for_input == (seg.needs_player_input || seg.chapter_end)
    &&& option_views(u.available_options@) == segment_options(seg)
    &&& u.chapter_title == seg.chapter_title
    &&& u.chapter_summary == seg.chapter_summary
    &&& u.chapter_end == seg.chapter_end
}

/// The segment written when no model text is available.
pub open spec fn is_fallback_segment(seg: ChapterSegment, state: PlotState, r: ActionResult) -> bool {
    &&& seg.text@ == fallback_text_spec(
        state.current_scene.location@,
        r.description@,
        r.events@,
    )
    &&& seg.needs_player_input
    &&& !seg.chapter_end
    &&& seg.chapter_title is None
    &&& seg.chapter_summary is None
    &&& seg.options@.len() == 0
}

/// A plot step written without the model always ends waiting for the player
/// and never ends the chapter.
pub proof fn fallback_step_waits_for_player(
    u: PlotUpdate,
    seg: ChapterSegment,
    state: PlotState,
    r: ActionResult,
)
    requires
        is_fallback_segment(seg, state, r),
        is_update_from(u, seg, r),
    ensures
        u.is_waiting_for_input,
        !u.chapter_end,
{
}

/// Decides options, validates and resolves player actions, and paces chapters.
pub struct PlotEngine {
    numerical_system: NumericalSystem,
    prompt_builder: PromptBuilder,
    response_validator: ResponseValidator,
}

impl PlotEngine {
    /// The history cap of the engine's prompt builder.
    pub closed spec fn history_cap(&self) -> usize {
        self.prompt_builder.max_history()
    }

    /// The retry count of the engine's validator.
    pub closed spec fn validator_retries(&self) -> u32 {
        self.response_validator.retries()
    }

    /// An engine with the default prompt builder and validator.
    pub fn new() -> (e: PlotEngine)
        ensures
            e.history_cap() == crate::prompt_builder::DEFAULT_MAX_HISTORY_ITEMS,
            e.validator_retries() == 3,
    {
        PlotEngine {
            numerical_system: NumericalSystem::new(),
            prompt_builder: PromptBuilder::default_builder(),
            response_validator: ResponseValidator::default_validator(),
        }
    }

    /// The scene's own options, or else the default options for a character
    /// in the named realm at the given sub-level.
    pub fn generate_player_options(&self, scene: &Scene, realm_name: &str, sub_level: u32) -> (r:
        Vec<PlayerOption>)
        ensures
            scene.available_options@.len() > 0 ==> option_views(r@) == option_views(
                scene.available_options@,
            ),
            scene.available_options@.len() == 0 ==> option_views(r@) == default_options(
                scene.location@,
                realm_name@,
                sub_level,
            ),
    {
        if scene.available_options.len() > 0 {
            return clone_options(&scene.available_options);
        }
        let mut options: Vec<PlayerOption> = Vec::new();
        let mut option_id: usize = 0;
        options.push(
            PlayerOption {
                id: option_id,
                description: "静心修炼，稳固境界".to_string(),
                requirements: Vec::new(),
                action: Action::Cultivate,
            },
        );
        option_id = option_id + 1;
        let ghost a = seq![plain_option(0, "静心修炼，稳固境界"@, ActionView::Cultivate)];
        assert(options@[0].description@ == "静心修炼，稳固境界"@);
        assert(options@[0].id == 0);
        assert(views(options@[0].requirements@) =~= Seq::<Seq<char>>::empty());
        assert(option_views(options@)[0] == options@[0]@);
        assert(option_views(options@)[0] =~~= plain_option(0, "静心修炼，稳固境界"@, ActionView::Cultivate));
        assert(option_views(options@) =~~= a);
        if sub_level < 3 {
            let mut d = "尝试突破 ".to_string();
            append_str(&mut d, realm_name);
            let mut req = "当前境界：".to_string();
            append_str(&mut req, realm_name);
            append_str(&mut req, "（小层级 ");
            push_decimal(&mut req, sub_level as u64);
            append_str(&mut req, "）");
            let mut reqs: Vec<String> = Vec::new();
            reqs.push(req);
            options.push(
                PlayerOption { id: option_id, description: d, requirements: reqs, action: Action::Breakthrough },
            );
            option_id = option_id + 1;
            assert(views(reqs@) =~~= seq![
                "当前境界："@ + realm_name@ + "（小层级 "@ + decimal(sub_level as nat) + "）"@,
            ]);
        }
        let ghost b = if sub_level < 3 {
            a.push(
                OptionView {
                    id: 1,
                    description: "尝试突破 "@ + realm_name@,
                    requirements: seq![
                        "当前境界："@ + realm_name@ + "（小层级 "@ + decimal(sub_level as nat) + "）"@,
                    ],
                    action: ActionView::Breakthrough,
                },
            )
        } else {
            a
        };
        assert(option_views(options@) =~~= b);
        assert(option_id == b.len());
        options.push(
            PlayerOption {
                id: option_id,
                description: "调息休整，恢复状态".to_string(),
                requirements: Vec::new(),
                action: Action::Rest,
            },
        );
        option_id = option_id + 1;
        let ghost c = b.push(plain_option(b.len() as usize, "调息休整，恢复状态"@, ActionView::Rest));
        assert(option_views(options@) =~~= c);
        let loc = scene.location.as_str();
        if str_eq(loc, "azure_cloud_sect") || str_eq(loc, "sect") {
            options.push(
                PlayerOption {
                    id: option_id,
                    description: "前往宗门藏经阁".to_string(),
                    requirements: Vec::new(),
                    action: Action::Custom {
                        description: "你在藏经阁翻阅典籍，寻找适合自己的修炼方向。".to_string(),
                    },
                },
            );
            option_id = option_id + 1;
        } else if str_eq(loc, "city") {
            options.push(
                PlayerOption {
                    id: option_id,
                    description: "前往坊市探查消息".to_string(),
                    requirements: Vec::new(),
                    action: Action::Custom {
                        description: "你在坊市中打探情报，顺便寻找可用的修炼资源。".to_string(),
                    },
                },
            );
            option_id = option_id + 1;
        }
        if options.len() < 2 {
            options.push(
                PlayerOption {
                    id: option_id,
                    description: "盘坐冥想，梳理思绪".to_string(),
                    requirements: Vec::new(),
                    action: Action::Custom { description: "你静心冥想，回顾当前修行方向。".to_string() },
                },
            );
        } else if options.len() > 5 {
            options.truncate(5);
        }
        assert(option_views(options@) =~~= default_options(scene.location@, realm_name@, sub_level));
        options
    }
}


/// The verdict with its reason as a character sequence.
pub open spec fn verdict_view(v: Option<(bool, String)>) -> Option<(bool, Seq<char>)> {
    match v {
        Some((ok, reason)) => Some((ok, reason@)),
        None => None,
    }
}

/// `r` reports the same outcome as the spec result `s`.
pub open spec fn same_check(r: Result<(), String>, s: Result<(), Seq<char>>) -> bool {
    match r {
        Ok(_) => s is Ok,
        Err(m) => s == Err::<(), Seq<char>>(m@),
    }
}

/// The over-powered phrases.
fn overpowered_list() -> (r: [&'static str; 9])
    ensures
        r@ == overpowered_phrases(),
{
    let r = [
        "instant immortal",
        "instantly become immortal",
        "destroy the world",
        "god mode",
        "one punch kill everyone",
        "一拳秒杀所有人",
        "瞬间飞升",
        "毁灭世界",
        "无敌模式",
    ];
    assert(r@ =~= overpowered_phrases());
    r
}

/// Four keywords, in order.
fn keyword_list4(a: &'static str, b: &'static str, c: &'static str, d: &'static str) -> (r: [&'static str; 4])
    ensures
        r@ == seq![a, b, c, d],
{
    let r = [a, b, c, d];
    assert(r@ =~= seq![a, b, c, d]);
    r
}

/// Five keywords, in order.
fn keyword_list5(a: &'static str, b: &'static str, c: &'static str, d: &'static str, e: &'static str) -> (r: [&'static str; 5])
    ensures
        r@ == seq![a, b, c, d, e],
{
    let r = [a, b, c, d, e];
    assert(r@ =~= seq![a, b, c, d, e]);
    r
}

/// Three keywords, in order.
fn keyword_list3(a: &'static str, b: &'static str, c: &'static str) -> (r: [&'static str; 3])
    ensures
        r@ == seq![a, b, c],
{
    let r = [a, b, c];
    assert(r@ =~= seq![a, b, c]);
    r
}

/// Whether `c` is a forbidden control character.
fn char_is_forbidden_control(c: char) -> (b: bool)
    ensures
        b == forbidden_control(c),
{
    let u = c as u32;
    (u <= 0x1F || (0x7F <= u && u <= 0x9F)) && c != '\n' && c != '\t' && c != '\r'
}

impl PlotEngine {
    /// Checks free text: not blank, at most 500 characters, no control characters.
    pub fn validate_free_text_input(&self, free_text: &str) -> (r: Result<(), String>)
        ensures
            same_check(r, free_text_check(free_text@)),
    {
        let t = trim(free_text);
        let v = chars_of(t.as_str());
        if v.len() == 0 {
            return Err("自由输入不能为空".to_string());
        }
        if v.len() > 500 {
            return Err("自由输入过长，请控制在 500 字以内".to_string());
        }
        let mut i: usize = 0;
        while i < v.len()
            invariant
                i <= v@.len(),
                v@ == trim_spec(free_text@),
                0 < v@.len() <= 500,
                forall|k: int| 0 <= k < i ==> !forbidden_control(#[trigger] v@[k]),
            decreases v@.len() - i,
        {
            if char_is_forbidden_control(v[i]) {
                assert(forbidden_control(trim_spec(free_text@)[i as int]));
                return Err("输入包含非法控制字符".to_string());
            }
            i = i + 1;
        }
        Ok(())
    }

    /// Judges whether free text is reasonable, given the model's verdict if any.
    pub fn validate_free_text_reasonableness(
        &self,
        free_text: &str,
        available_options: &Vec<PlayerOption>,
        verdict: Option<(bool, String)>,
    ) -> (r: Result<(), String>)
        ensures
            same_check(
                r,
                reasonableness_check(free_text@, available_options@, verdict_view(verdict)),
            ),
    {
        if let Some((reasonable, reason)) = verdict {
            if !reasonable {
                let mut m = "该行动被判定为不合理：".to_string();
                append_str(&mut m, reason.as_str());
                return Err(m);
            }
        }
        let lower = to_ascii_lowercase(free_text);
        let phrases = overpowered_list();
        if contains_any(lower.as_str(), &phrases) {
            return Err("该行动超出当前世界规则或角色能力范围".to_string());
        }
        let mut can_breakthrough = false;
        let mut i: usize = 0;
        while i < available_options.len()
            invariant
                i <= available_options@.len(),
                can_breakthrough == exists|k: int|
                    0 <= k < i && (#[trigger] available_options@[k]).action is Breakthrough,
            decreases available_options@.len() - i,
        {
            if matches!(available_options[i].action, Action::Breakthrough) {
                can_breakthrough = true;
            }
            i = i + 1;
        }
        let words = keyword_list4("breakthrough", "突破", "advance realm", "渡劫");
        if !can_breakthrough && contains_any(lower.as_str(), &words) {
            return Err("当前场景或境界条件不满足突破要求".to_string());
        }
        Ok(())
    }

    /// Validates a player action, with no model verdict on free text.
    pub fn validate_player_action(&self, action: &PlayerAction, available_options: &Vec<PlayerOption>) -> (r:
        Result<(), String>)
        ensures
            same_check(r, action_check(*action, available_options@, None)),
    {
        self.validate_player_action_with_verdict(action, available_options, None)
    }

    /// Validates a player action, given the model's verdict on free text if any.
    pub fn validate_player_action_with_verdict(
        &self,
        action: &PlayerAction,
        available_options: &Vec<PlayerOption>,
        verdict: Option<(bool, String)>,
    ) -> (r: Result<(), String>)
        ensures
            same_check(r, action_check(*action, available_options@, verdict_view(verdict))),
    {
        match action.action_type {
            ActionType::SelectedOption => {
                match action.selected_option_id {
                    Some(option_id) => {
                        if option_id >= available_options.len() {
                            let mut m = "无效的选项 ID：".to_string();
                            push_decimal(&mut m, option_id as u64);
                            return Err(m);
                        }
                        Ok(())
                    },
                    None => Err("选择选项时必须提供选项 ID".to_string()),
                }
            },
            ActionType::FreeText => {
                if action_is_continue(action) {
                    return Ok(());
                }
                match self.validate_free_text_input(action.content.as_str()) {
                    Err(e) => Err(e),
                    Ok(()) => self.validate_free_text_reasonableness(
                        action.content.as_str(),
                        available_options,
                        verdict,
                    ),
                }
            },
        }
    }

    /// Reads an action from free text by keywords.
    pub fn parse_action_with_rules(&self, free_text: &str) -> (a: Action)
        ensures
            a@ == rules_action(free_text@),
    {
        let lower = to_ascii_lowercase(free_text);
        let cult = keyword_list5("修炼", "打坐", "cultivate", "meditate", "training");
        if contains_any(lower.as_str(), &cult) {
            return Action::Cultivate;
        }
        let bt = keyword_list3("突破", "breakthrough", "advance realm");
        if contains_any(lower.as_str(), &bt) {
            return Action::Breakthrough;
        }
        let rest = keyword_list5("休息", "调息", "rest", "sleep", "recover");
        if contains_any(lower.as_str(), &rest) {
            return Action::Rest;
        }
        let fight = keyword_list5("战斗", "攻击", "fight", "combat", "duel");
        if contains_any(lower.as_str(), &fight) {
            return Action::Combat { target_id: "unknown".to_string() };
        }
        let mut d = "玩家行动：".to_string();
        let t = trim(free_text);
        append_str(&mut d, t.as_str());
        Action::Custom { description: d }
    }

    /// Validates and resolves a player action, with no model help.
    pub fn process_player_action(
        &self,
        action: &PlayerAction,
        character: &ActorSnapshot,
        available_options: &Vec<PlayerOption>,
        context: &Context,
    ) -> (r: Result<ActionResult, String>)
        ensures
            match r {
                Ok(res) => action_check(*action, available_options@, None) is Ok && is_outcome(
                    res,
                    *character,
                    chosen_action(*action, available_options@, None),
                    *context,
                ),
                Err(m) => action_check(*action, available_options@, None) == Err::<
                    (),
                    Seq<char>,
                >(m@),
            },
    {
        self.process_player_action_with(action, character, available_options, context, None, None)
    }

    /// Validates and resolves a player action, given the model's verdict on
    /// free text and its reading of the text as an action, if any.
    pub fn process_player_action_with(
        &self,
        action: &PlayerAction,
        character: &ActorSnapshot,
        available_options: &Vec<PlayerOption>,
        context: &Context,
        verdict: Option<(bool, String)>,
        interpreted: Option<Action>,
    ) -> (r: Result<ActionResult, String>)
        ensures
            match r {
                Ok(res) => action_check(*action, available_options@, verdict_view(verdict)) is Ok
                    && is_outcome(
                    res,
                    *character,
                    chosen_action(*action, available_options@, interpreted),
                    *context,
                ),
                Err(m) => action_check(*action, available_options@, verdict_view(verdict))
                    == Err::<(), Seq<char>>(m@),
            },
    {
        match self.validate_player_action_with_verdict(action, available_options, verdict) {
            Err(e) => {
                return Err(e);
            },
            Ok(()) => {},
        }
        match action.action_type {
            ActionType::SelectedOption => {
                let option_id = action.selected_option_id.unwrap();
                let selected = &available_options[option_id];
                Ok(self.numerical_system.calculate_action_result(character, &selected.action, context))
            },
            ActionType::FreeText => {
                let interpreted_action = if action_is_continue(action) {
                    Action::Custom { description: "玩家翻页继续阅读".to_string() }
                } else {
                    match interpreted {
                        Some(a) => a,
                        None => self.parse_action_with_rules(action.content.as_str()),
                    }
                };
                Ok(self.numerical_system.calculate_action_result(character, &interpreted_action, context))
            },
        }
    }

    /// Applies the chapter pacing rules to a generated segment.
    pub fn apply_chapter_segment_rules(&self, current_state: &PlotState, segment: ChapterSegment) -> (r:
        ChapterSegment)
        requires
            content_words(current_state.current_chapter.content@) + segment_words(segment.text@)
                <= usize::MAX,
        ensures
            r.needs_player_input == paced_flags(*current_state, segment).0,
            r.chapter_end == paced_flags(*current_state, segment).1,
            current_state.current_chapter.interaction_count
                < current_state.settings.min_interactions_per_chapter ==> !r.chapter_end,
            current_state.current_chapter.interaction_count
                >= current_state.settings.max_interactions_per_chapter ==> !r.needs_player_input,
            r.text == segment.text,
            r.chapter_title == segment.chapter_title,
            r.chapter_summary == segment.chapter_summary,
            r.options == segment.options,
    {
        let ghost old_segment = segment;
        let mut segment = segment;
        let settings = &current_state.settings;
        let count = current_state.current_chapter.interaction_count;
        let word_count = current_state.current_chapter.word_count() + segment_word_count(
            segment.text.as_str(),
        );
        if count >= settings.max_interactions_per_chapter {
            segment.needs_player_input = false;
        }
        if count < settings.min_interactions_per_chapter && !segment.needs_player_input
            && current_state.segment_count >= 2 {
            segment.needs_player_input = true;
        }
        if word_count >= settings.target_chapter_words_max as usize && count
            >= settings.min_interactions_per_chapter {
            segment.chapter_end = true;
        }
        if segment.chapter_end && count < settings.min_interactions_per_chapter {
            segment.chapter_end = false;
        }
        if segment.needs_player_input && count >= settings.max_interactions_per_chapter {
            segment.needs_player_input = false;
        }
        if segment.options.len() == 0 && !segment.chapter_end && count
            < settings.max_interactions_per_chapter {
            segment.needs_player_input = true;
        }
        proof {
            chapter_pacing_laws(*current_state, old_segment);
        }
        segment
    }

    /// The text written when no model text is available.
    pub fn generate_plot_text_fallback(&self, current_state: &PlotState, action_result: &ActionResult) -> (s:
        String)
        ensures
            s@ == fallback_text_spec(
                current_state.current_scene.location@,
                action_result.description@,
                action_result.events@,
            ),
    {
        let mut out = "在".to_string();
        append_str(&mut out, current_state.current_scene.location.as_str());
        append_str(&mut out, "，你");
        append_str(&mut out, action_result.description.as_str());
        append_str(&mut out, "。");
        if action_result.events.len() > 0 {
            append_str(&mut out, "随后传来的动静与风声里，");
            let j = join_strings(&action_result.events, "；");
            append_str(&mut out, j.as_str());
            append_str(&mut out, "。");
        }
        assert(out@ =~= "在"@ + current_state.current_scene.location@ + "，你"@
            + action_result.description@ + "。"@ + (if action_result.events@.len() == 0 {
            Seq::<char>::empty()
        } else {
            "随后传来的动静与风声里，"@ + join_spec(action_result.events@, "；"@) + "。"@
        }));
        trim(out.as_str())
    }

    /// The plot text for an action, as written without model help.
    pub fn generate_plot_text(&self, current_state: &PlotState, action_result: &ActionResult) -> (s:
        String)
        ensures
            s@ == fallback_text_spec(
                current_state.current_scene.location@,
                action_result.description@,
                action_result.events@,
            ),
    {
        self.generate_plot_text_fallback(current_state, action_result)
    }

    /// The segment written without model help: it always waits for the player.
    pub fn fallback_segment(&self, current_state: &PlotState, action_result: &ActionResult) -> (seg:
        ChapterSegment)
        ensures
            is_fallback_segment(seg, *current_state, *action_result),
    {
        ChapterSegment {
            text: self.generate_plot_text_fallback(current_state, action_result),
            needs_player_input: true,
            chapter_end: false,
            chapter_title: None,
            chapter_summary: None,
            options: Vec::new(),
        }
    }

    /// Advances the plot after an action, as written without model help.
    pub fn advance_plot(&self, current_state: &PlotState, action_result: &ActionResult) -> (u:
        PlotUpdate)
        ensures
            exists|seg: ChapterSegment|
                is_fallback_segment(seg, *current_state, *action_result) && is_update_from(
                    u,
                    seg,
                    *action_result,
                ),
    {
        let seg = self.fallback_segment(current_state, action_result);
        let u = self.plot_update_from_segment(seg, action_result);
        u
    }

    /// Advances the plot with a model-written segment when there is one (paced
    /// by the chapter rules), else with the fallback segment.
    pub fn advance_plot_with_segment(
        &self,
        current_state: &PlotState,
        action_result: &ActionResult,
        generated: Option<ChapterSegment>,
    ) -> (u: PlotUpdate)
        requires
            generated matches Some(g) ==> content_words(current_state.current_chapter.content@)
                + segment_words(g.text@) <= usize::MAX,
        ensures
            generated is None ==> exists|seg: ChapterSegment|
                is_fallback_segment(seg, *current_state, *action_result) && is_update_from(
                    u,
                    seg,
                    *action_result,
                ),
            generated matches Some(g) ==> exists|seg: ChapterSegment|
                seg.text == g.text && seg.chapter_title == g.chapter_title && seg.chapter_summary
                    == g.chapter_summary && seg.options == g.options && seg.needs_player_input
                    == paced_flags(*current_state, g).0 && seg.chapter_end == paced_flags(
                    *current_state,
                    g,
                ).1 && is_update_from(u, seg, *action_result),
    {
        match generated {
            Some(g) => {
                let seg = self.apply_chapter_segment_rules(current_state, g);
                self.plot_update_from_segment(seg, action_result)
            },
            None => self.advance_plot(current_state, action_result),
        }
    }

    /// The update a segment produces after an action.
    pub fn plot_update_from_segment(&self, segment: ChapterSegment, action_result: &ActionResult) -> (u:
        PlotUpdate)
        ensures
            is_update_from(u, segment, *action_result),
    {
        let ghost seg = segment;
        let triggered_events = clone_strings(&action_result.events);
        let mut state_changes: Vec<String> = Vec::new();
        let mut i: usize = 0;
        while i < action_result.stat_changes.len()
            invariant
                i <= action_result.stat_changes@.len(),
                views(state_changes@) == action_result.stat_changes@.take(i as int).map_values(
                    |c: StatChange| change_line(c),
                ),
                state_changes@.len() == i,
            decreases action_result.stat_changes@.len() - i,
        {
            let c = &action_result.stat_changes[i];
            let mut line = c.stat_name.clone();
            append_str(&mut line, ": ");
            append_str(&mut line, c.old_value.as_str());
            append_str(&mut line, " -> ");
            append_str(&mut line, c.new_value.as_str());
            let ghost before = state_changes@;
            state_changes.push(line);
            proof {
                let target = action_result.stat_changes@.take(i + 1).map_values(
                    |c: StatChange| change_line(c),
                );
                assert forall|j: int| 0 <= j < i + 1 implies #[trigger] views(state_changes@)[j]
                    == target[j] by {
                    if j < i {
                        assert(state_changes@[j] == before[j]);
                        assert(views(before)[j] == action_result.stat_changes@.take(
                            i as int,
                        ).map_values(|c: StatChange| change_line(c))[j]);
                    }
                }
            }
            i = i + 1;
            assert(views(state_changes@) =~= action_result.stat_changes@.take(i as int).map_values(
                |c: StatChange| change_line(c),
            ));
        }
        assert(action_result.stat_changes@.take(action_result.stat_changes@.len() as int)
            =~= action_result.stat_changes@);
        let mut available_options: Vec<PlayerOption> = Vec::new();
        if segment.chapter_end {
            available_options.push(
                PlayerOption {
                    id: 0,
                    description: "翻到下一章".to_string(),
                    requirements: Vec::new(),
                    action: Action::Custom { description: "你翻动书页，进入新的篇章。".to_string() },
                },
            );
            assert(views(available_options@[0].requirements@) =~= Seq::<Seq<char>>::empty());
            assert(option_views(available_options@) =~~= segment_options(seg));
        } else if segment.needs_player_input {
            let mut k: usize = 0;
            while k < segment.options.len()
                invariant
                    k <= segment.options@.len(),
                    !seg.chapter_end,
                    seg.needs_player_input,
                    segment == seg,
                    available_options@.len() == k,
                    forall|j: int| 0 <= j < k ==> (#[trigger] option_views(available_options@)[j])
                        =~~= segment_options(seg)[j],
                decreases segment.options@.len() - k,
            {
                let text = segment.options[k].clone();
                let ghost before = available_options@;
                available_options.push(
                    PlayerOption {
                        id: k,
                        description: text.clone(),
                        requirements: Vec::new(),
                        action: Action::Custom { description: text },
                    },
                );
                proof {
                    assert(views(available_options@[k as int].requirements@) =~= Seq::<
                        Seq<char>,
                    >::empty());
                    assert forall|j: int| 0 <= j < k + 1 implies (#[trigger] option_views(
                        available_options@,
                    )[j]) =~~= segment_options(seg)[j] by {
                        if j < k {
                            assert(available_options@[j] == before[j]);
                            assert(option_views(before)[j] =~~= segment_options(seg)[j]);
                        }
                    }
                }
                k = k + 1;
            }
            assert(option_views(available_options@) =~~= segment_options(seg));
        } else {
            assert(option_views(available_options@) =~~= segment_options(seg));
        }
        PlotUpdate {
            new_scene: None,
            plot_text: segment.text,
            triggered_events,
            state_changes,
            is_waiting_for_input: segment.needs_player_input || segment.chapter_end,
            available_options,
            chapter_title: segment.chapter_title,
            chapter_summary: segment.chapter_summary,
            chapter_end: segment.chapter_end,
        }
    }

    /// The opening text, as written without model help.
    pub fn generate_opening_plot(
        &self,
        player_name: &str,
        realm_name: &str,
        spiritual_root: &str,
        location: &str,
    ) -> (s: String)
        ensures
            s@ == opening_fallback_spec(player_name@, realm_name@, spiritual_root@, location@),
    {
        let mut s = "【开篇】".to_string();
        append_str(&mut s, player_name);
        append_str(&mut s, "初入修行之路，身负");
        append_str(&mut s, spiritual_root);
        append_str(&mut s, "，当前境界为");
        append_str(&mut s, realm_name);
        append_str(&mut s, "。你站在");
        append_str(&mut s, location);
        append_str(&mut s, "，四周灵气浮动，机缘与风险并存。你决定先从何处入手？");
        s
    }
}

/// Whether the action asks to keep reading.
fn action_is_continue(action: &PlayerAction) -> (b: bool)
    ensures
        b == is_continue(*action),
{
    match &action.meta {
        Some(m) => match &m.action_kind {
            Some(k) => str_eq(k.as_str(), "continue"),
            None => false,
        },
        None => false,
    }
}

} // verus!
