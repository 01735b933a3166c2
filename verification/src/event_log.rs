//! An append-only log of game events with filtering, and the notes written
//! into it as a game goes on.
use crate::text::{append_str, decimal, push_decimal};
use vstd::prelude::*;

verus! {

broadcast use vstd::seq_lib::group_seq_lib_default, vstd::seq_lib::group_filter_ensures;

/// How much an event matters to the story.
#[derive(Debug, Clone, Copy, PartialEq, Eq, Structural)]
pub enum EventImportance {
    Normal,
    Important,
}

/// One recorded event.
#[derive(Debug, Clone, PartialEq, Eq)]
pub struct GameEvent {
    pub id: u64,
    pub timestamp: u64,
    pub event_type: String,
    pub description: String,
    pub importance: EventImportance,
}

impl GameEvent {
    /// A field-by-field copy.
    pub fn duplicate(&self) -> (r: GameEvent)
        ensures
            r == *self,
    {
        GameEvent {
            id: self.id,
            timestamp: self.timestamp,
            event_type: self.event_type.clone(),
            description: self.description.clone(),
            importance: self.importance,
        }
    }
}

/// Criteria an event must meet to be returned by a query; `None` accepts anything.
#[derive(Debug, Clone, Default, PartialEq, Eq)]
pub struct EventFilter {
    pub importance: Option<EventImportance>,
    pub event_type: Option<String>,
    pub from_timestamp: Option<u64>,
    pub to_timestamp: Option<u64>,
}

/// Whether `e` meets every criterion of `f`.
pub open spec fn filter_accepts(f: EventFilter, e: GameEvent) -> bool {
    &&& (f.importance matches Some(imp) ==> e.importance == imp)
    &&& (f.event_type matches Some(t) ==> e.event_type@ == t@)
    &&& (f.from_timestamp matches Some(from) ==> e.timestamp >= from)
    &&& (f.to_timestamp matches Some(to) ==> e.timestamp <= to)
}

/// The events of `s` that `f` accepts, in order.
pub open spec fn query_spec(s: Seq<GameEvent>, f: EventFilter) -> Seq<GameEvent> {
    s.filter(|e: GameEvent| filter_accepts(f, e))
}

/// The filter that keeps only important events.
pub open spec fn important_filter() -> EventFilter {
    EventFilter {
        importance: Some(EventImportance::Important),
        event_type: None,
        from_timestamp: None,
        to_timestamp: None,
    }
}

/// The ordering key of an event: timestamp, then id.
pub open spec fn key_le(a: GameEvent, b: GameEvent) -> bool {
    a.timestamp < b.timestamp || (a.timestamp == b.timestamp && a.id <= b.id)
}

/// Events of `s` whose key is `(t, id)`.
pub open spec fn with_key(s: Seq<GameEvent>, t: u64, id: u64) -> Seq<GameEvent> {
    s.filter(|e: GameEvent| e.timestamp == t && e.id == id)
}

/// `s` is ordered by timestamp, then id.
pub open spec fn sorted_by_key(s: Seq<GameEvent>) -> bool {
    forall|i: int, j: int| 0 <= i < j < s.len() ==> key_le(#[trigger] s[i], #[trigger] s[j])
}

/// `r` is the stable sort of `s` by key: ordered, and the events of each key
/// appear in `r` exactly as, and in the order, they appear in `s`.
pub open spec fn stable_sorted_from(r: Seq<GameEvent>, s: Seq<GameEvent>) -> bool {
    &&& sorted_by_key(r)
    &&& forall|t: u64, id: u64| #[trigger] with_key(r, t, id) == with_key(s, t, id)
}

/// The largest id in `s`, or 0 for no events.
pub open spec fn max_id(s: Seq<GameEvent>) -> u64
    decreases s.len(),
{
    if s.len() == 0 {
        0
    } else {
        let m = max_id(s.drop_last());
        if s.last().id > m {
            s.last().id
        } else {
            m
        }
    }
}

/// `n + 1`, stopping at `u64::MAX`.
pub open spec fn sat_inc(n: u64) -> u64 {
    if n == u64::MAX {
        n
    } else {
        (n + 1) as u64
    }
}

/// Logging an event adds it to the important events exactly when it is
/// important, after those already there; every important event returned is
/// marked important.
pub proof fn important_events_after_logging(events: Seq<GameEvent>, e: GameEvent)
    ensures
        query_spec(events.push(e), important_filter()) == if e.importance
            == EventImportance::Important {
            query_spec(events, important_filter()).push(e)
        } else {
            query_spec(events, important_filter())
        },
        forall|i: int|
            0 <= i < query_spec(events, important_filter()).len() ==> (#[trigger] query_spec(
                events,
                important_filter(),
            )[i]).importance == EventImportance::Important,
{
    let pred = |x: GameEvent| filter_accepts(important_filter(), x);
    events.lemma_filter_push(e, pred);
    assert forall|i: int|
        0 <= i < query_spec(events, important_filter()).len() implies (#[trigger] query_spec(
        events,
        important_filter(),
    )[i]).importance == EventImportance::Important by {
        assert(pred(events.filter(pred)[i]));
    }
}

/// Number of important events in `s`.
pub open spec fn important_count(s: Seq<GameEvent>) -> nat
    decreases s.len(),
{
    if s.len() == 0 {
        0
    } else {
        important_count(s.drop_last()) + if s.last().importance == EventImportance::Important {
            1nat
        } else {
            0nat
        }
    }
}

/// The important events of a log are all of them: as many as were recorded
/// important, each marked important, and every important event recorded is
/// among them.
pub proof fn important_events_complete(s: Seq<GameEvent>)
    ensures
        query_spec(s, important_filter()).len() == important_count(s),
        forall|i: int|
            0 <= i < query_spec(s, important_filter()).len() ==> (#[trigger] query_spec(
                s,
                important_filter(),
            )[i]).importance == EventImportance::Important,
        forall|i: int|
            0 <= i < s.len() && (#[trigger] s[i]).importance == EventImportance::Important
                ==> query_spec(s, important_filter()).contains(s[i]),
    decreases s.len(),
{
    let pred = |x: GameEvent| filter_accepts(important_filter(), x);
    if s.len() > 0 {
        let t = s.drop_last();
        important_events_complete(t);
        assert(t.push(s.last()) =~= s);
        important_events_after_logging(t, s.last());
    }
    important_events_after_logging(s, s[0]);
    assert forall|i: int|
        0 <= i < s.len() && (#[trigger] s[i]).importance == EventImportance::Important
            implies query_spec(s, important_filter()).contains(s[i]) by {
        s.lemma_filter_contains(pred, i);
    }
}

/// Every id in `s` is at most `max_id(s)`, which an event of a non-empty `s`
/// carries.
proof fn lemma_max_id(s: Seq<GameEvent>)
    ensures
        forall|i: int| 0 <= i < s.len() ==> (#[trigger] s[i]).id <= max_id(s),
        s.len() > 0 ==> exists|i: int| 0 <= i < s.len() && (#[trigger] s[i]).id == max_id(s),
        s.len() == 0 ==> max_id(s) == 0,
    decreases s.len(),
{
    if s.len() > 0 {
        let t = s.drop_last();
        lemma_max_id(t);
        assert forall|i: int| 0 <= i < t.len() implies #[trigger] t[i] == s[i] by {}
        assert forall|i: int| 0 <= i < s.len() implies (#[trigger] s[i]).id <= max_id(s) by {
            if i < t.len() {
                assert(t[i] == s[i]);
            }
        }
        if s.last().id > max_id(t) {
            assert(s[s.len() - 1].id == max_id(s));
        } else if t.len() > 0 {
            let k = choose|k: int| 0 <= k < t.len() && (#[trigger] t[k]).id == max_id(t);
            assert(s[k].id == max_id(s));
        } else {
            assert(s[0].id == max_id(s));
        }
    }
}

/// A stable sort keeps exactly the events it was given.
proof fn lemma_sorted_same_members(r: Seq<GameEvent>, s: Seq<GameEvent>)
    requires
        stable_sorted_from(r, s),
    ensures
        forall|e: GameEvent| r.contains(e) <==> s.contains(e),
{
    assert forall|e: GameEvent| r.contains(e) implies s.contains(e) by {
        let i = choose|i: int| 0 <= i < r.len() && r[i] == e;
        let pred = |x: GameEvent| x.timestamp == e.timestamp && x.id == e.id;
        r.lemma_filter_contains(pred, i);
        assert(with_key(r, e.timestamp, e.id) == with_key(s, e.timestamp, e.id));
        s.lemma_filter_contains_rev(pred, e);
    }
    assert forall|e: GameEvent| s.contains(e) implies r.contains(e) by {
        let i = choose|i: int| 0 <= i < s.len() && s[i] == e;
        let pred = |x: GameEvent| x.timestamp == e.timestamp && x.id == e.id;
        s.lemma_filter_contains(pred, i);
        assert(with_key(r, e.timestamp, e.id) == with_key(s, e.timestamp, e.id));
        r.lemma_filter_contains_rev(pred, e);
    }
}

/// Sequences holding the same events have the same largest id.
proof fn lemma_max_id_same_members(r: Seq<GameEvent>, s: Seq<GameEvent>)
    requires
        forall|e: GameEvent| r.contains(e) <==> s.contains(e),
    ensures
        max_id(r) == max_id(s),
{
    lemma_max_id(r);
    lemma_max_id(s);
    if r.len() > 0 {
        let i = choose|i: int| 0 <= i < r.len() && (#[trigger] r[i]).id == max_id(r);
        assert(r.contains(r[i]));
        let j = choose|j: int| 0 <= j < s.len() && s[j] == r[i];
        assert(s[j].id <= max_id(s));
    }
    if s.len() > 0 {
        let i = choose|i: int| 0 <= i < s.len() && (#[trigger] s[i]).id == max_id(s);
        assert(s.contains(s[i]));
        let j = choose|j: int| 0 <= j < r.len() && r[j] == s[i];
        assert(r[j].id <= max_id(r));
    }
}

/// The note logged when a game starts.
pub fn game_start_note(player_name: &str) -> (s: String)
    ensures
        s@ == "已为 "@ + player_name@ + " 初始化游戏"@,
{
    let mut s = "已为 ".to_string();
    append_str(&mut s, player_name);
    append_str(&mut s, " 初始化游戏");
    s
}

/// The note logged when the game is saved to a slot.
pub fn save_note(slot_id: u32) -> (s: String)
    ensures
        s@ == "已保存到槽位 "@ + decimal(slot_id as nat),
{
    let mut s = "已保存到槽位 ".to_string();
    push_decimal(&mut s, slot_id as u64);
    s
}

/// The note logged when a game is loaded from a slot.
pub fn load_note(slot_id: u32) -> (s: String)
    ensures
        s@ == "已从槽位 "@ + decimal(slot_id as nat) + " 读取存档"@,
{
    let mut s = "已从槽位 ".to_string();
    push_decimal(&mut s, slot_id as u64);
    append_str(&mut s, " 读取存档");
    s
}

/// The note logged when an NPC reacts to a story event.
pub fn reaction_note(npc_id: &str, action: &str) -> (s: String)
    ensures
        s@ == npc_id@ + " -> "@ + action@,
{
    let mut s = npc_id.to_string();
    append_str(&mut s, " -> ");
    append_str(&mut s, action);
    s
}

/// An ordered log of events with the id the next event will get.
#[derive(Debug, Clone)]
pub struct EventLog {
    events: Vec<GameEvent>,
    next_id: u64,
}

impl EventLog {
    /// The recorded events.
    pub closed spec fn events(&self) -> Seq<GameEvent> {
        self.events@
    }

    /// The id the next logged event will receive.
    pub closed spec fn next_event_id(&self) -> u64 {
        self.next_id
    }

    /// The next id follows the largest id recorded.
    pub open spec fn wf(&self) -> bool {
        self.next_event_id() == sat_inc(max_id(self.events()))
    }

    /// An empty log whose first event gets id 1.
    pub fn new() -> (log: EventLog)
        ensures
            log.events() == Seq::<GameEvent>::empty(),
            log.next_event_id() == 1,
            log.wf(),
    {
        EventLog { events: Vec::new(), next_id: 1 }
    }

    /// Records an event with the next id and returns it.
    pub fn log_event(
        &mut self,
        timestamp: u64,
        event_type: &str,
        description: &str,
        importance: EventImportance,
    ) -> (e: GameEvent)
        ensures
            e.id == old(self).next_event_id(),
            e.timestamp == timestamp,
            e.event_type@ == event_type@,
            e.description@ == description@,
            e.importance == importance,
            final(self).events() == old(self).events().push(e),
            final(self).next_event_id() == sat_inc(old(self).next_event_id()),
            old(self).wf() ==> e.id == sat_inc(max_id(old(self).events())),
            old(self).wf() ==> final(self).wf(),
    {
        let event = GameEvent {
            id: self.next_id,
            timestamp,
            event_type: event_type.to_string(),
            description: description.to_string(),
            importance,
        };
        self.next_id = self.next_id.saturating_add(1);
        self.events.push(event.duplicate());
        assert(self.events@.drop_last() =~= old(self).events@);
        event
    }

    /// A log holding `events` ordered by timestamp then id (ties keep their
    /// order), whose next id follows the largest id present.
    pub fn from_events(events: Vec<GameEvent>) -> (log: EventLog)
        ensures
            stable_sorted_from(log.events(), events@),
            log.next_event_id() == sat_inc(max_id(events@)),
            log.wf(),
    {
        let next_id = next_id_after(&events);
        let ghost given = events@;
        let sorted = stable_sort_by_key(events);
        proof {
            lemma_sorted_same_members(sorted@, given);
            lemma_max_id_same_members(sorted@, given);
        }
        EventLog { events: sorted, next_id }
    }

    /// All recorded events, in order.
    pub fn all_events(&self) -> (s: &[GameEvent])
        ensures
            s@ == self.events(),
    {
        self.events.as_slice()
    }

    /// The events accepted by `filter`, in log order.
    pub fn query_events(&self, filter: &EventFilter) -> (r: Vec<GameEvent>)
        ensures
            r@ == query_spec(self.events(), *filter),
    {
        let mut out: Vec<GameEvent> = Vec::new();
        let mut i: usize = 0;
        while i < self.events.len()
            invariant
                i <= self.events@.len(),
                out@ == query_spec(self.events@.take(i as int), *filter),
            decreases self.events@.len() - i,
        {
            let e = &self.events[i];
            let ok = event_accepted(filter, e);
            proof {
                let pred = |x: GameEvent| filter_accepts(*filter, x);
                assert(self.events@.take(i + 1) =~= self.events@.take(i as int).push(*e));
                self.events@.take(i as int).lemma_filter_push(*e, pred);
            }
            if ok {
                out.push(e.duplicate());
            }
            i = i + 1;
        }
        assert(self.events@.take(self.events@.len() as int) =~= self.events@);
        out
    }

    /// The events marked important, in log order.
    pub fn important_events(&self) -> (r: Vec<GameEvent>)
        ensures
            r@ == query_spec(self.events(), important_filter()),
    {
        let f = EventFilter {
            importance: Some(EventImportance::Important),
            event_type: None,
            from_timestamp: None,
            to_timestamp: None,
        };
        self.query_events(&f)
    }

    /// Number of recorded events.
    pub fn len(&self) -> (n: usize)
        ensures
            n == self.events().len(),
    {
        self.events.len()
    }

    /// Whether no event is recorded.
    pub fn is_empty(&self) -> (b: bool)
        ensures
            b == (self.events().len() == 0),
    {
        self.events.len() == 0
    }
}

/// Whether `filter` accepts `e`.
pub fn event_accepted(filter: &EventFilter, e: &GameEvent) -> (r: bool)
    ensures
        r == filter_accepts(*filter, *e),
{
    match filter.importance {
        Some(imp) => {
            if e.importance != imp {
                return false;
            }
        },
        None => {},
    }
    match &filter.event_type {
        Some(t) => {
            if e.event_type != *t {
                return false;
            }
        },
        None => {},
    }
    match filter.from_timestamp {
        Some(from) => {
            if e.timestamp < from {
                return false;
            }
        },
        None => {},
    }
    match filter.to_timestamp {
        Some(to) => {
            if e.timestamp > to {
                return false;
            }
        },
        None => {},
    }
    true
}

/// The id following the largest id in `events`.
fn next_id_after(events: &Vec<GameEvent>) -> (n: u64)
    ensures
        n == sat_inc(max_id(events@)),
{
    let mut m: u64 = 0;
    let mut i: usize = 0;
    while i < events.len()
        invariant
            i <= events@.len(),
            m == max_id(events@.take(i as int)),
        decreases events@.len() - i,
    {
        assert(events@.take(i + 1).drop_last() =~= events@.take(i as int));
        if events[i].id > m {
            m = events[i].id;
        }
        i = i + 1;
    }
    assert(events@.take(events@.len() as int) =~= events@);
    m.saturating_add(1)
}

/// No event of `s` has the key, so none is selected by it.
proof fn lemma_none_with_key(s: Seq<GameEvent>, t: u64, id: u64)
    requires
        forall|i: int| 0 <= i < s.len() ==> !(#[trigger] s[i].timestamp == t && s[i].id == id),
    ensures
        with_key(s, t, id) == Seq::<GameEvent>::empty(),
{
    let pred = |e: GameEvent| e.timestamp == t && e.id == id;
    s.lemma_all_neg_filter_empty(pred);
}

/// Sorts events by (timestamp, id), keeping the order of equal keys.
pub(crate) fn stable_sort_by_key(events: Vec<GameEvent>) -> (r: Vec<GameEvent>)
    ensures
        stable_sorted_from(r@, events@),
{
    let mut res: Vec<GameEvent> = Vec::new();
    let mut i: usize = 0;
    while i < events.len()
        invariant
            i <= events@.len(),
            sorted_by_key(res@),
            forall|t: u64, id: u64| #[trigger]
                with_key(res@, t, id) == with_key(events@.take(i as int), t, id),
        decreases events@.len() - i,
    {
        let e = events[i].duplicate();
        // first position whose key is greater than e's
        let mut p: usize = 0;
        while p < res.len() && key_le_exec(&res[p], &e)
            invariant
                p <= res@.len(),
                forall|k: int| 0 <= k < p ==> key_le(#[trigger] res@[k], e),
            decreases res@.len() - p,
        {
            p = p + 1;
        }
        let ghost old_res = res@;
        proof {
            assert forall|k: int| p <= k < old_res.len() implies !key_le(
                #[trigger] old_res[k],
                e,
            ) by {
                if p < old_res.len() {
                    assert(key_le(old_res[p as int], old_res[k]));
                }
            }
        }
        res.insert(p, e);
        proof {
            let pre = old_res.subrange(0, p as int);
            let post = old_res.subrange(p as int, old_res.len() as int);
            assert(old_res =~= pre + post);
            assert(res@ =~= pre + seq![e] + post);
            assert forall|a: int, b: int| 0 <= a < b < res@.len() implies key_le(
                #[trigger] res@[a],
                #[trigger] res@[b],
            ) by {
                if b < p {
                } else if b == p {
                    assert(res@[a] == old_res[a]);
                } else if a < p {
                    assert(res@[b] == old_res[b - 1]);
                    assert(key_le(old_res[a], e));
                    assert(!key_le(old_res[b - 1], e));
                } else if a == p {
                    assert(res@[b] == old_res[b - 1]);
                    assert(!key_le(old_res[b - 1], e));
                } else {
                    assert(res@[a] == old_res[a - 1]);
                    assert(res@[b] == old_res[b - 1]);
                }
            }
            let taken = events@.take(i as int);
            assert(events@.take(i + 1) =~= taken.push(e));
            assert forall|t: u64, id: u64| #[trigger]
                with_key(res@, t, id) == with_key(events@.take(i + 1), t, id) by {
                let pred = |x: GameEvent| x.timestamp == t && x.id == id;
                vstd::seq::Seq::filter_distributes_over_add(pre + seq![e], post, pred);
                vstd::seq::Seq::filter_distributes_over_add(pre, seq![e], pred);
                vstd::seq::Seq::filter_distributes_over_add(pre, post, pred);
                taken.lemma_filter_push(e, pred);
                assert(with_key(old_res, t, id) == with_key(taken, t, id));
                if pred(e) {
                    assert forall|k: int| 0 <= k < post.len() implies !(
                    #[trigger] post[k].timestamp == t && post[k].id == id) by {
                        assert(post[k] == old_res[k + p]);
                        assert(!key_le(old_res[k + p], e));
                    }
                    lemma_none_with_key(post, t, id);
                    assert(seq![e].filter(pred) =~= seq![e]) by {
                        Seq::<GameEvent>::empty().lemma_filter_push(e, pred);
                        assert(Seq::<GameEvent>::empty().push(e) =~= seq![e]);
                        reveal(Seq::filter);
                    }
                } else {
                    assert(seq![e].filter(pred) =~= Seq::<GameEvent>::empty()) by {
                        Seq::<GameEvent>::empty().lemma_filter_push(e, pred);
                        assert(Seq::<GameEvent>::empty().push(e) =~= seq![e]);
                        reveal(Seq::filter);
                    }
                }
            }
        }
        i = i + 1;
    }
    assert(events@.take(events@.len() as int) =~= events@);
    res
}

/// Whether `a` comes no later than `b` by (timestamp, id).
fn key_le_exec(a: &GameEvent, b: &GameEvent) -> (r: bool)
    ensures
        r == key_le(*a, *b),
{
    a.timestamp < b.timestamp || (a.timestamp == b.timestamp && a.id <= b.id)
}

} // verus!
