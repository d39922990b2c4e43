//! Event queue for the `listen` and `emit` tools.
//!
//! A ring buffer of events, read by cursor.  Several readers can read the same
//! events independently.  Events are never removed on read: they age out when
//! the ring wraps.
use std::collections::VecDeque;
use vstd::prelude::*;

use crate::json::{printed, printed_pretty, texts_view, Json, JsonNumber, JsonView, NumberView};
use crate::text::starts_with;

verus! {

/// How many events are kept.
pub const DEFAULT_MAX_SIZE: usize = 1024;

/// A single event in the queue.
pub struct Event {
    /// Rising, unique within this broker.
    pub id: u64,
    /// Unix time in seconds, as a decimal numeral.
    pub ts: String,
    /// Dot-separated topic, e.g. `fs.changed`.
    pub topic: String,
    /// Human-readable origin, e.g. `watcher`.
    pub source: String,
    /// Any payload.
    pub data: Json,
}

/// The model of an event.
pub struct EventView {
    pub id: int,
    pub ts: Seq<char>,
    pub topic: Seq<char>,
    pub source: Seq<char>,
    pub data: JsonView,
}

impl View for Event {
    type V = EventView;

    open spec fn view(&self) -> EventView {
        EventView { id: self.id as int, ts: self.ts@, topic: self.topic@, source: self.source@, data: self.data@ }
    }
}

impl Clone for Event {
    fn clone(&self) -> (r: Event)
        ensures
            r@ == self@,
    {
        Event {
            id: self.id,
            ts: self.ts.clone(),
            topic: self.topic.clone(),
            source: self.source.clone(),
            data: self.data.clone(),
        }
    }
}

/// The models of a list of events.
pub open spec fn events_view(v: Seq<Event>) -> Seq<EventView> {
    Seq::new(v.len(), |i: int| v[i]@)
}

/// The queue.
pub struct EventQueue {
    events: VecDeque<Event>,
    next_id: u64,
    max_size: usize,
}

/// The model of the queue: the kept events, oldest first, and the identifier
/// of the next one.
pub struct QueueView {
    pub events: Seq<EventView>,
    pub next_id: int,
    pub max_size: int,
}

impl View for EventQueue {
    type V = QueueView;

    closed spec fn view(&self) -> QueueView {
        QueueView {
            events: events_view(self.events@),
            next_id: self.next_id as int,
            max_size: self.max_size as int,
        }
    }
}

impl QueueView {
    /// The kept events have the last identifiers, without a gap, and there are
    /// at most `max_size` of them.
    pub open spec fn valid(self) -> bool {
        &&& 1 <= self.next_id
        &&& 1 <= self.max_size
        &&& self.events.len() <= self.max_size
        &&& self.events.len() < self.next_id
        &&& forall|i: int|
            0 <= i < self.events.len() ==> (#[trigger] self.events[i]).id == self.next_id - self.events.len() + i
    }

    /// The identifier of the last event, or 0.
    pub open spec fn head(self) -> int {
        self.next_id - 1
    }
}

/// The topic begins with one of the prefixes; any topic does where there are
/// none.
pub open spec fn topic_matches(topic: Seq<char>, topics: Seq<Seq<char>>) -> bool {
    topics.len() == 0 || exists|i: int| 0 <= i < topics.len() && (#[trigger] topics[i]).is_prefix_of(topic)
}

/// The events after `after` with a matching topic, in order.
pub open spec fn matching(events: Seq<EventView>, topics: Seq<Seq<char>>, after: int) -> Seq<EventView>
    decreases events.len(),
{
    if events.len() == 0 {
        Seq::empty()
    } else {
        let before = matching(events.drop_last(), topics, after);
        if events.last().id > after && topic_matches(events.last().topic, topics) {
            before.push(events.last())
        } else {
            before
        }
    }
}

/// The queue after an event is pushed: the oldest one makes room if the ring
/// is full.
pub open spec fn pushed(q: QueueView, topic: Seq<char>, source: Seq<char>, data: JsonView, ts: Seq<char>) -> QueueView {
    let kept = if q.events.len() >= q.max_size {
        q.events.skip(1)
    } else {
        q.events
    };
    QueueView {
        events: kept.push(EventView { id: q.next_id, ts, topic, source, data }),
        next_id: q.next_id + 1,
        max_size: q.max_size,
    }
}

/// Whether the topic begins with one of the prefixes.
fn matches_topic(topic: &str, topics: &Vec<String>) -> (r: bool)
    ensures
        r == topic_matches(topic@, texts_view(topics@)),
{
    if topics.len() == 0 {
        return true;
    }
    let ghost all = texts_view(topics@);
    let mut i: usize = 0;
    while i < topics.len()
        invariant
            i <= topics@.len(),
            all == texts_view(topics@),
            forall|j: int| 0 <= j < i ==> !(#[trigger] all[j]).is_prefix_of(topic@),
        decreases topics@.len() - i,
    {
        if starts_with(topic, topics[i].as_str()) {
            assert(all[i as int].is_prefix_of(topic@));
            return true;
        }
        i += 1;
    }
    false
}

impl EventQueue {
    /// The queue is as described.
    pub open spec fn wf(&self) -> bool {
        self@.valid()
    }

    /// An empty queue.
    pub fn new() -> (r: EventQueue)
        ensures
            r.wf(),
            r@ == (QueueView { events: Seq::empty(), next_id: 1, max_size: DEFAULT_MAX_SIZE as int }),
    {
        let r = EventQueue { events: VecDeque::new(), next_id: 1, max_size: DEFAULT_MAX_SIZE };
        assert(r@.events =~= Seq::empty());
        r
    }

    /// Pushes an event at time `ts` and returns its identifier.
    pub fn push(&mut self, topic: &str, source: &str, data: Json, ts: &str) -> (r: u64)
        requires
            old(self).wf(),
            old(self)@.next_id < u64::MAX,
        ensures
            final(self).wf(),
            r == old(self)@.next_id,
            final(self)@ == pushed(old(self)@, topic@, source@, data@, ts@),
    {
        let id: u64 = self.next_id;
        self.next_id = self.next_id + 1;
        let event = Event { id, ts: ts.to_owned(), topic: topic.to_owned(), source: source.to_owned(), data };
        let ghost before = events_view(self.events@);
        if self.events.len() >= self.max_size {
            let _oldest = self.events.pop_front();
            assert(events_view(self.events@) =~= before.skip(1));
        }
        let ghost kept = events_view(self.events@);
        self.events.push_back(event);
        assert(events_view(self.events@) =~= kept.push(event@));
        id
    }

    /// The events that `wait_for` looks for.
    fn scan(&self, topics: &Vec<String>, after: u64) -> (r: Vec<Event>)
        ensures
            events_view(r@) == matching(self@.events, texts_view(topics@), after as int),
    {
        let ghost all = self@.events;
        let mut out: Vec<Event> = Vec::new();
        let mut i: usize = 0;
        let n: usize = self.events.len();
        assert(all.take(0) =~= Seq::empty());
        assert(events_view(out@) =~= Seq::empty());
        while i < n
            invariant
                n == self.events@.len(),
                i <= n,
                all == events_view(self.events@),
                events_view(out@) == matching(all.take(i as int), texts_view(topics@), after as int),
            decreases n - i,
        {
            assert(all.take(i + 1).drop_last() =~= all.take(i as int));
            let e = &self.events[i];
            assert(all.take(i + 1).last() == e@);
            if e.id > after && matches_topic(e.topic.as_str(), topics) {
                let ghost was = events_view(out@);
                out.push(e.clone());
                assert(events_view(out@) =~= was.push(e@));
            }
            i += 1;
        }
        assert(all.take(i as int) =~= all);
        out
    }

    /// All events after `after` whose topic begins with one of `topics`, and
    /// the cursor to go on from.  Where there are none, nothing until the
    /// caller's time has `expired`, and then the empty list and the current
    /// head.
    pub fn wait_for(&self, topics: &Vec<String>, after: u64, expired: bool) -> (r: Option<(Vec<Event>, u64)>)
        requires
            self.wf(),
        ensures
            ({
                let found = matching(self@.events, texts_view(topics@), after as int);
                match r {
                    Some((events, cursor)) => events_view(events@) == found && (found.len() > 0 || expired)
                        && cursor == (if found.len() > 0 {
                        found.last().id
                    } else {
                        self@.head()
                    }),
                    None => found.len() == 0 && !expired,
                }
            }),
    {
        let found = self.scan(topics, after);
        if found.len() > 0 {
            let cursor: u64 = found[found.len() - 1].id;
            assert(events_view(found@).last() == found@[found@.len() - 1]@);
            return Some((found, cursor));
        }
        if expired {
            return Some((found, self.next_id - 1));
        }
        None
    }

    /// The current cursor: the identifier of the last event, or 0.
    pub fn cursor(&self) -> (r: u64)
        requires
            self.wf(),
        ensures
            r == self@.head(),
    {
        self.next_id - 1
    }

    /// How many events are kept.
    pub fn len(&self) -> (r: usize)
        ensures
            r == self@.events.len(),
    {
        self.events.len()
    }

    /// Whether identifiers are left for another event.
    pub fn has_room(&self) -> (r: bool)
        ensures
            r == (self@.next_id < u64::MAX),
    {
        self.next_id < u64::MAX
    }
}

// ---------------------------------------------------------------------------
// Tools
// ---------------------------------------------------------------------------

/// An event as JSON.
pub open spec fn event_json(e: EventView) -> JsonView {
    JsonView::Object(
        seq![
            ("data"@, e.data),
            ("id"@, JsonView::Number(NumberView::Unsigned(e.id))),
            ("source"@, JsonView::Text(e.source)),
            ("topic"@, JsonView::Text(e.topic)),
            ("ts"@, JsonView::Number(NumberView::Float(e.ts))),
        ],
    )
}

/// Events as JSON.
pub open spec fn event_jsons(v: Seq<EventView>) -> Seq<JsonView> {
    Seq::new(v.len(), |i: int| event_json(v[i]))
}

impl Event {
    /// The event as JSON.
    pub fn to_json(&self) -> (r: Json)
        ensures
            r@ == event_json(self@),
    {
        let r = Json::object().with("data", self.data.clone()).with("id", Json::natural(self.id)).with(
            "source",
            Json::text(self.source.as_str()),
        ).with("topic", Json::text(self.topic.as_str())).with(
            "ts",
            Json::Number(JsonNumber::Float(self.ts.clone())),
        );
        assert(r@->Object_0 =~= event_json(self@)->Object_0);
        r
    }
}

/// How long a listener wants to wait.
pub enum Patience {
    /// Until an event comes: no number was given, or none above zero.
    Forever,
    /// This many seconds.
    Seconds(u64),
    /// A number of seconds that is no integer, as its numeral.
    Numeral(String),
}

/// What a listener asks for.
pub struct ListenRequest {
    pub topics: Vec<String>,
    pub after: u64,
    pub patience: Patience,
}

/// The texts among the items.
pub open spec fn texts_among(items: Seq<JsonView>) -> Seq<Seq<char>>
    decreases items.len(),
{
    if items.len() == 0 {
        Seq::empty()
    } else {
        match items.last() {
            JsonView::Text(t) => texts_among(items.drop_last()).push(t),
            _ => texts_among(items.drop_last()),
        }
    }
}

/// The texts among the items of the array `key`.
pub open spec fn texts_under(j: JsonView, key: Seq<char>) -> Option<Seq<Seq<char>>> {
    match j.items_at(key) {
        Some(items) => Some(texts_among(items)),
        None => None,
    }
}

/// The texts among the items of the array `key`.
pub fn texts_in(j: &Json, key: &str) -> (r: Option<Vec<String>>)
    ensures
        crate::config::texts_option(r) == texts_under(j@, key@),
{
    match j.get(key) {
        None => None,
        Some(v) => match v.as_array() {
            None => None,
            Some(items) => {
                let ghost all = v@->Array_0;
                let mut out: Vec<String> = Vec::new();
                let mut i: usize = 0;
                assert(all.take(0) =~= Seq::empty());
                assert(texts_view(out@) =~= Seq::empty());
                while i < items.len()
                    invariant
                        i <= items@.len(),
                        all.len() == items@.len(),
                        forall|k: int| 0 <= k < items@.len() ==> all[k] == (#[trigger] items@[k])@,
                        texts_view(out@) == texts_among(all.take(i as int)),
                    decreases items@.len() - i,
                {
                    assert(all.take(i + 1).drop_last() =~= all.take(i as int));
                    assert(all.take(i + 1).last() == items@[i as int]@);
                    match &items[i] {
                        Json::Text(t) => {
                            let ghost was = texts_view(out@);
                            out.push(t.clone());
                            assert(texts_view(out@) =~= was.push(t@));
                        },
                        _ => {},
                    }
                    i += 1;
                }
                assert(all.take(i as int) =~= all);
                Some(out)
            },
        },
    }
}

/// Reads a `listen` call.  Without a cursor it starts from `head`, so that only
/// events emitted from then on are returned; without a timeout it blocks
/// indefinitely.
pub fn listen_request(arguments: &Json, head: u64) -> (r: ListenRequest)
    ensures
        texts_view(r.topics@) == (match texts_under(arguments@, "topics"@) {
            Some(t) => t,
            None => Seq::empty(),
        }),
        r.after == (match arguments@.natural_at("after"@) {
            Some(n) => n,
            None => head as int,
        }),
        match arguments@.member("timeout_secs"@) {
            Some(JsonView::Number(NumberView::Unsigned(n))) => if n == 0 {
                r.patience is Forever
            } else {
                r.patience matches Patience::Seconds(s) && s == n
            },
            Some(JsonView::Number(NumberView::Negative(_))) => r.patience is Forever,
            Some(JsonView::Number(NumberView::Float(t))) => r.patience matches Patience::Numeral(s) && s@ == t,
            _ => r.patience is Forever,
        },
{
    let topics = match texts_in(arguments, "topics") {
        Some(t) => t,
        None => {
            let t: Vec<String> = Vec::new();
            assert(texts_view(t@) =~= Seq::empty());
            t
        },
    };
    let after: u64 = match arguments.u64_at("after") {
        Some(n) => n,
        None => head,
    };
    let patience = match arguments.get("timeout_secs") {
        Some(Json::Number(JsonNumber::Unsigned(n))) => {
            if *n == 0 {
                Patience::Forever
            } else {
                Patience::Seconds(*n)
            }
        },
        Some(Json::Number(JsonNumber::Negative(_))) => Patience::Forever,
        Some(Json::Number(JsonNumber::Float(t))) => Patience::Numeral(t.clone()),
        _ => Patience::Forever,
    };
    ListenRequest { topics, after, patience }
}

/// What a listener is answered.
pub open spec fn listen_json(events: Seq<EventView>, cursor: int) -> JsonView {
    JsonView::Object(
        seq![
            ("cursor"@, JsonView::Number(NumberView::Unsigned(cursor))),
            ("events"@, JsonView::Array(event_jsons(events))),
        ],
    )
}

/// What a listener is answered.
pub fn listen_reply(events: &Vec<Event>, cursor: u64) -> (r: Json)
    ensures
        r@ == listen_json(events_view(events@), cursor as int),
{
    let mut items: Vec<Json> = Vec::new();
    let mut i: usize = 0;
    while i < events.len()
        invariant
            i <= events@.len(),
            items@.len() == i,
            forall|j: int| 0 <= j < i ==> (#[trigger] items@[j])@ == event_json(events@[j]@),
        decreases events@.len() - i,
    {
        items.push(events[i].to_json());
        i += 1;
    }
    let list = Json::array(items);
    assert(list@->Array_0 =~= event_jsons(events_view(events@)));
    let r = Json::object().with("cursor", Json::natural(cursor)).with("events", list);
    assert(r@->Object_0 =~= listen_json(events_view(events@), cursor as int)->Object_0);
    r
}

/// Answers a `listen` call, where it can be answered yet.
pub fn invoke_listen(request: &ListenRequest, queue: &EventQueue, expired: bool) -> (r: Option<String>)
    requires
        queue.wf(),
    ensures
        ({
            let found = matching(queue@.events, texts_view(request.topics@), request.after as int);
            match r {
                Some(t) => (found.len() > 0 || expired) && t@ == printed_pretty(
                    listen_json(
                        found,
                        if found.len() > 0 {
                            found.last().id
                        } else {
                            queue@.head()
                        },
                    ),
                ),
                None => found.len() == 0 && !expired,
            }
        }),
{
    match queue.wait_for(&request.topics, request.after, expired) {
        Some((events, cursor)) => Some(listen_reply(&events, cursor).to_pretty_text()),
        None => None,
    }
}

/// What an `emit` call is answered.
pub open spec fn emit_json(id: int) -> JsonView {
    JsonView::Object(seq![("id"@, JsonView::Number(NumberView::Unsigned(id))), ("ok"@, JsonView::Bool(true))])
}

/// The value under `key`, or null.
pub open spec fn value_or_null(j: JsonView, key: Seq<char>) -> JsonView {
    match j.member(key) {
        Some(v) => v,
        None => JsonView::Null,
    }
}

/// The value under `key`, or null.
pub fn value_under(j: &Json, key: &str) -> (r: Json)
    ensures
        r@ == value_or_null(j@, key@),
{
    match j.get(key) {
        Some(v) => v.clone(),
        None => Json::Null,
    }
}

/// Handles an `emit` call: pushes an event into the local queue.
pub fn invoke_emit(arguments: &Json, queue: &mut EventQueue, ts: &str) -> (r: Result<String, String>)
    requires
        old(queue).wf(),
        old(queue)@.next_id < u64::MAX,
    ensures
        final(queue).wf(),
        match arguments@.text_at("topic"@) {
            Some(topic) => r is Ok && r->Ok_0@ == printed(emit_json(old(queue)@.next_id)) && final(queue)@ == pushed(
                old(queue)@,
                topic,
                "agent"@,
                value_or_null(arguments@, "data"@),
                ts@,
            ),
            None => r is Err && r->Err_0@ == "missing required field: topic"@ && final(queue)@ == old(queue)@,
        },
{
    let topic = match arguments.str_at("topic") {
        Some(t) => t,
        None => return Err("missing required field: topic".to_owned()),
    };
    let data = value_under(arguments, "data");
    let id: u64 = queue.push(topic, "agent", data, ts);
    let reply = Json::object().with("id", Json::natural(id)).with("ok", Json::Bool(true));
    assert(reply@->Object_0 =~= emit_json(id as int)->Object_0);
    Ok(reply.to_text())
}

// ---------------------------------------------------------------------------
// Laws
// ---------------------------------------------------------------------------

/// Pushing keeps the queue as described: identifiers rise by one, and no more
/// than the last `max_size` events are kept.
pub proof fn law_push_keeps_the_ring(q: QueueView, topic: Seq<char>, source: Seq<char>, data: JsonView, ts: Seq<char>)
    requires
        q.valid(),
    ensures
        pushed(q, topic, source, data, ts).valid(),
        pushed(q, topic, source, data, ts).head() == q.head() + 1,
        pushed(q, topic, source, data, ts).events.last().id == q.head() + 1,
{
}

/// What is pushed: an event without its identifier.
pub struct PostView {
    pub topic: Seq<char>,
    pub source: Seq<char>,
    pub data: JsonView,
    pub ts: Seq<char>,
}

/// The event that a post becomes.
pub open spec fn numbered(post: PostView, id: int) -> EventView {
    EventView { id, ts: post.ts, topic: post.topic, source: post.source, data: post.data }
}

/// The queue after a history of pushes.
pub open spec fn after_pushes(q: QueueView, posts: Seq<PostView>) -> QueueView
    decreases posts.len(),
{
    if posts.len() == 0 {
        q
    } else {
        let p = posts.last();
        pushed(after_pushes(q, posts.drop_last()), p.topic, p.source, p.data, p.ts)
    }
}

/// A queue that was empty at first numbers what is pushed 1, 2, 3 and so on,
/// and keeps the last events, as many as it has room for, in the order in which
/// they were pushed.
pub proof fn law_history(q: QueueView, posts: Seq<PostView>)
    requires
        q.valid(),
        q.events.len() == 0,
        q.next_id == 1,
    ensures
        ({
            let after = after_pushes(q, posts);
            let kept = if posts.len() < q.max_size {
                posts.len() as int
            } else {
                q.max_size
            };
            &&& after.valid()
            &&& after.max_size == q.max_size
            &&& after.head() == posts.len()
            &&& after.events == Seq::new(
                kept as nat,
                |i: int| numbered(posts[posts.len() - kept + i], posts.len() - kept + i + 1),
            )
        }),
    decreases posts.len(),
{
    let n = posts.len() as int;
    let after = after_pushes(q, posts);
    let kept = if n < q.max_size {
        n
    } else {
        q.max_size
    };
    let expected = Seq::new(kept as nat, |i: int| numbered(posts[n - kept + i], n - kept + i + 1));
    if n > 0 {
        law_history(q, posts.drop_last());
        let before = after_pushes(q, posts.drop_last());
        let p = posts.last();
        law_push_keeps_the_ring(before, p.topic, p.source, p.data, p.ts);
    }
    assert(after.events =~= expected);
}

/// Every event that is returned is newer than the cursor and has a matching
/// topic, and comes from the queue.
pub proof fn law_listeners_get_what_they_ask(events: Seq<EventView>, topics: Seq<Seq<char>>, after: int, i: int)
    requires
        0 <= i < matching(events, topics, after).len(),
    ensures
        matching(events, topics, after)[i].id > after,
        topic_matches(matching(events, topics, after)[i].topic, topics),
        events.contains(matching(events, topics, after)[i]),
    decreases events.len(),
{
    let before = events.drop_last();
    if i < matching(before, topics, after).len() {
        law_listeners_get_what_they_ask(before, topics, after, i);
        let x = matching(before, topics, after)[i];
        let k = choose|k: int| 0 <= k < before.len() && before[k] == x;
        assert(events[k] == x);
    } else {
        assert(events[events.len() - 1] == events.last());
    }
}

/// Every kept event that is newer than the cursor and has a matching topic is
/// returned.
pub proof fn law_listeners_miss_nothing(events: Seq<EventView>, topics: Seq<Seq<char>>, after: int, k: int)
    requires
        0 <= k < events.len(),
        events[k].id > after,
        topic_matches(events[k].topic, topics),
    ensures
        matching(events, topics, after).contains(events[k]),
    decreases events.len(),
{
    let before = events.drop_last();
    let out = matching(events, topics, after);
    if k < before.len() {
        law_listeners_miss_nothing(before, topics, after, k);
        let p = choose|p: int| 0 <= p < matching(before, topics, after).len() && matching(before, topics, after)[p] == events[k];
        assert(out[p] == events[k]);
    } else {
        assert(out[out.len() - 1] == events[k]);
    }
}

/// A listener that goes on from the cursor it was given gets no event twice.
pub proof fn law_cursor_goes_on(q: QueueView, topics: Seq<Seq<char>>, after: int, i: int, j: int)
    requires
        q.valid(),
        0 <= i < matching(q.events, topics, after).len(),
        0 <= j < matching(q.events, topics, matching(q.events, topics, after).last().id).len(),
    ensures
        matching(q.events, topics, after)[i].id < matching(
            q.events,
            topics,
            matching(q.events, topics, after).last().id,
        )[j].id,
{
    let first = matching(q.events, topics, after);
    law_listeners_get_what_they_ask(q.events, topics, first.last().id, j);
    lemma_matching_rises(q.events, topics, after, q.next_id - q.events.len(), i);
}

proof fn lemma_matching_rises(events: Seq<EventView>, topics: Seq<Seq<char>>, after: int, base: int, i: int)
    requires
        forall|k: int| 0 <= k < events.len() ==> (#[trigger] events[k]).id == base + k,
        0 <= i < matching(events, topics, after).len(),
    ensures
        matching(events, topics, after)[i].id <= matching(events, topics, after).last().id,
    decreases events.len(),
{
    let before = events.drop_last();
    let out = matching(events, topics, after);
    let prev = matching(before, topics, after);
    if i < prev.len() {
        lemma_matching_rises(before, topics, after, base, i);
        law_listeners_get_what_they_ask(before, topics, after, i);
        let x = prev[i];
        let k = choose|k: int| 0 <= k < before.len() && before[k] == x;
        assert(events[k] == x);
        assert(events[events.len() - 1].id == base + events.len() - 1);
    }
}

/// The texts of a list are taken out of it, and nothing else is.
pub proof fn law_texts_are_taken_out(items: Seq<JsonView>, t: Seq<char>)
    ensures
        texts_among(items).contains(t) <==> items.contains(JsonView::Text(t)),
    decreases items.len(),
{
    if items.len() > 0 {
        let head = items.drop_last();
        law_texts_are_taken_out(head, t);
        let before = texts_among(head);
        let all = texts_among(items);
        if items.contains(JsonView::Text(t)) {
            let i = choose|i: int| 0 <= i < items.len() && items[i] == JsonView::Text(t);
            if i < head.len() {
                assert(head[i] == JsonView::Text(t));
                let k = choose|k: int| 0 <= k < before.len() && before[k] == t;
                assert(all[k] == t);
            } else {
                assert(all[all.len() - 1] == t);
            }
        }
        if all.contains(t) {
            let k = choose|k: int| 0 <= k < all.len() && all[k] == t;
            if k < before.len() {
                assert(before[k] == t);
                let i = choose|i: int| 0 <= i < head.len() && head[i] == JsonView::Text(t);
                assert(items[i] == JsonView::Text(t));
            } else {
                assert(items[items.len() - 1] == JsonView::Text(t));
            }
        }
    }
}

/// A topic is taken by a listener without prefixes, and by one that has a
/// prefix of it; not by one that has other prefixes only.
pub proof fn law_prefixes_take_their_topics(prefix: Seq<char>, rest: Seq<char>, others: Seq<Seq<char>>)
    ensures
        topic_matches(prefix + rest, Seq::empty()),
        topic_matches(prefix + rest, others.push(prefix)),
        others.len() > 0 && (forall|i: int|
            0 <= i < others.len() ==> !(#[trigger] others[i]).is_prefix_of(prefix + rest)) ==> !topic_matches(
            prefix + rest,
            others,
        ),
{
    let topic = prefix + rest;
    assert(prefix =~= topic.subrange(0, prefix.len() as int));
    assert(others.push(prefix)[others.len() as int].is_prefix_of(topic));
}

/// What is pushed is the newest event, under the next identifier; the older
/// ones stay, the oldest excepted where the ring is full.
pub proof fn law_pushed_events_are_kept(
    q: QueueView,
    topic: Seq<char>,
    source: Seq<char>,
    data: JsonView,
    ts: Seq<char>,
    i: int,
)
    requires
        q.valid(),
    ensures
        ({
            let after = pushed(q, topic, source, data, ts);
            let e = after.events.last();
            &&& e.id == q.next_id && e.topic == topic && e.source == source && e.data == data && e.ts == ts
            &&& after.next_id == q.next_id + 1
            &&& after.max_size == q.max_size
            &&& 0 <= i < q.events.len() && q.events.len() < q.max_size ==> after.events[i] == q.events[i]
            &&& 1 <= i < q.events.len() && q.events.len() == q.max_size ==> after.events[i - 1] == q.events[i]
        }),
{
}

} // verus!
