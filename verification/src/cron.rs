//! In-memory cron scheduler: `cron_add`, `cron_list` and `cron_remove`.
//!
//! When a job fires, an event with topic `cron.fired` goes into the event
//! queue, so that any agent listening for that topic receives it.  The clock
//! that fires the jobs runs outside; here stand the jobs and what they say.
use vstd::prelude::*;

use crate::event_queue::{pushed, value_or_null, value_under, EventQueue};
use crate::json::{items_view, printed_pretty, texts_view, Json, JsonView, NumberView};
use crate::schema::{define, definition, typed, typed_schema, untyped, untyped_schema};
use crate::text::{decimal, decimal_text};

verus! {

/// The shortest interval between two firings, in seconds.
pub const MIN_INTERVAL_SECS: u64 = 5;

/// A periodic job.
pub struct CronJob {
    pub id: u64,
    /// Human-readable label.
    pub label: String,
    /// Interval in seconds between firings.
    pub interval_secs: u64,
    /// Payload attached to each fired event.
    pub data: Json,
}

/// The model of [`CronJob`].
pub struct JobView {
    pub id: int,
    pub label: Seq<char>,
    pub interval_secs: int,
    pub data: JsonView,
}

impl View for CronJob {
    type V = JobView;

    open spec fn view(&self) -> JobView {
        JobView {
            id: self.id as int,
            label: self.label@,
            interval_secs: self.interval_secs as int,
            data: self.data@,
        }
    }
}

impl Clone for CronJob {
    fn clone(&self) -> (r: CronJob)
        ensures
            r@ == self@,
    {
        CronJob { id: self.id, label: self.label.clone(), interval_secs: self.interval_secs, data: self.data.clone() }
    }
}

/// The models of a list of jobs.
pub open spec fn jobs_view(v: Seq<CronJob>) -> Seq<JobView> {
    Seq::new(v.len(), |i: int| v[i]@)
}

/// The model of the scheduler.
#[verifier::ext_equal]
pub struct SchedulerView {
    pub next_id: int,
    pub jobs: Seq<JobView>,
}

impl SchedulerView {
    /// The identifiers rise and are those given out; no job fires too often.
    pub open spec fn valid(self) -> bool {
        &&& self.next_id >= 1
        &&& forall|i: int|
            0 <= i < self.jobs.len() ==> 1 <= (#[trigger] self.jobs[i]).id < self.next_id
                && self.jobs[i].interval_secs >= MIN_INTERVAL_SECS
        &&& forall|i: int, j: int| 0 <= i < j < self.jobs.len() ==> (#[trigger] self.jobs[i]).id < (#[trigger] self.jobs[j]).id
    }

    /// Whether there is a job with this identifier.
    pub open spec fn running(self, id: int) -> bool {
        exists|i: int| 0 <= i < self.jobs.len() && (#[trigger] self.jobs[i]).id == id
    }
}

/// The jobs other than `id`.
pub open spec fn jobs_without(jobs: Seq<JobView>, id: int) -> Seq<JobView>
    decreases jobs.len(),
{
    if jobs.len() == 0 {
        Seq::empty()
    } else {
        let before = jobs_without(jobs.drop_last(), id);
        if jobs.last().id == id {
            before
        } else {
            before.push(jobs.last())
        }
    }
}

/// The jobs that are registered.
pub struct CronScheduler {
    next_id: u64,
    jobs: Vec<CronJob>,
}

impl View for CronScheduler {
    type V = SchedulerView;

    closed spec fn view(&self) -> SchedulerView {
        SchedulerView { next_id: self.next_id as int, jobs: jobs_view(self.jobs@) }
    }
}

/// Why a call of `cron_add` is refused, if it is.
pub open spec fn add_refusal(arguments: JsonView) -> Option<Seq<char>> {
    match (arguments.text_at("label"@), arguments.natural_at("interval_secs"@)) {
        (None, _) => Some("missing required field: label"@),
        (Some(_), None) => Some("missing required field: interval_secs"@),
        (Some(_), Some(n)) => if n < MIN_INTERVAL_SECS {
            Some("interval_secs must be >= 5 (got "@ + decimal(n as nat) + ")"@)
        } else {
            None
        },
    }
}

/// The job that a call of `cron_add` makes.
pub open spec fn added_job(arguments: JsonView, id: int) -> JobView {
    JobView {
        id,
        label: arguments.text_at("label"@)->0,
        interval_secs: arguments.natural_at("interval_secs"@)->0,
        data: value_or_null(arguments, "data"@),
    }
}

/// The scheduler with one more job.
pub open spec fn with_job(s: SchedulerView, job: JobView) -> SchedulerView {
    SchedulerView { next_id: s.next_id + 1, jobs: s.jobs.push(job) }
}

/// What the caller of `cron_add` is answered.
pub open spec fn added_json(job: JobView) -> JsonView {
    JsonView::Object(
        seq![
            ("id"@, JsonView::Number(NumberView::Unsigned(job.id))),
            ("interval_secs"@, JsonView::Number(NumberView::Unsigned(job.interval_secs))),
            ("label"@, JsonView::Text(job.label)),
        ],
    )
}

/// A job as `cron_list` shows it.
pub open spec fn job_json(job: JobView) -> JsonView {
    JsonView::Object(
        seq![
            ("data"@, job.data),
            ("id"@, JsonView::Number(NumberView::Unsigned(job.id))),
            ("interval_secs"@, JsonView::Number(NumberView::Unsigned(job.interval_secs))),
            ("label"@, JsonView::Text(job.label)),
        ],
    )
}

/// The payload of the event that a job fires.
pub open spec fn fired_json(job: JobView) -> JsonView {
    JsonView::Object(
        seq![
            ("data"@, job.data),
            ("job_id"@, JsonView::Number(NumberView::Unsigned(job.id))),
            ("label"@, JsonView::Text(job.label)),
        ],
    )
}

impl CronJob {
    /// The job as `cron_list` shows it.
    pub fn to_json(&self) -> (r: Json)
        ensures
            r@ == job_json(self@),
    {
        let r = Json::object().with("data", self.data.clone()).with("id", Json::natural(self.id)).with(
            "interval_secs",
            Json::natural(self.interval_secs),
        ).with("label", Json::text(self.label.as_str()));
        assert(r@->Object_0 =~= job_json(self@)->Object_0);
        r
    }

    /// Fires the job: an event goes into the queue.
    pub fn fire(&self, queue: &mut EventQueue, ts: &str)
        requires
            old(queue).wf(),
            old(queue)@.next_id < u64::MAX,
        ensures
            final(queue).wf(),
            final(queue)@ == pushed(
                old(queue)@,
                "cron.fired"@,
                "cron:"@ + decimal(self.id as nat),
                fired_json(self@),
                ts@,
            ),
    {
        let mut source = "cron:".to_owned();
        source.push_str(decimal_text(self.id).as_str());
        let data = Json::object().with("data", self.data.clone()).with("job_id", Json::natural(self.id)).with(
            "label",
            Json::text(self.label.as_str()),
        );
        assert(data@->Object_0 =~= fired_json(self@)->Object_0);
        let _ = queue.push("cron.fired", source.as_str(), data, ts);
    }
}

/// A job that was added, and what the caller is answered.
pub struct Added {
    pub job: CronJob,
    pub reply: String,
}

impl CronScheduler {
    /// The scheduler is as described.
    pub closed spec fn wf(&self) -> bool {
        self@.valid()
    }

    /// A scheduler without jobs.
    pub fn new() -> (r: CronScheduler)
        ensures
            r.wf(),
            r@ == (SchedulerView { next_id: 1, jobs: Seq::empty() }),
    {
        let r = CronScheduler { next_id: 1, jobs: Vec::new() };
        assert(r@.jobs =~= Seq::empty());
        r
    }

    /// Whether there is an identifier left to give.
    pub fn has_room(&self) -> (r: bool)
        ensures
            r == (self@.next_id < u64::MAX),
    {
        self.next_id < u64::MAX
    }

    /// `cron_add`: creates a new job.
    pub fn handle_add(&mut self, arguments: &Json) -> (r: Result<Added, String>)
        requires
            old(self).wf(),
            old(self)@.next_id < u64::MAX,
        ensures
            final(self).wf(),
            match add_refusal(arguments@) {
                Some(e) => r is Err && r->Err_0@ == e && final(self)@ == old(self)@,
                None => {
                    let job = added_job(arguments@, old(self)@.next_id);
                    &&& r is Ok
                    &&& r->Ok_0.job@ == job
                    &&& r->Ok_0.reply@ == printed_pretty(added_json(job))
                    &&& final(self)@ == with_job(old(self)@, job)
                },
            },
    {
        let label = match arguments.str_at("label") {
            Some(l) => l,
            None => return Err("missing required field: label".to_owned()),
        };
        let interval_secs: u64 = match arguments.u64_at("interval_secs") {
            Some(n) => n,
            None => return Err("missing required field: interval_secs".to_owned()),
        };
        if interval_secs < MIN_INTERVAL_SECS {
            let mut e = "interval_secs must be >= 5 (got ".to_owned();
            e.push_str(decimal_text(interval_secs).as_str());
            e.push_str(")");
            return Err(e);
        }
        let job = CronJob {
            id: self.next_id,
            label: label.to_owned(),
            interval_secs,
            data: value_under(arguments, "data"),
        };
        let reply = Json::object().with("id", Json::natural(job.id)).with(
            "interval_secs",
            Json::natural(interval_secs),
        ).with("label", Json::text(label));
        assert(reply@->Object_0 =~= added_json(job@)->Object_0);
        self.jobs.push(job.clone());
        self.next_id = self.next_id + 1;
        assert(self@ =~= with_job(old(self)@, job@));
        Ok(Added { job, reply: reply.to_pretty_text() })
    }

    /// `cron_list`: lists all registered jobs.
    pub fn handle_list(&self) -> (r: String)
        ensures
            r@ == (if self@.jobs.len() == 0 {
                "No cron jobs registered."@
            } else {
                printed_pretty(JsonView::Array(Seq::new(self@.jobs.len(), |i: int| job_json(self@.jobs[i]))))
            }),
    {
        if self.jobs.len() == 0 {
            return "No cron jobs registered.".to_owned();
        }
        let mut items: Vec<Json> = Vec::new();
        let mut i: usize = 0;
        while i < self.jobs.len()
            invariant
                i <= self.jobs@.len(),
                items@.len() == i,
                forall|j: int| 0 <= j < i ==> (#[trigger] items@[j])@ == job_json(self.jobs@[j]@),
            decreases self.jobs@.len() - i,
        {
            items.push(self.jobs[i].to_json());
            i += 1;
        }
        let list = Json::array(items);
        assert(list@->Array_0 =~= Seq::new(self@.jobs.len(), |i: int| job_json(self@.jobs[i])));
        list.to_pretty_text()
    }

    /// `cron_remove`: removes a job, which then fires no more.  Returns its
    /// identifier with the answer.
    pub fn handle_remove(&mut self, arguments: &Json) -> (r: Result<(u64, String), String>)
        requires
            old(self).wf(),
        ensures
            final(self).wf(),
            match arguments@.natural_at("id"@) {
                None => r is Err && r->Err_0@ == "missing required field: id"@ && final(self)@ == old(self)@,
                Some(id) => if old(self)@.running(id) {
                    &&& r is Ok
                    &&& r->Ok_0.0 == id
                    &&& r->Ok_0.1@ == "Removed cron job "@ + decimal(id as nat)
                    &&& final(self)@ == (SchedulerView {
                        next_id: old(self)@.next_id,
                        jobs: jobs_without(old(self)@.jobs, id),
                    })
                } else {
                    &&& r is Err
                    &&& r->Err_0@ == "no cron job with id "@ + decimal(id as nat)
                    &&& final(self)@ == old(self)@
                },
            },
    {
        let id: u64 = match arguments.u64_at("id") {
            Some(n) => n,
            None => return Err("missing required field: id".to_owned()),
        };
        let ghost before = self@.jobs;
        let mut i: usize = 0;
        while i < self.jobs.len()
            invariant
                *self == *old(self),
                self.wf(),
                before == jobs_view(self.jobs@),
                before == old(self)@.jobs,
                arguments@.natural_at("id"@) == Some(id as int),
                i <= self.jobs@.len(),
                forall|j: int| 0 <= j < i ==> (#[trigger] before[j]).id != id,
            decreases self.jobs@.len() - i,
        {
            assert(before[i as int] == self.jobs@[i as int]@);
            if self.jobs[i].id == id {
                proof {
                    lemma_without_one(before, i as int);
                    assert(old(self)@.jobs[i as int].id == id);
                }
                let _ = self.jobs.remove(i);
                assert(self@.jobs =~= before.remove(i as int));
                proof {
                    lemma_remove_keeps(old(self)@, i as int);
                    assert(self@ == (SchedulerView { next_id: old(self)@.next_id, jobs: before.remove(i as int) }));
                }
                let mut reply = "Removed cron job ".to_owned();
                reply.push_str(decimal_text(id).as_str());
                return Ok((id, reply));
            }
            i += 1;
        }
        let mut e = "no cron job with id ".to_owned();
        e.push_str(decimal_text(id).as_str());
        Err(e)
    }
}

proof fn lemma_remove_keeps(s: SchedulerView, i: int)
    requires
        s.valid(),
        0 <= i < s.jobs.len(),
    ensures
        (SchedulerView { next_id: s.next_id, jobs: s.jobs.remove(i) }).valid(),
{
    let jobs = s.jobs.remove(i);
    assert forall|a: int| 0 <= a < jobs.len() implies 1 <= (#[trigger] jobs[a]).id < s.next_id
        && jobs[a].interval_secs >= MIN_INTERVAL_SECS by {
        let pa = if a < i { a } else { a + 1 };
        assert(jobs[a] == s.jobs[pa]);
    }
    assert forall|a: int, b: int| 0 <= a < b < jobs.len() implies (#[trigger] jobs[a]).id < (#[trigger] jobs[b]).id by {
        let pa = if a < i { a } else { a + 1 };
        let pb = if b < i { b } else { b + 1 };
        assert(jobs[a] == s.jobs[pa]);
        assert(jobs[b] == s.jobs[pb]);
    }
}

/// Where one job has the identifier, the others are what remains without it.
proof fn lemma_without_one(jobs: Seq<JobView>, i: int)
    requires
        0 <= i < jobs.len(),
        forall|a: int, b: int| 0 <= a < b < jobs.len() ==> (#[trigger] jobs[a]).id < (#[trigger] jobs[b]).id,
    ensures
        jobs_without(jobs, jobs[i].id) == jobs.remove(i),
    decreases jobs.len(),
{
    let before = jobs.drop_last();
    if i == jobs.len() - 1 {
        lemma_without_none(before, jobs[i].id);
        assert(jobs.remove(i) =~= before);
    } else {
        lemma_without_one(before, i);
        assert(jobs.remove(i) =~= before.remove(i).push(jobs.last()));
    }
}

proof fn lemma_without_none(jobs: Seq<JobView>, id: int)
    requires
        forall|a: int| 0 <= a < jobs.len() ==> (#[trigger] jobs[a]).id != id,
    ensures
        jobs_without(jobs, id) == jobs,
    decreases jobs.len(),
{
    if jobs.len() > 0 {
        lemma_without_none(jobs.drop_last(), id);
        assert(jobs.drop_last().push(jobs.last()) =~= jobs);
    }
}

// ---------------------------------------------------------------------------
// Definitions
// ---------------------------------------------------------------------------

/// What `cron_add` does.
pub const CRON_ADD_TEXT: &'static str = "Register a periodic cron job. The job fires an event with topic 'cron.fired' at the specified interval. Use listen(topics=['cron.fired']) to receive events.";

/// The `data` parameter of `cron_add`.
pub const CRON_ADD_DATA: &'static str = "Optional JSON payload to include with each fired event.";

/// The `interval_secs` parameter of `cron_add`.
pub const CRON_ADD_INTERVAL_SECS: &'static str = "Interval between firings in seconds (minimum 5).";

/// The `label` parameter of `cron_add`.
pub const CRON_ADD_LABEL: &'static str = "Human-readable label for the job.";

/// What `cron_list` does.
pub const CRON_LIST_TEXT: &'static str = "List all registered cron jobs with their IDs, labels, and intervals.";

/// What `cron_remove` does.
pub const CRON_REMOVE_TEXT: &'static str = "Remove a cron job by its ID. The job stops firing immediately.";

/// The `id` parameter of `cron_remove`.
pub const CRON_REMOVE_ID: &'static str = "The job ID (from cron_add or cron_list).";

/// The definition of `cron_add`.
pub open spec fn cron_add_definition() -> JsonView {
    definition(
        "cron_add"@,
        CRON_ADD_TEXT@,
        JsonView::object()
            .with("data"@, untyped(CRON_ADD_DATA@))
            .with("interval_secs"@, typed("number"@, CRON_ADD_INTERVAL_SECS@))
            .with("label"@, typed("string"@, CRON_ADD_LABEL@)),
        Some(seq!["label"@, "interval_secs"@]),
    )
}

/// The definition of `cron_list`.
pub open spec fn cron_list_definition() -> JsonView {
    definition(
        "cron_list"@,
        CRON_LIST_TEXT@,
        JsonView::object(),
        Some(Seq::empty()),
    )
}

/// The definition of `cron_remove`.
pub open spec fn cron_remove_definition() -> JsonView {
    definition(
        "cron_remove"@,
        CRON_REMOVE_TEXT@,
        JsonView::object()
            .with("id"@, typed("number"@, CRON_REMOVE_ID@)),
        Some(seq!["id"@]),
    )
}

/// The definition of `cron_add`.
fn define_cron_add() -> (r: Json)
    ensures
        r@ == cron_add_definition(),
{
    let mut required: Vec<String> = Vec::new();
    required.push("label".to_owned());
    required.push("interval_secs".to_owned());
    assert(texts_view(required@) =~= seq!["label"@, "interval_secs"@]);
    define(
        "cron_add",
        CRON_ADD_TEXT,
        Json::object()
            .with("data", untyped_schema(CRON_ADD_DATA))
            .with("interval_secs", typed_schema("number", CRON_ADD_INTERVAL_SECS))
            .with("label", typed_schema("string", CRON_ADD_LABEL)),
        Some(required),
    )
}

/// The definition of `cron_list`.
fn define_cron_list() -> (r: Json)
    ensures
        r@ == cron_list_definition(),
{
    let required: Vec<String> = Vec::new();
    assert(texts_view(required@) =~= Seq::empty());
    define(
        "cron_list",
        CRON_LIST_TEXT,
        Json::object(),
        Some(required),
    )
}

/// The definition of `cron_remove`.
fn define_cron_remove() -> (r: Json)
    ensures
        r@ == cron_remove_definition(),
{
    let mut required: Vec<String> = Vec::new();
    required.push("id".to_owned());
    assert(texts_view(required@) =~= seq!["id"@]);
    define(
        "cron_remove",
        CRON_REMOVE_TEXT,
        Json::object()
            .with("id", typed_schema("number", CRON_REMOVE_ID)),
        Some(required),
    )
}

/// The definitions of the cron tools.
pub open spec fn cron_definitions() -> Seq<JsonView> {
    seq![cron_add_definition(), cron_list_definition(), cron_remove_definition()]
}

/// The definitions of the cron tools.
pub fn cron_tool_definitions() -> (r: Vec<Json>)
    ensures
        items_view(r@) == cron_definitions(),
{
    let mut out: Vec<Json> = Vec::new();
    out.push(define_cron_add());
    out.push(define_cron_list());
    out.push(define_cron_remove());
    assert(items_view(out@) =~= cron_definitions());
    out
}

// ---------------------------------------------------------------------------
// Laws
// ---------------------------------------------------------------------------

/// A new job has an identifier that no job has had, and the scheduler stays as
/// described.
pub proof fn law_added_job_is_new(s: SchedulerView, arguments: JsonView)
    requires
        s.valid(),
        add_refusal(arguments) is None,
    ensures
        !s.running(s.next_id),
        with_job(s, added_job(arguments, s.next_id)).valid(),
        with_job(s, added_job(arguments, s.next_id)).running(s.next_id),
{
    let job = added_job(arguments, s.next_id);
    let after = with_job(s, job);
    assert(after.jobs[s.jobs.len() as int].id == s.next_id);
}

/// A removed job runs no more, and every other job runs on.
pub proof fn law_removed_job_is_gone(s: SchedulerView, id: int, other: int)
    requires
        s.valid(),
    ensures
        ({
            let after = SchedulerView { next_id: s.next_id, jobs: jobs_without(s.jobs, id) };
            &&& after.valid()
            &&& !after.running(id)
            &&& other != id ==> after.running(other) == s.running(other)
        }),
{
    if s.running(id) {
        let i = choose|i: int| 0 <= i < s.jobs.len() && (#[trigger] s.jobs[i]).id == id;
        lemma_without_one(s.jobs, i);
        lemma_remove_keeps(s, i);
        let after = SchedulerView { next_id: s.next_id, jobs: s.jobs.remove(i) };
        if after.running(id) {
            let k = choose|k: int| 0 <= k < after.jobs.len() && (#[trigger] after.jobs[k]).id == id;
            let p = if k < i { k } else { k + 1 };
            assert(after.jobs[k] == s.jobs[p]);
        }
        if other != id {
            if after.running(other) {
                let k = choose|k: int| 0 <= k < after.jobs.len() && (#[trigger] after.jobs[k]).id == other;
                let p = if k < i { k } else { k + 1 };
                assert(s.jobs[p].id == other);
            }
            if s.running(other) {
                let k = choose|k: int| 0 <= k < s.jobs.len() && (#[trigger] s.jobs[k]).id == other;
                let p = if k < i { k } else { k - 1 };
                assert(after.jobs[p].id == other);
            }
        }
    } else {
        lemma_without_none(s.jobs, id);
    }
}

} // verus!
