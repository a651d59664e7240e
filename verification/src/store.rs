//! A model of the tables of the database and of the statements on them: keeping a webhook,
//! claiming deliveries that are due, keeping an attempt. What is proved here is proved of the
//! model. The statements themselves are the program's SQL, which nothing here reads: that they do
//! what the model says is for their author to see to. The model keeps times as they are given;
//! the database keeps them to the microsecond.

use crate::db::{
    kept_attempt, optional_header, settled_jobs, settled_outcome, AttemptRecord, AttemptRow,
    ClaimedJob, EnqueueOutcome, EnqueuePlan, EventRow, JobRow, JobStatus, JobUpdate,
};
use crate::headers::entries_of;
use crate::instant::later;
use crate::resend::ResendEventForRouting;
use crate::text::text_option;
use axum::http::HeaderMap;
use vstd::prelude::*;

verus! {

/// A delivery in its table.
pub struct JobState {
    pub event_id: u128,
    pub destination_name: Seq<char>,
    pub destination_url: Seq<char>,
    pub status: JobStatus,
    pub attempt_count: i32,
    pub next_attempt_at: i128,
    pub deadline_at: i128,
    pub last_attempt_at: Option<i128>,
    pub last_status_code: Option<i32>,
    pub last_error: Option<Seq<char>>,
    pub completed_at: Option<i128>,
    pub locked_at: Option<i128>,
    pub locked_by: Option<Seq<char>>,
    pub created_at: i128,
    pub updated_at: i128,
}

/// The tables: webhooks by the identifier of their origin, deliveries by their own identifier,
/// and attempts.
pub struct Tables {
    pub events: Map<Seq<char>, EventRow>,
    pub jobs: Map<u128, JobState>,
    pub attempts: Seq<AttemptRow>,
}

/// A delivery as it is first kept.
pub open spec fn first_state(row: JobRow) -> JobState {
    JobState {
        event_id: row.event_id,
        destination_name: row.destination_name@,
        destination_url: row.destination_url@,
        status: row.status,
        attempt_count: row.attempt_count,
        next_attempt_at: row.next_attempt_at,
        deadline_at: row.deadline_at,
        last_attempt_at: None,
        last_status_code: None,
        last_error: None,
        completed_at: None,
        locked_at: None,
        locked_by: None,
        created_at: row.created_at,
        updated_at: row.updated_at,
    }
}

/// The deliveries with the rows added.
pub open spec fn with_rows(jobs: Map<u128, JobState>, rows: Seq<JobRow>) -> Map<u128, JobState>
    decreases rows.len(),
{
    if rows.len() == 0 {
        jobs
    } else {
        with_rows(jobs, rows.drop_last()).insert(rows.last().id, first_state(rows.last()))
    }
}

impl Tables {
    /// What the insertion of a webhook gives back: its identifier; nothing, where one of the same
    /// origin is kept already.
    pub open spec fn insertion(self, event: EventRow) -> Option<u128> {
        if self.events.dom().contains(event.source_svix_id@) {
            None
        } else {
            Some(event.id)
        }
    }

    /// The tables after a webhook came in, and what has become of it. All is kept, or nothing.
    pub open spec fn enqueued(self, plan: EnqueuePlan) -> (Tables, EnqueueOutcome) {
        let inserted = self.insertion(plan.event);
        let after = if inserted is Some {
            Tables {
                events: self.events.insert(plan.event.source_svix_id@, plan.event),
                jobs: with_rows(self.jobs, settled_jobs(plan.jobs@, inserted)),
                attempts: self.attempts,
            }
        } else {
            self
        };
        (after, settled_outcome(inserted))
    }

    /// Whether all identifiers of the plan are new and different.
    pub open spec fn has_room_for(self, plan: EnqueuePlan) -> bool {
        &&& forall|origin: Seq<char>| #[trigger]
            self.events.dom().contains(origin) ==> self.events[origin].id != plan.event.id
        &&& forall|i: int|
            0 <= i < plan.jobs@.len() ==> !self.jobs.dom().contains((#[trigger] plan.jobs@[i]).id)
        &&& forall|i: int, j: int|
            0 <= i < j < plan.jobs@.len() ==> (#[trigger] plan.jobs@[i]).id != (
            #[trigger] plan.jobs@[j]).id
    }
}

/// Whether a delivery is due: it waits and its time has come, or the lock of who had it is stale.
pub open spec fn is_due(job: JobState, stale_lock_secs: i64, now: i128) -> bool {
    ||| (job.status == JobStatus::Queued || job.status == JobStatus::Retrying)
        && job.next_attempt_at <= now
    ||| job.status == JobStatus::Delivering && job.locked_at is Some && later(
        job.locked_at->Some_0 as int,
        stale_lock_secs as int,
    ) < now
}

/// The delivery once the worker has it.
pub open spec fn claimed(job: JobState, worker: Seq<char>, now: i128) -> JobState {
    JobState {
        status: JobStatus::Delivering,
        locked_at: Some(now),
        locked_by: Some(worker),
        updated_at: now,
        ..job
    }
}

impl Tables {
    /// Whether a worker may come to have just these deliveries: they are due, and not too many.
    pub open spec fn may_claim(
        self,
        ids: Set<u128>,
        limit: i64,
        stale_lock_secs: i64,
        now: i128,
    ) -> bool {
        &&& ids.finite() && ids.len() <= limit
        &&& forall|id: u128| #[trigger]
            ids.contains(id) ==> self.jobs.dom().contains(id) && is_due(
                self.jobs[id],
                stale_lock_secs,
                now,
            )
    }

    /// Whether the deliveries are those that a worker comes to have where no other one claims at
    /// the same time: the earliest that are due, as many as it may have. A due delivery is left
    /// only where the worker has its number of others, none of which is due later.
    pub open spec fn takes_earliest(
        self,
        ids: Set<u128>,
        limit: i64,
        stale_lock_secs: i64,
        now: i128,
    ) -> bool {
        forall|left: u128| #[trigger]
            self.jobs.dom().contains(left) && !ids.contains(left) && is_due(
                self.jobs[left],
                stale_lock_secs,
                now,
            ) ==> ids.len() == limit && forall|id: u128| #[trigger]
                ids.contains(id) ==> self.jobs[id].next_attempt_at
                    <= self.jobs[left].next_attempt_at
    }

    /// Whether a worker that claims with no other one at the same time may come to have just
    /// these deliveries.
    pub open spec fn may_claim_alone(
        self,
        ids: Set<u128>,
        limit: i64,
        stale_lock_secs: i64,
        now: i128,
    ) -> bool {
        &&& self.may_claim(ids, limit, stale_lock_secs, now)
        &&& self.takes_earliest(ids, limit, stale_lock_secs, now)
    }

    /// The tables once the worker has the deliveries.
    pub open spec fn after_claim(self, ids: Set<u128>, worker: Seq<char>, now: i128) -> Tables {
        Tables {
            jobs: Map::new(
                |id: u128| self.jobs.dom().contains(id),
                |id: u128|
                    if ids.contains(id) {
                        claimed(self.jobs[id], worker, now)
                    } else {
                        self.jobs[id]
                    },
            ),
            ..self
        }
    }

    /// Whether the worker is handed the delivery as the tables have it, with the webhook that it
    /// belongs to.
    pub open spec fn hands_out(self, job: ClaimedJob) -> bool {
        &&& self.jobs.dom().contains(job.id)
        &&& job.event_id == self.jobs[job.id].event_id
        &&& job.destination_name@ == self.jobs[job.id].destination_name
        &&& job.destination_url@ == self.jobs[job.id].destination_url
        &&& job.attempt_count == self.jobs[job.id].attempt_count
        &&& job.deadline_at == self.jobs[job.id].deadline_at
        &&& self.jobs[job.id].locked_by == Some(job.locked_by@)
        &&& exists|origin: Seq<char>| #[trigger]
            self.events.dom().contains(origin) && {
                &&& self.events[origin].id == job.event_id
                &&& self.events[origin].raw_body@ == job.raw_body@
                &&& self.events[origin].headers == job.headers
            }
    }
}

/// Whether the change is made to the delivery: it is being delivered, by who wants to change it.
pub open spec fn applies(update: JobUpdate, job: JobState) -> bool {
    job.status == JobStatus::Delivering && job.locked_by == Some(update.held_by@)
}

/// The delivery after the change. The lock is given up.
pub open spec fn updated(update: JobUpdate, job: JobState) -> JobState {
    JobState {
        status: update.status,
        attempt_count: update.attempt_count,
        next_attempt_at: match update.next_attempt_at {
            Some(due) => due,
            None => job.next_attempt_at,
        },
        last_attempt_at: Some(update.last_attempt_at),
        last_status_code: update.last_status_code,
        last_error: text_option(update.last_error),
        completed_at: match update.completed_at {
            Some(end) => Some(end),
            None => job.completed_at,
        },
        locked_at: None,
        locked_by: None,
        updated_at: update.last_attempt_at,
        ..job
    }
}

impl Tables {
    /// How many rows the change of a delivery affects.
    pub open spec fn rows_affected(self, update: JobUpdate) -> u64 {
        if self.jobs.dom().contains(update.job_id) && applies(update, self.jobs[update.job_id]) {
            1
        } else {
            0
        }
    }

    /// The tables after an attempt was to be kept, and the number under which it was. All is kept,
    /// or nothing.
    pub open spec fn recorded(self, record: AttemptRecord) -> (Tables, Option<i32>) {
        let rows = self.rows_affected(record.update);
        let id = record.update.job_id;
        let after = if rows == 0 {
            self
        } else {
            Tables {
                jobs: self.jobs.insert(id, updated(record.update, self.jobs[id])),
                attempts: self.attempts.push(record.attempt),
                ..self
            }
        };
        (after, kept_attempt(record, rows))
    }
}

/// Whether the delivery is at its end.
pub open spec fn is_over(job: JobState) -> bool {
    job.status == JobStatus::Succeeded || job.status == JobStatus::Failed
}

/// Something that is done to the tables.
pub enum Statement {
    Enqueue { plan: EnqueuePlan },
    Claim { ids: Set<u128>, worker: Seq<char>, limit: i64, stale_lock_secs: i64, now: i128 },
    Record { record: AttemptRecord },
}

impl Tables {
    /// Whether the statement can be carried out on the tables.
    pub open spec fn takes(self, statement: Statement) -> bool {
        match statement {
            Statement::Enqueue { plan } => self.has_room_for(plan),
            Statement::Claim { ids, worker, limit, stale_lock_secs, now } => self.may_claim(
                ids,
                limit,
                stale_lock_secs,
                now,
            ),
            Statement::Record { record } => true,
        }
    }

    /// The tables after the statement.
    pub open spec fn after(self, statement: Statement) -> Tables {
        match statement {
            Statement::Enqueue { plan } => self.enqueued(plan).0,
            Statement::Claim { ids, worker, limit, stale_lock_secs, now } => self.after_claim(
                ids,
                worker,
                now,
            ),
            Statement::Record { record } => self.recorded(record).0,
        }
    }

    /// Whether the statements can be carried out one after the other.
    pub open spec fn takes_all(self, statements: Seq<Statement>) -> bool
        decreases statements.len(),
    {
        statements.len() == 0 || (self.takes_all(statements.drop_last()) && self.after_all(
            statements.drop_last(),
        ).takes(statements.last()))
    }

    /// The tables after the statements.
    pub open spec fn after_all(self, statements: Seq<Statement>) -> Tables
        decreases statements.len(),
    {
        if statements.len() == 0 {
            self
        } else {
            self.after_all(statements.drop_last()).after(statements.last())
        }
    }

    /// Whether no two webhooks have the same identifier.
    pub open spec fn is_well_formed(self) -> bool {
        forall|a: Seq<char>, b: Seq<char>| #[trigger]
            self.events.dom().contains(a) && #[trigger] self.events.dom().contains(b)
                && self.events[a].id == self.events[b].id ==> a == b
    }
}

/// What stays of a delivery for all time: what it delivers, to where, and until when.
pub open spec fn same_delivery(a: JobState, b: JobState) -> bool {
    &&& a.event_id == b.event_id
    &&& a.destination_name == b.destination_name
    &&& a.destination_url == b.destination_url
    &&& a.deadline_at == b.deadline_at
    &&& a.created_at == b.created_at
}

/// Nothing that is kept is lost: whatever is done, a webhook stays as it came, a delivery keeps
/// its webhook, its destination and its deadline, and one that is at its end stays as it is.
pub proof fn nothing_kept_is_lost(tables: Tables, statements: Seq<Statement>)
    requires
        tables.takes_all(statements),
    ensures
        ({
            let after = tables.after_all(statements);
            &&& forall|origin: Seq<char>| #[trigger]
                tables.events.dom().contains(origin) ==> after.events.dom().contains(origin)
                    && after.events[origin] == tables.events[origin]
            &&& forall|id: u128| #[trigger]
                tables.jobs.dom().contains(id) ==> after.jobs.dom().contains(id) && same_delivery(
                    after.jobs[id],
                    tables.jobs[id],
                )
            &&& forall|id: u128| #[trigger]
                tables.jobs.dom().contains(id) && is_over(tables.jobs[id]) ==> after.jobs[id]
                    == tables.jobs[id]
        }),
    decreases statements.len(),
{
    if statements.len() > 0 {
        let front = statements.drop_last();
        nothing_kept_is_lost(tables, front);
        lemma_one_step(tables.after_all(front), statements.last());
    }
}

proof fn lemma_one_step(tables: Tables, statement: Statement)
    requires
        tables.takes(statement),
    ensures
        ({
            let after = tables.after(statement);
            &&& forall|origin: Seq<char>| #[trigger]
                tables.events.dom().contains(origin) ==> after.events.dom().contains(origin)
                    && after.events[origin] == tables.events[origin]
            &&& forall|id: u128| #[trigger]
                tables.jobs.dom().contains(id) ==> after.jobs.dom().contains(id) && same_delivery(
                    after.jobs[id],
                    tables.jobs[id],
                )
            &&& forall|id: u128| #[trigger]
                tables.jobs.dom().contains(id) && is_over(tables.jobs[id]) ==> after.jobs[id]
                    == tables.jobs[id]
            &&& tables.is_well_formed() ==> after.is_well_formed()
        }),
{
    match statement {
        Statement::Enqueue { plan } => {
            let inserted = tables.insertion(plan.event);
            if inserted is Some {
                let rows = settled_jobs(plan.jobs@, inserted);
                assert forall|i: int| 0 <= i < rows.len() implies !tables.jobs.dom().contains(
                    (#[trigger] rows[i]).id,
                ) by {
                    assert(rows[i].id == plan.jobs@[i].id);
                }
                lemma_with_rows(tables.jobs, rows);
            }
        },
        Statement::Claim { .. } => {},
        Statement::Record { .. } => {},
    }
}

proof fn lemma_with_rows(jobs: Map<u128, JobState>, rows: Seq<JobRow>)
    requires
        forall|i: int| 0 <= i < rows.len() ==> !jobs.dom().contains((#[trigger] rows[i]).id),
    ensures
        forall|id: u128| #[trigger]
            jobs.dom().contains(id) ==> with_rows(jobs, rows).dom().contains(id) && with_rows(
                jobs,
                rows,
            )[id] == jobs[id],
        (forall|i: int, j: int|
            0 <= i < j < rows.len() ==> (#[trigger] rows[i]).id != (#[trigger] rows[j]).id)
            ==> forall|i: int|
            0 <= i < rows.len() ==> with_rows(jobs, rows).dom().contains((#[trigger] rows[i]).id)
                && with_rows(jobs, rows)[rows[i].id] == first_state(rows[i]),
    decreases rows.len(),
{
    if rows.len() > 0 {
        let front = rows.drop_last();
        assert forall|i: int| 0 <= i < front.len() implies !jobs.dom().contains(
            (#[trigger] front[i]).id,
        ) by {
            assert(front[i] == rows[i]);
        }
        lemma_with_rows(jobs, front);
        assert(rows.last() == rows[rows.len() - 1]);
        if forall|i: int, j: int|
            0 <= i < j < rows.len() ==> (#[trigger] rows[i]).id != (#[trigger] rows[j]).id {
            assert forall|i: int, j: int| 0 <= i < j < front.len() implies (
            #[trigger] front[i]).id != (#[trigger] front[j]).id by {
                assert(front[i] == rows[i] && front[j] == rows[j]);
            }
            assert forall|i: int| 0 <= i < rows.len() implies with_rows(jobs, rows).dom().contains(
                (#[trigger] rows[i]).id,
            ) && with_rows(jobs, rows)[rows[i].id] == first_state(rows[i]) by {
                if i < front.len() {
                    assert(front[i] == rows[i]);
                    assert(rows[i].id != rows[rows.len() - 1].id);
                }
            }
        }
    }
}

/// A webhook that is new is kept with all its deliveries before it is reported as inserted.
pub proof fn new_webhook_is_kept_whole(tables: Tables, plan: EnqueuePlan)
    requires
        tables.has_room_for(plan),
        !tables.events.dom().contains(plan.event.source_svix_id@),
    ensures
        ({
            let (after, outcome) = tables.enqueued(plan);
            &&& outcome == EnqueueOutcome::Inserted(plan.event.id)
            &&& after.events.dom().contains(plan.event.source_svix_id@)
            &&& after.events[plan.event.source_svix_id@] == plan.event
            &&& forall|i: int|
                0 <= i < plan.jobs@.len() ==> {
                    let row = #[trigger] plan.jobs@[i];
                    &&& after.jobs.dom().contains(row.id)
                    &&& after.jobs[row.id] == first_state(row.of_event(plan.event.id))
                }
        }),
{
    let inserted = tables.insertion(plan.event);
    let rows = settled_jobs(plan.jobs@, inserted);
    assert forall|i: int| 0 <= i < rows.len() implies !tables.jobs.dom().contains(
        (#[trigger] rows[i]).id,
    ) by {
        assert(rows[i].id == plan.jobs@[i].id);
    }
    assert forall|i: int, j: int| 0 <= i < j < rows.len() implies (#[trigger] rows[i]).id != (
    #[trigger] rows[j]).id by {
        assert(rows[i].id == plan.jobs@[i].id && rows[j].id == plan.jobs@[j].id);
    }
    lemma_with_rows(tables.jobs, rows);
    assert forall|i: int| 0 <= i < plan.jobs@.len() implies {
        let row = #[trigger] plan.jobs@[i];
        &&& tables.enqueued(plan).0.jobs.dom().contains(row.id)
        &&& tables.enqueued(plan).0.jobs[row.id] == first_state(row.of_event(plan.event.id))
    } by {
        assert(rows[i] == plan.jobs@[i].of_event(plan.event.id));
    }
}

/// A webhook that comes again is a duplicate: once one with the same `svix-id` has been kept,
/// whatever was done since, another one changes nothing, whatever else it says.
pub proof fn second_webhook_changes_nothing(
    tables: Tables,
    plan: EnqueuePlan,
    headers: HeaderMap,
    body: Seq<u8>,
    event: ResendEventForRouting,
    count: usize,
    now: i128,
    since: Seq<Statement>,
    again: EnqueuePlan,
    again_headers: HeaderMap,
    again_body: Seq<u8>,
    again_event: ResendEventForRouting,
    again_count: usize,
    again_now: i128,
)
    requires
        plan.event.keeps(headers, body, event, count, now),
        again.event.keeps(again_headers, again_body, again_event, again_count, again_now),
        optional_header(entries_of(headers), "svix-id"@) == optional_header(
            entries_of(again_headers),
            "svix-id"@,
        ),
        tables.enqueued(plan).0.takes_all(since),
    ensures
        ({
            let before = tables.enqueued(plan).0.after_all(since);
            before.enqueued(again) == (before, EnqueueOutcome::Duplicate)
        }),
{
    let kept = tables.enqueued(plan).0;
    nothing_kept_is_lost(kept, since);
    assert(kept.events.dom().contains(plan.event.source_svix_id@));
    assert(plan.event.source_svix_id@ == again.event.source_svix_id@);
}

/// Once an attempt is kept, its delivery is not held any more: until it is claimed again, nothing
/// else is kept for it, whoever wants to.
pub proof fn attempt_is_kept_once(tables: Tables, record: AttemptRecord, again: AttemptRecord)
    requires
        tables.recorded(record).1 is Some,
        record.update.status != JobStatus::Delivering,
        again.update.job_id == record.update.job_id,
    ensures
        ({
            let after = tables.recorded(record).0;
            after.recorded(again) == (after, None::<i32>)
        }),
{
}

/// A delivery that has come to its end, with success or for good, is over: whatever is done
/// since, it keeps its status and the number of its attempts, is never due, and nothing else is
/// kept for it.
pub proof fn completed_delivery_is_over(
    tables: Tables,
    job: ClaimedJob,
    record: AttemptRecord,
    status_code: Option<u16>,
    error: Option<String>,
    duration_ms: i64,
    now: i128,
    since: Seq<Statement>,
    again: AttemptRecord,
    stale_lock_secs: i64,
    any_time: i128,
)
    requires
        record.records(job, status_code, error, duration_ms, now),
        record.completes(JobStatus::Succeeded, now) || record.completes(JobStatus::Failed, now),
        tables.recorded(record).1 is Some,
        tables.recorded(record).0.takes_all(since),
        again.update.job_id == job.id,
    ensures
        ({
            let after = tables.recorded(record).0.after_all(since);
            &&& after.jobs.dom().contains(job.id)
            &&& after.jobs[job.id].status == record.update.status
            &&& after.jobs[job.id].attempt_count == job.attempt_count + 1
            &&& after.jobs[job.id].completed_at == Some(now)
            &&& !is_due(after.jobs[job.id], stale_lock_secs, any_time)
            &&& after.recorded(again) == (after, None::<i32>)
        }),
{
    let kept = tables.recorded(record).0;
    assert(kept.jobs.dom().contains(job.id) && is_over(kept.jobs[job.id]));
    nothing_kept_is_lost(kept, since);
}

/// A delivery that is to be retried waits until the time that was set, and is due from then on.
pub proof fn retried_delivery_is_due_at_its_time(
    tables: Tables,
    record: AttemptRecord,
    next_attempt_at: i128,
    stale_lock_secs: i64,
    now: i128,
)
    requires
        record.retries_at(next_attempt_at),
        tables.recorded(record).1 is Some,
    ensures
        is_due(
            tables.recorded(record).0.jobs[record.update.job_id],
            stale_lock_secs,
            now,
        ) <==> next_attempt_at <= now,
{
}

/// A delivery that a worker has claimed is due to no other worker before its lock is stale, and
/// the worker can keep its attempt.
pub proof fn claimed_delivery_is_held(
    tables: Tables,
    ids: Set<u128>,
    worker: Seq<char>,
    limit: i64,
    claimed_at: i128,
    id: u128,
    update: JobUpdate,
    stale_lock_secs: i64,
    now: i128,
)
    requires
        tables.may_claim(ids, limit, stale_lock_secs, claimed_at),
        ids.contains(id),
        update.job_id == id,
    ensures
        ({
            let after = tables.after_claim(ids, worker, claimed_at);
            &&& is_due(after.jobs[id], stale_lock_secs, now) <==> later(
                claimed_at as int,
                stale_lock_secs as int,
            ) < now
            &&& after.rows_affected(update) == 1 <==> update.held_by@ == worker
        }),
{
}

/// A worker that claims alone and comes to have fewer deliveries than it may has all that are due.
/// So one that comes to have none finds nothing due.
pub proof fn unused_limit_leaves_nothing_due(
    tables: Tables,
    ids: Set<u128>,
    limit: i64,
    stale_lock_secs: i64,
    now: i128,
    id: u128,
)
    requires
        tables.may_claim_alone(ids, limit, stale_lock_secs, now),
        ids.len() < limit,
        tables.jobs.dom().contains(id),
    ensures
        ids.contains(id) <==> is_due(tables.jobs[id], stale_lock_secs, now),
{
}

/// A worker that claims alone, and may have a delivery at all, comes to have the one that is due
/// before all others.
pub proof fn earliest_due_delivery_is_claimed(
    tables: Tables,
    ids: Set<u128>,
    limit: i64,
    stale_lock_secs: i64,
    now: i128,
    first: u128,
)
    requires
        tables.may_claim_alone(ids, limit, stale_lock_secs, now),
        limit > 0,
        tables.jobs.dom().contains(first),
        is_due(tables.jobs[first], stale_lock_secs, now),
        forall|id: u128| #[trigger]
            tables.jobs.dom().contains(id) && id != first && is_due(
                tables.jobs[id],
                stale_lock_secs,
                now,
            ) ==> tables.jobs[first].next_attempt_at < tables.jobs[id].next_attempt_at,
    ensures
        ids.contains(first),
{
    if !ids.contains(first) {
        let other = ids.choose();
        assert(ids.contains(other));
        assert(tables.jobs.dom().contains(other));
    }
}

/// There is always something that a worker may come to have where it claims alone.
pub proof fn claim_alone_is_possible(
    tables: Tables,
    limit: i64,
    stale_lock_secs: i64,
    now: i128,
)
    requires
        tables.jobs.dom().finite(),
        limit >= 0,
    ensures
        exists|ids: Set<u128>| #[trigger]
            tables.may_claim_alone(ids, limit, stale_lock_secs, now),
    decreases limit,
{
    if limit == 0 {
        let none = Set::<u128>::empty();
        assert(tables.may_claim_alone(none, limit, stale_lock_secs, now));
    } else {
        let fewer = (limit - 1) as i64;
        claim_alone_is_possible(tables, fewer, stale_lock_secs, now);
        let ids = choose|ids: Set<u128>| #[trigger]
            tables.may_claim_alone(ids, fewer, stale_lock_secs, now);
        let left = tables.jobs.dom().filter(
            |id: u128| !ids.contains(id) && is_due(tables.jobs[id], stale_lock_secs, now),
        );
        if left.len() == 0 {
            assert forall|id: u128| #[trigger] tables.jobs.dom().contains(id) && !ids.contains(
                id,
            ) implies !is_due(tables.jobs[id], stale_lock_secs, now) by {
                if is_due(tables.jobs[id], stale_lock_secs, now) {
                    assert(left.contains(id));
                }
            }
            assert(tables.may_claim_alone(ids, limit, stale_lock_secs, now));
        } else {
            let next = lemma_earliest(tables.jobs, left);
            let more = ids.insert(next);
            assert(left.contains(next));
            assert(ids.len() == fewer);
            assert forall|id: u128| #[trigger] tables.jobs.dom().contains(id) && !more.contains(
                id,
            ) && is_due(tables.jobs[id], stale_lock_secs, now) implies more.len() == limit
                && forall|c: u128| #[trigger]
                more.contains(c) ==> tables.jobs[c].next_attempt_at
                    <= tables.jobs[id].next_attempt_at by {
                assert(left.contains(id));
                assert forall|c: u128| #[trigger] more.contains(c) implies tables.jobs[c].next_attempt_at
                    <= tables.jobs[id].next_attempt_at by {
                    if c != next {
                        assert(ids.contains(c));
                    }
                }
            }
            assert(tables.may_claim_alone(more, limit, stale_lock_secs, now));
        }
    }
}

/// One of the deliveries is due no later than any other of them.
proof fn lemma_earliest(jobs: Map<u128, JobState>, ids: Set<u128>) -> (first: u128)
    requires
        ids.finite(),
        ids.len() > 0,
    ensures
        ids.contains(first),
        forall|id: u128| #[trigger]
            ids.contains(id) ==> jobs[first].next_attempt_at <= jobs[id].next_attempt_at,
    decreases ids.len(),
{
    let one = ids.choose();
    let rest = ids.remove(one);
    assert(ids.contains(one));
    if rest.len() == 0 {
        assert forall|id: u128| #[trigger] ids.contains(id) implies id == one by {
            if id != one {
                assert(rest.contains(id));
            }
        }
        one
    } else {
        let other = lemma_earliest(jobs, rest);
        let first = if jobs[one].next_attempt_at <= jobs[other].next_attempt_at {
            one
        } else {
            other
        };
        assert forall|id: u128| #[trigger] ids.contains(id) implies jobs[first].next_attempt_at
            <= jobs[id].next_attempt_at by {
            if id != one {
                assert(rest.contains(id));
            }
        }
        first
    }
}

/// The body that a worker is handed for a delivery is the body of the webhook as it came in,
/// whatever was done since.
pub proof fn handed_out_body_is_the_received_one(
    tables: Tables,
    plan: EnqueuePlan,
    since: Seq<Statement>,
    i: int,
    job: ClaimedJob,
)
    requires
        tables.is_well_formed(),
        tables.has_room_for(plan),
        !tables.events.dom().contains(plan.event.source_svix_id@),
        tables.enqueued(plan).0.takes_all(since),
        0 <= i < plan.jobs@.len(),
        job.id == plan.jobs@[i].id,
        tables.enqueued(plan).0.after_all(since).hands_out(job),
    ensures
        job.raw_body@ == plan.event.raw_body@,
        job.headers == plan.event.headers,
        job.destination_url@ == plan.jobs@[i].destination_url@,
        job.deadline_at == plan.jobs@[i].deadline_at,
{
    let kept = tables.enqueued(plan).0;
    let after = kept.after_all(since);
    let own = plan.event.source_svix_id@;
    new_webhook_is_kept_whole(tables, plan);
    assert(kept.jobs[plan.jobs@[i].id] == first_state(plan.jobs@[i].of_event(plan.event.id)));
    lemma_one_step(tables, Statement::Enqueue { plan });
    lemma_well_formed(kept, since);
    nothing_kept_is_lost(kept, since);
    let origin = choose|origin: Seq<char>| #[trigger]
        after.events.dom().contains(origin) && {
            &&& after.events[origin].id == job.event_id
            &&& after.events[origin].raw_body@ == job.raw_body@
            &&& after.events[origin].headers == job.headers
        };
    assert(kept.jobs.dom().contains(job.id));
    assert(after.events.dom().contains(own));
    assert(origin == own);
}

proof fn lemma_well_formed(tables: Tables, statements: Seq<Statement>)
    requires
        tables.is_well_formed(),
        tables.takes_all(statements),
    ensures
        tables.after_all(statements).is_well_formed(),
    decreases statements.len(),
{
    if statements.len() > 0 {
        lemma_well_formed(tables, statements.drop_last());
        lemma_one_step(tables.after_all(statements.drop_last()), statements.last());
    }
}

} // verus!
