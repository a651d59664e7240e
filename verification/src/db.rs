//! What the router keeps in its database.

use crate::config::{DestinationConfig, DestinationView};
use crate::error::{AppError, AppResult, ErrorView};
use crate::headers::{
    entries_of, entry_list, entry_views, first_value, header_bytes, header_text, is_plain_name,
    visible_text,
};
use crate::instant::{after_secs, is_instant, later};
use crate::json::{
    array_value, insert_member, items, items_mut, json_of, member, member_mut, members_of,
    no_members, object_value, take, text, text_value, trees, JsonTree,
};
use crate::resend::ResendEventForRouting;
use crate::text::{chars_of, copied_option, lower, lowered, text_option};
use axum::http::HeaderMap;
use serde_json::Value;
use vstd::prelude::*;

verus! {

/// What is kept of the value of a header.
pub open spec fn kept_value(bytes: Seq<u8>) -> Seq<char> {
    match visible_text(bytes) {
        Some(text) => text,
        None => "<non-utf8>"@,
    }
}

/// What is kept of the headers of that name in small letters, in their order.
pub open spec fn kept_values(entries: Seq<(Seq<char>, Seq<u8>)>, key: Seq<char>) -> Seq<Seq<char>>
    decreases entries.len(),
{
    if entries.len() == 0 {
        Seq::empty()
    } else {
        let rest = kept_values(entries.drop_last(), key);
        if lower(entries.last().0) == key {
            rest.push(kept_value(entries.last().1))
        } else {
            rest
        }
    }
}

/// The JSON for the values of one name: the text, or an array where there are more.
pub open spec fn kept_member(values: Seq<Seq<char>>) -> JsonTree {
    if values.len() == 1 {
        JsonTree::Text(values[0])
    } else {
        JsonTree::Array(Seq::new(values.len(), |i: int| JsonTree::Text(values[i])))
    }
}

/// The members of the JSON object for the headers: one for each name in small letters.
pub open spec fn kept_members(entries: Seq<(Seq<char>, Seq<u8>)>) -> Map<Seq<char>, JsonTree> {
    Map::new(
        |key: Seq<char>| kept_values(entries, key).len() > 0,
        |key: Seq<char>| kept_member(kept_values(entries, key)),
    )
}

/// The headers as a JSON object.
pub fn headers_to_json(headers: &HeaderMap) -> (r: Value)
    ensures
        json_of(r) == JsonTree::Object(kept_members(entries_of(*headers))),
{
    let list: Vec<(String, Vec<u8>)> = entry_list(headers);
    let ghost entries = entry_views(list@);
    let mut map = no_members();
    let mut i: usize = 0;
    assert(members_of(map) =~= kept_members(entries.take(0)));
    while i < list.len()
        invariant
            i <= list@.len(),
            entries == entry_views(list@),
            members_of(map) == kept_members(entries.take(i as int)),
        decreases list@.len() - i,
    {
        let name: Vec<char> = chars_of(list[i].0.as_str());
        let header_name: String = lowered(name.as_slice());
        let header_value: String = match header_text(&list[i].1) {
            Some(text) => text,
            None => "<non-utf8>".to_owned(),
        };
        insert_header_value(&mut map, header_name, header_value);
        proof {
            let before = entries.take(i as int);
            let next = entries.take(i + 1);
            assert(next.drop_last() =~= before);
            assert(next.last() == (list@[i as int].0@, list@[i as int].1@));
            lemma_kept_insert(before, next, header_name@, header_value@);
        }
        i += 1;
    }
    assert(entries.take(i as int) =~= entries);
    object_value(map)
}

/// The members with one more value for the name.
pub open spec fn with_value(
    members: Map<Seq<char>, JsonTree>,
    key: Seq<char>,
    value: Seq<char>,
) -> Map<Seq<char>, JsonTree> {
    let new = JsonTree::Text(value);
    if !members.dom().contains(key) {
        members.insert(key, new)
    } else {
        match members[key].items() {
            Some(items) => members.insert(key, JsonTree::Array(items.push(new))),
            None => members.insert(key, JsonTree::Array(seq![members[key], new])),
        }
    }
}

/// One more header adds its value to those of its name.
pub proof fn lemma_kept_insert(
    before: Seq<(Seq<char>, Seq<u8>)>,
    next: Seq<(Seq<char>, Seq<u8>)>,
    key: Seq<char>,
    value: Seq<char>,
)
    requires
        next.len() > 0,
        next.drop_last() == before,
        lower(next.last().0) == key,
        kept_value(next.last().1) == value,
    ensures
        with_value(kept_members(before), key, value) == kept_members(next),
{
    let old_values = kept_values(before, key);
    let values = old_values.push(value);
    assert(kept_values(next, key) == values);
    assert forall|k: Seq<char>| k != key implies kept_values(next, k) == kept_values(before, k) by {
    }
    let members = kept_members(before);
    let new = JsonTree::Text(value);
    if old_values.len() == 0 {
        assert(kept_member(values) == new);
    } else if old_values.len() == 1 {
        assert(members[key] == JsonTree::Text(old_values[0]));
        assert(seq![members[key], new] =~= Seq::new(
            values.len(),
            |i: int| JsonTree::Text(values[i]),
        ));
    } else {
        let items = Seq::new(old_values.len(), |i: int| JsonTree::Text(old_values[i]));
        assert(members[key] == JsonTree::Array(items));
        assert(items.push(new) =~= Seq::new(values.len(), |i: int| JsonTree::Text(values[i])));
    }
    assert(with_value(members, key, value) =~= kept_members(next));
}

fn insert_header_value(map: &mut serde_json::Map<String, Value>, key: String, value: String)
    ensures
        members_of(*final(map)) == with_value(members_of(*old(map)), key@, value@),
{
    let ghost before = members_of(*map);
    match member_mut(map, key.as_str()) {
        Some(existing) => {
            let new = text_value(value);
            match items_mut(existing) {
                Some(values) => {
                    let ghost old_trees = trees(values@);
                    values.push(new);
                    assert(trees(values@) =~= old_trees.push(JsonTree::Text(value@)));
                },
                None => {
                    let previous = take(existing);
                    let mut both: Vec<Value> = Vec::new();
                    both.push(previous);
                    both.push(new);
                    assert(trees(both@) =~= seq![before[key@], JsonTree::Text(value@)]);
                    *existing = array_value(both);
                },
            }
        },
        None => {
            insert_member(map, key, text_value(value));
        },
    }
}

/// The value of a header in the kept JSON: the text, or the first one of an array.
pub open spec fn header_in(tree: JsonTree, name: Seq<char>) -> Option<Seq<char>> {
    match tree.member(lower(name)) {
        Some(JsonTree::Text(text)) => Some(text),
        Some(JsonTree::Array(items)) => if items.len() > 0 {
            items[0].text()
        } else {
            None
        },
        _ => None,
    }
}

/// Reads a header from the kept JSON; the name may have capital letters.
pub fn header_value_from_json(headers: &Value, name: &str) -> (r: Option<String>)
    ensures
        text_option(r) == header_in(json_of(*headers), name@),
{
    let chars: Vec<char> = chars_of(name);
    let key: String = lowered(chars.as_slice());
    let value: &Value = match member(headers, key.as_str()) {
        Some(value) => value,
        None => return None,
    };
    match text(value) {
        Some(text) => return Some(text.to_owned()),
        None => {},
    }
    match items(value) {
        Some(values) => {
            if values.len() > 0 {
                match text(&values[0]) {
                    Some(text) => Some(text.to_owned()),
                    None => None,
                }
            } else {
                None
            }
        },
        None => None,
    }
}

/// What is kept of the first header of that name, in any mix of capital and small letters.
pub open spec fn first_kept(entries: Seq<(Seq<char>, Seq<u8>)>, name: Seq<char>) -> Option<Seq<char>>
    decreases entries.len(),
{
    if entries.len() == 0 {
        None
    } else if lower(entries[0].0) == lower(name) {
        Some(kept_value(entries[0].1))
    } else {
        first_kept(entries.drop_first(), name)
    }
}

/// Reading a header from the JSON that keeps the headers gives the first header of that name,
/// whatever letters are capital.
pub proof fn kept_header_reads_back(entries: Seq<(Seq<char>, Seq<u8>)>, name: Seq<char>)
    ensures
        header_in(JsonTree::Object(kept_members(entries)), name) == first_kept(entries, name),
{
    lemma_first_kept(entries, name);
    let values = kept_values(entries, lower(name));
    if values.len() > 1 {
        let items = Seq::new(values.len(), |i: int| JsonTree::Text(values[i]));
        assert(items[0] == JsonTree::Text(values[0]));
    }
}

proof fn lemma_first_kept(entries: Seq<(Seq<char>, Seq<u8>)>, name: Seq<char>)
    ensures
        first_kept(entries, name) == (if kept_values(entries, lower(name)).len() > 0 {
            Some(kept_values(entries, lower(name))[0])
        } else {
            None
        }),
    decreases entries.len(),
{
    if entries.len() == 1 {
        assert(entries.drop_last() =~= Seq::<(Seq<char>, Seq<u8>)>::empty());
        assert(entries.drop_first() =~= Seq::<(Seq<char>, Seq<u8>)>::empty());
        reveal_with_fuel(kept_values, 2);
        reveal_with_fuel(first_kept, 2);
    } else if entries.len() > 1 {
        let front = entries.drop_last();
        let back = entries.drop_first();
        lemma_first_kept(front, name);
        lemma_first_kept(back, name);
        lemma_first_kept(front.drop_first(), name);
        assert(front.drop_first() =~= back.drop_last());
        assert(front[0] == entries[0]);
        assert(back.last() == entries.last());
    }
}

/// The text of the first header of that name, where there is one and all of it is visible.
pub open spec fn optional_header(
    entries: Seq<(Seq<char>, Seq<u8>)>,
    name: Seq<char>,
) -> Option<Seq<char>> {
    match first_value(entries, name) {
        Some(bytes) => visible_text(bytes),
        None => None,
    }
}

fn header_to_string(headers: &HeaderMap, name: &str) -> (r: Option<String>)
    requires
        is_plain_name(name@),
    ensures
        text_option(r) == optional_header(entries_of(*headers), name@),
{
    match header_bytes(headers, name) {
        Some(bytes) => header_text(&bytes),
        None => None,
    }
}

/// How far the delivery of a webhook to a destination is.
#[derive(Debug, Clone, Copy, PartialEq, Eq)]
pub enum JobStatus {
    Queued,
    Delivering,
    Retrying,
    Succeeded,
    Failed,
}

impl JobStatus {
    /// The word that the database keeps.
    pub open spec fn word(self) -> Seq<char> {
        match self {
            JobStatus::Queued => "queued"@,
            JobStatus::Delivering => "delivering"@,
            JobStatus::Retrying => "retrying"@,
            JobStatus::Succeeded => "succeeded"@,
            JobStatus::Failed => "failed"@,
        }
    }

    /// The word that the database keeps.
    pub fn as_str(self) -> (r: &'static str)
        ensures
            r@ == self.word(),
    {
        match self {
            JobStatus::Queued => "queued",
            JobStatus::Delivering => "delivering",
            JobStatus::Retrying => "retrying",
            JobStatus::Succeeded => "succeeded",
            JobStatus::Failed => "failed",
        }
    }
}

/// A delivery that a worker has claimed. Instants are nanoseconds since 1970; identifiers are the
/// numbers of their UUIDs.
#[derive(Debug)]
pub struct ClaimedJob {
    pub id: u128,
    pub event_id: u128,
    pub destination_name: String,
    pub destination_url: String,
    pub attempt_count: i32,
    pub deadline_at: i128,
    pub locked_by: String,
    pub raw_body: Vec<u8>,
    pub headers: Value,
}

/// What has become of a webhook that was to be kept.
#[derive(Debug, Clone, Copy, PartialEq, Eq)]
pub enum EnqueueOutcome {
    Inserted(u128),
    Duplicate,
}

/// A webhook to be kept.
#[derive(Debug)]
pub struct EventRow {
    pub id: u128,
    pub source_svix_id: String,
    pub source_svix_timestamp: String,
    pub received_at: i128,
    pub resend_event_id: Option<String>,
    pub resend_event_type: Option<String>,
    pub raw_body: Vec<u8>,
    pub headers: Value,
    pub matched_destination_count: i32,
}

/// A delivery to be kept.
#[derive(Debug)]
pub struct JobRow {
    pub id: u128,
    pub event_id: u128,
    pub destination_name: String,
    pub destination_url: String,
    pub status: JobStatus,
    pub attempt_count: i32,
    pub next_attempt_at: i128,
    pub deadline_at: i128,
    pub created_at: i128,
    pub updated_at: i128,
}

/// A webhook to be kept, with a delivery for each destination.
#[derive(Debug)]
pub struct EnqueuePlan {
    pub event: EventRow,
    pub jobs: Vec<JobRow>,
}

impl EventRow {
    /// The row says what came in: who sent it and when, the body byte by byte, the headers.
    pub open spec fn keeps(
        self,
        headers: HeaderMap,
        body: Seq<u8>,
        event: ResendEventForRouting,
        destination_count: usize,
        now: i128,
    ) -> bool {
        &&& optional_header(entries_of(headers), "svix-id"@) == Some(self.source_svix_id@)
        &&& optional_header(entries_of(headers), "svix-timestamp"@) == Some(
            self.source_svix_timestamp@,
        )
        &&& self.received_at == now
        &&& self.resend_event_id == event.event_id
        &&& self.resend_event_type == event.event_type
        &&& self.raw_body@ == body
        &&& json_of(self.headers) == JsonTree::Object(kept_members(entries_of(headers)))
        &&& self.matched_destination_count == destination_count as i32
    }
}

impl JobRow {
    /// The row is a delivery of the webhook to the destination that has not begun: it is due at
    /// once.
    pub open spec fn is_new(
        self,
        id: u128,
        event_id: u128,
        destination: DestinationView,
        now: i128,
        deadline_at: int,
    ) -> bool {
        &&& self.id == id
        &&& self.event_id == event_id
        &&& self.destination_name@ == destination.name
        &&& self.destination_url@ == destination.url
        &&& self.status == JobStatus::Queued
        &&& self.attempt_count == 0
        &&& self.next_attempt_at == now
        &&& self.deadline_at == deadline_at
        &&& self.created_at == now
        &&& self.updated_at == now
    }
}

/// What is to be kept of a webhook that came in at `now`, under the given identifiers: the
/// webhook, and a delivery to each destination until the retry window ends.
pub fn plan_enqueue(
    event_row_id: u128,
    job_ids: &Vec<u128>,
    headers: &HeaderMap,
    body: &[u8],
    event: &ResendEventForRouting,
    destinations: &Vec<DestinationConfig>,
    retry_window: i64,
    now: i128,
) -> (r: AppResult<EnqueuePlan>)
    requires
        job_ids@.len() == destinations@.len(),
        is_instant(now as int),
        is_instant(later(now as int, retry_window as int)),
    ensures
        match r {
            Ok(plan) => {
                &&& plan.event.id == event_row_id
                &&& plan.event.keeps(*headers, body@, *event, destinations.len(), now)
                &&& plan.jobs@.len() == destinations@.len()
                &&& forall|i: int|
                    0 <= i < plan.jobs@.len() ==> (#[trigger] plan.jobs@[i]).is_new(
                        job_ids@[i],
                        event_row_id,
                        destinations@[i]@,
                        now,
                        later(now as int, retry_window as int),
                    )
            },
            Err(error) => if optional_header(entries_of(*headers), "svix-id"@) is None {
                error@ == ErrorView::BadRequest("missing svix-id"@)
            } else {
                &&& optional_header(entries_of(*headers), "svix-timestamp"@) is None
                &&& error@ == ErrorView::BadRequest("missing svix-timestamp"@)
            },
        },
{
    proof {
        reveal_strlit("svix-id");
        reveal_strlit("svix-timestamp");
    }
    let deadline_at: i128 = after_secs(now, retry_window);
    let headers_json: Value = headers_to_json(headers);
    let source_svix_id: String = match header_to_string(headers, "svix-id") {
        Some(text) => text,
        None => return Err(AppError::bad_request("missing svix-id".to_owned())),
    };
    let source_svix_timestamp: String = match header_to_string(headers, "svix-timestamp") {
        Some(text) => text,
        None => return Err(AppError::bad_request("missing svix-timestamp".to_owned())),
    };
    let mut raw_body: Vec<u8> = Vec::new();
    raw_body.extend_from_slice(body);
    assert(raw_body@ =~= body@);
    let event_row = EventRow {
        id: event_row_id,
        source_svix_id,
        source_svix_timestamp,
        received_at: now,
        resend_event_id: copied_option(&event.event_id),
        resend_event_type: copied_option(&event.event_type),
        raw_body,
        headers: headers_json,
        matched_destination_count: destinations.len() as i32,
    };
    let jobs: Vec<JobRow> = new_jobs(event_row_id, job_ids, destinations, now, deadline_at);
    Ok(EnqueuePlan { event: event_row, jobs })
}

fn new_jobs(
    event_id: u128,
    job_ids: &Vec<u128>,
    destinations: &Vec<DestinationConfig>,
    now: i128,
    deadline_at: i128,
) -> (r: Vec<JobRow>)
    requires
        job_ids@.len() == destinations@.len(),
    ensures
        r@.len() == destinations@.len(),
        forall|i: int|
            0 <= i < r@.len() ==> (#[trigger] r@[i]).is_new(
                job_ids@[i],
                event_id,
                destinations@[i]@,
                now,
                deadline_at as int,
            ),
{
    let mut jobs: Vec<JobRow> = Vec::new();
    let mut i: usize = 0;
    while i < destinations.len()
        invariant
            i <= destinations@.len(),
            job_ids@.len() == destinations@.len(),
            jobs@.len() == i,
            forall|j: int|
                0 <= j < i ==> (#[trigger] jobs@[j]).is_new(
                    job_ids@[j],
                    event_id,
                    destinations@[j]@,
                    now,
                    deadline_at as int,
                ),
        decreases destinations@.len() - i,
    {
        jobs.push(
            JobRow {
                id: job_ids[i],
                event_id,
                destination_name: destinations[i].name.clone(),
                destination_url: destinations[i].url.clone(),
                status: JobStatus::Queued,
                attempt_count: 0,
                next_attempt_at: now,
                deadline_at,
                created_at: now,
                updated_at: now,
            },
        );
        i += 1;
    }
    jobs
}

impl JobRow {
    /// The row for a webhook that is kept under that identifier.
    pub open spec fn of_event(self, event_id: u128) -> JobRow {
        JobRow { event_id, ..self }
    }
}

/// The deliveries that are left to be kept, by the identifier that the database gave back for the
/// webhook: all of them under that identifier, or none.
pub open spec fn settled_jobs(jobs: Seq<JobRow>, inserted: Option<u128>) -> Seq<JobRow> {
    match inserted {
        Some(id) => jobs.map_values(|row: JobRow| row.of_event(id)),
        None => Seq::empty(),
    }
}

/// What has become of a webhook, by the identifier that the database gave back for it.
pub open spec fn settled_outcome(inserted: Option<u128>) -> EnqueueOutcome {
    match inserted {
        Some(id) => EnqueueOutcome::Inserted(id),
        None => EnqueueOutcome::Duplicate,
    }
}

/// What is left to be kept once the database has kept the webhook, by the identifier that it
/// gave back: the deliveries, under that identifier. It gives none back where it had a webhook of
/// the same origin already; then nothing is left.
pub fn settle_enqueue(plan: EnqueuePlan, inserted: Option<u128>) -> (r: (
    Vec<JobRow>,
    EnqueueOutcome,
))
    ensures
        r.0@ == settled_jobs(plan.jobs@, inserted),
        r.1 == settled_outcome(inserted),
{
    match inserted {
        Some(id) => {
            let mut jobs: Vec<JobRow> = plan.jobs;
            let mut i: usize = 0;
            while i < jobs.len()
                invariant
                    i <= jobs@.len(),
                    jobs@.len() == plan.jobs@.len(),
                    forall|j: int| 0 <= j < i ==> #[trigger] jobs@[j] == plan.jobs@[j].of_event(id),
                    forall|j: int| i <= j < jobs@.len() ==> #[trigger] jobs@[j] == plan.jobs@[j],
                decreases jobs@.len() - i,
            {
                jobs[i].event_id = id;
                i += 1;
            }
            assert(jobs@ =~= plan.jobs@.map_values(|row: JobRow| row.of_event(id)));
            (jobs, EnqueueOutcome::Inserted(id))
        },
        None => (Vec::new(), EnqueueOutcome::Duplicate),
    }
}

/// An attempt to be kept.
#[derive(Debug)]
pub struct AttemptRow {
    pub job_id: u128,
    pub attempt_number: i32,
    pub attempted_at: i128,
    pub status_code: Option<i32>,
    pub error: Option<String>,
    pub duration_ms: i32,
    pub will_retry: bool,
    pub next_attempt_at: Option<i128>,
}

/// A change of a delivery, made only where the worker still holds it. The lock is given up.
#[derive(Debug)]
pub struct JobUpdate {
    pub job_id: u128,
    pub held_by: String,
    pub status: JobStatus,
    pub attempt_count: i32,
    /// When the next attempt is due; none leaves it as it was.
    pub next_attempt_at: Option<i128>,
    pub last_attempt_at: i128,
    pub last_status_code: Option<i32>,
    pub last_error: Option<String>,
    /// When the delivery came to its end; none leaves it as it was.
    pub completed_at: Option<i128>,
}

/// An attempt, and the change of its delivery.
#[derive(Debug)]
pub struct AttemptRecord {
    pub attempt: AttemptRow,
    pub update: JobUpdate,
}

/// The HTTP status as the database keeps it.
pub open spec fn kept_status(status_code: Option<u16>) -> Option<i32> {
    match status_code {
        Some(code) => Some(code as i32),
        None => None,
    }
}

impl AttemptRecord {
    /// The attempt is the next one of the delivery, and the change says the same of it.
    pub open spec fn records(
        self,
        job: ClaimedJob,
        status_code: Option<u16>,
        error: Option<String>,
        duration_ms: i64,
        now: i128,
    ) -> bool {
        &&& self.attempt.job_id == job.id
        &&& self.attempt.attempt_number == job.attempt_count + 1
        &&& self.attempt.attempted_at == now
        &&& self.attempt.status_code == kept_status(status_code)
        &&& self.attempt.error == error
        &&& self.attempt.duration_ms == duration_ms as i32
        &&& self.update.job_id == job.id
        &&& self.update.held_by == job.locked_by
        &&& self.update.attempt_count == job.attempt_count + 1
        &&& self.update.last_attempt_at == now
        &&& self.update.last_status_code == kept_status(status_code)
        &&& self.update.last_error == error
    }

    /// The delivery goes on: it is due again at the given time.
    pub open spec fn retries_at(self, next_attempt_at: i128) -> bool {
        &&& self.attempt.will_retry
        &&& self.attempt.next_attempt_at == Some(next_attempt_at)
        &&& self.update.status == JobStatus::Retrying
        &&& self.update.next_attempt_at == Some(next_attempt_at)
        &&& self.update.completed_at is None
    }

    /// The delivery is at its end.
    pub open spec fn completes(self, status: JobStatus, now: i128) -> bool {
        &&& !self.attempt.will_retry
        &&& self.attempt.next_attempt_at is None
        &&& self.update.status == status
        &&& self.update.next_attempt_at is None
        &&& self.update.completed_at == Some(now)
    }
}

fn status_to_keep(status_code: Option<u16>) -> (r: Option<i32>)
    ensures
        r == kept_status(status_code),
{
    match status_code {
        Some(code) => Some(code as i32),
        None => None,
    }
}

fn attempt_record(
    job: &ClaimedJob,
    status_code: Option<u16>,
    error: &Option<String>,
    duration_ms: i64,
    now: i128,
    status: JobStatus,
    next_attempt_at: Option<i128>,
) -> (r: AttemptRecord)
    requires
        job.attempt_count < i32::MAX,
    ensures
        r.records(*job, status_code, *error, duration_ms, now),
        r.attempt.will_retry == (next_attempt_at is Some),
        r.attempt.next_attempt_at == next_attempt_at,
        r.update.status == status,
        r.update.next_attempt_at == next_attempt_at,
        r.update.completed_at == (if next_attempt_at is Some {
            None
        } else {
            Some(now)
        }),
{
    let attempt_number: i32 = job.attempt_count + 1;
    let completed_at: Option<i128> = match next_attempt_at {
        Some(_) => None,
        None => Some(now),
    };
    AttemptRecord {
        attempt: AttemptRow {
            job_id: job.id,
            attempt_number,
            attempted_at: now,
            status_code: status_to_keep(status_code),
            error: copied_option(error),
            duration_ms: duration_ms as i32,
            will_retry: next_attempt_at.is_some(),
            next_attempt_at,
        },
        update: JobUpdate {
            job_id: job.id,
            held_by: job.locked_by.clone(),
            status,
            attempt_count: attempt_number,
            next_attempt_at,
            last_attempt_at: now,
            last_status_code: status_to_keep(status_code),
            last_error: copied_option(error),
            completed_at,
        },
    }
}

/// What to keep of an attempt that the destination took.
pub fn record_success(
    job: &ClaimedJob,
    status_code: u16,
    duration_ms: i64,
    now: i128,
) -> (r: AttemptRecord)
    requires
        job.attempt_count < i32::MAX,
    ensures
        r.records(*job, Some(status_code), None, duration_ms, now),
        r.completes(JobStatus::Succeeded, now),
{
    attempt_record(job, Some(status_code), &None, duration_ms, now, JobStatus::Succeeded, None)
}

/// What to keep of an attempt that failed and is to be made again.
pub fn record_retry(
    job: &ClaimedJob,
    status_code: Option<u16>,
    error: &Option<String>,
    duration_ms: i64,
    next_attempt_at: i128,
    now: i128,
) -> (r: AttemptRecord)
    requires
        job.attempt_count < i32::MAX,
    ensures
        r.records(*job, status_code, *error, duration_ms, now),
        r.retries_at(next_attempt_at),
{
    attempt_record(
        job,
        status_code,
        error,
        duration_ms,
        now,
        JobStatus::Retrying,
        Some(next_attempt_at),
    )
}

/// What to keep of an attempt that failed and was the last one.
pub fn record_final_failure(
    job: &ClaimedJob,
    status_code: Option<u16>,
    error: &Option<String>,
    duration_ms: i64,
    now: i128,
) -> (r: AttemptRecord)
    requires
        job.attempt_count < i32::MAX,
    ensures
        r.records(*job, status_code, *error, duration_ms, now),
        r.completes(JobStatus::Failed, now),
{
    attempt_record(job, status_code, error, duration_ms, now, JobStatus::Failed, None)
}

/// The number of the attempt, where a row was changed for it.
pub open spec fn kept_attempt(record: AttemptRecord, rows_affected: u64) -> Option<i32> {
    if rows_affected == 0 {
        None
    } else {
        Some(record.attempt.attempt_number)
    }
}

/// The number of the attempt, where the change of its delivery was made; none, where another
/// worker holds the delivery, and nothing is to be kept.
pub fn recorded_attempt(record: &AttemptRecord, rows_affected: u64) -> (r: Option<i32>)
    ensures
        r == kept_attempt(*record, rows_affected),
{
    if rows_affected == 0 {
        None
    } else {
        Some(record.attempt.attempt_number)
    }
}

} // verus!
