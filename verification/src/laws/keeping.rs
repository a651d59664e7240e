//! What is kept of webhooks, deliveries and attempts.

use crate::config::DestinationView;
use crate::db::{
    header_in, kept_attempt, kept_members, kept_values, lemma_kept_insert, optional_header,
    settled_jobs, settled_outcome, with_value, AttemptRecord, ClaimedJob, EnqueueOutcome, EventRow, JobRow, JobStatus,
};
use crate::headers::{entries_of, visible_text};
use crate::instant::later;
use crate::json::JsonTree;
use crate::laws::inbound::{first_header_is_read, is_first, lemma_first_value, says};
use crate::resend::{required_header, ResendEventForRouting};
use crate::text::lower;
use axum::http::HeaderMap;
use vstd::prelude::*;

verus! {

/// Whether the text is what is kept of the bytes of a header: the bytes as text where all of them
/// are visible ASCII, blanks and tabs, else a mark.
pub open spec fn is_kept_of(text: Seq<char>, bytes: Seq<u8>) -> bool {
    if forall|i: int|
        0 <= i < bytes.len() ==> {
            let b = #[trigger] bytes[i];
            32 <= b < 127 || b == 9
        } {
        says(bytes, text)
    } else {
        text == "<non-utf8>"@
    }
}

/// Headers are kept one by one under their names in small letters: the first of a name as its
/// text, the second with it in a list, further ones at the end of the list. Nothing else changes.
pub proof fn each_header_is_kept(
    entries: Seq<(Seq<char>, Seq<u8>)>,
    name: Seq<char>,
    bytes: Seq<u8>,
    text: Seq<char>,
    other: Seq<char>,
)
    requires
        is_kept_of(text, bytes),
        other != lower(name),
    ensures
        ({
            let before = kept_members(entries);
            let after = kept_members(entries.push((name, bytes)));
            let key = lower(name);
            &&& !kept_members(Seq::empty()).dom().contains(key)
            &&& after.dom().contains(key)
            &&& !before.dom().contains(key) ==> after[key] == JsonTree::Text(text)
            &&& before.dom().contains(key) ==> before[key] is Text || before[key] is Array
            &&& before.dom().contains(key) && before[key] is Text ==> after[key]
                == JsonTree::Array(seq![before[key], JsonTree::Text(text)])
            &&& before.dom().contains(key) && before[key] is Array ==> after[key]
                == JsonTree::Array(before[key]->Array_0.push(JsonTree::Text(text)))
            &&& after.dom().contains(other) == before.dom().contains(other)
            &&& before.dom().contains(other) ==> after[other] == before[other]
        }),
{
    let next = entries.push((name, bytes));
    assert(next.drop_last() =~= entries);
    let shown = Seq::new(bytes.len(), |i: int| bytes[i] as char);
    if visible_text(bytes) is Some {
        assert(shown =~= text);
    }
    lemma_kept_insert(entries, next, lower(name), text);
    assert(with_value(kept_members(entries), lower(name), text) == kept_members(next));
    assert(kept_values(Seq::empty(), lower(name)).len() == 0);
}

/// A kept header is read under its name in any mix of letters: its text, or the first one of its
/// list; nothing where there is none, or where it is neither.
pub proof fn kept_header_is_the_first_text(
    members: Map<Seq<char>, JsonTree>,
    name: Seq<char>,
)
    ensures
        ({
            let key = lower(name);
            let found = header_in(JsonTree::Object(members), name);
            &&& !members.dom().contains(key) ==> found is None
            &&& members.dom().contains(key) && members[key] is Text ==> found == Some(
                members[key]->Text_0,
            )
            &&& members.dom().contains(key) && members[key] is Array
                && members[key]->Array_0.len() > 0 && members[key]->Array_0[0] is Text ==> found
                == Some(members[key]->Array_0[0]->Text_0)
            &&& members.dom().contains(key) && members[key] is Array
                && members[key]->Array_0.len() > 0 && !(members[key]->Array_0[0] is Text)
                ==> found is None
            &&& members.dom().contains(key) && members[key] is Array
                && members[key]->Array_0.len() == 0 ==> found is None
            &&& members.dom().contains(key) && !(members[key] is Text || members[key] is Array)
                ==> found is None
        }),
{
}

/// A webhook is kept with the texts of the headers that name its origin, the whole body, the time
/// it came and the number of its destinations.
pub proof fn kept_webhook_says_what_came(
    row: EventRow,
    headers: HeaderMap,
    body: Seq<u8>,
    event: ResendEventForRouting,
    count: usize,
    now: i128,
    i: int,
    j: int,
    id: Seq<char>,
    timestamp: Seq<char>,
)
    requires
        row.keeps(headers, body, event, count, now),
        is_first(entries_of(headers), i, "svix-id"@),
        says(entries_of(headers)[i].1, id),
        is_first(entries_of(headers), j, "svix-timestamp"@),
        says(entries_of(headers)[j].1, timestamp),
    ensures
        row.source_svix_id@ == id,
        row.source_svix_timestamp@ == timestamp,
        row.raw_body@ == body,
        row.received_at == now,
        row.resend_event_id == event.event_id,
        row.resend_event_type == event.event_type,
        crate::json::json_of(row.headers) == JsonTree::Object(
            kept_members(entries_of(headers)),
        ),
        count <= i32::MAX ==> row.matched_destination_count == count,
{
    let entries = entries_of(headers);
    lemma_first_value(entries, i, "svix-id"@);
    lemma_first_value(entries, j, "svix-timestamp"@);
    let a = entries[i].1;
    let b = entries[j].1;
    assert(Seq::new(a.len(), |k: int| a[k] as char) =~= id);
    assert(Seq::new(b.len(), |k: int| b[k] as char) =~= timestamp);
}

/// A new delivery is due at once and has no attempt behind it; its deadline is the retry window
/// after the webhook, second for second.
pub proof fn new_delivery_lasts_the_retry_window(
    row: JobRow,
    id: u128,
    event_id: u128,
    destination: DestinationView,
    now: i128,
    retry_window: i64,
)
    requires
        row.is_new(id, event_id, destination, now, later(now as int, retry_window as int)),
    ensures
        row.id == id,
        row.event_id == event_id,
        row.destination_name@ == destination.name,
        row.destination_url@ == destination.url,
        row.status == JobStatus::Queued,
        row.attempt_count == 0,
        row.next_attempt_at == now,
        row.created_at == now,
        row.updated_at == now,
        row.deadline_at - now == retry_window * 1_000_000_000,
{
}

/// The deliveries of a webhook that is kept are kept as planned, each under the identifier of the
/// webhook; of one that was kept before, none is.
pub proof fn deliveries_are_kept_as_planned(jobs: Seq<JobRow>, id: u128, i: int)
    requires
        0 <= i < jobs.len(),
    ensures
        ({
            let kept = settled_jobs(jobs, Some(id));
            &&& kept.len() == jobs.len()
            &&& kept[i].id == jobs[i].id
            &&& kept[i].event_id == id
            &&& kept[i].destination_name == jobs[i].destination_name
            &&& kept[i].destination_url == jobs[i].destination_url
            &&& kept[i].status == jobs[i].status
            &&& kept[i].attempt_count == jobs[i].attempt_count
            &&& kept[i].next_attempt_at == jobs[i].next_attempt_at
            &&& kept[i].deadline_at == jobs[i].deadline_at
            &&& kept[i].created_at == jobs[i].created_at
            &&& kept[i].updated_at == jobs[i].updated_at
        }),
        settled_jobs(jobs, None).len() == 0,
        settled_outcome(Some(id)) == EnqueueOutcome::Inserted(id),
        settled_outcome(None) == EnqueueOutcome::Duplicate,
{
}

/// An attempt is kept under the number after the last one, with the status, the words and the time
/// as they were, by the worker that holds the delivery, and the delivery says the same of it.
pub proof fn attempt_is_kept_as_it_was(
    record: AttemptRecord,
    job: ClaimedJob,
    status_code: Option<u16>,
    error: Option<String>,
    duration_ms: i64,
    now: i128,
)
    requires
        record.records(job, status_code, error, duration_ms, now),
    ensures
        record.attempt.job_id == job.id,
        record.update.job_id == job.id,
        record.update.held_by == job.locked_by,
        record.attempt.attempt_number - job.attempt_count == 1,
        record.update.attempt_count == record.attempt.attempt_number,
        record.attempt.attempted_at == now,
        record.update.last_attempt_at == now,
        status_code is None ==> record.attempt.status_code is None,
        status_code is Some ==> record.attempt.status_code is Some
            && record.attempt.status_code->Some_0 == status_code->Some_0,
        record.update.last_status_code == record.attempt.status_code,
        record.attempt.error == error,
        record.update.last_error == error,
        i32::MIN <= duration_ms <= i32::MAX ==> record.attempt.duration_ms == duration_ms,
{
}

/// A delivery that is to be tried again waits for its time; one at its end has none, and says when
/// it came to it.
pub proof fn delivery_waits_or_ends(
    record: AttemptRecord,
    status: JobStatus,
    due: i128,
    now: i128,
)
    ensures
        record.retries_at(due) ==> record.attempt.will_retry && record.attempt.next_attempt_at
            == Some(due) && record.update.next_attempt_at == Some(due) && record.update.status
            == JobStatus::Retrying && record.update.completed_at is None,
        record.completes(status, now) ==> !record.attempt.will_retry
            && record.attempt.next_attempt_at is None && record.update.next_attempt_at is None
            && record.update.status == status && record.update.completed_at == Some(now),
{
}

/// A header that need not be there is the text of the first entry of its name, where there is one
/// and it can be read.
pub proof fn optional_header_is_the_first(
    entries: Seq<(Seq<char>, Seq<u8>)>,
    i: int,
    name: Seq<char>,
    text: Seq<char>,
)
    ensures
        is_first(entries, i, name) && says(entries[i].1, text) ==> optional_header(entries, name)
            == Some(text),
        optional_header(entries, name) is Some <==> required_header(entries, name) is Ok,
        optional_header(entries, name) is Some ==> required_header(entries, name)->Ok_0
            == optional_header(entries, name)->Some_0,
{
    if is_first(entries, i, name) && says(entries[i].1, text) {
        first_header_is_read(entries, i, name, text);
    }
}

/// An attempt has its number where a row was changed for it, and only there.
pub proof fn attempt_has_its_number(record: AttemptRecord, rows_affected: u64)
    ensures
        rows_affected > 0 ==> kept_attempt(record, rows_affected) == Some(
            record.attempt.attempt_number,
        ),
        rows_affected == 0 ==> kept_attempt(record, rows_affected) is None,
{
}

} // verus!
