//! What a push sends, and what it marks.

use crate::chain::{each_ran, every_ran, first_ran};
use crate::changelog::{changes_read, pending_query, placeholders, ChangeRecord};
use crate::driver::Step;
use crate::json::parsed_json;
use crate::laws::changes::{error_is_noted_at_its_record, marking_reaches_every_id};
use crate::sql::SqlValueView;
use crate::sync::http::Failure;
use crate::sync::push::{
    accepted_ids, accepted_marked, changes_to_push, conflicts_noted, id_lists, ids_under, messages,
    noted_conflicts, noting, push_begun, push_changes_of, push_failure_text, push_finished,
    push_request, push_start, push_summary, pushed_as, pushed_ids, records_prepared, unpushable,
    upsert_of_record, ConflictInfo, OpenPush, PushChangeView, PushResponse, PushStart, PushSummary,
};
use crate::text::{signed_decimal, texts, without_end_slashes};
use vstd::prelude::*;

verus! {

/// What a record is pushed as, by its operation: an insertion or an update as an
/// upsert of its document, a deletion as a delete. A record of another operation,
/// or without a document that can be read, is not pushed, and the message says
/// why.
pub proof fn record_is_pushed_by_its_operation(record: ChangeRecord)
    ensures
        ({
            let id = signed_decimal(record.id as int);
            let doc_id = record.doc_id@;
            let operation = record.operation@;
            if operation == "INSERT"@ || operation == "UPDATE"@ {
                match record.data {
                    Some(text) => match parsed_json(text@) {
                        Ok(document) => pushed_as(record) == Ok::<PushChangeView, Seq<char>>(
                            PushChangeView {
                                op: "upsert"@,
                                doc_id,
                                data: Some(document),
                                updated_at: record.timestamp@,
                            },
                        ),
                        Err(e) => pushed_as(record) == Err::<PushChangeView, Seq<char>>(
                            "Failed to parse data JSON for record "@ + id + ": "@ + e,
                        ),
                    },
                    None => pushed_as(record) == Err::<PushChangeView, Seq<char>>(
                        "ChangeRecord "@ + id + " ("@ + doc_id + ") has no data for "@ + operation,
                    ),
                }
            } else if operation == "DELETE"@ {
                pushed_as(record) == Ok::<PushChangeView, Seq<char>>(
                    PushChangeView {
                        op: "delete"@,
                        doc_id,
                        data: None,
                        updated_at: record.timestamp@,
                    },
                )
            } else {
                pushed_as(record) == Err::<PushChangeView, Seq<char>>(
                    "Unknown operation '"@ + operation + "' in change record "@ + id,
                )
            }
        }),
{
}

/// A document that was parsed is pushed as it is, under the record's document and
/// time; one that was not gives the parser's message.
pub proof fn parsed_document_is_pushed(
    record: ChangeRecord,
    document: Result<serde_json::Value, Seq<char>>,
)
    ensures
        upsert_of_record(record, document) == match document {
            Ok(v) => Ok::<PushChangeView, Seq<char>>(
                PushChangeView {
                    op: "upsert"@,
                    doc_id: record.doc_id@,
                    data: Some(v),
                    updated_at: record.timestamp@,
                },
            ),
            Err(e) => Err(
                "Failed to parse data JSON for record "@ + signed_decimal(record.id as int) + ": "@
                    + e,
            ),
        },
{
}

/// Records are taken in their order. Each that can be pushed adds its change to
/// those that are sent, and its id to those of its document; each that cannot
/// adds its id and message to those that are noted.
pub proof fn records_are_taken_in_order(records: Seq<ChangeRecord>, next: ChangeRecord)
    ensures
        changes_to_push(Seq::empty()) == Seq::<PushChangeView>::empty(),
        unpushable(Seq::empty()) == Seq::<(i64, Seq<char>)>::empty(),
        pushed_ids(Seq::empty()) == Map::<Seq<char>, Seq<i64>>::empty(),
        match pushed_as(next) {
            Ok(change) => {
                &&& changes_to_push(records.push(next)) == changes_to_push(records).push(change)
                &&& unpushable(records.push(next)) == unpushable(records)
                &&& pushed_ids(records.push(next)).dom() == pushed_ids(records).dom().insert(
                    next.doc_id@,
                )
                &&& pushed_ids(records.push(next))[next.doc_id@] == (
                if pushed_ids(records).contains_key(next.doc_id@) {
                    pushed_ids(records)[next.doc_id@]
                } else {
                    Seq::empty()
                }).push(next.id)
                &&& forall|doc_id: Seq<char>|
                    doc_id != next.doc_id@ && pushed_ids(records).contains_key(doc_id)
                        ==> #[trigger] pushed_ids(records.push(next))[doc_id] == pushed_ids(
                        records,
                    )[doc_id]
            },
            Err(message) => {
                &&& changes_to_push(records.push(next)) == changes_to_push(records)
                &&& unpushable(records.push(next)) == unpushable(records).push((next.id, message))
                &&& pushed_ids(records.push(next)) == pushed_ids(records)
            },
        },
{
    assert(records.push(next).drop_last() =~= records);
    if pushed_as(next) is Ok {
        assert(pushed_ids(records.push(next)).dom() =~= pushed_ids(records).dom().insert(
            next.doc_id@,
        ));
    }
}

/// The ids that are marked are those under each accepted document, in the order
/// of the answer.
pub proof fn accepted_documents_are_taken_in_order(
    accepted: Seq<String>,
    next: String,
    ids: Map<Seq<char>, Seq<i64>>,
)
    ensures
        accepted_ids(Seq::empty(), ids) == Seq::<i64>::empty(),
        accepted_ids(accepted.push(next), ids) == accepted_ids(accepted, ids) + (
        if ids.contains_key(next@) {
            ids[next@]
        } else {
            Seq::empty()
        }),
{
    assert(accepted.push(next).drop_last() =~= accepted);
}

/// A conflict is noted at the last record that was pushed for its document, with
/// the server's time; one of a document that was not pushed is not noted.
pub proof fn conflicts_are_taken_in_order(
    conflicts: Seq<ConflictInfo>,
    next: ConflictInfo,
    ids: Map<Seq<char>, Seq<i64>>,
)
    ensures
        noted_conflicts(Seq::empty(), ids) == Seq::<(i64, Seq<char>)>::empty(),
        noted_conflicts(conflicts.push(next), ids) == (if ids.contains_key(next.doc_id@)
            && ids[next.doc_id@].len() > 0 {
            noted_conflicts(conflicts, ids).push(
                (
                    ids[next.doc_id@].last(),
                    "Conflict: server has newer version (server_updated_at="@
                        + next.server_updated_at@ + ")"@,
                ),
            )
        } else {
            noted_conflicts(conflicts, ids)
        }),
{
    assert(conflicts.push(next).drop_last() =~= conflicts);
}

/// The step notes a message at a record.
pub open spec fn notes(item: (i64, Seq<char>), step: Step) -> bool {
    &&& step is Executed
    &&& step->Executed_sql == "UPDATE _change_log SET sync_error = ?1 WHERE id = ?2"@
    &&& step->Executed_params == seq![SqlValueView::Text(item.1), SqlValueView::Integer(item.0)]
    &&& step->Executed_outcome is Ok
}

proof fn messages_are_noted_one_by_one(
    items: Seq<(i64, Seq<char>)>,
    noted: Seq<()>,
    logs: Seq<Seq<Step>>,
    n: nat,
)
    requires
        first_ran(items, noted, logs, noting()),
        n <= noted.len(),
    ensures
        logs[n as int].len() == logs[0].len() + n,
        logs[n as int].take(logs[0].len() as int) == logs[0],
        forall|i: int|
            0 <= i < n ==> notes(#[trigger] items[i], logs[n as int][logs[0].len() + i]),
    decreases n,
{
    let k = logs[0].len() as int;
    if n == 0 {
        assert(logs[0].take(k) =~= logs[0]);
    } else {
        let m = (n - 1) as nat;
        messages_are_noted_one_by_one(items, noted, logs, m);
        let item = items[m as int];
        assert(noting()(item, logs[m as int], logs[n as int], Ok(noted[m as int])));
        error_is_noted_at_its_record(item.0, item.1, logs[m as int], logs[n as int], Ok(()));
        assert(logs[n as int].take(k) =~= logs[m as int].take(k)) by {
            assert(logs[n as int].take(logs[m as int].len() as int) == logs[m as int]);
            assert forall|i: int| 0 <= i < k implies logs[n as int][i] == logs[m as int][i] by {
                assert(logs[n as int].take(logs[m as int].len() as int)[i] == logs[n as int][i]);
            }
        }
        assert forall|i: int| 0 <= i < n implies notes(
            #[trigger] items[i],
            logs[n as int][k + i],
        ) by {
            if i < m {
                assert(logs[n as int].take(logs[m as int].len() as int)[k + i]
                    == logs[n as int][k + i]);
                assert(logs[n as int][k + i] == logs[m as int][k + i]);
            } else {
                assert(logs[n as int][k + i] == logs[n as int].last());
            }
        }
    }
}

/// A message was noted at each record that cannot be pushed, in their order, and
/// nothing else was done; all others are to be sent, or there is nothing to send.
pub open spec fn are_noted_or_sent(
    records: Seq<ChangeRecord>,
    before: Seq<Step>,
    after: Seq<Step>,
    start: PushStart,
) -> bool {
    &&& after.len() == before.len() + unpushable(records).len()
    &&& after.take(before.len() as int) == before
    &&& forall|i: int|
            0 <= i < unpushable(records).len() ==> notes(
                #[trigger] unpushable(records)[i],
                after[before.len() + i],
            )
    &&& match start {
            PushStart::Done(summary) => {
                &&& changes_to_push(records).len() == 0
                &&& summary.pushed == 0
                &&& summary.accepted == 0
                &&& summary.conflicts == unpushable(records).len()
                &&& summary.errors@.len() == unpushable(records).len()
                &&& forall|i: int|
                    0 <= i < unpushable(records).len() ==> #[trigger] summary.errors@[i]@
                        == unpushable(records)[i].1
            },
            PushStart::Send(changes, open) => {
                &&& changes@.len() > 0
                &&& changes@.len() == changes_to_push(records).len()
                &&& forall|i: int|
                    0 <= i < changes@.len() ==> (#[trigger] changes@[i])@ == changes_to_push(
                        records,
                    )[i]
                &&& open.pushed == changes@.len()
                &&& id_lists(open.ids@) == pushed_ids(records)
                &&& open.errors@.len() == unpushable(records).len()
                &&& forall|i: int|
                    0 <= i < unpushable(records).len() ==> #[trigger] open.errors@[i]@
                        == unpushable(records)[i].1
            },
        }
}

/// A push of records notes a message at each that cannot be pushed, in their
/// order, and nothing else; all others are sent, or there is nothing to send.
pub proof fn records_are_noted_or_sent(
    records: Seq<ChangeRecord>,
    before: Seq<Step>,
    after: Seq<Step>,
    start: PushStart,
)
    requires
        records_prepared(records, before, after, Ok(start)),
    ensures
        are_noted_or_sent(records, before, after, start),
{
    let items = unpushable(records);
    let noted = choose|noted: Result<Seq<()>, Seq<char>>| #[trigger]
        each_ran(items, before, after, noted, noting()) && match noted {
            Ok(_) => push_start(records, start),
            Err(e) => false,
        };
    let done = noted->Ok_0;
    assert(every_ran(items, done, before, after, noting()));
    let logs = choose|logs: Seq<Seq<Step>>| #[trigger]
        first_ran(items, done, logs, noting()) && done.len() == items.len() && logs[0] == before
            && logs.last() == after;
    messages_are_noted_one_by_one(items, done, logs, done.len());
    match start {
        PushStart::Done(summary) => {
            assert(texts(summary.errors@).len() == summary.errors@.len());
            assert forall|i: int| 0 <= i < items.len() implies #[trigger] summary.errors@[i]@
                == items[i].1 by {
                assert(texts(summary.errors@)[i] == messages(items)[i]);
            }
        },
        PushStart::Send(changes, open) => {
            assert(push_changes_of(changes@).len() == changes@.len());
            assert(texts(open.errors@).len() == open.errors@.len());
            assert forall|i: int| 0 <= i < changes@.len() implies (#[trigger] changes@[i])@
                == changes_to_push(records)[i] by {
                assert(push_changes_of(changes@)[i] == changes_to_push(records)[i]);
            }
            assert forall|i: int| 0 <= i < items.len() implies #[trigger] open.errors@[i]@
                == items[i].1 by {
                assert(texts(open.errors@)[i] == messages(items)[i]);
            }
        },
    }
}

/// A push is begun with the pending changes of its table.
pub proof fn push_begins_with_the_pending_changes(
    table: Seq<char>,
    before: Seq<Step>,
    after: Seq<Step>,
    r: Result<PushStart, String>,
)
    requires
        push_begun(table, before, after, r),
    ensures
        exists|pending: Result<Vec<ChangeRecord>, String>, middle: Seq<Step>| #[trigger]
            changes_read(before, middle, pending_query(table), pending) && (pending is Ok
                ==> records_prepared(pending->Ok_0@, middle, after, r)) && (pending is Err
                ==> after == middle && r is Err && r->Err_0 == pending->Err_0),
{
    let (pending, middle) = choose|
        pending: Result<Vec<ChangeRecord>, String>,
        middle: Seq<Step>,
    | #[trigger]
        changes_read(before, middle, pending_query(table), pending) && match pending {
            Ok(records) => records_prepared(records@, middle, after, r),
            Err(e) => after == middle && r is Err && r->Err_0 == e,
        };
    assert(changes_read(before, middle, pending_query(table), pending));
}

/// The step marks the records with these ids as synced, all of them and no other
/// way.
pub open spec fn marks(ids: Seq<i64>, step: Step) -> bool {
    &&& step is Executed
    &&& step->Executed_sql == "UPDATE _change_log SET synced = 1 WHERE id IN ("@ + placeholders(
        ids.len(),
    ) + ")"@
    &&& step->Executed_params == Seq::new(ids.len(), |i: int| SqlValueView::Integer(ids[i]))
    &&& step->Executed_outcome is Ok
}

/// All records of the accepted documents were marked by one command, where there
/// are any, then each conflict was noted, and nothing else was done. The summary
/// counts what was sent, accepted and in conflict, and has the messages of the
/// records that were not sent and of the conflicts.
pub open spec fn is_marked_and_noted(
    open: OpenPush,
    response: PushResponse,
    before: Seq<Step>,
    after: Seq<Step>,
    summary: PushSummary,
) -> bool {
            let ids = accepted_ids(response.accepted@, id_lists(open.ids@));
            let items = noted_conflicts(response.conflicts@, id_lists(open.ids@));
            let at = if ids.len() > 0 {
                before.len() as int + 1
            } else {
                before.len() as int
            };
            &&& after.len() == at + items.len()
            &&& after.take(before.len() as int) == before
            &&& ids.len() > 0 ==> marks(ids, after[before.len() as int])
            &&& forall|i: int|
                0 <= i < items.len() ==> notes(#[trigger] items[i], after[at + i])
            &&& summary.pushed == open.pushed
            &&& summary.accepted == response.accepted@.len()
            &&& summary.conflicts == response.conflicts@.len()
            &&& summary.errors@.len() == open.errors@.len() + items.len()
            &&& forall|i: int|
                0 <= i < open.errors@.len() ==> #[trigger] summary.errors@[i]@
                    == open.errors@[i]@
            &&& forall|i: int|
                0 <= i < items.len() ==> summary.errors@[open.errors@.len() + i]@
                    == (#[trigger] items[i]).1
        }

/// A push that was answered marks all records of the accepted documents by one
/// command, where there are any, then notes each conflict, and does nothing else.
/// The summary counts what was sent, accepted and in conflict, and has the
/// messages of the records that were not sent and of the conflicts.
pub proof fn answer_is_marked_and_noted(
    open: OpenPush,
    response: PushResponse,
    before: Seq<Step>,
    after: Seq<Step>,
    summary: PushSummary,
)
    requires
        push_finished(open, response, before, after, Ok(summary)),
    ensures
        is_marked_and_noted(open, response, before, after, summary),
{
    let ids = accepted_ids(response.accepted@, id_lists(open.ids@));
    let items = noted_conflicts(response.conflicts@, id_lists(open.ids@));
    let r = Ok::<PushSummary, String>(summary);
    let (middle, marked) = choose|middle: Seq<Step>, marked: Result<usize, Seq<char>>| #[trigger]
        accepted_marked(ids, before, middle, marked) && match marked {
            Ok(_) => conflicts_noted(open, response, middle, after, r),
            Err(e) => after == middle && r is Err && r->Err_0@ == e,
        };
    let noted = choose|noted: Result<Seq<()>, Seq<char>>| #[trigger]
        each_ran(items, middle, after, noted, noting()) && match noted {
            Ok(_) => r is Ok && push_summary(open, response, r->Ok_0),
            Err(e) => r is Err && r->Err_0@ == e,
        };
    let done = noted->Ok_0;
    assert(every_ran(items, done, middle, after, noting()));
    let logs = choose|logs: Seq<Seq<Step>>| #[trigger]
        first_ran(items, done, logs, noting()) && done.len() == items.len() && logs[0] == middle
            && logs.last() == after;
    messages_are_noted_one_by_one(items, done, logs, done.len());
    if ids.len() > 0 {
        marking_reaches_every_id(ids, before, middle, marked);
        assert(middle.len() == before.len() + 1);
        assert(after.take(middle.len() as int)[before.len() as int] == after[before.len() as int]);
        assert(marks(ids, middle.last()));
    }
    assert(after.take(before.len() as int) =~= before) by {
        assert forall|i: int| 0 <= i < before.len() implies after[i] == before[i] by {
            assert(after.take(middle.len() as int)[i] == after[i]);
            assert(middle[i] == before[i]);
        }
    }
    let all = texts(open.errors@) + messages(items);
    assert(texts(summary.errors@).len() == summary.errors@.len());
    assert(texts(open.errors@).len() == open.errors@.len());
    assert forall|i: int| 0 <= i < open.errors@.len() implies #[trigger] summary.errors@[i]@
        == open.errors@[i]@ by {
        assert(texts(summary.errors@)[i] == all[i]);
    }
    assert forall|i: int| 0 <= i < items.len() implies summary.errors@[open.errors@.len() + i]@
        == (#[trigger] items[i]).1 by {
        assert(texts(summary.errors@)[open.errors@.len() + i] == all[open.errors@.len() + i]);
        assert(all[open.errors@.len() + i] == messages(items)[i]);
    }
}

/// Changes are sent to the address of the table, with the token.
pub proof fn changes_are_sent_to_the_table(
    base_url: Seq<char>,
    token: Seq<char>,
    table: Seq<char>,
)
    ensures
        ({
            let request = push_request(base_url, token, table);
            &&& request.url == without_end_slashes(base_url) + "/offlite/sync/"@ + table + "/push"@
            &&& request.query.len() == 0
            &&& request.headers == seq![
                ("Content-Type"@, "application/sjs"@),
                ("Authorization"@, "Bearer "@ + token),
            ]
        }),
{
}

/// The message of a failed push says where it failed.
pub proof fn failed_push_says_where(failure: Failure)
    ensures
        match failure {
            Failure::Send(e) => push_failure_text(failure) == "Push request failed: "@ + e@,
            Failure::Status(status) => push_failure_text(failure)
                == "Push endpoint returned status "@ + status@,
            Failure::Body(e) => push_failure_text(failure)
                == "Failed to read push response body: "@ + e@,
            Failure::Decode(e) => push_failure_text(failure)
                == "Failed to decode push response MessagePack: "@ + e@,
        },
{
}

/// The step was refused when it noted a message at a record.
pub open spec fn refuses_to_note(
    item: (i64, Seq<char>),
    step: Step,
    message: Seq<char>,
) -> bool {
    &&& step is Executed
    &&& step->Executed_sql == "UPDATE _change_log SET sync_error = ?1 WHERE id = ?2"@
    &&& step->Executed_params == seq![SqlValueView::Text(item.1), SqlValueView::Integer(item.0)]
    &&& step->Executed_outcome is Err
    &&& message == "Failed to mark sync error: "@ + step->Executed_outcome->Err_0
}

proof fn refused_note_is_the_last(
    items: Seq<(i64, Seq<char>)>,
    before: Seq<Step>,
    after: Seq<Step>,
    message: Seq<char>,
)
    requires
        each_ran(items, before, after, Err::<Seq<()>, Seq<char>>(message), noting()),
    ensures
        before.len() < after.len() <= before.len() + items.len(),
        after.take(before.len() as int) == before,
        forall|i: int|
            0 <= i < after.len() - before.len() - 1 ==> notes(
                #[trigger] items[i],
                after[before.len() + i],
            ),
        refuses_to_note(items[after.len() - before.len() - 1], after.last(), message),
{
    let (results, logs) = choose|results: Seq<()>, logs: Seq<Seq<Step>>| #[trigger]
        first_ran(items, results, logs, noting()) && results.len() < items.len() && logs[0]
            == before && noting()(
            items[results.len() as int],
            logs.last(),
            after,
            Err(message),
        );
    let n = results.len() as int;
    let item = items[n];
    messages_are_noted_one_by_one(items, results, logs, results.len());
    assert(logs.last() == logs[n]);
    error_is_noted_at_its_record(item.0, item.1, logs.last(), after, Err(message));
    let e = choose|e: Seq<char>|
        message == #[trigger] ("Failed to mark sync error: "@ + e) && after == logs.last().push(
            Step::Executed {
                sql: "UPDATE _change_log SET sync_error = ?1 WHERE id = ?2"@,
                params: seq![SqlValueView::Text(item.1), SqlValueView::Integer(item.0)],
                outcome: Err(e),
            },
        );
    assert(after.take(before.len() as int) =~= logs.last().take(before.len() as int));
    assert(after.len() - before.len() - 1 == n);
    assert forall|i: int| 0 <= i < after.len() - before.len() - 1 implies notes(
        #[trigger] items[i],
        after[before.len() + i],
    ) by {
        assert(after[before.len() + i] == logs.last()[before.len() + i]);
    }
}

/// A message could not be noted at a record that cannot be pushed; those before
/// it have theirs.
pub open spec fn is_refused_a_note(
    records: Seq<ChangeRecord>,
    before: Seq<Step>,
    after: Seq<Step>,
    message: Seq<char>,
) -> bool {
    &&& before.len() < after.len() <= before.len() + unpushable(records).len()
    &&& after.take(before.len() as int) == before
    &&& forall|i: int|
        0 <= i < after.len() - before.len() - 1 ==> notes(
            #[trigger] unpushable(records)[i],
            after[before.len() + i],
        )
    &&& refuses_to_note(
        unpushable(records)[after.len() - before.len() - 1],
        after.last(),
        message,
    )
}

/// A push of records fails only where a message could not be noted at one that
/// cannot be pushed; those before it have theirs.
pub proof fn refused_note_ends_the_push(
    records: Seq<ChangeRecord>,
    before: Seq<Step>,
    after: Seq<Step>,
    message: String,
)
    requires
        records_prepared(records, before, after, Err(message)),
    ensures
        is_refused_a_note(records, before, after, message@),
{
    let items = unpushable(records);
    let noted = choose|noted: Result<Seq<()>, Seq<char>>| #[trigger]
        each_ran(items, before, after, noted, noting()) && match noted {
            Ok(_) => false,
            Err(e) => message@ == e,
        };
    refused_note_is_the_last(items, before, after, message@);
}

/// The database refused to mark the accepted records, or, these being marked, to
/// note a conflict.
pub open spec fn is_refused(
    open: OpenPush,
    response: PushResponse,
    before: Seq<Step>,
    after: Seq<Step>,
    message: Seq<char>,
) -> bool {
            let ids = accepted_ids(response.accepted@, id_lists(open.ids@));
            let items = noted_conflicts(response.conflicts@, id_lists(open.ids@));
            let at = if ids.len() > 0 {
                before.len() as int + 1
            } else {
                before.len() as int
            };
            &&& before.len() < after.len()
            &&& after.take(before.len() as int) == before
            &&& ids.len() > 0 ==> {
                let step = after[before.len() as int];
                &&& step is Executed
                &&& step->Executed_sql == "UPDATE _change_log SET synced = 1 WHERE id IN ("@
                    + placeholders(ids.len()) + ")"@
                &&& step->Executed_params == Seq::new(
                    ids.len(),
                    |i: int| SqlValueView::Integer(ids[i]),
                )
            }
            &&& if ids.len() > 0 && after[before.len() as int]->Executed_outcome is Err {
                &&& after.len() == before.len() + 1
                &&& message == "Failed to mark changes as synced: "@ + after[before.len()
                    as int]->Executed_outcome->Err_0
            } else {
                &&& at < after.len() <= at + items.len()
                &&& forall|i: int|
                    0 <= i < after.len() - at - 1 ==> notes(#[trigger] items[i], after[at + i])
                &&& refuses_to_note(items[after.len() - at - 1], after.last(), message)
            }
        }

/// A push that was answered fails only where the database refused to mark the
/// accepted records, or to note a conflict.
pub proof fn refused_answer_says_why(
    open: OpenPush,
    response: PushResponse,
    before: Seq<Step>,
    after: Seq<Step>,
    message: String,
)
    requires
        push_finished(open, response, before, after, Err(message)),
    ensures
        is_refused(open, response, before, after, message@),
{
    let ids = accepted_ids(response.accepted@, id_lists(open.ids@));
    let items = noted_conflicts(response.conflicts@, id_lists(open.ids@));
    let r = Err::<PushSummary, String>(message);
    let (middle, marked) = choose|middle: Seq<Step>, marked: Result<usize, Seq<char>>| #[trigger]
        accepted_marked(ids, before, middle, marked) && match marked {
            Ok(_) => conflicts_noted(open, response, middle, after, r),
            Err(e) => after == middle && r is Err && r->Err_0@ == e,
        };
    if ids.len() > 0 {
        marking_reaches_every_id(ids, before, middle, marked);
    }
    match marked {
        Ok(_) => {
            let noted = choose|noted: Result<Seq<()>, Seq<char>>| #[trigger]
                each_ran(items, middle, after, noted, noting()) && match noted {
                    Ok(_) => false,
                    Err(e) => message@ == e,
                };
            refused_note_is_the_last(items, middle, after, message@);
            assert forall|i: int| 0 <= i < middle.len() implies after[i] == middle[i] by {
                assert(after.take(middle.len() as int)[i] == after[i]);
            }
            assert(after.take(before.len() as int) =~= before);
        },
        Err(e) => {
            assert(after.take(before.len() as int) =~= before);
        },
    }
}

/// The ids that are kept of a push are looked up as they were put there.
pub proof fn ids_are_kept_as_they_are(ids: Map<Seq<char>, Vec<i64>>, doc_id: Seq<char>)
    ensures
        id_lists(ids).contains_key(doc_id) == ids.contains_key(doc_id),
        ids.contains_key(doc_id) ==> id_lists(ids)[doc_id] == ids[doc_id]@,
        ids_under(id_lists(ids), doc_id) == (if ids.contains_key(doc_id) {
            ids[doc_id]@
        } else {
            Seq::empty()
        }),
{
}

} // verus!
