//! What a pull writes, and where it goes on.

use crate::chain::{every_ran, first_ran};
use crate::driver::{Step, Stored};
use crate::json::json_display;
use crate::laws::changes::settled_is_done;
use crate::laws::{deletion_text, document_text, done, how_many};
use crate::request::{execution, settled};
use crate::rows::{refusal, Wanted};
use crate::sql::SqlValueView;
use crate::store::{selection, text_read, Selected};
use crate::sync::document::{
    created_at_value, upsert_columns, upsert_command, upsert_sql, upsert_values,
};
use crate::sync::http::Failure;
use crate::sync::pull::{
    applying, change_command, changes_applied, checkpoint_key, checkpoint_read, marked_deleted,
    pull_failure_text, pull_from, pull_request, put_in_place, summary_of,
    update_checkpoint_command, PullChange, PullResponse, PullSessionView, PullSummary,
    CHECKPOINT_SQL,
};
use crate::text::{joined, without_end_slashes};
use vstd::prelude::*;
use vstd::utf8::{encode_utf8, encode_utf8_valid_utf8};

verus! {

proof fn five_are_joined(
    a: Seq<char>,
    b: Seq<char>,
    c: Seq<char>,
    d: Seq<char>,
    e: Seq<char>,
    separator: Seq<char>,
)
    ensures
        joined(seq![a, b, c, d, e], separator) == a + separator + b + separator + c + separator + d
            + separator + e,
{
    let five = seq![a, b, c, d, e];
    let four = seq![a, b, c, d];
    let three = seq![a, b, c];
    let two = seq![a, b];
    assert(five.drop_last() =~= four);
    assert(four.drop_last() =~= three);
    assert(three.drop_last() =~= two);
    assert(two.drop_last() =~= seq![a]);
    assert(joined(seq![a], separator) == a);
    assert(joined(two, separator) == a + separator + b);
    assert(joined(three, separator) == a + separator + b + separator + c);
    assert(joined(four, separator) == a + separator + b + separator + c + separator + d);
}

/// A document is written whole: what goes to the column `data` is the document
/// that is bound, whatever was there before; its time goes to `updatedAt`, and it
/// is not deleted.
pub proof fn document_is_written_whole(
    table: Seq<char>,
    doc_id: Seq<char>,
    data: serde_json::Value,
    updated_at: Seq<char>,
    words: Seq<char>,
)
    ensures
        upsert_sql(table) == document_text(table),
        upsert_command(table, doc_id, data, updated_at, words).sql == document_text(table),
        upsert_command(table, doc_id, data, updated_at, words).params == seq![
            SqlValueView::Text(doc_id),
            SqlValueView::Text(json_display(data)),
            SqlValueView::Text(updated_at),
        ],
        upsert_command(table, doc_id, data, updated_at, words).failure == words,
{
    five_are_joined("_id"@, "data"@, "createdAt"@, "updatedAt"@, "_deleted"@, ", "@);
    five_are_joined("?1"@, "?2"@, created_at_value(table), "?3"@, "0"@, ", "@);
}

/// What is written to each column of a document: the first bound value to the
/// key, the second to the data, the third to its time, and zero to the mark of
/// deletion.
pub proof fn each_column_gets_its_value(table: Seq<char>, i: int)
    requires
        0 <= i < upsert_columns().len(),
    ensures
        upsert_columns().len() == upsert_values(table).len(),
        upsert_columns()[i] == "_id"@ ==> upsert_values(table)[i] == "?1"@,
        upsert_columns()[i] == "data"@ ==> upsert_values(table)[i] == "?2"@,
        upsert_columns()[i] == "updatedAt"@ ==> upsert_values(table)[i] == "?3"@,
        upsert_columns()[i] == "_deleted"@ ==> upsert_values(table)[i] == "0"@,
        upsert_columns()[i] == "createdAt"@ ==> upsert_values(table)[i]
            == "COALESCE((SELECT createdAt FROM ["@ + table + "] WHERE _id = ?1), ?3)"@,
        upsert_columns().contains("_id"@),
        upsert_columns().contains("data"@),
        upsert_columns().contains("updatedAt"@),
        upsert_columns().contains("_deleted"@),
{
    reveal_strlit("_id");
    reveal_strlit("data");
    reveal_strlit("createdAt");
    reveal_strlit("updatedAt");
    reveal_strlit("_deleted");
    let names = upsert_columns();
    assert(names[0].len() == 3 && names[1].len() == 4 && names[4].len() == 8);
    assert(names[2][0] == 'c' && names[3][0] == 'u');
    assert(names[2].len() == 9 && names[3].len() == 9);
    assert(names[0] == "_id"@ && names[1] == "data"@ && names[3] == "updatedAt"@ && names[4]
        == "_deleted"@);
}

/// The step applies the change, with this outcome: a deleted document is marked
/// under its key with the time of the change, any other is written whole.
pub open spec fn applies(
    table: Seq<char>,
    change: PullChange,
    step: Step,
    outcome: Result<usize, Seq<char>>,
) -> bool {
    if change.deleted {
        step == Step::Executed {
            sql: deletion_text(table),
            params: seq![
                SqlValueView::Text(change.updated_at@),
                SqlValueView::Text(change.doc_id@),
            ],
            outcome,
        }
    } else {
        step == Step::Executed {
            sql: document_text(table),
            params: seq![
                SqlValueView::Text(change.doc_id@),
                SqlValueView::Text(json_display(change.data)),
                SqlValueView::Text(change.updated_at@),
            ],
            outcome,
        }
    }
}

proof fn change_is_applied(table: Seq<char>, change: PullChange, outcome: Result<usize, Seq<char>>)
    ensures
        applies(table, change, execution(change_command(table, change), outcome), outcome),
{
    document_is_written_whole(
        table,
        change.doc_id@,
        change.data,
        change.updated_at@,
        change_command(table, change).failure,
    );
}

proof fn changes_are_applied_one_by_one(
    table: Seq<char>,
    changes: Seq<PullChange>,
    rows: Seq<usize>,
    logs: Seq<Seq<Step>>,
    n: nat,
)
    requires
        first_ran(changes, rows, logs, applying(table)),
        n <= rows.len(),
    ensures
        logs[n as int].len() == logs[0].len() + n,
        logs[n as int].take(logs[0].len() as int) == logs[0],
        forall|i: int|
            0 <= i < n ==> applies(
                table,
                #[trigger] changes[i],
                logs[n as int][logs[0].len() + i],
                Ok(rows[i]),
            ),
    decreases n,
{
    let k = logs[0].len() as int;
    if n == 0 {
        assert(logs[0].take(k) =~= logs[0]);
    } else {
        let m = (n - 1) as nat;
        changes_are_applied_one_by_one(table, changes, rows, logs, m);
        let change = changes[m as int];
        let step = execution(change_command(table, change), Ok(rows[m as int]));
        assert(applying(table)(change, logs[m as int], logs[n as int], Ok(rows[m as int])));
        assert(logs[n as int] == logs[m as int].push(step));
        assert(logs[n as int].take(k) =~= logs[m as int].take(k));
        change_is_applied(table, change, Ok(rows[m as int]));
        assert forall|i: int| 0 <= i < n implies applies(
            table,
            #[trigger] changes[i],
            logs[n as int][k + i],
            Ok(rows[i]),
        ) by {
            if i < m {
                assert(logs[n as int][k + i] == logs[m as int][k + i]);
            }
        }
    }
}

proof fn puts_are_counted(changes: Seq<PullChange>)
    ensures
        put_in_place(changes) == how_many(changes.len(), |i: int| !changes[i].deleted),
    decreases changes.len(),
{
    if changes.len() > 0 {
        let shorter = changes.drop_last();
        puts_are_counted(shorter);
        how_many_agree(
            shorter.len(),
            |i: int| !shorter[i].deleted,
            |i: int| !changes[i].deleted,
        );
    }
}

proof fn marks_are_counted(changes: Seq<PullChange>, rows: Seq<usize>)
    requires
        rows.len() == changes.len(),
    ensures
        marked_deleted(changes, rows) == how_many(
            changes.len(),
            |i: int| changes[i].deleted && rows[i] > 0,
        ),
    decreases changes.len(),
{
    if changes.len() > 0 {
        let shorter = changes.drop_last();
        let fewer = rows.drop_last();
        marks_are_counted(shorter, fewer);
        how_many_agree(
            shorter.len(),
            |i: int| shorter[i].deleted && fewer[i] > 0,
            |i: int| changes[i].deleted && rows[i] > 0,
        );
    }
}

/// The same numbers are counted where the properties agree on them.
pub proof fn how_many_agree(n: nat, a: spec_fn(int) -> bool, b: spec_fn(int) -> bool)
    requires
        forall|i: int| 0 <= i < n ==> (#[trigger] a(i) <==> b(i)),
    ensures
        how_many(n, a) == how_many(n, b),
    decreases n,
{
    if n > 0 {
        assert(a(n - 1) <==> b(n - 1));
        how_many_agree((n - 1) as nat, a, b);
    }
}

/// Each change was applied by one command, in their order. The counts are those of
/// the documents that were written, and of those that were marked as deleted and
/// exist.
pub open spec fn are_applied_in_order(
    table: Seq<char>,
    changes: Seq<PullChange>,
    before: Seq<Step>,
    after: Seq<Step>,
    counts: (usize, usize),
) -> bool {
    &&& after.len() == before.len() + changes.len()
    &&& after.take(before.len() as int) == before
    &&& exists|rows: Seq<usize>|
        {
            &&& #[trigger] rows.len() == changes.len()
            &&& forall|i: int|
                0 <= i < changes.len() ==> applies(
                    table,
                    #[trigger] changes[i],
                    after[before.len() + i],
                    Ok(rows[i]),
                )
            &&& counts.0 == how_many(changes.len(), |i: int| !changes[i].deleted)
            &&& counts.1 == how_many(changes.len(), |i: int| changes[i].deleted && rows[i] > 0)
        }
}

/// A page of changes is applied in its order, each change by one command; the
/// result counts the documents that were written, and those that were marked as
/// deleted and exist.
pub proof fn every_change_is_applied_in_order(
    table: Seq<char>,
    changes: Seq<PullChange>,
    before: Seq<Step>,
    after: Seq<Step>,
    counts: (usize, usize),
)
    requires
        changes_applied(table, changes, before, after, Ok(counts)),
    ensures
        are_applied_in_order(table, changes, before, after, counts),
{
    let rows = choose|rows: Seq<usize>| #[trigger]
        every_ran(changes, rows, before, after, applying(table)) && counts.0 == put_in_place(
            changes,
        ) && counts.1 == marked_deleted(changes, rows);
    let logs = choose|logs: Seq<Seq<Step>>| #[trigger]
        first_ran(changes, rows, logs, applying(table)) && rows.len() == changes.len() && logs[0]
            == before && logs.last() == after;
    changes_are_applied_one_by_one(table, changes, rows, logs, rows.len());
    puts_are_counted(changes);
    marks_are_counted(changes, rows);
    assert(rows.len() == changes.len());
}

/// The step applied the change with success.
pub open spec fn was_applied(table: Seq<char>, change: PullChange, step: Step) -> bool {
    &&& step is Executed
    &&& step->Executed_outcome is Ok
    &&& applies(table, change, step, step->Executed_outcome)
}

/// The changes were applied up to one that the database refused; the message names
/// its document and table, with the database's own words.
pub open spec fn are_applied_up_to_a_refusal(
    table: Seq<char>,
    changes: Seq<PullChange>,
    before: Seq<Step>,
    after: Seq<Step>,
    message: Seq<char>,
) -> bool {
    let n = after.len() - before.len() - 1;
    &&& before.len() < after.len() <= before.len() + changes.len()
    &&& after.take(before.len() as int) == before
    &&& after.last() is Executed
    &&& after.last()->Executed_outcome is Err
    &&& applies(table, changes[n], after.last(), after.last()->Executed_outcome)
    &&& message == (if changes[n].deleted {
        "Failed to soft-delete doc '"@
    } else {
        "Failed to upsert doc '"@
    }) + changes[n].doc_id@ + "' in '"@ + table + "': "@ + after.last()->Executed_outcome->Err_0
    &&& forall|i: int|
        0 <= i < after.len() - before.len() - 1 ==> was_applied(
            table,
            #[trigger] changes[i],
            after[before.len() + i],
        )
}

/// A page that is refused was applied up to the change that the database refused;
/// the message names its document and table, with the database's own words.
pub proof fn refused_change_ends_the_page(
    table: Seq<char>,
    changes: Seq<PullChange>,
    before: Seq<Step>,
    after: Seq<Step>,
    message: Seq<char>,
)
    requires
        changes_applied(table, changes, before, after, Err(message)),
    ensures
        are_applied_up_to_a_refusal(table, changes, before, after, message),
{
    let (rows, logs) = choose|rows: Seq<usize>, logs: Seq<Seq<Step>>| #[trigger]
        first_ran(changes, rows, logs, applying(table)) && rows.len() < changes.len() && logs[0]
            == before && applying(table)(
            changes[rows.len() as int],
            logs.last(),
            after,
            Err(message),
        );
    let n = rows.len() as int;
    let change = changes[n];
    let command = change_command(table, change);
    changes_are_applied_one_by_one(table, changes, rows, logs, rows.len());
    let e = choose|e: Seq<char>|
        after == logs.last().push(#[trigger] execution(command, Err(e))) && message
            == command.failure + e;
    change_is_applied(table, change, Err(e));
    assert(after.take(before.len() as int) =~= logs.last().take(before.len() as int));
    assert(after.last() == execution(command, Err(e)));
    assert(logs.last() == logs[n]);
    assert(after.len() - before.len() - 1 == n);
    assert forall|i: int| 0 <= i < after.len() - before.len() - 1 implies was_applied(
        table,
        #[trigger] changes[i],
        after[before.len() + i],
    ) by {
        assert(after[before.len() + i] == logs.last()[before.len() + i]);
        assert(applies(table, changes[i], logs.last()[before.len() + i], Ok(rows[i])));
    }
}

/// A checkpoint is set under its table, mode and filter.
pub proof fn checkpoint_is_set(
    table: Seq<char>,
    sync_mode: Seq<char>,
    filter_key: Seq<char>,
    last_sync_at: Seq<char>,
    before: Seq<Step>,
    after: Seq<Step>,
    r: Result<(), Seq<char>>,
)
    requires
        settled(
            before,
            after,
            update_checkpoint_command(table, sync_mode, filter_key, last_sync_at),
            r,
        ),
    ensures
        done(
            before,
            after,
            "INSERT OR REPLACE INTO _sync_checkpoint (table_name, sync_mode, filter_key, last_sync_at)
         VALUES (?1, ?2, ?3, ?4)"@,
            seq![
                SqlValueView::Text(table),
                SqlValueView::Text(sync_mode),
                SqlValueView::Text(filter_key),
                SqlValueView::Text(last_sync_at),
            ],
            "Failed to update checkpoint: "@,
            r,
        ),
{
    let command = update_checkpoint_command(table, sync_mode, filter_key, last_sync_at);
    settled_is_done(before, after, command, r);
    assert(command.params =~= seq![
        SqlValueView::Text(table),
        SqlValueView::Text(sync_mode),
        SqlValueView::Text(filter_key),
        SqlValueView::Text(last_sync_at),
    ]);
}

/// The database was asked for the row under all three, and `r` is what it holds:
/// there is no checkpoint where there is no such row.
pub open spec fn is_checkpoint_held(
    table: Seq<char>,
    sync_mode: Seq<char>,
    filter_key: Seq<char>,
    before: Seq<Step>,
    after: Seq<Step>,
    r: Result<Option<String>, String>,
) -> bool {
    &&& before.len() < after.len() <= before.len() + 3
    &&& after.take(before.len() as int) == before
    &&& after[before.len() as int] is Prepared
    &&& after[before.len() as int]->Prepared_sql == "SELECT last_sync_at FROM _sync_checkpoint
         WHERE table_name = ?1 AND sync_mode = ?2 AND filter_key = ?3"@
    &&& after.len() > before.len() + 1 ==> after[before.len() as int + 1] is Started && after[before.len() as int
            + 1]->Started_params == seq![
            SqlValueView::Text(table),
            SqlValueView::Text(sync_mode),
            SqlValueView::Text(filter_key),
        ]
    &&& match after.last() {
            Step::Fetched { outcome: Ok(Some(row)) } => match r {
                Ok(Some(text)) => row.len() > 0 && row[0] == Stored::Text(encode_utf8(text@)),
                Ok(None) => false,
                Err(e) => "Failed to read checkpoint: "@.is_prefix_of(e@) && forall|
                    text: Seq<char>,
                |
                    row.len() == 0 || row[0] != Stored::Text(#[trigger] encode_utf8(text)),
            },
            Step::Fetched { outcome: Ok(None) } => r == Ok::<Option<String>, String>(None),
            Step::Fetched { outcome: Err(e) } => r is Err && r->Err_0@
                == "Failed to read checkpoint: "@ + e,
            Step::Started { params, outcome: Err(e) } => r is Err && r->Err_0@
                == "Failed to read checkpoint: "@ + e,
            Step::Prepared { sql, outcome: Err(e) } => r is Err && r->Err_0@
                == "Failed to read checkpoint: "@ + e,
            _ => false,
        }
}

/// The checkpoint of a table, mode and filter is what the database holds under
/// all three; there is none where it holds no such row.
pub proof fn checkpoint_is_asked_for(
    table: Seq<char>,
    sync_mode: Seq<char>,
    filter_key: Seq<char>,
    before: Seq<Step>,
    after: Seq<Step>,
    r: Result<Option<String>, String>,
)
    requires
        checkpoint_read(checkpoint_key(table, sync_mode, filter_key), before, after, r),
    ensures
        is_checkpoint_held(table, sync_mode, filter_key, before, after, r),
{
    let key = checkpoint_key(table, sync_mode, filter_key);
    let (answer, read) = choose|answer: Selected, read: Result<Option<String>, String>|
        #![trigger selection(CHECKPOINT_SQL@, key, answer), text_read(answer, "last_sync_at"@, read)]
        {
            &&& after == before + selection(CHECKPOINT_SQL@, key, answer)
            &&& text_read(answer, "last_sync_at"@, read)
            &&& match read {
                Ok(checkpoint) => r == Ok::<Option<String>, String>(checkpoint),
                Err(e) => r is Err && r->Err_0@ == "Failed to read checkpoint: "@ + e@,
            }
        };
    let steps = selection(CHECKPOINT_SQL@, key, answer);
    assert(after.take(before.len() as int) =~= before);
    assert(after[before.len() as int] == steps[0]);
    assert(after.last() == steps.last());
    if after.len() > before.len() + 1 {
        assert(after[before.len() as int + 1] == steps[1]);
    }
    if let Selected::Rows { rows, ending } = answer {
        if ending is Stopped {
            assert(steps.last() == Step::Fetched { outcome: Ok(Some(rows[0])) });
            if let Err(e) = read {
                assert forall|text: Seq<char>|
                    rows[0].len() == 0 || rows[0][0] != Stored::Text(
                        #[trigger] encode_utf8(text),
                    ) by {
                    encode_utf8_valid_utf8(text);
                    assert(refusal(rows[0], 0, "last_sync_at"@, Wanted::Text) is Some);
                }
                assert("Failed to read checkpoint: "@.is_prefix_of(
                    "Failed to read checkpoint: "@ + e@,
                ));
            }
        }
    }
}

/// A pull starts at the checkpoint, or from the beginning where there is none,
/// with nothing counted yet.
pub proof fn pull_starts_at_the_checkpoint(
    table: Seq<char>,
    sync_mode: Seq<char>,
    filter_key: Seq<char>,
    checkpoint: Option<String>,
)
    ensures
        ({
            let session = pull_from(table, sync_mode, filter_key, checkpoint);
            &&& session.table_name == table
            &&& session.sync_mode == sync_mode
            &&& session.filter_key == filter_key
            &&& checkpoint matches Some(time) ==> session.since == time@
            &&& checkpoint is None ==> session.since.len() == 0
            &&& session.applied == 0 && session.deleted == 0 && session.pages == 0
        }),
{
}

/// A page moves the pull to the server's time, and adds its counts and itself to
/// those of the pull.
pub proof fn page_moves_the_pull(
    session: PullSessionView,
    page: PullResponse,
    counts: (usize, usize),
)
    ensures
        ({
            let next = session.after_page(page, counts);
            &&& next.table_name == session.table_name
            &&& next.sync_mode == session.sync_mode
            &&& next.filter_key == session.filter_key
            &&& next.since == page.server_time@
            &&& next.applied == session.applied + counts.0
            &&& next.deleted == session.deleted + counts.1
            &&& next.pages == session.pages + 1
        }),
{
}

/// There is room for a page exactly where the counts still fit in a machine word
/// after it.
pub proof fn room_is_a_matter_of_counts(session: PullSessionView, page: PullResponse)
    ensures
        session.has_room(page) <==> session.pages + 1 <= usize::MAX && session.applied
            + session.deleted + page.changes@.len() <= usize::MAX,
{
}

/// The summary of a pull has its counts; what was pulled is what was written and
/// what was marked.
pub proof fn summary_counts_the_pull(session: PullSessionView, summary: PullSummary)
    ensures
        summary_of(session, summary) <==> summary.applied == session.applied && summary.deleted
            == session.deleted && summary.pages == session.pages && summary.pulled
            == session.applied + session.deleted,
{
}

/// A text without its slashes at the end is the text up to them.
pub proof fn slashes_at_the_end_are_left_out(s: Seq<char>)
    ensures
        without_end_slashes(s).is_prefix_of(s),
        forall|i: int| without_end_slashes(s).len() <= i < s.len() ==> #[trigger] s[i] == '/',
        without_end_slashes(s).len() > 0 ==> without_end_slashes(s).last() != '/',
    decreases s.len(),
{
    if s.len() > 0 && s.last() == '/' {
        slashes_at_the_end_are_left_out(s.drop_last());
        assert(s.drop_last().is_prefix_of(s));
        assert forall|i: int| without_end_slashes(s).len() <= i < s.len() implies #[trigger] s[i]
            == '/' by {
            if i < s.len() - 1 {
                assert(s.drop_last()[i] == s[i]);
            }
        }
    }
}

/// A page is asked for at the address of the table, with the time since which
/// changes are wanted, the mode and the filter, and with the token.
pub proof fn page_is_asked_for(
    base_url: Seq<char>,
    token: Seq<char>,
    table: Seq<char>,
    since: Seq<char>,
    mode: Seq<char>,
    filter_key: Seq<char>,
)
    ensures
        ({
            let request = pull_request(base_url, token, table, since, mode, filter_key);
            &&& request.url == without_end_slashes(base_url) + "/offlite/sync/"@ + table + "/pull"@
            &&& request.query == seq![
                ("since"@, since),
                ("mode"@, mode),
                ("filter_key"@, filter_key),
            ]
            &&& request.headers == seq![
                ("Accept"@, "application/sjs"@),
                ("Authorization"@, "Bearer "@ + token),
            ]
        }),
{
}

/// The message of a failed pull says where it failed.
pub proof fn failed_pull_says_where(failure: Failure)
    ensures
        match failure {
            Failure::Send(e) => pull_failure_text(failure) == "Pull request failed: "@ + e@,
            Failure::Status(status) => pull_failure_text(failure)
                == "Pull endpoint returned status "@ + status@,
            Failure::Body(e) => pull_failure_text(failure)
                == "Failed to read pull response body: "@ + e@,
            Failure::Decode(e) => pull_failure_text(failure)
                == "Failed to decode pull response MessagePack: "@ + e@,
        },
{
}

} // verus!
