//! The documents of a business table.

use crate::chain::{every_ran, first_ran, grew_by};
use crate::driver::{Step, Stored};
use crate::json::json_display;
use crate::laws::pulling::document_is_written_whole;
use crate::laws::{deletion_text, document_text};
use crate::request::execution;
use crate::store::{reads, selection, selection_only_reads, Selected};
use crate::sync::conflict::{
    local_version, local_version_params, local_version_sql, resolution_of, resolved,
    resolved_against, server_version_command, server_wins, ConflictResolution, ConflictWinner,
};
use crate::sync::pull::{
    applying, change_command, changes_applied, marked_deleted, put_in_place, PullChange,
};
use crate::sync::push::ConflictInfo;
use crate::tables::text_in;
use vstd::prelude::*;
use vstd::utf8::encode_utf8;

verus! {

/// A row of a business table, without its key.
#[verifier::ext_equal]
pub struct Document {
    pub data: Seq<char>,
    pub created_at: Seq<char>,
    pub updated_at: Seq<char>,
    pub deleted: bool,
    /// What the columns hold that no document is written to.
    pub others: Seq<Stored>,
}

/// The columns that no document is written to, in a row that does not name them:
/// `uid`, `companyId`, `p_id`, `_version` and `_status`.
pub open spec fn others_left_out() -> Seq<Stored> {
    seq![
        Stored::Null,
        Stored::Null,
        Stored::Null,
        Stored::Integer(1),
        Stored::Text(encode_utf8("synced"@)),
    ]
}

/// A document is put in place: the row of the same key is replaced, but for the
/// time of its creation.
pub open spec fn put(
    documents: Map<Seq<char>, Document>,
    id: Seq<char>,
    data: Seq<char>,
    updated_at: Seq<char>,
) -> Map<Seq<char>, Document> {
    documents.insert(
        id,
        Document {
            data,
            created_at: if documents.contains_key(id) {
                documents[id].created_at
            } else {
                updated_at
            },
            updated_at,
            deleted: false,
            others: others_left_out(),
        },
    )
}

/// A document is marked as deleted, if there is one.
pub open spec fn mark(
    documents: Map<Seq<char>, Document>,
    id: Seq<char>,
    updated_at: Seq<char>,
) -> Map<Seq<char>, Document> {
    if documents.contains_key(id) {
        documents.insert(id, Document { updated_at, deleted: true, ..documents[id] })
    } else {
        documents
    }
}

/// The documents of a table after one step.
pub open spec fn documents_after_step(
    documents: Map<Seq<char>, Document>,
    table: Seq<char>,
    step: Step,
) -> Map<Seq<char>, Document> {
    match step {
        Step::Executed { sql, params, outcome: Ok(_) } => if sql == document_text(table) {
            put(documents, text_in(params[0]), text_in(params[1]), text_in(params[2]))
        } else if sql == deletion_text(table) {
            mark(documents, text_in(params[1]), text_in(params[0]))
        } else {
            arbitrary()
        },
        _ => arbitrary(),
    }
}

/// The documents of a table after these steps.
pub open spec fn documents_after(
    documents: Map<Seq<char>, Document>,
    table: Seq<char>,
    steps: Seq<Step>,
) -> Map<Seq<char>, Document>
    decreases steps.len(),
{
    if steps.len() == 0 {
        documents
    } else {
        documents_after_step(
            documents_after(documents, table, steps.drop_last()),
            table,
            steps.last(),
        )
    }
}

/// The documents after a pulled change.
pub open spec fn changed(
    documents: Map<Seq<char>, Document>,
    change: PullChange,
) -> Map<Seq<char>, Document> {
    if change.deleted {
        mark(documents, change.doc_id@, change.updated_at@)
    } else {
        put(documents, change.doc_id@, json_display(change.data), change.updated_at@)
    }
}

/// The documents after pulled changes, in order.
pub open spec fn all_changed(
    documents: Map<Seq<char>, Document>,
    changes: Seq<PullChange>,
) -> Map<Seq<char>, Document>
    decreases changes.len(),
{
    if changes.len() == 0 {
        documents
    } else {
        changed(all_changed(documents, changes.drop_last()), changes.last())
    }
}

proof fn upsert_is_no_deletion(table: Seq<char>)
    ensures
        document_text(table) != deletion_text(table),
{
    reveal_strlit("INSERT OR REPLACE INTO [");
    reveal_strlit("UPDATE [");
    assert(document_text(table)[0] == 'I');
    assert(deletion_text(table)[0] == 'U');
}

proof fn change_step_changes(
    documents: Map<Seq<char>, Document>,
    table: Seq<char>,
    change: PullChange,
    rows: usize,
)
    ensures
        documents_after_step(documents, table, execution(change_command(table, change), Ok(rows)))
            == changed(documents, change),
{
    upsert_is_no_deletion(table);
    document_is_written_whole(
        table,
        change.doc_id@,
        change.data,
        change.updated_at@,
        change_command(table, change).failure,
    );
}

proof fn chain_changes(
    documents: Map<Seq<char>, Document>,
    table: Seq<char>,
    changes: Seq<PullChange>,
    rows: Seq<usize>,
    logs: Seq<Seq<Step>>,
    n: nat,
)
    requires
        first_ran(changes, rows, logs, applying(table)),
        n <= rows.len(),
    ensures
        logs[0].is_prefix_of(logs[n as int]),
        documents_after(documents, table, logs[n as int].skip(logs[0].len() as int))
            == all_changed(documents, changes.take(n as int)),
    decreases n,
{
    if n == 0 {
        assert(logs[0].skip(logs[0].len() as int) =~= Seq::empty());
    } else {
        let m = (n - 1) as nat;
        let k = logs[0].len() as int;
        chain_changes(documents, table, changes, rows, logs, m);
        let change = changes[m as int];
        let step = execution(change_command(table, change), Ok(rows[m as int]));
        assert(applying(table)(change, logs[m as int], logs[n as int], Ok(rows[m as int])));
        assert(logs[n as int] == logs[m as int].push(step));
        assert(logs[n as int].skip(k).drop_last() =~= logs[m as int].skip(k));
        assert(changes.take(n as int).drop_last() =~= changes.take(m as int));
        change_step_changes(
            all_changed(documents, changes.take(m as int)),
            table,
            change,
            rows[m as int],
        );
    }
}

/// Pulled changes that were applied are in the table, each on top of those
/// before it.
pub proof fn pulled_changes_are_in_place(
    documents: Map<Seq<char>, Document>,
    table: Seq<char>,
    changes: Seq<PullChange>,
    before: Seq<Step>,
    after: Seq<Step>,
    counts: (usize, usize),
)
    requires
        changes_applied(table, changes, before, after, Ok(counts)),
    ensures
        before.is_prefix_of(after),
        documents_after(documents, table, after.skip(before.len() as int)) == all_changed(
            documents,
            changes,
        ),
{
    let rows = choose|rows: Seq<usize>| #[trigger]
        every_ran(changes, rows, before, after, applying(table)) && counts.0 == put_in_place(
            changes,
        ) && counts.1 == marked_deleted(changes, rows);
    let logs = choose|logs: Seq<Seq<Step>>| #[trigger]
        first_ran(changes, rows, logs, applying(table)) && rows.len() == changes.len() && logs[0]
            == before && logs.last() == after;
    chain_changes(documents, table, changes, rows, logs, rows.len());
    assert(changes.take(rows.len() as int) =~= changes);
}

/// The last change of a document decides: one that deletes it leaves it marked,
/// any other puts its data in place.
pub proof fn last_change_decides(
    documents: Map<Seq<char>, Document>,
    changes: Seq<PullChange>,
    i: int,
)
    requires
        0 <= i < changes.len(),
        forall|j: int| i < j < changes.len() ==> #[trigger] changes[j].doc_id@ != changes[i].doc_id@,
    ensures
        ({
            let after = all_changed(documents, changes);
            let id = changes[i].doc_id@;
            if changes[i].deleted {
                after.contains_key(id) ==> after[id].deleted && after[id].updated_at
                    == changes[i].updated_at@
            } else {
                &&& after.contains_key(id)
                &&& after[id].data == json_display(changes[i].data)
                &&& after[id].updated_at == changes[i].updated_at@
                &&& !after[id].deleted
            }
        }),
    decreases changes.len(),
{
    let shorter = changes.drop_last();
    if i < shorter.len() {
        assert forall|j: int| i < j < shorter.len() implies #[trigger] shorter[j].doc_id@
            != shorter[i].doc_id@ by {
            assert(changes[j].doc_id@ != changes[i].doc_id@);
        }
        last_change_decides(documents, shorter, i);
        assert(changes[changes.len() - 1].doc_id@ != changes[i].doc_id@);
    }
}

/// A document that no change names stays as it is.
pub proof fn other_documents_stay(
    documents: Map<Seq<char>, Document>,
    changes: Seq<PullChange>,
    id: Seq<char>,
)
    requires
        forall|j: int| 0 <= j < changes.len() ==> #[trigger] changes[j].doc_id@ != id,
    ensures
        all_changed(documents, changes).contains_key(id) == documents.contains_key(id),
        documents.contains_key(id) ==> all_changed(documents, changes)[id] == documents[id],
    decreases changes.len(),
{
    if changes.len() > 0 {
        assert forall|j: int| 0 <= j < changes.drop_last().len() implies #[trigger]
            changes.drop_last()[j].doc_id@ != id by {
            assert(changes[j].doc_id@ != id);
        }
        assert(changes[changes.len() - 1].doc_id@ != id);
        other_documents_stay(documents, changes.drop_last(), id);
    }
}

/// The row of a document, if there is one.
pub open spec fn row_of(documents: Map<Seq<char>, Document>, id: Seq<char>) -> Option<Document> {
    if documents.contains_key(id) {
        Some(documents[id])
    } else {
        None
    }
}

/// What changes make of the row of one document.
spec fn row_after(row: Option<Document>, changes: Seq<PullChange>, id: Seq<char>) -> Option<
    Document,
>
    decreases changes.len(),
{
    if changes.len() == 0 {
        row
    } else {
        let earlier = row_after(row, changes.drop_last(), id);
        let change = changes.last();
        if change.doc_id@ != id {
            earlier
        } else if change.deleted {
            match earlier {
                Some(document) => Some(
                    Document { updated_at: change.updated_at@, deleted: true, ..document },
                ),
                None => None,
            }
        } else {
            Some(
                Document {
                    data: json_display(change.data),
                    created_at: match earlier {
                        Some(document) => document.created_at,
                        None => change.updated_at@,
                    },
                    updated_at: change.updated_at@,
                    deleted: false,
                    others: others_left_out(),
                },
            )
        }
    }
}

/// Some change names the document.
spec fn is_named(changes: Seq<PullChange>, id: Seq<char>) -> bool
    decreases changes.len(),
{
    changes.len() > 0 && (changes.last().doc_id@ == id || is_named(changes.drop_last(), id))
}

/// Some change puts the document in place.
spec fn is_put(changes: Seq<PullChange>, id: Seq<char>) -> bool
    decreases changes.len(),
{
    changes.len() > 0 && (changes.last().doc_id@ == id && !changes.last().deleted || is_put(
        changes.drop_last(),
        id,
    ))
}

proof fn rows_change_one_by_one(
    documents: Map<Seq<char>, Document>,
    changes: Seq<PullChange>,
    id: Seq<char>,
)
    ensures
        row_of(all_changed(documents, changes), id) == row_after(row_of(documents, id), changes, id),
    decreases changes.len(),
{
    if changes.len() > 0 {
        rows_change_one_by_one(documents, changes.drop_last(), id);
    }
}

proof fn row_keeps(row: Document, changes: Seq<PullChange>, id: Seq<char>)
    ensures
        row_after(Some(row), changes, id) is Some,
        row_after(Some(row), changes, id)->0.created_at == row.created_at,
        !is_put(changes, id) ==> {
            let after = row_after(Some(row), changes, id)->0;
            after.data == row.data && after.others == row.others
        },
        !is_named(changes, id) ==> row_after(Some(row), changes, id) == Some(row),
        is_put(changes, id) ==> is_named(changes, id),
    decreases changes.len(),
{
    if changes.len() > 0 {
        row_keeps(row, changes.drop_last(), id);
    }
}

proof fn absent_row_keeps(changes: Seq<PullChange>, id: Seq<char>)
    ensures
        row_after(None, changes, id) is Some == is_put(changes, id),
    decreases changes.len(),
{
    if changes.len() > 0 {
        absent_row_keeps(changes.drop_last(), id);
    }
}

/// Changes make the same of a row that was added by them.
proof fn row_comes_out_as_added(row: Document, changes: Seq<PullChange>, id: Seq<char>)
    requires
        row_after(None, changes, id) is Some,
        row_after(None, changes, id)->0.created_at == row.created_at,
    ensures
        row_after(Some(row), changes, id) == row_after(None, changes, id),
    decreases changes.len(),
{
    let shorter = changes.drop_last();
    row_keeps(row, shorter, id);
    if row_after(None, shorter, id) is Some {
        row_comes_out_as_added(row, shorter, id);
    }
}

/// Changes make the same of two rows that differ in what the changes write at
/// most.
proof fn rows_come_out_alike(a: Document, b: Document, changes: Seq<PullChange>, id: Seq<char>)
    requires
        a.created_at == b.created_at,
        is_put(changes, id) || a.data == b.data && a.others == b.others,
        is_named(changes, id),
    ensures
        row_after(Some(a), changes, id) == row_after(Some(b), changes, id),
    decreases changes.len(),
{
    let shorter = changes.drop_last();
    row_keeps(a, shorter, id);
    row_keeps(b, shorter, id);
    if is_named(shorter, id) && (is_put(shorter, id) || a.data == b.data && a.others == b.others) {
        rows_come_out_alike(a, b, shorter, id);
    }
}

proof fn changes_are_idempotent(
    documents: Map<Seq<char>, Document>,
    changes: Seq<PullChange>,
    id: Seq<char>,
)
    ensures
        row_of(all_changed(all_changed(documents, changes), changes), id) == row_of(
            all_changed(documents, changes),
            id,
        ),
{
    let once = all_changed(documents, changes);
    rows_change_one_by_one(documents, changes, id);
    rows_change_one_by_one(once, changes, id);
    absent_row_keeps(changes, id);
    match row_of(once, id) {
        None => {
            if let Some(old_row) = row_of(documents, id) {
                row_keeps(old_row, changes, id);
            }
        },
        Some(row) => {
            row_keeps(row, changes, id);
            match row_of(documents, id) {
                None => {
                    row_comes_out_as_added(row, changes, id);
                },
                Some(old_row) => {
                    row_keeps(old_row, changes, id);
                    if is_named(changes, id) {
                        rows_come_out_alike(row, old_row, changes, id);
                    }
                },
            }
        },
    }
}

/// Pulling is idempotent: where the same changes are applied twice, the second
/// time alters nothing.
pub proof fn pulling_again_changes_nothing(
    documents: Map<Seq<char>, Document>,
    table: Seq<char>,
    changes: Seq<PullChange>,
    before: Seq<Step>,
    middle: Seq<Step>,
    after: Seq<Step>,
    counts: (usize, usize),
    counts_again: (usize, usize),
)
    requires
        changes_applied(table, changes, before, middle, Ok(counts)),
        changes_applied(table, changes, middle, after, Ok(counts_again)),
    ensures
        ({
            let pulled = documents_after(documents, table, middle.skip(before.len() as int));
            documents_after(pulled, table, after.skip(middle.len() as int)) == pulled
        }),
{
    let once = all_changed(documents, changes);
    let twice = all_changed(once, changes);
    pulled_changes_are_in_place(documents, table, changes, before, middle, counts);
    pulled_changes_are_in_place(once, table, changes, middle, after, counts_again);
    assert forall|id: Seq<char>| twice.contains_key(id) == once.contains_key(id) && (
    once.contains_key(id) ==> #[trigger] twice[id] == once[id]) by {
        changes_are_idempotent(documents, changes, id);
    }
    assert forall|id: Seq<char>| #[trigger] twice.contains_key(id) == once.contains_key(id) by {
        changes_are_idempotent(documents, changes, id);
    }
    assert(twice =~= once);
}

/// A conflict that the server wins leaves its version in the table, one that the
/// local version wins leaves the table to it.
pub proof fn winner_is_in_place(
    documents: Map<Seq<char>, Document>,
    table: Seq<char>,
    conflict: ConflictInfo,
    resolved_at: Seq<char>,
    before: Seq<Step>,
    after: Seq<Step>,
    resolution: ConflictResolution,
)
    requires
        resolved(table, conflict, resolved_at, before, after, Ok(resolution)),
    ensures
        match resolution.winner {
            ConflictWinner::Server => {
                &&& after.len() > before.len()
                &&& grew_by(before, after.drop_last(), reads())
                &&& documents_after_step(documents, table, after.last()) == put(
                    documents,
                    conflict.doc_id@,
                    json_display(conflict.server_data),
                    conflict.server_updated_at@,
                )
            },
            ConflictWinner::Local => grew_by(before, after, reads()),
        },
{
    let sql = local_version_sql(table);
    let params = local_version_params(conflict.doc_id@);
    let (answer, local) = choose|answer: Selected, local: Seq<char>|
        #![trigger selection(sql, params, answer), local_version(answer, local)]
        local_version(answer, local) && resolved_against(
            table,
            conflict,
            local,
            resolved_at,
            before + selection(sql, params, answer),
            after,
            Ok(resolution),
        );
    let middle = before + selection(sql, params, answer);
    selection_only_reads(before, sql, params, answer);
    if server_wins(local, conflict.server_updated_at@) {
        let command = server_version_command(table, conflict);
        let r = Ok::<ConflictResolution, Seq<char>>(resolution);
        let outcome = choose|outcome: Result<usize, Seq<char>>|
            after == middle.push(#[trigger] execution(command, outcome)) && match outcome {
                Ok(_) => r is Ok && resolution_of(
                    r->Ok_0,
                    conflict,
                    local,
                    ConflictWinner::Server,
                    resolved_at,
                ),
                Err(e) => r == Err::<ConflictResolution, Seq<char>>(command.failure + e),
            };
        assert(after.drop_last() =~= middle);
        assert(after.last() == execution(command, outcome));
        document_is_written_whole(
            table,
            conflict.doc_id@,
            conflict.server_data,
            conflict.server_updated_at@,
            command.failure,
        );
    }
}

} // verus!
