//! Calls of a push.

use crate::changelog::{changes_read, pending_query, ChangeRecord};
use crate::driver::Step;
use crate::json::parsed_json;
use crate::laws::calls::pulling::is_pair;
use crate::laws::changes::{pending_are_asked_for, pending_changes_are_asked_for};
use crate::laws::pushing::{
    answer_is_marked_and_noted, are_noted_or_sent, changes_are_sent_to_the_table,
    failed_push_says_where, is_marked_and_noted, is_refused, is_refused_a_note,
    parsed_document_is_pushed, record_is_pushed_by_its_operation, records_are_noted_or_sent,
    refused_answer_says_why, refused_note_ends_the_push,
};
use crate::store::Store;
use crate::sync::http::Failure;
use crate::sync::push::{
    begin_push, change_record_to_push, finish_push, plan_push, prepare_records,
    push_encoding_failure, push_failure, records_prepared, upsert_record_to_push, OpenPush,
    PushChange, PushPlan, PushResponse, PushStart, PushSummary,
};
use crate::text::{signed_decimal, without_end_slashes};
use vstd::prelude::*;

verus! {

/// The change is an upsert of this document, or a delete where there is none, of
/// the record's document and time.
pub open spec fn is_change_of(
    change: PushChange,
    record: ChangeRecord,
    document: Option<serde_json::Value>,
) -> bool {
    &&& change.op@ == (if document is Some {
        "upsert"@
    } else {
        "delete"@
    })
    &&& change.doc_id@ == record.doc_id@
    &&& change.data == document
    &&& change.updated_at@ == record.timestamp@
}

/// `change_record_to_push` makes an upsert of an insertion or an update, and a
/// delete of a deletion; what cannot be pushed says why.
pub proof fn change_record_to_push_comes_to(record: &ChangeRecord, r: Result<PushChange, String>)
    requires
        call_ensures(change_record_to_push, (record,), r),
    ensures
        ({
            let id = signed_decimal(record.id as int);
            if record.operation@ == "INSERT"@ || record.operation@ == "UPDATE"@ {
                match record.data {
                    Some(text) => match parsed_json(text@) {
                        Ok(document) => r is Ok && is_change_of(
                            r->Ok_0,
                            *record,
                            Some(document),
                        ),
                        Err(e) => r is Err && r->Err_0@
                            == "Failed to parse data JSON for record "@ + id + ": "@ + e,
                    },
                    None => r is Err && r->Err_0@ == "ChangeRecord "@ + id + " ("@ + record.doc_id@
                        + ") has no data for "@ + record.operation@,
                }
            } else if record.operation@ == "DELETE"@ {
                r is Ok && is_change_of(r->Ok_0, *record, None)
            } else {
                r is Err && r->Err_0@ == "Unknown operation '"@ + record.operation@
                    + "' in change record "@ + id
            }
        }),
{
    record_is_pushed_by_its_operation(*record);
    match r {
        Ok(change) => {
            assert(crate::sync::push::change_result(r) == Ok::<
                crate::sync::push::PushChangeView,
                Seq<char>,
            >(change@));
        },
        Err(e) => {
            assert(crate::sync::push::change_result(r) == Err::<
                crate::sync::push::PushChangeView,
                Seq<char>,
            >(e@));
        },
    }
}

/// `upsert_record_to_push` pushes the document that was parsed.
pub proof fn upsert_record_to_push_comes_to(
    record: &ChangeRecord,
    document: Result<serde_json::Value, String>,
    r: Result<PushChange, String>,
)
    requires
        call_ensures(upsert_record_to_push, (record, document), r),
    ensures
        match document {
            Ok(v) => r is Ok && is_change_of(r->Ok_0, *record, Some(v)),
            Err(e) => r is Err && r->Err_0@ == "Failed to parse data JSON for record "@
                + signed_decimal(record.id as int) + ": "@ + e@,
        },
{
    parsed_document_is_pushed(
        *record,
        match document {
            Ok(v) => Ok(v),
            Err(e) => Err(e@),
        },
    );
    match r {
        Ok(change) => {
            assert(crate::sync::push::change_result(r) == Ok::<
                crate::sync::push::PushChangeView,
                Seq<char>,
            >(change@));
        },
        Err(e) => {
            assert(crate::sync::push::change_result(r) == Err::<
                crate::sync::push::PushChangeView,
                Seq<char>,
            >(e@));
        },
    }
}

/// `plan_push` sends all changes to the table, or nothing where there are none.
pub proof fn plan_push_comes_to(
    base_url: &str,
    token: &str,
    table: &str,
    changes: Vec<PushChange>,
    r: PushPlan,
)
    requires
        call_ensures(plan_push, (base_url, token, table, changes), r),
    ensures
        changes@.len() == 0 <==> r is Answered,
        match r {
            PushPlan::Answered(response) => response.accepted@.len() == 0
                && response.conflicts@.len() == 0,
            PushPlan::Send(request, body) => {
                &&& body.changes == changes
                &&& request.url@ == without_end_slashes(base_url@) + "/offlite/sync/"@ + table@
                    + "/push"@
                &&& request.query@.len() == 0
                &&& request.headers@.len() == 2
                &&& is_pair(request.headers@[0], "Content-Type"@, "application/sjs"@)
                &&& is_pair(request.headers@[1], "Authorization"@, "Bearer "@ + token@)
            },
        },
{
    if let PushPlan::Send(request, body) = r {
        changes_are_sent_to_the_table(base_url@, token@, table@);
        let query = crate::sync::http::pairs(request.query@);
        let headers = crate::sync::http::pairs(request.headers@);
        assert(request@.query == query && request@.headers == headers);
        assert(query.len() == request.query@.len() && headers.len() == request.headers@.len());
        assert(headers[0] == ("Content-Type"@, "application/sjs"@));
        assert(headers[1] == ("Authorization"@, "Bearer "@ + token@));
    }
}

/// `push_encoding_failure` has its words before the error.
pub proof fn push_encoding_failure_comes_to(error: &str, r: String)
    requires
        call_ensures(push_encoding_failure, (error,), r),
    ensures
        r@ == "Failed to encode push request as MessagePack: "@ + error@,
{
}

/// `push_failure` says where a push failed.
pub proof fn push_failure_comes_to(failure: &Failure, r: String)
    requires
        call_ensures(push_failure, (failure,), r),
    ensures
        r@ == match *failure {
            Failure::Send(e) => "Push request failed: "@ + e@,
            Failure::Status(status) => "Push endpoint returned status "@ + status@,
            Failure::Body(e) => "Failed to read push response body: "@ + e@,
            Failure::Decode(e) => "Failed to decode push response MessagePack: "@ + e@,
        },
{
    failed_push_says_where(*failure);
}

/// `prepare_records` notes a message at each record that cannot be pushed, and
/// sends all others.
pub proof fn prepare_records_comes_to(
    store: &mut Store,
    records: &Vec<ChangeRecord>,
    r: Result<PushStart, String>,
)
    requires
        call_ensures(prepare_records, (store, records), r),
    ensures
        final(store).conn() == old(store).conn(),
        match r {
            Ok(start) => are_noted_or_sent(
                records@,
                old(store).log(),
                final(store).log(),
                start,
            ),
            Err(e) => is_refused_a_note(records@, old(store).log(), final(store).log(), e@),
        },
{
    match r {
        Ok(start) => {
            records_are_noted_or_sent(records@, old(store).log(), final(store).log(), start);
        },
        Err(e) => {
            refused_note_ends_the_push(records@, old(store).log(), final(store).log(), e);
        },
    }
}

/// What a push does with the pending changes that were read: each is noted or
/// sent; where they could not be read, nothing is done.
pub open spec fn goes_on_with(
    pending: Result<Vec<ChangeRecord>, String>,
    before: Seq<Step>,
    after: Seq<Step>,
    r: Result<PushStart, String>,
) -> bool {
    match pending {
        Ok(records) => match r {
            Ok(start) => are_noted_or_sent(records@, before, after, start),
            Err(e) => is_refused_a_note(records@, before, after, e@),
        },
        Err(e) => after == before && r is Err && r->Err_0 == e,
    }
}

/// `begin_push` takes the pending changes of the table, oldest first, notes a
/// message at each that cannot be pushed, and sends all others.
pub proof fn begin_push_comes_to(store: &mut Store, table: &str, r: Result<PushStart, String>)
    requires
        call_ensures(begin_push, (store, table), r),
    ensures
        final(store).conn() == old(store).conn(),
        exists|pending: Result<Vec<ChangeRecord>, String>, middle: Seq<Step>|
            {
                &&& pending_are_asked_for(table@, old(store).log(), middle, pending) || (pending is Ok
                    && pending->Ok_0@.len() == usize::MAX)
                &&& #[trigger] goes_on_with(pending, middle, final(store).log(), r)
            },
{
    let (pending, middle) = choose|
        pending: Result<Vec<ChangeRecord>, String>,
        middle: Seq<Step>,
    | #[trigger]
        changes_read(old(store).log(), middle, pending_query(table@), pending) && match pending {
            Ok(records) => records_prepared(records@, middle, final(store).log(), r),
            Err(e) => final(store).log() == middle && r is Err && r->Err_0 == e,
        };
    if !(pending is Ok && pending->Ok_0@.len() == usize::MAX) {
        pending_changes_are_asked_for(table@, old(store).log(), middle, pending);
    }
    assert(pending_are_asked_for(table@, old(store).log(), middle, pending) || pending is Ok
        && pending->Ok_0@.len() == usize::MAX);
    if let Ok(records) = pending {
        match r {
            Ok(start) => {
                records_are_noted_or_sent(records@, middle, final(store).log(), start);
            },
            Err(e) => {
                refused_note_ends_the_push(records@, middle, final(store).log(), e);
            },
        }
    }
    assert(goes_on_with(pending, middle, final(store).log(), r));
}

/// `finish_push` marks all records of the accepted documents, notes the conflicts,
/// and sums up.
pub proof fn finish_push_comes_to(
    store: &mut Store,
    open: OpenPush,
    response: &PushResponse,
    r: Result<PushSummary, String>,
)
    requires
        call_ensures(finish_push, (store, open, response), r),
    ensures
        final(store).conn() == old(store).conn(),
        match r {
            Ok(summary) => is_marked_and_noted(
                open,
                *response,
                old(store).log(),
                final(store).log(),
                summary,
            ),
            Err(e) => is_refused(open, *response, old(store).log(), final(store).log(), e@),
        },
{
    match r {
        Ok(summary) => {
            answer_is_marked_and_noted(
                open,
                *response,
                old(store).log(),
                final(store).log(),
                summary,
            );
        },
        Err(e) => {
            refused_answer_says_why(open, *response, old(store).log(), final(store).log(), e);
        },
    }
}

} // verus!
