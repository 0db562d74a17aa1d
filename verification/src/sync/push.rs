//! Pushing local changes to the server.

use crate::chain::{
    chain_steps, each_ran, first_ran, grew_by, growth_goes_on, none_ran, one_more_ran,
    ran_on_longer, Operation,
};
use crate::changelog::{
    changes_read, get_pending_changes, mark_sync_error, mark_synced, mark_synced_command,
    pending_query, sync_error_command, ChangeRecord, PENDING_SQL, SYNC_ERROR_SQL,
};
use crate::driver::{outcome_of, Step};
use crate::json::{parse_json, parsed_json};
use crate::registry::Registry;
use crate::request::{carried_out, execution, settled};
use crate::sql::{query_result, QueryOutcome};
use crate::rows::RecordReader;
use crate::store::{
    ending_steps, fetches, selection, selection_read, starting,
    Selected, Store,
};
use crate::sync::http::{
    authorization, bearer, endpoint, endpoint_url, pair, Failure, Request, RequestView,
};
use crate::text::{i64_text, join2, join3, join4, same_text, signed_decimal, texts};
use vstd::prelude::*;

verus! {

// ---------------------------------------------------------------------------
// Types
// ---------------------------------------------------------------------------
/// A single change entry in the push request payload.
#[derive(Debug, PartialEq)]
pub struct PushChange {
    /// `"upsert"` or `"delete"`
    pub op: String,
    pub doc_id: String,
    /// Full document JSON for upsert; `None` for delete.
    pub data: Option<serde_json::Value>,
    /// ISO 8601 timestamp of the change.
    pub updated_at: String,
}

impl Clone for PushChange {
    fn clone(&self) -> (r: Self)
        ensures
            r == *self,
    {
        PushChange {
            op: self.op.clone(),
            doc_id: self.doc_id.clone(),
            data: match &self.data {
                Some(v) => Some(v.clone()),
                None => None,
            },
            updated_at: self.updated_at.clone(),
        }
    }
}

/// What a [`PushChange`] is, over sequences.
#[verifier::ext_equal]
pub struct PushChangeView {
    pub op: Seq<char>,
    pub doc_id: Seq<char>,
    pub data: Option<serde_json::Value>,
    pub updated_at: Seq<char>,
}

impl View for PushChange {
    type V = PushChangeView;

    open spec fn view(&self) -> PushChangeView {
        PushChangeView {
            op: self.op@,
            doc_id: self.doc_id@,
            data: self.data,
            updated_at: self.updated_at@,
        }
    }
}

/// Request body sent to `POST /offlite/sync/{table}/push`.
#[derive(Debug, Clone)]
pub struct PushRequest {
    pub changes: Vec<PushChange>,
}

/// Information about a single conflict returned by the server.
#[derive(Debug, PartialEq)]
pub struct ConflictInfo {
    pub doc_id: String,
    pub server_data: serde_json::Value,
    pub server_updated_at: String,
}

impl Clone for ConflictInfo {
    fn clone(&self) -> (r: Self)
        ensures
            r == *self,
    {
        ConflictInfo {
            doc_id: self.doc_id.clone(),
            server_data: self.server_data.clone(),
            server_updated_at: self.server_updated_at.clone(),
        }
    }
}

/// Response body from the push endpoint.
#[derive(Debug, Clone)]
pub struct PushResponse {
    pub accepted: Vec<String>,
    pub conflicts: Vec<ConflictInfo>,
}

/// Summary returned after pushing all pending changes for a table.
#[derive(Debug, Clone)]
pub struct PushSummary {
    pub pushed: usize,
    pub accepted: usize,
    pub conflicts: usize,
    pub errors: Vec<String>,
}

// ---------------------------------------------------------------------------
// From a change record to a push change
// ---------------------------------------------------------------------------
/// The record adds or changes a document.
pub open spec fn is_upsert(record: ChangeRecord) -> bool {
    record.operation@ == "INSERT"@ || record.operation@ == "UPDATE"@
}

/// What an upsert comes to, by what its data was parsed to.
pub open spec fn upsert_of_record(
    record: ChangeRecord,
    document: Result<serde_json::Value, Seq<char>>,
) -> Result<PushChangeView, Seq<char>> {
    match document {
        Ok(v) => Ok(
            PushChangeView {
                op: "upsert"@,
                doc_id: record.doc_id@,
                data: Some(v),
                updated_at: record.timestamp@,
            },
        ),
        Err(e) => Err(
            "Failed to parse data JSON for record "@ + signed_decimal(record.id as int) + ": "@ + e,
        ),
    }
}

/// The push change that a record stands for, or why it stands for none.
pub open spec fn pushed_as(record: ChangeRecord) -> Result<PushChangeView, Seq<char>> {
    if is_upsert(record) {
        match record.data {
            Some(text) => upsert_of_record(record, parsed_json(text@)),
            None => Err(
                "ChangeRecord "@ + signed_decimal(record.id as int) + " ("@ + record.doc_id@
                    + ") has no data for "@ + record.operation@,
            ),
        }
    } else if record.operation@ == "DELETE"@ {
        Ok(
            PushChangeView {
                op: "delete"@,
                doc_id: record.doc_id@,
                data: None,
                updated_at: record.timestamp@,
            },
        )
    } else {
        Err(
            "Unknown operation '"@ + record.operation@ + "' in change record "@ + signed_decimal(
                record.id as int,
            ),
        )
    }
}

/// A result with its change over sequences.
pub open spec fn change_result(r: Result<PushChange, String>) -> Result<PushChangeView, Seq<char>> {
    match r {
        Ok(change) => Ok(change@),
        Err(e) => Err(e@),
    }
}

/// The push change of an upsert whose data was parsed to `document`.
pub fn upsert_record_to_push(
    record: &ChangeRecord,
    document: Result<serde_json::Value, String>,
) -> (r: Result<PushChange, String>)
    ensures
        change_result(r) == upsert_of_record(*record, outcome_of(document)),
{
    match document {
        Ok(v) => Ok(
            PushChange {
                op: "upsert".to_owned(),
                doc_id: record.doc_id.clone(),
                data: Some(v),
                updated_at: record.timestamp.clone(),
            },
        ),
        Err(e) => {
            let id = i64_text(record.id);
            Err(
                join4(
                    "Failed to parse data JSON for record ",
                    id.as_str(),
                    ": ",
                    e.as_str(),
                ),
            )
        },
    }
}

/// Converts a change record into a push change.
///
/// - `INSERT` and `UPDATE` become an upsert, with `data` parsed from the
///   record's JSON text.
/// - `DELETE` becomes a delete without data.
pub fn change_record_to_push(record: &ChangeRecord) -> (r: Result<PushChange, String>)
    ensures
        change_result(r) == pushed_as(*record),
{
    let operation = record.operation.as_str();
    if same_text(operation, "INSERT") || same_text(operation, "UPDATE") {
        match &record.data {
            Some(text) => {
                let document = parse_json(text.as_str());
                upsert_record_to_push(record, document)
            },
            None => {
                let id = i64_text(record.id);
                let mut message = join2("ChangeRecord ", id.as_str());
                message.append(" (");
                message.append(record.doc_id.as_str());
                message.append(") has no data for ");
                message.append(operation);
                Err(message)
            },
        }
    } else if same_text(operation, "DELETE") {
        Ok(
            PushChange {
                op: "delete".to_owned(),
                doc_id: record.doc_id.clone(),
                data: None,
                updated_at: record.timestamp.clone(),
            },
        )
    } else {
        let id = i64_text(record.id);
        Err(
            join4("Unknown operation '", operation, "' in change record ", id.as_str()),
        )
    }
}

/// An upsert is pushed with its document, a delete without one; every pushed
/// change names the record's document and time.
pub proof fn pushed_changes_are_complete(record: ChangeRecord)
    requires
        pushed_as(record) is Ok,
    ensures
        pushed_as(record)->Ok_0.doc_id == record.doc_id@,
        pushed_as(record)->Ok_0.updated_at == record.timestamp@,
        pushed_as(record)->Ok_0.data is Some <==> pushed_as(record)->Ok_0.op == "upsert"@,
        pushed_as(record)->Ok_0.data is None <==> pushed_as(record)->Ok_0.op == "delete"@,
        record.operation@ == "DELETE"@ ==> pushed_as(record)->Ok_0.data is None,
{
    reveal_strlit("upsert");
    reveal_strlit("delete");
    reveal_strlit("INSERT");
    reveal_strlit("UPDATE");
    reveal_strlit("DELETE");
    assert("upsert"@[0] == 'u' && "delete"@[0] == 'd');
    assert("INSERT"@[0] == 'I' && "UPDATE"@[0] == 'U' && "DELETE"@[0] == 'D');
}

// ---------------------------------------------------------------------------
// The endpoint
// ---------------------------------------------------------------------------
/// The request that carries changes to the server.
pub open spec fn push_request(
    base_url: Seq<char>,
    token: Seq<char>,
    table: Seq<char>,
) -> RequestView {
    RequestView {
        url: endpoint(base_url, table, "/push"@),
        query: Seq::empty(),
        headers: seq![("Content-Type"@, "application/sjs"@), ("Authorization"@, bearer(token))],
    }
}

/// What to do with changes that are to be pushed.
pub enum PushPlan {
    /// There are none: this is the response, and nothing is sent.
    Answered(PushResponse),
    /// Send this request with this body.
    Send(Request, PushRequest),
}

/// Plans the push of changes. Without changes nothing is sent.
pub fn plan_push(
    base_url: &str,
    token: &str,
    table_name: &str,
    changes: Vec<PushChange>,
) -> (r: PushPlan)
    ensures
        match r {
            PushPlan::Answered(response) => changes.len() == 0 && response.accepted.len() == 0
                && response.conflicts.len() == 0,
            PushPlan::Send(request, body) => changes.len() > 0 && request@ == push_request(
                base_url@,
                token@,
                table_name@,
            ) && body.changes == changes,
        },
{
    if changes.len() == 0 {
        return PushPlan::Answered(PushResponse { accepted: Vec::new(), conflicts: Vec::new() });
    }
    let mut headers: Vec<(String, String)> = Vec::new();
    headers.push(pair("Content-Type", "application/sjs"));
    headers.push(authorization(token));
    let request = Request {
        url: endpoint_url(base_url, table_name, "/push"),
        query: Vec::new(),
        headers,
    };
    assert(request@ =~= push_request(base_url@, token@, table_name@));
    PushPlan::Send(request, PushRequest { changes })
}

/// The message of a push whose body could not be encoded.
pub fn push_encoding_failure(error: &str) -> (r: String)
    ensures
        r@ == "Failed to encode push request as MessagePack: "@ + error@,
{
    join2("Failed to encode push request as MessagePack: ", error)
}

/// The message of a failed push request.
pub open spec fn push_failure_text(failure: Failure) -> Seq<char> {
    match failure {
        Failure::Send(e) => "Push request failed: "@ + e@,
        Failure::Status(status) => "Push endpoint returned status "@ + status@,
        Failure::Body(e) => "Failed to read push response body: "@ + e@,
        Failure::Decode(e) => "Failed to decode push response MessagePack: "@ + e@,
    }
}

/// The message of a failed push request.
pub fn push_failure(failure: &Failure) -> (r: String)
    ensures
        r@ == push_failure_text(*failure),
{
    match failure {
        Failure::Send(e) => join2("Push request failed: ", e.as_str()),
        Failure::Status(status) => join2("Push endpoint returned status ", status.as_str()),
        Failure::Body(e) => join2("Failed to read push response body: ", e.as_str()),
        Failure::Decode(e) => join2(
            "Failed to decode push response MessagePack: ",
            e.as_str(),
        ),
    }
}

// ---------------------------------------------------------------------------
// The changes of a push
// ---------------------------------------------------------------------------
/// The changes to push, in the order of their records.
pub open spec fn changes_to_push(records: Seq<ChangeRecord>) -> Seq<PushChangeView>
    decreases records.len(),
{
    if records.len() == 0 {
        Seq::empty()
    } else {
        let earlier = changes_to_push(records.drop_last());
        match pushed_as(records.last()) {
            Ok(change) => earlier.push(change),
            Err(_) => earlier,
        }
    }
}

/// The records that cannot be pushed: their ids, and why.
pub open spec fn unpushable(records: Seq<ChangeRecord>) -> Seq<(i64, Seq<char>)>
    decreases records.len(),
{
    if records.len() == 0 {
        Seq::empty()
    } else {
        let earlier = unpushable(records.drop_last());
        match pushed_as(records.last()) {
            Ok(_) => earlier,
            Err(e) => earlier.push((records.last().id, e)),
        }
    }
}

/// Under each document, the ids of all records that are pushed for it, in order.
pub open spec fn pushed_ids(records: Seq<ChangeRecord>) -> Map<Seq<char>, Seq<i64>>
    decreases records.len(),
{
    if records.len() == 0 {
        Map::empty()
    } else {
        let earlier = pushed_ids(records.drop_last());
        let record = records.last();
        match pushed_as(record) {
            Ok(_) => earlier.insert(
                record.doc_id@,
                ids_under(earlier, record.doc_id@).push(record.id),
            ),
            Err(_) => earlier,
        }
    }
}

/// The ids that are held under a document; none where it was not pushed.
pub open spec fn ids_under(ids: Map<Seq<char>, Seq<i64>>, doc_id: Seq<char>) -> Seq<i64> {
    if ids.contains_key(doc_id) {
        ids[doc_id]
    } else {
        Seq::empty()
    }
}

/// Lists of ids over sequences.
pub open spec fn id_lists(ids: Map<Seq<char>, Vec<i64>>) -> Map<Seq<char>, Seq<i64>> {
    ids.map_values(|list: Vec<i64>| list@)
}

/// The messages of a list of noted errors.
pub open spec fn messages(noted: Seq<(i64, Seq<char>)>) -> Seq<Seq<char>> {
    noted.map_values(|n: (i64, Seq<char>)| n.1)
}

/// Push changes over sequences.
pub open spec fn push_changes_of(list: Seq<PushChange>) -> Seq<PushChangeView> {
    list.map_values(|c: PushChange| c@)
}

/// Noting one error at a record.
pub open spec fn noting() -> Operation<(i64, Seq<char>), ()> {
    |noted: (i64, Seq<char>), before, after, r|
        settled(before, after, sync_error_command(noted.0, noted.1), r)
}

/// What is kept of a push until the server has answered.
pub struct OpenPush {
    /// The number of changes that were sent.
    pub pushed: usize,
    /// Under each document, the ids of its records.
    pub ids: Registry<Vec<i64>>,
    /// The messages of the records that could not be sent.
    pub errors: Vec<String>,
}

/// How a push goes on after the pending changes were read.
pub enum PushStart {
    /// There is nothing to send.
    Done(PushSummary),
    /// Send these changes.
    Send(Vec<PushChange>, OpenPush),
}

/// What a push of these records starts with.
pub open spec fn push_start(records: Seq<ChangeRecord>, start: PushStart) -> bool {
    match start {
        PushStart::Done(summary) => {
            &&& changes_to_push(records).len() == 0
            &&& summary.pushed == 0
            &&& summary.accepted == 0
            &&& summary.conflicts == unpushable(records).len()
            &&& texts(summary.errors@) == messages(unpushable(records))
        },
        PushStart::Send(changes, open) => {
            &&& changes_to_push(records).len() > 0
            &&& push_changes_of(changes@) == changes_to_push(records)
            &&& open.pushed == changes.len()
            &&& id_lists(open.ids@) == pushed_ids(records)
            &&& texts(open.errors@) == messages(unpushable(records))
        },
    }
}

/// What was done with the pending records: an error was noted at each that
/// cannot be pushed, and the others are to be sent.
pub open spec fn records_prepared(
    records: Seq<ChangeRecord>,
    before: Seq<Step>,
    after: Seq<Step>,
    r: Result<PushStart, String>,
) -> bool {
    exists|noted: Result<Seq<()>, Seq<char>>| #[trigger]
        each_ran(unpushable(records), before, after, noted, noting()) && match noted {
            Ok(_) => r is Ok && push_start(records, r->Ok_0),
            Err(e) => r is Err && r->Err_0@ == e,
        }
}

/// A push was begun: the pending changes were read and prepared.
pub open spec fn push_begun(
    table: Seq<char>,
    before: Seq<Step>,
    after: Seq<Step>,
    r: Result<PushStart, String>,
) -> bool {
    exists|pending: Result<Vec<ChangeRecord>, String>, middle: Seq<Step>| #[trigger]
        changes_read(before, middle, pending_query(table), pending) && match pending {
            Ok(records) => records_prepared(records@, middle, after, r),
            Err(e) => after == middle && r is Err && r->Err_0 == e,
        }
}

proof fn unpushable_grows(records: Seq<ChangeRecord>, n: int)
    requires
        0 <= n <= records.len(),
    ensures
        unpushable(records.take(n)).is_prefix_of(unpushable(records)),
    decreases records.len(),
{
    if n == records.len() {
        assert(records.take(n) =~= records);
    } else {
        unpushable_grows(records.drop_last(), n);
        assert(records.drop_last().take(n) =~= records.take(n));
    }
}

/// Adds an id to those that are held under a document.
fn add_id(ids: &mut Registry<Vec<i64>>, doc_id: &str, id: i64)
    ensures
        id_lists(final(ids)@) == id_lists(old(ids)@).insert(
            doc_id@,
            ids_under(id_lists(old(ids)@), doc_id@).push(id),
        ),
{
    let mut list: Vec<i64> = match ids.remove(doc_id) {
        Some(list) => list,
        None => Vec::new(),
    };
    assert(list@ =~= ids_under(id_lists(old(ids)@), doc_id@));
    list.push(id);
    let _ = ids.insert(doc_id.to_owned(), list);
    assert(id_lists(ids@) =~= id_lists(old(ids)@).insert(doc_id@, list@));
}

/// Prepares pending records for a push: notes an error at each record that
/// cannot be pushed, and collects the changes of the others.
pub fn prepare_records(store: &mut Store, records: &Vec<ChangeRecord>) -> (r: Result<
    PushStart,
    String,
>)
    ensures
        final(store).conn() == old(store).conn(),
        records_prepared(records@, old(store).log(), final(store).log(), r),
{
    let mut changes: Vec<PushChange> = Vec::new();
    let mut ids: Registry<Vec<i64>> = Registry::new();
    let mut errors: Vec<String> = Vec::new();
    let ghost mut noted: Seq<()> = Seq::empty();
    let ghost mut logs = seq![store.log()];
    let ghost all = unpushable(records@);
    proof {
        none_ran::<_, ()>(unpushable(records@.take(0)), store.log(), noting());
        assert(push_changes_of(changes@) =~= changes_to_push(records@.take(0)));
        assert(texts(errors@) =~= messages(unpushable(records@.take(0))));
        assert(id_lists(ids@) =~= pushed_ids(records@.take(0)));
    }
    let mut i: usize = 0;
    while i < records.len()
        invariant
            i <= records.len(),
            all == unpushable(records@),
            noted.len() == errors.len(),
            noted.len() == unpushable(records@.take(i as int)).len(),
            store.conn() == old(store).conn(),
            first_ran(unpushable(records@.take(i as int)), noted, logs, noting()),
            logs[0] == old(store).log(),
            logs.last() == store.log(),
            push_changes_of(changes@) == changes_to_push(records@.take(i as int)),
            id_lists(ids@) == pushed_ids(records@.take(i as int)),
            texts(errors@) == messages(unpushable(records@.take(i as int))),
        decreases records.len() - i,
    {
        let ghost done = unpushable(records@.take(i as int));
        let ghost now = unpushable(records@.take(i + 1));
        proof {
            assert(records@.take(i + 1).drop_last() =~= records@.take(i as int));
            assert(records@.take(i + 1).last() == records@[i as int]);
            unpushable_grows(records@, i + 1);
            assert(done.is_prefix_of(now));
            ran_on_longer(done, now, noted, logs, noting());
        }
        let record = &records[i];
        match change_record_to_push(record) {
            Ok(change) => {
                add_id(&mut ids, record.doc_id.as_str(), record.id);
                proof {
                    assert(push_changes_of(changes@.push(change)) =~= push_changes_of(
                        changes@,
                    ).push(change@));
                }
                changes.push(change);
            },
            Err(e) => {
                let marked = mark_sync_error(store, record.id, e.as_str());
                proof {
                    assert(now =~= done.push((record.id, e@)));
                    assert(noting()(now[noted.len() as int], logs.last(), store.log(), outcome_of(
                        marked,
                    )));
                }
                match marked {
                    Ok(_) => {
                        proof {
                            one_more_ran(now, noted, logs, noting(), (), store.log());
                            noted = noted.push(());
                            logs = logs.push(store.log());
                            assert(messages(now) =~= messages(done).push(e@));
                            assert(texts(errors@.push(e)) =~= texts(errors@).push(e@));
                        }
                        errors.push(e);
                    },
                    Err(refusal) => {
                        proof {
                            ran_on_longer(now, all, noted, logs, noting());
                            assert(all[noted.len() as int] == now[noted.len() as int]);
                            assert(each_ran(
                                all,
                                old(store).log(),
                                store.log(),
                                Err::<Seq<()>, Seq<char>>(refusal@),
                                noting(),
                            ));
                        }
                        return Err(refusal);
                    },
                }
            },
        }
        i = i + 1;
    }
    assert(records@.take(i as int) =~= records@);
    assert(each_ran(all, old(store).log(), store.log(), Ok(noted), noting()));
    assert(texts(errors@).len() == errors@.len());
    assert(push_changes_of(changes@).len() == changes@.len());
    let pushed: usize = changes.len();
    if changes.len() == 0 {
        let start = PushStart::Done(
            PushSummary { pushed: 0, accepted: 0, conflicts: errors.len(), errors },
        );
        assert(push_start(records@, start));
        return Ok(start);
    }
    let start = PushStart::Send(changes, OpenPush { pushed, ids, errors });
    assert(push_start(records@, start));
    Ok(start)
}

/// Begins the push of a table: reads its pending changes and prepares them.
pub fn begin_push(store: &mut Store, table_name: &str) -> (r: Result<PushStart, String>)
    ensures
        final(store).conn() == old(store).conn(),
        push_begun(table_name@, old(store).log(), final(store).log(), r),
{
    let pending = get_pending_changes(store, table_name);
    let ghost middle = store.log();
    assert(changes_read(old(store).log(), middle, pending_query(table_name@), pending));
    match pending {
        Ok(records) => prepare_records(store, &records),
        Err(e) => Err(e),
    }
}

// ---------------------------------------------------------------------------
// The server's answer
// ---------------------------------------------------------------------------
/// The ids of all pushed records of the accepted documents, in the order of the
/// answer.
pub open spec fn accepted_ids(
    accepted: Seq<String>,
    ids: Map<Seq<char>, Seq<i64>>,
) -> Seq<i64>
    decreases accepted.len(),
{
    if accepted.len() == 0 {
        Seq::empty()
    } else {
        accepted_ids(accepted.drop_last(), ids) + ids_under(ids, accepted.last()@)
    }
}

/// The message that is noted for a conflict.
pub open spec fn conflict_message(conflict: ConflictInfo) -> Seq<char> {
    "Conflict: server has newer version (server_updated_at="@ + conflict.server_updated_at@ + ")"@
}

/// What is noted for conflicts: the message of each, at the last pushed record of
/// its document. A document that was not pushed has none.
pub open spec fn noted_conflicts(
    conflicts: Seq<ConflictInfo>,
    ids: Map<Seq<char>, Seq<i64>>,
) -> Seq<(i64, Seq<char>)>
    decreases conflicts.len(),
{
    if conflicts.len() == 0 {
        Seq::empty()
    } else {
        let earlier = noted_conflicts(conflicts.drop_last(), ids);
        let own = ids_under(ids, conflicts.last().doc_id@);
        if own.len() > 0 {
            earlier.push((own.last(), conflict_message(conflicts.last())))
        } else {
            earlier
        }
    }
}

/// The accepted records were marked as synced; where there are none, nothing
/// was asked.
pub open spec fn accepted_marked(
    ids: Seq<i64>,
    before: Seq<Step>,
    after: Seq<Step>,
    r: Result<usize, Seq<char>>,
) -> bool {
    if ids.len() == 0 {
        after == before && r is Ok
    } else {
        carried_out(before, after, mark_synced_command(ids), r)
    }
}

/// The summary of a push that the server answered.
pub open spec fn push_summary(
    open: OpenPush,
    response: PushResponse,
    summary: PushSummary,
) -> bool {
    &&& summary.pushed == open.pushed
    &&& summary.accepted == response.accepted.len()
    &&& summary.conflicts == response.conflicts.len()
    &&& texts(summary.errors@) == texts(open.errors@) + messages(
        noted_conflicts(response.conflicts@, id_lists(open.ids@)),
    )
}

/// The conflicts of an answer were noted.
pub open spec fn conflicts_noted(
    open: OpenPush,
    response: PushResponse,
    before: Seq<Step>,
    after: Seq<Step>,
    r: Result<PushSummary, String>,
) -> bool {
    exists|noted: Result<Seq<()>, Seq<char>>| #[trigger]
        each_ran(
            noted_conflicts(response.conflicts@, id_lists(open.ids@)),
            before,
            after,
            noted,
            noting(),
        ) && match noted {
            Ok(_) => r is Ok && push_summary(open, response, r->Ok_0),
            Err(e) => r is Err && r->Err_0@ == e,
        }
}

/// A push was finished: the accepted records were marked as synced, then the
/// conflicts noted.
pub open spec fn push_finished(
    open: OpenPush,
    response: PushResponse,
    before: Seq<Step>,
    after: Seq<Step>,
    r: Result<PushSummary, String>,
) -> bool {
    exists|middle: Seq<Step>, marked: Result<usize, Seq<char>>| #[trigger]
        accepted_marked(
            accepted_ids(response.accepted@, id_lists(open.ids@)),
            before,
            middle,
            marked,
        )
            && match marked {
            Ok(_) => conflicts_noted(open, response, middle, after, r),
            Err(e) => after == middle && r is Err && r->Err_0@ == e,
        }
}

fn ids_of_accepted(accepted: &Vec<String>, ids: &Registry<Vec<i64>>) -> (r: Vec<i64>)
    ensures
        r@ == accepted_ids(accepted@, id_lists(ids@)),
{
    let mut found: Vec<i64> = Vec::new();
    let mut i: usize = 0;
    while i < accepted.len()
        invariant
            i <= accepted.len(),
            found@ == accepted_ids(accepted@.take(i as int), id_lists(ids@)),
        decreases accepted.len() - i,
    {
        assert(accepted@.take(i + 1).drop_last() =~= accepted@.take(i as int));
        let ghost before = found@;
        match ids.get(accepted[i].as_str()) {
            Some(list) => {
                let mut k: usize = 0;
                while k < list.len()
                    invariant
                        k <= list.len(),
                        found@ == before + list@.take(k as int),
                    decreases list.len() - k,
                {
                    assert(list@.take(k + 1) =~= list@.take(k as int).push(list@[k as int]));
                    found.push(list[k]);
                    k = k + 1;
                }
                assert(list@.take(k as int) =~= list@);
            },
            None => {},
        }
        assert(found@ =~= before + ids_under(id_lists(ids@), accepted@[i as int]@));
        i = i + 1;
    }
    assert(accepted@.take(i as int) =~= accepted@);
    found
}

proof fn noted_conflicts_grow(conflicts: Seq<ConflictInfo>, ids: Map<Seq<char>, Seq<i64>>, n: int)
    requires
        0 <= n <= conflicts.len(),
    ensures
        noted_conflicts(conflicts.take(n), ids).is_prefix_of(noted_conflicts(conflicts, ids)),
    decreases conflicts.len(),
{
    if n == conflicts.len() {
        assert(conflicts.take(n) =~= conflicts);
    } else {
        noted_conflicts_grow(conflicts.drop_last(), ids, n);
        assert(conflicts.drop_last().take(n) =~= conflicts.take(n));
    }
}

fn note_conflicts(store: &mut Store, open: OpenPush, response: &PushResponse) -> (r: Result<
    PushSummary,
    String,
>)
    ensures
        final(store).conn() == old(store).conn(),
        conflicts_noted(open, *response, old(store).log(), final(store).log(), r),
{
    let OpenPush { pushed, ids, mut errors } = open;
    let conflicts = &response.conflicts;
    let ghost lists = id_lists(ids@);
    let ghost noted_before = texts(errors@);
    let ghost mut noted: Seq<()> = Seq::empty();
    let ghost mut logs = seq![store.log()];
    let ghost all = noted_conflicts(conflicts@, lists);
    proof {
        none_ran::<_, ()>(noted_conflicts(conflicts@.take(0), lists), store.log(), noting());
        assert(texts(errors@) =~= noted_before + messages(
            noted_conflicts(conflicts@.take(0), lists),
        ));
    }
    let mut i: usize = 0;
    while i < conflicts.len()
        invariant
            i <= conflicts.len(),
            conflicts == response.conflicts,
            ids == open.ids,
            lists == id_lists(ids@),
            noted_before == texts(open.errors@),
            all == noted_conflicts(conflicts@, lists),
            noted.len() == noted_conflicts(conflicts@.take(i as int), lists).len(),
            store.conn() == old(store).conn(),
            first_ran(noted_conflicts(conflicts@.take(i as int), lists), noted, logs, noting()),
            logs[0] == old(store).log(),
            logs.last() == store.log(),
            texts(errors@) == noted_before + messages(
                noted_conflicts(conflicts@.take(i as int), lists),
            ),
        decreases conflicts.len() - i,
    {
        let ghost done = noted_conflicts(conflicts@.take(i as int), lists);
        let ghost now = noted_conflicts(conflicts@.take(i + 1), lists);
        proof {
            assert(conflicts@.take(i + 1).drop_last() =~= conflicts@.take(i as int));
            assert(conflicts@.take(i + 1).last() == conflicts@[i as int]);
            noted_conflicts_grow(conflicts@, lists, i + 1);
            ran_on_longer(done, now, noted, logs, noting());
        }
        match last_id(&ids, conflicts[i].doc_id.as_str()) {
            Some(change_id) => {
                let message = join3(
                    "Conflict: server has newer version (server_updated_at=",
                    conflicts[i].server_updated_at.as_str(),
                    ")",
                );
                let marked = mark_sync_error(store, change_id, message.as_str());
                proof {
                    assert(now =~= done.push((change_id, message@)));
                    assert(noting()(now[noted.len() as int], logs.last(), store.log(), outcome_of(
                        marked,
                    )));
                }
                match marked {
                    Ok(_) => {
                        proof {
                            one_more_ran(now, noted, logs, noting(), (), store.log());
                            noted = noted.push(());
                            logs = logs.push(store.log());
                            assert(messages(now) =~= messages(done).push(message@));
                            assert(texts(errors@.push(message)) =~= texts(errors@).push(message@));
                            assert(noted_before + messages(now) =~= (noted_before + messages(
                                done,
                            )).push(message@));
                        }
                        errors.push(message);
                    },
                    Err(refusal) => {
                        proof {
                            ran_on_longer(now, all, noted, logs, noting());
                            assert(all[noted.len() as int] == now[noted.len() as int]);
                            assert(each_ran(
                                all,
                                old(store).log(),
                                store.log(),
                                Err::<Seq<()>, Seq<char>>(refusal@),
                                noting(),
                            ));
                        }
                        return Err(refusal);
                    },
                }
            },
            None => {},
        }
        i = i + 1;
    }
    assert(conflicts@.take(i as int) =~= conflicts@);
    assert(each_ran(all, old(store).log(), store.log(), Ok(noted), noting()));
    let summary = PushSummary {
        pushed,
        accepted: response.accepted.len(),
        conflicts: response.conflicts.len(),
        errors,
    };
    assert(push_summary(open, *response, summary));
    Ok(summary)
}

/// The id of the last record that was pushed for a document.
fn last_id(ids: &Registry<Vec<i64>>, doc_id: &str) -> (r: Option<i64>)
    ensures
        r == (if ids_under(id_lists(ids@), doc_id@).len() > 0 {
            Some(ids_under(id_lists(ids@), doc_id@).last())
        } else {
            None
        }),
{
    match ids.get(doc_id) {
        Some(list) => if list.len() > 0 {
            Some(list[list.len() - 1])
        } else {
            None
        },
        None => None,
    }
}

/// Finishes a push with the server's answer: marks the accepted records as
/// synced and notes the conflicts.
pub fn finish_push(store: &mut Store, open: OpenPush, response: &PushResponse) -> (r: Result<
    PushSummary,
    String,
>)
    ensures
        final(store).conn() == old(store).conn(),
        push_finished(open, *response, old(store).log(), final(store).log(), r),
{
    let ids = ids_of_accepted(&response.accepted, &open.ids);
    let ghost marked_ids = accepted_ids(response.accepted@, id_lists(open.ids@));
    if ids.len() > 0 {
        match mark_synced(store, ids.as_slice()) {
            Ok(n) => {
                assert(accepted_marked(marked_ids, old(store).log(), store.log(), Ok(n as usize)));
            },
            Err(e) => {
                assert(accepted_marked(marked_ids, old(store).log(), store.log(), Err(e@)));
                return Err(e);
            },
        }
    } else {
        assert(accepted_marked(marked_ids, old(store).log(), store.log(), Ok(0)));
    }
    note_conflicts(store, open, response)
}

// ---------------------------------------------------------------------------
// Laws
// ---------------------------------------------------------------------------
/// Only what the server accepted is marked as synced: every marked id is one of
/// those of a pushed document that the answer names.
pub proof fn only_accepted_records_are_marked(
    accepted: Seq<String>,
    ids: Map<Seq<char>, Seq<i64>>,
    id: i64,
)
    requires
        accepted_ids(accepted, ids).contains(id),
    ensures
        exists|j: int|
            0 <= j < accepted.len() && #[trigger] ids_under(ids, accepted[j]@).contains(id),
    decreases accepted.len(),
{
    let shorter = accepted.drop_last();
    let earlier = accepted_ids(shorter, ids);
    let last = ids_under(ids, accepted.last()@);
    let k = accepted_ids(accepted, ids).index_of(id);
    if k < earlier.len() {
        assert(earlier[k] == id);
        only_accepted_records_are_marked(shorter, ids, id);
        let j = choose|j: int|
            0 <= j < shorter.len() && #[trigger] ids_under(ids, shorter[j]@).contains(id);
        assert(ids_under(ids, accepted[j]@).contains(id));
    } else {
        assert(last[k - earlier.len()] == id);
        assert(ids_under(ids, accepted[accepted.len() - 1]@).contains(id));
    }
}

/// All pushed records of a document that the server accepted are marked as
/// synced.
pub proof fn accepted_records_are_marked(
    accepted: Seq<String>,
    ids: Map<Seq<char>, Seq<i64>>,
    j: int,
    id: i64,
)
    requires
        0 <= j < accepted.len(),
        ids_under(ids, accepted[j]@).contains(id),
    ensures
        accepted_ids(accepted, ids).contains(id),
    decreases accepted.len(),
{
    let shorter = accepted.drop_last();
    let earlier = accepted_ids(shorter, ids);
    let last = ids_under(ids, accepted.last()@);
    let all = accepted_ids(accepted, ids);
    if j < shorter.len() {
        assert(shorter[j] == accepted[j]);
        accepted_records_are_marked(shorter, ids, j, id);
        let k = earlier.index_of(id);
        assert(all[k] == id);
    } else {
        let k = last.index_of(id);
        assert(all[earlier.len() + k] == id);
    }
}

/// The ids that are held under a document are those of its pushed records, all
/// of them and no others.
pub proof fn pushed_ids_are_those_of_the_records(
    records: Seq<ChangeRecord>,
    doc_id: Seq<char>,
    id: i64,
)
    ensures
        ids_under(pushed_ids(records), doc_id).contains(id) <==> exists|i: int|
            0 <= i < records.len() && pushed_as(#[trigger] records[i]) is Ok && records[i].doc_id@
                == doc_id && records[i].id == id,
    decreases records.len(),
{
    if records.len() > 0 {
        let shorter = records.drop_last();
        let last = records.len() - 1;
        pushed_ids_are_those_of_the_records(shorter, doc_id, id);
        let earlier = ids_under(pushed_ids(shorter), doc_id);
        let now = ids_under(pushed_ids(records), doc_id);
        let own = pushed_as(records.last()) is Ok && records.last().doc_id@ == doc_id;
        if own {
            assert(now == earlier.push(records.last().id));
        } else {
            assert(now == earlier);
        }
        if now.contains(id) {
            if own && records.last().id == id {
                assert(records[last].id == id);
            } else {
                if own {
                    let k = now.index_of(id);
                    assert(earlier[k] == id);
                }
                let i = choose|i: int|
                    0 <= i < shorter.len() && pushed_as(#[trigger] shorter[i]) is Ok
                        && shorter[i].doc_id@ == doc_id && shorter[i].id == id;
                assert(records[i] == shorter[i]);
            }
        }
        if exists|i: int|
            0 <= i < records.len() && pushed_as(#[trigger] records[i]) is Ok && records[i].doc_id@
                == doc_id && records[i].id == id {
            let i = choose|i: int|
                0 <= i < records.len() && pushed_as(#[trigger] records[i]) is Ok
                    && records[i].doc_id@ == doc_id && records[i].id == id;
            if i < last {
                assert(shorter[i] == records[i]);
                let k = earlier.index_of(id);
                assert(now[k] == id);
            } else {
                assert(now[now.len() - 1] == id);
            }
        }
    }
}

/// A step that changes nothing in the change log but the noted errors.
pub open spec fn keeps_pending() -> spec_fn(Step) -> bool {
    |step: Step|
        match step {
            Step::Executed { sql, params, outcome } => sql == SYNC_ERROR_SQL@,
            Step::Prepared { sql, outcome } => sql == PENDING_SQL@,
            Step::Started { params, outcome } => true,
            Step::Fetched { outcome } => true,
            _ => false,
        }
}

proof fn reading_keeps_pending(
    table: Seq<char>,
    before: Seq<Step>,
    after: Seq<Step>,
    r: Result<Vec<ChangeRecord>, String>,
)
    requires
        changes_read(before, after, pending_query(table), r),
    ensures
        grew_by(before, after, keeps_pending()),
{
    let kind = keeps_pending();
    let query = pending_query(table);
    let (answer, outcome) = choose|answer: Selected, outcome: QueryOutcome<ChangeRecord>|
        #![trigger selection(query.sql, query.params, answer), query_result(query, outcome, r)]
        {
            &&& after == before + selection(query.sql, query.params, answer)
            &&& selection_read(answer, outcome, RecordReader)
            &&& query_result(query, outcome, r)
        };
    let steps = selection(query.sql, query.params, answer);
    assert forall|i: int| 0 <= i < steps.len() implies kind(#[trigger] steps[i]) by {
        match answer {
            Selected::PrepareFailed { message } => {},
            Selected::QueryFailed { message } => {},
            Selected::Rows { rows, ending } => {
                let begun = starting(query.sql, query.params, Ok(()));
                if i < begun.len() {
                    assert(steps[i] == begun[i]);
                } else if i < begun.len() + rows.len() {
                    assert(steps[i] == fetches(rows)[i - begun.len()]);
                } else {
                    assert(steps[i] == ending_steps(ending)[i - begun.len() - rows.len()]);
                }
            },
        }
    }
    assert forall|i: int| before.len() <= i < after.len() implies kind(#[trigger] after[i]) by {
        assert(after[i] == steps[i - before.len()]);
    }
}

proof fn preparing_keeps_pending(
    records: Seq<ChangeRecord>,
    before: Seq<Step>,
    after: Seq<Step>,
    r: Result<PushStart, String>,
)
    requires
        records_prepared(records, before, after, r),
    ensures
        grew_by(before, after, keeps_pending()),
{
    let kind = keeps_pending();
    let noted = choose|noted: Result<Seq<()>, Seq<char>>| #[trigger]
        each_ran(unpushable(records), before, after, noted, noting()) && match noted {
            Ok(_) => r is Ok && push_start(records, r->Ok_0),
            Err(e) => r is Err && r->Err_0@ == e,
        };
    assert forall|item: (i64, Seq<char>), b: Seq<Step>, a: Seq<Step>, n: Result<(), Seq<char>>|
        #[trigger] noting()(item, b, a, n) implies grew_by(b, a, kind) by {
        let command = sync_error_command(item.0, item.1);
        let done = choose|done: Result<usize, Seq<char>>|
            a == b.push(#[trigger] execution(command, done));
        assert(kind(execution(command, done)));
    }
    chain_steps(unpushable(records), before, after, noted, noting(), kind);
}

/// A push that does not come back loses nothing: until the server has answered,
/// no record is marked as synced.
pub proof fn nothing_is_marked_before_the_answer(
    table: Seq<char>,
    before: Seq<Step>,
    after: Seq<Step>,
    r: Result<PushStart, String>,
)
    requires
        push_begun(table, before, after, r),
    ensures
        grew_by(before, after, keeps_pending()),
{
    let kind = keeps_pending();
    let query = pending_query(table);
    let (pending, middle) = choose|
        pending: Result<Vec<ChangeRecord>, String>,
        middle: Seq<Step>,
    | #[trigger]
        changes_read(before, middle, query, pending) && match pending {
            Ok(records) => records_prepared(records@, middle, after, r),
            Err(e) => after == middle && r is Err && r->Err_0 == e,
        };
    reading_keeps_pending(table, before, middle, pending);
    if pending is Ok {
        let records = pending->Ok_0@;
        preparing_keeps_pending(records, middle, after, r);
        growth_goes_on(before, middle, after, kind);
    }
}

/// The command that marks records as synced is no step of that kind.
pub proof fn marking_is_no_noting(ids: Seq<i64>)
    ensures
        mark_synced_command(ids).sql != SYNC_ERROR_SQL@,
{
    reveal_strlit("UPDATE _change_log SET synced = 1 WHERE id IN (");
    reveal_strlit("UPDATE _change_log SET sync_error = ?1 WHERE id = ?2");
    assert(mark_synced_command(ids).sql[27] == 'e');
    assert(SYNC_ERROR_SQL@[27] == '_');
}

/// No pending record is lost: each is sent or has an error noted at it.
pub proof fn every_record_is_sent_or_noted(records: Seq<ChangeRecord>)
    ensures
        changes_to_push(records).len() + unpushable(records).len() == records.len(),
    decreases records.len(),
{
    if records.len() > 0 {
        every_record_is_sent_or_noted(records.drop_last());
    }
}

} // verus!
