//! Pulling the server's changes.

use crate::chain::{
    chain_steps, every_ran, first_ran, grew_by, none_ran, one_more_ran, ran_until, Operation,
};
use crate::changelog::INSERT_CHANGE_SQL;
use crate::driver::{outcome_of, Step};
use crate::request::{carried_out, carry_out, execution, settle, settled};
use crate::sql::{text_value, values, Command, CommandView, SqlValue, SqlValueView};
use crate::store::{selection, text_read, Selected, Store};
use crate::sync::document::{upsert_command, upsert_of, upsert_sql};
use crate::sync::http::{
    authorization, bearer, endpoint, endpoint_url, pair, Failure, Request, RequestView,
};
use crate::text::{join2, join5};
use vstd::prelude::*;

verus! {

// ---------------------------------------------------------------------------
// Types
// ---------------------------------------------------------------------------
/// A single change entry received from the server pull endpoint.
#[derive(Debug, PartialEq)]
pub struct PullChange {
    pub doc_id: String,
    pub data: serde_json::Value,
    pub updated_at: String,
    pub deleted: bool,
}

impl Clone for PullChange {
    fn clone(&self) -> (r: Self)
        ensures
            r == *self,
    {
        PullChange {
            doc_id: self.doc_id.clone(),
            data: self.data.clone(),
            updated_at: self.updated_at.clone(),
            deleted: self.deleted,
        }
    }
}

/// Response body from `GET /offlite/sync/{table}/pull`.
#[derive(Debug, Clone)]
pub struct PullResponse {
    pub changes: Vec<PullChange>,
    pub server_time: String,
    pub has_more: bool,
}

/// Summary returned after pulling all changes for a table.
#[derive(Debug, Clone, Copy)]
pub struct PullSummary {
    pub pulled: usize,
    pub applied: usize,
    pub deleted: usize,
    pub pages: usize,
}

// ---------------------------------------------------------------------------
// Applying changes
// ---------------------------------------------------------------------------
/// The text that marks a document of a table as deleted.
pub open spec fn soft_delete_sql(table: Seq<char>) -> Seq<char> {
    "UPDATE ["@ + table + "] SET _deleted = 1, updatedAt = ?1 WHERE _id = ?2"@
}

/// The command that applies a change: a deleted document is marked, any other
/// is replaced.
pub open spec fn change_command(table: Seq<char>, change: PullChange) -> CommandView {
    if change.deleted {
        CommandView {
            sql: soft_delete_sql(table),
            params: seq![
                SqlValueView::Text(change.updated_at@),
                SqlValueView::Text(change.doc_id@),
            ],
            failure: "Failed to soft-delete doc '"@ + change.doc_id@ + "' in '"@ + table + "': "@,
        }
    } else {
        upsert_command(
            table,
            change.doc_id@,
            change.data,
            change.updated_at@,
            "Failed to upsert doc '"@ + change.doc_id@ + "' in '"@ + table + "': "@,
        )
    }
}

/// Applying one change to a table; the result is the number of rows that
/// changed.
pub open spec fn applying(table: Seq<char>) -> Operation<PullChange, usize> {
    |change: PullChange, before, after, r|
        carried_out(before, after, change_command(table, change), r)
}

/// The number of documents that were put in place.
pub open spec fn put_in_place(changes: Seq<PullChange>) -> nat
    decreases changes.len(),
{
    if changes.len() == 0 {
        0
    } else {
        put_in_place(changes.drop_last()) + if changes.last().deleted {
            0nat
        } else {
            1
        }
    }
}

/// The number of documents that were marked as deleted: those that exist
/// locally.
pub open spec fn marked_deleted(changes: Seq<PullChange>, rows: Seq<usize>) -> nat
    decreases changes.len(),
{
    if changes.len() == 0 {
        0
    } else {
        marked_deleted(changes.drop_last(), rows.drop_last()) + if changes.last().deleted
            && rows.last() > 0 {
            1nat
        } else {
            0
        }
    }
}

/// Changes were applied in order; `r` is how many documents were put in place
/// and how many marked as deleted.
pub open spec fn changes_applied(
    table: Seq<char>,
    changes: Seq<PullChange>,
    before: Seq<Step>,
    after: Seq<Step>,
    r: Result<(usize, usize), Seq<char>>,
) -> bool {
    match r {
        Ok(counts) => exists|rows: Seq<usize>| #[trigger]
            every_ran(changes, rows, before, after, applying(table)) && counts.0 == put_in_place(
                changes,
            ) && counts.1 == marked_deleted(changes, rows),
        Err(message) => ran_until(changes, before, after, message, applying(table)),
    }
}

fn change_of(table_name: &str, change: &PullChange) -> (r: Command)
    ensures
        r@ == change_command(table_name@, *change),
{
    let doc_id = change.doc_id.as_str();
    if change.deleted {
        let mut sql = "UPDATE [".to_owned();
        sql.append(table_name);
        sql.append("] SET _deleted = 1, updatedAt = ?1 WHERE _id = ?2");
        let mut params: Vec<SqlValue> = Vec::new();
        params.push(text_value(change.updated_at.as_str()));
        params.push(text_value(doc_id));
        let r = Command {
            sql,
            params,
            failure: join5("Failed to soft-delete doc '", doc_id, "' in '", table_name, "': "),
        };
        assert(r@ =~= change_command(table_name@, *change));
        r
    } else {
        upsert_of(
            table_name,
            doc_id,
            &change.data,
            change.updated_at.as_str(),
            join5("Failed to upsert doc '", doc_id, "' in '", table_name, "': "),
        )
    }
}

/// Applies pulled changes to a table, up to the first that is refused.
///
/// - A deleted document is marked as deleted.
/// - Any other document is put in place of the local one.
///
/// Pulled changes are not written to `_change_log`: they come from the server.
/// Returns how many documents were put in place, and how many marked.
pub fn apply_pull_changes(store: &mut Store, table_name: &str, changes: &[PullChange]) -> (r: Result<
    (usize, usize),
    String,
>)
    ensures
        final(store).conn() == old(store).conn(),
        changes_applied(
            table_name@,
            changes@,
            old(store).log(),
            final(store).log(),
            outcome_of(r),
        ),
        r matches Ok(counts) ==> counts.0 + counts.1 <= changes.len(),
{
    let mut applied: usize = 0;
    let mut deleted: usize = 0;
    let ghost mut rows: Seq<usize> = Seq::empty();
    let ghost mut logs = seq![store.log()];
    proof {
        none_ran(changes@, store.log(), applying(table_name@));
    }
    let mut i: usize = 0;
    while i < changes.len()
        invariant
            i <= changes.len(),
            rows.len() == i,
            applied + deleted <= i,
            applied == put_in_place(changes@.take(i as int)),
            deleted == marked_deleted(changes@.take(i as int), rows),
            store.conn() == old(store).conn(),
            first_ran(changes@, rows, logs, applying(table_name@)),
            logs[0] == old(store).log(),
            logs.last() == store.log(),
        decreases changes.len() - i,
    {
        let command = change_of(table_name, &changes[i]);
        match carry_out(store, &command) {
            Ok(n) => {
                proof {
                    one_more_ran(changes@, rows, logs, applying(table_name@), n, store.log());
                    logs = logs.push(store.log());
                    assert(rows.push(n).drop_last() =~= rows);
                    rows = rows.push(n);
                    assert(changes@.take(i + 1).drop_last() =~= changes@.take(i as int));
                }
                if changes[i].deleted {
                    if n > 0 {
                        deleted = deleted + 1;
                    }
                } else {
                    applied = applied + 1;
                }
            },
            Err(e) => {
                return Err(e);
            },
        }
        i = i + 1;
    }
    assert(changes@.take(i as int) =~= changes@);
    assert(every_ran(changes@, rows, old(store).log(), store.log(), applying(table_name@)));
    Ok((applied, deleted))
}

// ---------------------------------------------------------------------------
// Pulled changes stay out of the change log
// ---------------------------------------------------------------------------
/// A step that writes a document of the table and nothing else.
pub open spec fn writes_document(table: Seq<char>) -> spec_fn(Step) -> bool {
    |step: Step|
        match step {
            Step::Executed { sql, params, outcome } => sql == upsert_sql(table) || sql
                == soft_delete_sql(table),
            _ => false,
        }
}

/// Whatever is pulled, and however that goes, only documents of the table are
/// written.
pub proof fn pull_writes_only_documents(
    table: Seq<char>,
    changes: Seq<PullChange>,
    before: Seq<Step>,
    after: Seq<Step>,
    r: Result<(usize, usize), Seq<char>>,
)
    requires
        changes_applied(table, changes, before, after, r),
    ensures
        grew_by(before, after, writes_document(table)),
{
    assert forall|change: PullChange, b: Seq<Step>, a: Seq<Step>, n: Result<usize, Seq<char>>|
        #[trigger] applying(table)(change, b, a, n) implies grew_by(
        b,
        a,
        writes_document(table),
    ) by {
        let command = change_command(table, change);
        let outcome = choose|outcome: Result<usize, Seq<char>>|
            a == b.push(#[trigger] execution(command, outcome));
        match n {
            Ok(rows) => {
                assert(a == b.push(execution(command, Ok(rows))));
            },
            Err(_) => {},
        }
        assert(writes_document(table)(execution(command, outcome)));
    }
    match r {
        Ok(counts) => {
            let rows = choose|rows: Seq<usize>| #[trigger]
                every_ran(changes, rows, before, after, applying(table)) && counts.0
                    == put_in_place(changes) && counts.1 == marked_deleted(changes, rows);
            chain_steps(
                changes,
                before,
                after,
                Ok(rows),
                applying(table),
                writes_document(table),
            );
        },
        Err(message) => {
            chain_steps(
                changes,
                before,
                after,
                Err::<Seq<usize>, Seq<char>>(message),
                applying(table),
                writes_document(table),
            );
        },
    }
}

/// A pulled change is never recorded as a local one: the command that writes a
/// document is not the one that adds an entry to the change log.
pub proof fn pulled_changes_are_not_recorded(table: Seq<char>)
    ensures
        upsert_sql(table) != INSERT_CHANGE_SQL@,
        soft_delete_sql(table) != INSERT_CHANGE_SQL@,
{
    reveal_strlit("INSERT OR REPLACE INTO [");
    reveal_strlit("UPDATE [");
    reveal_strlit(
        "INSERT INTO _change_log (table_name, doc_id, operation, data, timestamp)
         VALUES (?1, ?2, ?3, ?4, ?5)",
    );
    assert(INSERT_CHANGE_SQL@[7] == 'I');
    assert(upsert_sql(table)[7] == 'O');
    assert(INSERT_CHANGE_SQL@[0] == 'I');
    assert(soft_delete_sql(table)[0] == 'U');
}

// ---------------------------------------------------------------------------
// Checkpoints
// ---------------------------------------------------------------------------
/// Selects the checkpoint of a table, mode and filter.
pub const CHECKPOINT_SQL: &'static str = "SELECT last_sync_at FROM _sync_checkpoint
         WHERE table_name = ?1 AND sync_mode = ?2 AND filter_key = ?3";

/// Sets the checkpoint of a table, mode and filter.
pub const UPDATE_CHECKPOINT_SQL: &'static str = "INSERT OR REPLACE INTO _sync_checkpoint (table_name, sync_mode, filter_key, last_sync_at)
         VALUES (?1, ?2, ?3, ?4)";

/// The values under which a checkpoint is found.
pub open spec fn checkpoint_key(
    table: Seq<char>,
    sync_mode: Seq<char>,
    filter_key: Seq<char>,
) -> Seq<SqlValueView> {
    seq![
        SqlValueView::Text(table),
        SqlValueView::Text(sync_mode),
        SqlValueView::Text(filter_key),
    ]
}

/// The command that sets a checkpoint.
pub open spec fn update_checkpoint_command(
    table: Seq<char>,
    sync_mode: Seq<char>,
    filter_key: Seq<char>,
    last_sync_at: Seq<char>,
) -> CommandView {
    CommandView {
        sql: UPDATE_CHECKPOINT_SQL@,
        params: checkpoint_key(table, sync_mode, filter_key).push(
            SqlValueView::Text(last_sync_at),
        ),
        failure: "Failed to update checkpoint: "@,
    }
}

/// A checkpoint is written under the key under which it is read.
pub proof fn checkpoint_is_written_under_its_key(
    table: Seq<char>,
    sync_mode: Seq<char>,
    filter_key: Seq<char>,
    last_sync_at: Seq<char>,
)
    ensures
        update_checkpoint_command(table, sync_mode, filter_key, last_sync_at).params.drop_last()
            == checkpoint_key(table, sync_mode, filter_key),
        update_checkpoint_command(table, sync_mode, filter_key, last_sync_at).params.last()
            == SqlValueView::Text(last_sync_at),
{
    let key = checkpoint_key(table, sync_mode, filter_key);
    assert(key.push(SqlValueView::Text(last_sync_at)).drop_last() =~= key);
}

/// Tables, modes and filters have their own checkpoints: no two share a key.
pub proof fn checkpoints_are_isolated(
    table: Seq<char>,
    sync_mode: Seq<char>,
    filter_key: Seq<char>,
    other_table: Seq<char>,
    other_mode: Seq<char>,
    other_key: Seq<char>,
)
    requires
        checkpoint_key(table, sync_mode, filter_key) == checkpoint_key(
            other_table,
            other_mode,
            other_key,
        ),
    ensures
        table == other_table,
        sync_mode == other_mode,
        filter_key == other_key,
{
    let a = checkpoint_key(table, sync_mode, filter_key);
    let b = checkpoint_key(other_table, other_mode, other_key);
    assert(a[0] == b[0] && a[1] == b[1] && a[2] == b[2]);
}

/// A checkpoint was asked for; there may be none yet.
pub open spec fn checkpoint_read(
    key: Seq<SqlValueView>,
    before: Seq<Step>,
    after: Seq<Step>,
    r: Result<Option<String>, String>,
) -> bool {
    exists|answer: Selected, read: Result<Option<String>, String>|
        #![trigger selection(CHECKPOINT_SQL@, key, answer), text_read(answer, "last_sync_at"@, read)]
        {
            &&& after == before + selection(CHECKPOINT_SQL@, key, answer)
            &&& text_read(answer, "last_sync_at"@, read)
            &&& match read {
                Ok(checkpoint) => r == Ok::<Option<String>, String>(checkpoint),
                Err(e) => r is Err && r->Err_0@ == "Failed to read checkpoint: "@ + e@,
            }
        }
}

fn key_params(table_name: &str, sync_mode: &str, filter_key: &str) -> (r: Vec<SqlValue>)
    ensures
        values(r@) == checkpoint_key(table_name@, sync_mode@, filter_key@),
{
    let mut params: Vec<SqlValue> = Vec::new();
    params.push(text_value(table_name));
    params.push(text_value(sync_mode));
    params.push(text_value(filter_key));
    assert(values(params@) =~= checkpoint_key(table_name@, sync_mode@, filter_key@));
    params
}

/// The last sync checkpoint for a table, mode and filter; `None` if there is
/// none yet.
pub fn get_checkpoint(
    store: &mut Store,
    table_name: &str,
    sync_mode: &str,
    filter_key: &str,
) -> (r: Result<Option<String>, String>)
    ensures
        final(store).conn() == old(store).conn(),
        checkpoint_read(
            checkpoint_key(table_name@, sync_mode@, filter_key@),
            old(store).log(),
            final(store).log(),
            r,
        ),
{
    let params = key_params(table_name, sync_mode, filter_key);
    let read = store.select_text(CHECKPOINT_SQL, &params, "last_sync_at");
    match read {
        Ok(checkpoint) => Ok(checkpoint),
        Err(e) => Err(join2("Failed to read checkpoint: ", e.as_str())),
    }
}

/// Sets the sync checkpoint for a table, mode and filter.
pub fn update_checkpoint(
    store: &mut Store,
    table_name: &str,
    sync_mode: &str,
    filter_key: &str,
    last_sync_at: &str,
) -> (r: Result<(), String>)
    ensures
        final(store).conn() == old(store).conn(),
        settled(
            old(store).log(),
            final(store).log(),
            update_checkpoint_command(table_name@, sync_mode@, filter_key@, last_sync_at@),
            outcome_of(r),
        ),
{
    let mut params = key_params(table_name, sync_mode, filter_key);
    let ghost key = values(params@);
    params.push(text_value(last_sync_at));
    let command = Command {
        sql: UPDATE_CHECKPOINT_SQL.to_owned(),
        params,
        failure: "Failed to update checkpoint: ".to_owned(),
    };
    assert(values(params@) =~= key.push(SqlValueView::Text(last_sync_at@)));
    settle(store, &command)
}

// ---------------------------------------------------------------------------
// The endpoint
// ---------------------------------------------------------------------------
/// The request for a page of changes: those since a time, of a mode and a
/// filter.
pub open spec fn pull_request(
    base_url: Seq<char>,
    token: Seq<char>,
    table: Seq<char>,
    since: Seq<char>,
    mode: Seq<char>,
    filter_key: Seq<char>,
) -> RequestView {
    RequestView {
        url: endpoint(base_url, table, "/pull"@),
        query: seq![("since"@, since), ("mode"@, mode), ("filter_key"@, filter_key)],
        headers: seq![("Accept"@, "application/sjs"@), ("Authorization"@, bearer(token))],
    }
}

/// The request for a page of changes.
pub fn pull_request_for(
    base_url: &str,
    token: &str,
    table_name: &str,
    since: &str,
    mode: &str,
    filter_key: &str,
) -> (r: Request)
    ensures
        r@ == pull_request(base_url@, token@, table_name@, since@, mode@, filter_key@),
{
    let mut query: Vec<(String, String)> = Vec::new();
    query.push(pair("since", since));
    query.push(pair("mode", mode));
    query.push(pair("filter_key", filter_key));
    let mut headers: Vec<(String, String)> = Vec::new();
    headers.push(pair("Accept", "application/sjs"));
    headers.push(authorization(token));
    let r = Request { url: endpoint_url(base_url, table_name, "/pull"), query, headers };
    assert(r@ =~= pull_request(base_url@, token@, table_name@, since@, mode@, filter_key@));
    r
}

/// The message of a failed pull request.
pub open spec fn pull_failure_text(failure: Failure) -> Seq<char> {
    match failure {
        Failure::Send(e) => "Pull request failed: "@ + e@,
        Failure::Status(status) => "Pull endpoint returned status "@ + status@,
        Failure::Body(e) => "Failed to read pull response body: "@ + e@,
        Failure::Decode(e) => "Failed to decode pull response MessagePack: "@ + e@,
    }
}

/// The message of a failed pull request.
pub fn pull_failure(failure: &Failure) -> (r: String)
    ensures
        r@ == pull_failure_text(*failure),
{
    match failure {
        Failure::Send(e) => join2("Pull request failed: ", e.as_str()),
        Failure::Status(status) => join2("Pull endpoint returned status ", status.as_str()),
        Failure::Body(e) => join2("Failed to read pull response body: ", e.as_str()),
        Failure::Decode(e) => join2(
            "Failed to decode pull response MessagePack: ",
            e.as_str(),
        ),
    }
}

// ---------------------------------------------------------------------------
// A pull, page by page
// ---------------------------------------------------------------------------
/// Where a pull of one table stands.
pub struct PullSession {
    table_name: String,
    sync_mode: String,
    filter_key: String,
    since: String,
    applied: usize,
    deleted: usize,
    pages: usize,
}

/// What a [`PullSession`] is, over sequences.
#[verifier::ext_equal]
pub struct PullSessionView {
    pub table_name: Seq<char>,
    pub sync_mode: Seq<char>,
    pub filter_key: Seq<char>,
    /// The time up to which changes have been pulled; empty at the very start.
    pub since: Seq<char>,
    pub applied: nat,
    pub deleted: nat,
    pub pages: nat,
}

impl View for PullSession {
    type V = PullSessionView;

    closed spec fn view(&self) -> PullSessionView {
        PullSessionView {
            table_name: self.table_name@,
            sync_mode: self.sync_mode@,
            filter_key: self.filter_key@,
            since: self.since@,
            applied: self.applied as nat,
            deleted: self.deleted as nat,
            pages: self.pages as nat,
        }
    }
}

/// A pull that starts at a checkpoint, if there is one.
pub open spec fn pull_from(
    table_name: Seq<char>,
    sync_mode: Seq<char>,
    filter_key: Seq<char>,
    checkpoint: Option<String>,
) -> PullSessionView {
    PullSessionView {
        table_name,
        sync_mode,
        filter_key,
        since: match checkpoint {
            Some(time) => time@,
            None => Seq::empty(),
        },
        applied: 0,
        deleted: 0,
        pages: 0,
    }
}

impl PullSessionView {
    /// The pull after a page of which so many documents were put in place and
    /// marked as deleted.
    pub open spec fn after_page(self, page: PullResponse, counts: (usize, usize)) -> PullSessionView {
        PullSessionView {
            since: page.server_time@,
            applied: self.applied + counts.0 as nat,
            deleted: self.deleted + counts.1 as nat,
            pages: self.pages + 1,
            ..self
        }
    }

    /// The pull after several pages.
    pub open spec fn after_pages(
        self,
        pages: Seq<PullResponse>,
        counts: Seq<(usize, usize)>,
    ) -> PullSessionView
        decreases pages.len(),
    {
        if pages.len() == 0 {
            self
        } else {
            self.after_pages(pages.drop_last(), counts.drop_last()).after_page(
                pages.last(),
                counts.last(),
            )
        }
    }

    /// The counts of the pull still fit in a machine word after this page.
    pub open spec fn has_room(self, page: PullResponse) -> bool {
        &&& self.pages < usize::MAX
        &&& self.applied + self.deleted + page.changes.len() <= usize::MAX
    }
}

/// The summary of a pull.
pub open spec fn summary_of(session: PullSessionView, summary: PullSummary) -> bool {
    &&& summary.pulled == session.applied + session.deleted
    &&& summary.applied == session.applied
    &&& summary.deleted == session.deleted
    &&& summary.pages == session.pages
}

/// Whatever pages come, the pull stays with its table, mode and filter, counts
/// the pages, and stands at the server's time of the last of them.
pub proof fn pages_advance_the_pull(
    session: PullSessionView,
    pages: Seq<PullResponse>,
    counts: Seq<(usize, usize)>,
)
    requires
        pages.len() == counts.len(),
    ensures
        session.after_pages(pages, counts).table_name == session.table_name,
        session.after_pages(pages, counts).sync_mode == session.sync_mode,
        session.after_pages(pages, counts).filter_key == session.filter_key,
        session.after_pages(pages, counts).pages == session.pages + pages.len(),
        pages.len() > 0 ==> session.after_pages(pages, counts).since == pages.last().server_time@,
    decreases pages.len(),
{
    if pages.len() > 0 {
        pages_advance_the_pull(session, pages.drop_last(), counts.drop_last());
    }
}

impl PullSession {
    #[verifier::type_invariant]
    spec fn counts_fit(self) -> bool {
        self.applied + self.deleted <= usize::MAX
    }

    /// Starts a pull at the checkpoint of the table, mode and filter.
    pub fn start(
        global_store: &mut Store,
        table_name: &str,
        sync_mode: &str,
        filter_key: &str,
    ) -> (r: Result<Self, String>)
        ensures
            final(global_store).conn() == old(global_store).conn(),
            exists|checkpoint: Result<Option<String>, String>| #[trigger]
                checkpoint_read(
                    checkpoint_key(table_name@, sync_mode@, filter_key@),
                    old(global_store).log(),
                    final(global_store).log(),
                    checkpoint,
                ) && match checkpoint {
                    Ok(time) => r is Ok && r->Ok_0@ == pull_from(
                        table_name@,
                        sync_mode@,
                        filter_key@,
                        time,
                    ),
                    Err(e) => r is Err && r->Err_0 == e,
                },
    {
        let checkpoint = get_checkpoint(global_store, table_name, sync_mode, filter_key);
        match checkpoint {
            Ok(time) => {
                let since = match time {
                    Some(t) => t,
                    None => String::new(),
                };
                let session = PullSession {
                    table_name: table_name.to_owned(),
                    sync_mode: sync_mode.to_owned(),
                    filter_key: filter_key.to_owned(),
                    since,
                    applied: 0,
                    deleted: 0,
                    pages: 0,
                };
                assert(session@ =~= pull_from(table_name@, sync_mode@, filter_key@, time));
                Ok(session)
            },
            Err(e) => Err(e),
        }
    }

    /// The request for the next page.
    pub fn next_request(&self, base_url: &str, token: &str) -> (r: Request)
        ensures
            r@ == pull_request(
                base_url@,
                token@,
                self@.table_name,
                self@.since,
                self@.sync_mode,
                self@.filter_key,
            ),
    {
        pull_request_for(
            base_url,
            token,
            self.table_name.as_str(),
            self.since.as_str(),
            self.sync_mode.as_str(),
            self.filter_key.as_str(),
        )
    }

    /// Whether the counts of the pull still fit after this page.
    pub fn has_room(&self, page: &PullResponse) -> (r: bool)
        ensures
            r == self@.has_room(*page),
    {
        proof {
            use_type_invariant(self);
        }
        self.pages < usize::MAX && page.changes.len() <= usize::MAX - (self.applied + self.deleted)
    }

    /// Applies a page and returns whether the server has more. Where a change
    /// is refused, the pull ends with its message and stands where it stood.
    pub fn take_page(&mut self, store: &mut Store, page: PullResponse) -> (r: Result<bool, String>)
        requires
            old(self)@.has_room(page),
        ensures
            final(store).conn() == old(store).conn(),
            exists|counts: Result<(usize, usize), Seq<char>>| #[trigger]
                changes_applied(
                    old(self)@.table_name,
                    page.changes@,
                    old(store).log(),
                    final(store).log(),
                    counts,
                ) && match counts {
                    Ok(counts) => r == Ok::<bool, String>(page.has_more) && final(self)@ == old(
                        self,
                    )@.after_page(page, counts),
                    Err(e) => r is Err && r->Err_0@ == e && final(self)@ == old(self)@,
                },
    {
        proof {
            use_type_invariant(&*self);
        }
        let applied = apply_pull_changes(
            store,
            self.table_name.as_str(),
            page.changes.as_slice(),
        );
        assert(changes_applied(
            old(self)@.table_name,
            page.changes@,
            old(store).log(),
            store.log(),
            outcome_of(applied),
        ));
        match applied {
            Ok((applied, deleted)) => {
                let counts = (self.applied + applied, self.deleted + deleted);
                let table_name = self.table_name.clone();
                let sync_mode = self.sync_mode.clone();
                let filter_key = self.filter_key.clone();
                *self =
                PullSession {
                    table_name,
                    sync_mode,
                    filter_key,
                    since: page.server_time,
                    applied: counts.0,
                    deleted: counts.1,
                    pages: self.pages + 1,
                };
                assert(self@ =~= old(self)@.after_page(page, (applied, deleted)));
                Ok(page.has_more)
            },
            Err(e) => Err(e),
        }
    }

    /// Ends a pull: the checkpoint moves to where the pull stands, unless the
    /// server never told its time.
    pub fn finish(self, global_store: &mut Store) -> (r: Result<PullSummary, String>)
        ensures
            final(global_store).conn() == old(global_store).conn(),
            if self@.since.len() == 0 {
                &&& final(global_store).log() == old(global_store).log()
                &&& r is Ok
                &&& summary_of(self@, r->Ok_0)
            } else {
                exists|outcome: Result<(), Seq<char>>| #[trigger]
                    settled(
                        old(global_store).log(),
                        final(global_store).log(),
                        update_checkpoint_command(
                            self@.table_name,
                            self@.sync_mode,
                            self@.filter_key,
                            self@.since,
                        ),
                        outcome,
                    ) && match outcome {
                        Ok(_) => r is Ok && summary_of(self@, r->Ok_0),
                        Err(e) => r is Err && r->Err_0@ == e,
                    }
            },
    {
        proof {
            use_type_invariant(&self);
        }
        if self.since.as_str().unicode_len() > 0 {
            let updated = update_checkpoint(
                global_store,
                self.table_name.as_str(),
                self.sync_mode.as_str(),
                self.filter_key.as_str(),
                self.since.as_str(),
            );
            assert(settled(
                old(global_store).log(),
                global_store.log(),
                update_checkpoint_command(
                    self@.table_name,
                    self@.sync_mode,
                    self@.filter_key,
                    self@.since,
                ),
                outcome_of(updated),
            ));
            match updated {
                Ok(_) => {},
                Err(e) => {
                    return Err(e);
                },
            }
        }
        Ok(
            PullSummary {
                pulled: self.applied + self.deleted,
                applied: self.applied,
                deleted: self.deleted,
                pages: self.pages,
            },
        )
    }
}

} // verus!
