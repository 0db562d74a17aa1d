//! Conflicts between a local document and the server's, resolved by
//! last-write-wins.

use crate::chain::{each_ran, first_ran, grew_by, none_ran, one_more_ran, Operation};
use crate::clock::{
    compare_timestamps, instant_of, is_newer, is_utc_timestamp, newer_by, newer_is_asymmetric,
    parse_instant, timestamps_stand_in_line,
};
use crate::driver::{outcome_of, Step};
use crate::request::{
    carry_out, execution, insert_returning_id, recorded, run_script, script_ran,
};
use crate::sql::{
    commands, plain_command, text_value, values, Command, CommandView, SqlValue, SqlValueView,
};
use crate::store::{reads, selection, selection_only_reads, text_read, Selected, Store};
use crate::sync::document::{upsert_command, upsert_of};
use crate::sync::push::ConflictInfo;
use crate::text::join3;
use vstd::prelude::*;

verus! {

// ---------------------------------------------------------------------------
// Types
// ---------------------------------------------------------------------------
/// Which version won the conflict resolution.
#[derive(Debug, Clone, Copy, PartialEq, Eq, Structural)]
pub enum ConflictWinner {
    Local,
    Server,
}

/// The name of the winner.
pub open spec fn winner_name(winner: ConflictWinner) -> Seq<char> {
    match winner {
        ConflictWinner::Local => "local"@,
        ConflictWinner::Server => "server"@,
    }
}

impl ConflictWinner {
    /// The name of the winner.
    pub fn to_string(&self) -> (r: String)
        ensures
            r@ == winner_name(*self),
    {
        match self {
            ConflictWinner::Local => "local".to_owned(),
            ConflictWinner::Server => "server".to_owned(),
        }
    }
}

/// Result of resolving a single conflict via LWW.
#[derive(Debug)]
pub struct ConflictResolution {
    pub doc_id: String,
    pub local_updated_at: String,
    pub server_updated_at: String,
    pub winner: ConflictWinner,
    pub resolved_at: String,
}

impl Clone for ConflictResolution {
    fn clone(&self) -> (r: Self)
        ensures
            r == *self,
    {
        ConflictResolution {
            doc_id: self.doc_id.clone(),
            local_updated_at: self.local_updated_at.clone(),
            server_updated_at: self.server_updated_at.clone(),
            winner: self.winner,
            resolved_at: self.resolved_at.clone(),
        }
    }
}

// ---------------------------------------------------------------------------
// The decision
// ---------------------------------------------------------------------------
/// The server's version wins where there is no local one, where it is newer,
/// and on a tie; each timestamp comes with its instant, where it has one.
pub open spec fn server_wins_by(
    local: Seq<char>,
    local_instant: Option<(i64, u32)>,
    server: Seq<char>,
    server_instant: Option<(i64, u32)>,
) -> bool {
    local.len() == 0 || !newer_by(local, local_instant, server, server_instant)
}

/// The server's version wins where there is no local one, where it is newer,
/// and on a tie.
pub open spec fn server_wins(local: Seq<char>, server: Seq<char>) -> bool {
    local.len() == 0 || !is_newer(local, server)
}

/// The version that is kept, by its timestamp.
pub open spec fn kept(local: Seq<char>, server: Seq<char>) -> Seq<char> {
    if server_wins(local, server) {
        server
    } else {
        local
    }
}

/// Decides a conflict between two timestamps, each with its instant, where it
/// has one; an empty local timestamp stands for a document that does not exist
/// locally.
pub fn decide_by(
    local_updated_at: &str,
    local_instant: Option<(i64, u32)>,
    server_updated_at: &str,
    server_instant: Option<(i64, u32)>,
) -> (r: ConflictWinner)
    ensures
        r == (if server_wins_by(
            local_updated_at@,
            local_instant,
            server_updated_at@,
            server_instant,
        ) {
            ConflictWinner::Server
        } else {
            ConflictWinner::Local
        }),
{
    if local_updated_at.unicode_len() == 0 || !compare_timestamps(
        local_updated_at,
        local_instant,
        server_updated_at,
        server_instant,
    ) {
        ConflictWinner::Server
    } else {
        ConflictWinner::Local
    }
}

/// Decides a conflict between two timestamps; an empty local timestamp stands
/// for a document that does not exist locally.
pub fn decide(local_updated_at: &str, server_updated_at: &str) -> (r: ConflictWinner)
    ensures
        r == (if server_wins(local_updated_at@, server_updated_at@) {
            ConflictWinner::Server
        } else {
            ConflictWinner::Local
        }),
{
    decide_by(
        local_updated_at,
        parse_instant(local_updated_at),
        server_updated_at,
        parse_instant(server_updated_at),
    )
}

/// The last write wins: neither version is newer than the one that is kept.
pub proof fn last_write_wins(local: Seq<char>, server: Seq<char>)
    ensures
        !is_newer(local, kept(local, server)),
        !is_newer(server, kept(local, server)),
        kept(local, server) == local || kept(local, server) == server,
{
    newer_is_asymmetric(local, server);
    newer_is_asymmetric(server, local);
}

/// The server wins a tie: where neither version is newer, its own is kept.
pub proof fn server_wins_ties(local: Seq<char>, server: Seq<char>)
    requires
        !is_newer(local, server),
        !is_newer(server, local),
    ensures
        server_wins(local, server),
        kept(local, server) == server,
{
}

/// Resolving a conflict once more changes nothing: what was kept is kept.
pub proof fn resolving_again_changes_nothing(local: Seq<char>, server: Seq<char>)
    ensures
        kept(kept(local, server), server) == kept(local, server),
{
    newer_is_asymmetric(server, server);
}

/// The three versions go round: the second is newer than the first, the first
/// wins against the local one, and the local one is newer than the second. That
/// can only be where some of the timestamps have instants and others have none.
pub open spec fn versions_go_round(
    local: Seq<char>,
    first: Seq<char>,
    second: Seq<char>,
) -> bool {
    is_newer(second, first) && !is_newer(local, first) && is_newer(local, second)
}

/// Replicas converge: the order in which two versions arrive does not matter,
/// what is kept is equally new. It holds unless the versions go round.
pub proof fn order_of_arrival_is_irrelevant(
    local: Seq<char>,
    first: Seq<char>,
    second: Seq<char>,
)
    requires
        !versions_go_round(local, first, second),
        !versions_go_round(local, second, first),
    ensures
        !is_newer(kept(kept(local, first), second), kept(kept(local, second), first)),
        !is_newer(kept(kept(local, second), first), kept(kept(local, first), second)),
{
    newer_is_asymmetric(local, first);
    newer_is_asymmetric(local, second);
    newer_is_asymmetric(first, second);
    newer_is_asymmetric(second, second);
}

/// Versions do not go round where all three timestamps have instants, nor where
/// none has.
pub proof fn timestamps_of_a_kind_do_not_go_round(
    local: Seq<char>,
    first: Seq<char>,
    second: Seq<char>,
)
    requires
        instant_of(local) is Some == instant_of(first) is Some,
        instant_of(first) is Some == instant_of(second) is Some,
    ensures
        !versions_go_round(local, first, second),
{
    newer_is_asymmetric(local, second);
    if is_newer(second, first) {
        timestamps_stand_in_line(second, first, local);
    }
}

// ---------------------------------------------------------------------------
// Resolution
// ---------------------------------------------------------------------------
/// The text that selects the timestamp of a local document.
pub open spec fn local_version_sql(table: Seq<char>) -> Seq<char> {
    "SELECT updatedAt FROM ["@ + table + "] WHERE _id = ?1"@
}

/// The values bound to it.
pub open spec fn local_version_params(doc_id: Seq<char>) -> Seq<SqlValueView> {
    seq![SqlValueView::Text(doc_id)]
}

/// A text that was read; it is empty where there is none or it could not be
/// read.
pub open spec fn text_or_empty(read: Result<Option<String>, String>) -> Seq<char> {
    match read {
        Ok(Some(text)) => text@,
        Ok(None) => Seq::empty(),
        Err(_) => Seq::empty(),
    }
}

/// `local` is the timestamp of the local document, by the answer to the query
/// for it.
pub open spec fn local_version(answer: Selected, local: Seq<char>) -> bool {
    exists|read: Result<Option<String>, String>| #[trigger]
        text_read(answer, "updatedAt"@, read) && local == text_or_empty(read)
}

/// The command that puts the server's version in place of the local one.
pub open spec fn server_version_command(table: Seq<char>, conflict: ConflictInfo) -> CommandView {
    upsert_command(
        table,
        conflict.doc_id@,
        conflict.server_data,
        conflict.server_updated_at@,
        "Failed to apply server version for doc '"@ + conflict.doc_id@ + "': "@,
    )
}

/// The resolution says how the conflict was decided.
pub open spec fn resolution_of(
    resolution: ConflictResolution,
    conflict: ConflictInfo,
    local: Seq<char>,
    winner: ConflictWinner,
    resolved_at: Seq<char>,
) -> bool {
    &&& resolution.doc_id@ == conflict.doc_id@
    &&& resolution.local_updated_at@ == local
    &&& resolution.server_updated_at@ == conflict.server_updated_at@
    &&& resolution.winner == winner
    &&& resolution.resolved_at@ == resolved_at
}

/// What is done where the local document has the timestamp `local`: the
/// server's version is written if it wins, else nothing is.
pub open spec fn resolved_against(
    table: Seq<char>,
    conflict: ConflictInfo,
    local: Seq<char>,
    resolved_at: Seq<char>,
    before: Seq<Step>,
    after: Seq<Step>,
    r: Result<ConflictResolution, Seq<char>>,
) -> bool {
    if server_wins(local, conflict.server_updated_at@) {
        let command = server_version_command(table, conflict);
        exists|outcome: Result<usize, Seq<char>>|
            after == before.push(#[trigger] execution(command, outcome)) && match outcome {
                Ok(_) => r is Ok && resolution_of(
                    r->Ok_0,
                    conflict,
                    local,
                    ConflictWinner::Server,
                    resolved_at,
                ),
                Err(e) => r == Err::<ConflictResolution, Seq<char>>(command.failure + e),
            }
    } else {
        &&& after == before
        &&& r is Ok
        &&& resolution_of(r->Ok_0, conflict, local, ConflictWinner::Local, resolved_at)
    }
}

/// A conflict was resolved at this time: the timestamp of the local document
/// was read, and the conflict decided against it.
pub open spec fn resolved(
    table: Seq<char>,
    conflict: ConflictInfo,
    resolved_at: Seq<char>,
    before: Seq<Step>,
    after: Seq<Step>,
    r: Result<ConflictResolution, Seq<char>>,
) -> bool {
    exists|answer: Selected, local: Seq<char>|
        #![trigger selection(local_version_sql(table), local_version_params(conflict.doc_id@), answer), local_version(answer, local)]
        local_version(answer, local) && resolved_against(
            table,
            conflict,
            local,
            resolved_at,
            before + selection(
                local_version_sql(table),
                local_version_params(conflict.doc_id@),
                answer,
            ),
            after,
            r,
        )
}

/// Resolves a conflict by last-write-wins, with `resolved_at` as the time of
/// the resolution.
pub fn resolve_conflict_at(
    store: &mut Store,
    table_name: &str,
    conflict: &ConflictInfo,
    resolved_at: String,
) -> (r: Result<ConflictResolution, String>)
    ensures
        final(store).conn() == old(store).conn(),
        final(store).readings() == old(store).readings(),
        resolved(
            table_name@,
            *conflict,
            resolved_at@,
            old(store).log(),
            final(store).log(),
            outcome_of(r),
        ),
{
    let sql = join3("SELECT updatedAt FROM [", table_name, "] WHERE _id = ?1");
    let mut params: Vec<SqlValue> = Vec::new();
    params.push(text_value(conflict.doc_id.as_str()));
    assert(values(params@) =~= local_version_params(conflict.doc_id@));
    let read = store.select_text(sql.as_str(), &params, "updatedAt");
    let ghost answer = choose|answer: Selected|
        store.log() == old(store).log() + #[trigger] selection(sql@, values(params@), answer)
            && text_read(answer, "updatedAt"@, read);
    let local_updated_at = match read {
        Ok(Some(text)) => text,
        Ok(None) => String::new(),
        Err(_) => String::new(),
    };
    let ghost local = local_updated_at@;
    let ghost middle = old(store).log() + selection(
        local_version_sql(table_name@),
        local_version_params(conflict.doc_id@),
        answer,
    );
    assert(store.log() == middle);
    assert(local_version(answer, local)) by {
        assert(text_read(answer, "updatedAt"@, read));
        assert(local =~= text_or_empty(read));
    }
    let winner = decide(local_updated_at.as_str(), conflict.server_updated_at.as_str());
    match winner {
        ConflictWinner::Server => {
            let command = upsert_of(
                table_name,
                conflict.doc_id.as_str(),
                &conflict.server_data,
                conflict.server_updated_at.as_str(),
                join3("Failed to apply server version for doc '", conflict.doc_id.as_str(), "': "),
            );
            assert(command@ == server_version_command(table_name@, *conflict));
            match carry_out(store, &command) {
                Ok(n) => {
                    assert(store.log() == middle.push(execution(command@, Ok(n))));
                },
                Err(e) => {
                    let ghost r = Err::<ConflictResolution, Seq<char>>(e@);
                    assert(resolved_against(
                        table_name@,
                        *conflict,
                        local,
                        resolved_at@,
                        middle,
                        store.log(),
                        r,
                    ));
                    return Err(e);
                },
            }
        },
        ConflictWinner::Local => {},
    }
    let resolution = ConflictResolution {
        doc_id: conflict.doc_id.clone(),
        local_updated_at,
        server_updated_at: conflict.server_updated_at.clone(),
        winner,
        resolved_at,
    };
    assert(resolved_against(
        table_name@,
        *conflict,
        local,
        resolved_at@,
        middle,
        store.log(),
        Ok(resolution),
    ));
    Ok(resolution)
}

/// A local version that wins is left alone: nothing is written.
pub proof fn local_winner_is_left_alone(
    table: Seq<char>,
    conflict: ConflictInfo,
    resolved_at: Seq<char>,
    before: Seq<Step>,
    after: Seq<Step>,
    resolution: ConflictResolution,
)
    requires
        resolved(table, conflict, resolved_at, before, after, Ok(resolution)),
        resolution.winner == ConflictWinner::Local,
    ensures
        grew_by(before, after, reads()),
{
    let sql = local_version_sql(table);
    let params = local_version_params(conflict.doc_id@);
    let (answer, local) = choose|answer: Selected, local: Seq<char>|
        #![trigger selection(sql, params, answer), local_version(answer, local)]
        local_version(answer, local) && resolved_against(
            table,
            conflict,
            local,
            resolved_at,
            before + selection(sql, params, answer),
            after,
            Ok(resolution),
        );
    selection_only_reads(before, sql, params, answer);
}

/// A conflict was resolved at the time of the call.
pub open spec fn resolved_now(
    table: Seq<char>,
    conflict: ConflictInfo,
    before: Seq<Step>,
    after: Seq<Step>,
    r: Result<ConflictResolution, Seq<char>>,
) -> bool {
    exists|resolved_at: Seq<char>|
        is_utc_timestamp(resolved_at) && #[trigger] resolved(
            table,
            conflict,
            resolved_at,
            before,
            after,
            r,
        )
}

/// A conflict was resolved at the time that was read from the clock.
pub open spec fn resolved_at_reading(
    table: Seq<char>,
    conflict: ConflictInfo,
    readings_before: Seq<Seq<char>>,
    readings_after: Seq<Seq<char>>,
    before: Seq<Step>,
    after: Seq<Step>,
    r: Result<ConflictResolution, Seq<char>>,
) -> bool {
    &&& readings_after == readings_before.push(readings_after.last())
    &&& resolved(table, conflict, readings_after.last(), before, after, r)
}

/// Resolves a single conflict by last-write-wins.
///
/// - Reads the local document's `updatedAt` from the table.
/// - If the server's is newer, or equal, the local document is replaced by the
///   server's.
/// - If the local one is newer, it is kept; the server gets it with the next
///   push.
pub fn resolve_conflict(store: &mut Store, table_name: &str, conflict: &ConflictInfo) -> (r: Result<
    ConflictResolution,
    String,
>)
    ensures
        final(store).conn() == old(store).conn(),
        resolved_now(
            table_name@,
            *conflict,
            old(store).log(),
            final(store).log(),
            outcome_of(r),
        ),
        resolved_at_reading(
            table_name@,
            *conflict,
            old(store).readings(),
            final(store).readings(),
            old(store).log(),
            final(store).log(),
            outcome_of(r),
        ),
{
    let resolved_at = store.now();
    resolve_conflict_at(store, table_name, conflict, resolved_at)
}

/// The resolution of one conflict of a table.
pub open spec fn resolving(table: Seq<char>) -> Operation<ConflictInfo, ConflictResolution> {
    |conflict: ConflictInfo, before, after, r| resolved_now(table, conflict, before, after, r)
}

/// A list of results as a sequence, its message as characters.
pub open spec fn list_of<T>(r: Result<Vec<T>, String>) -> Result<Seq<T>, Seq<char>> {
    match r {
        Ok(list) => Ok(list@),
        Err(e) => Err(e@),
    }
}

/// The times of resolutions, in order.
pub open spec fn resolution_times(resolutions: Seq<ConflictResolution>) -> Seq<Seq<char>> {
    resolutions.map_values(|resolution: ConflictResolution| resolution.resolved_at@)
}

/// Resolves conflicts one after the other, up to the first that cannot be.
pub fn resolve_conflicts(store: &mut Store, table_name: &str, conflicts: &[ConflictInfo]) -> (r:
    Result<Vec<ConflictResolution>, String>)
    ensures
        final(store).conn() == old(store).conn(),
        each_ran(
            conflicts@,
            old(store).log(),
            final(store).log(),
            list_of(r),
            resolving(table_name@),
        ),
        r matches Ok(list) ==> final(store).readings() == old(store).readings() + resolution_times(
            list@,
        ),
{
    let mut resolutions: Vec<ConflictResolution> = Vec::new();
    let ghost mut logs = seq![store.log()];
    proof {
        none_ran(conflicts@, store.log(), resolving(table_name@));
    }
    let mut i: usize = 0;
    assert(resolutions@ =~= Seq::empty());
    assert(store.readings() =~= old(store).readings() + resolution_times(resolutions@));
    while i < conflicts.len()
        invariant
            i <= conflicts.len(),
            resolutions.len() == i,
            store.conn() == old(store).conn(),
            first_ran(conflicts@, resolutions@, logs, resolving(table_name@)),
            logs[0] == old(store).log(),
            logs.last() == store.log(),
            store.readings() == old(store).readings() + resolution_times(resolutions@),
        decreases conflicts.len() - i,
    {
        match resolve_conflict(store, table_name, &conflicts[i]) {
            Ok(resolution) => {
                proof {
                    one_more_ran(
                        conflicts@,
                        resolutions@,
                        logs,
                        resolving(table_name@),
                        resolution,
                        store.log(),
                    );
                    logs = logs.push(store.log());
                    assert(resolution.resolved_at@ == store.readings().last());
                    assert(resolution_times(resolutions@.push(resolution)) =~= resolution_times(
                        resolutions@,
                    ).push(resolution.resolved_at@));
                    assert(store.readings() =~= old(store).readings() + resolution_times(
                        resolutions@.push(resolution),
                    ));
                }
                resolutions.push(resolution);
            },
            Err(e) => {
                return Err(e);
            },
        }
        i = i + 1;
    }
    Ok(resolutions)
}

/// Looks for conflicts that linger in a table. Last-write-wins resolves each
/// conflict where it comes up, so there are none, and the database is not
/// asked.
pub fn scan_and_resolve_all(_store: &Store, _table_name: &str) -> (r: Result<
    Vec<ConflictResolution>,
    String,
>)
    ensures
        r is Ok,
        r->Ok_0.len() == 0,
{
    Ok(Vec::new())
}

// ---------------------------------------------------------------------------
// The conflict log
// ---------------------------------------------------------------------------
/// The `_conflict_log` table.
pub const CONFLICT_LOG_TABLE: &'static str = "CREATE TABLE IF NOT EXISTS _conflict_log (
            id                INTEGER PRIMARY KEY AUTOINCREMENT,
            doc_id            TEXT NOT NULL,
            table_name        TEXT NOT NULL,
            local_updated_at  TEXT NOT NULL,
            server_updated_at TEXT NOT NULL,
            winner            TEXT NOT NULL,
            resolved_at       TEXT NOT NULL
        );";

/// Adds an entry to the conflict log.
pub const LOG_CONFLICT_SQL: &'static str = "INSERT INTO _conflict_log (doc_id, table_name, local_updated_at, server_updated_at, winner, resolved_at)
         VALUES (?1, ?2, ?3, ?4, ?5, ?6)";

/// The command that creates the `_conflict_log` table.
pub open spec fn conflict_log_command() -> CommandView {
    plain_command(CONFLICT_LOG_TABLE@, "Failed to create _conflict_log table: "@)
}

/// The command that adds a resolution to the conflict log.
pub open spec fn log_conflict_command(
    table: Seq<char>,
    resolution: ConflictResolution,
) -> CommandView {
    CommandView {
        sql: LOG_CONFLICT_SQL@,
        params: seq![
            SqlValueView::Text(resolution.doc_id@),
            SqlValueView::Text(table),
            SqlValueView::Text(resolution.local_updated_at@),
            SqlValueView::Text(resolution.server_updated_at@),
            SqlValueView::Text(winner_name(resolution.winner)),
            SqlValueView::Text(resolution.resolved_at@),
        ],
        failure: "Failed to log conflict resolution: "@,
    }
}

/// Ensures that the `_conflict_log` table exists.
pub fn ensure_conflict_log_table(store: &mut Store) -> (r: Result<(), String>)
    ensures
        final(store).conn() == old(store).conn(),
        script_ran(
            seq![conflict_log_command()],
            old(store).log(),
            final(store).log(),
            outcome_of(r),
        ),
{
    let mut list: Vec<Command> = Vec::new();
    list.push(
        Command::plain(
            CONFLICT_LOG_TABLE.to_owned(),
            "Failed to create _conflict_log table: ".to_owned(),
        ),
    );
    assert(commands(list@) =~= seq![conflict_log_command()]);
    run_script(store, &list)
}

/// A resolution was logged: the table is ensured, then the entry inserted; `r`
/// is its id. Where the table is refused, nothing is inserted.
pub open spec fn conflict_logged(
    table: Seq<char>,
    resolution: ConflictResolution,
    before: Seq<Step>,
    after: Seq<Step>,
    r: Result<i64, Seq<char>>,
) -> bool {
    exists|middle: Seq<Step>, ensured: Result<(), Seq<char>>|
        #[trigger] script_ran(seq![conflict_log_command()], before, middle, ensured)
            && match ensured {
            Ok(_) => recorded(middle, after, log_conflict_command(table, resolution), r),
            Err(e) => after == middle && r == Err::<i64, Seq<char>>(e),
        }
}

/// Records a conflict resolution into the `_conflict_log` table, which is
/// created if it does not exist, and returns the id of the entry.
pub fn log_conflict(store: &mut Store, table_name: &str, resolution: &ConflictResolution) -> (r:
    Result<i64, String>)
    ensures
        final(store).conn() == old(store).conn(),
        conflict_logged(
            table_name@,
            *resolution,
            old(store).log(),
            final(store).log(),
            outcome_of(r),
        ),
{
    let ensured = ensure_conflict_log_table(store);
    let ghost middle = store.log();
    assert(script_ran(
        seq![conflict_log_command()],
        old(store).log(),
        middle,
        outcome_of(ensured),
    ));
    match ensured {
        Ok(_) => {},
        Err(e) => {
            return Err(e);
        },
    }
    let mut params: Vec<SqlValue> = Vec::new();
    params.push(text_value(resolution.doc_id.as_str()));
    params.push(text_value(table_name));
    params.push(text_value(resolution.local_updated_at.as_str()));
    params.push(text_value(resolution.server_updated_at.as_str()));
    params.push(SqlValue::Text(resolution.winner.to_string()));
    params.push(text_value(resolution.resolved_at.as_str()));
    let command = Command {
        sql: LOG_CONFLICT_SQL.to_owned(),
        params,
        failure: "Failed to log conflict resolution: ".to_owned(),
    };
    assert(command@ =~= log_conflict_command(table_name@, *resolution));
    insert_returning_id(store, &command)
}

/// The logging of one resolution of a table.
pub open spec fn logging(table: Seq<char>) -> Operation<ConflictResolution, i64> {
    |resolution: ConflictResolution, before, after, r|
        conflict_logged(table, resolution, before, after, r)
}

/// Logs resolutions one after the other, up to the first that is refused, and
/// returns the ids of their entries.
pub fn log_conflicts(store: &mut Store, table_name: &str, resolutions: &[ConflictResolution]) -> (r:
    Result<Vec<i64>, String>)
    ensures
        final(store).conn() == old(store).conn(),
        each_ran(
            resolutions@,
            old(store).log(),
            final(store).log(),
            list_of(r),
            logging(table_name@),
        ),
{
    let mut ids: Vec<i64> = Vec::new();
    let ghost mut logs = seq![store.log()];
    proof {
        none_ran(resolutions@, store.log(), logging(table_name@));
    }
    let mut i: usize = 0;
    assert(ids@ =~= Seq::empty());
    while i < resolutions.len()
        invariant
            i <= resolutions.len(),
            ids.len() == i,
            store.conn() == old(store).conn(),
            first_ran(resolutions@, ids@, logs, logging(table_name@)),
            logs[0] == old(store).log(),
            logs.last() == store.log(),
        decreases resolutions.len() - i,
    {
        match log_conflict(store, table_name, &resolutions[i]) {
            Ok(id) => {
                proof {
                    one_more_ran(
                        resolutions@,
                        ids@,
                        logs,
                        logging(table_name@),
                        id,
                        store.log(),
                    );
                    logs = logs.push(store.log());
                }
                ids.push(id);
            },
            Err(e) => {
                return Err(e);
            },
        }
        i = i + 1;
    }
    Ok(ids)
}

} // verus!
