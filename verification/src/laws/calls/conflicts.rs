//! Calls on conflicts.

use crate::chain::first_ran;
use crate::clock::{compare_timestamps, instant_of};
use crate::laws::calls::changes::words_of;
use crate::laws::conflicts::{
    every_conflict_is_resolved, every_resolution_is_logged, later_version_is_kept,
    refused_resolution_says_why, resolution_is_logged, resolution_keeps_the_later_version,
    server_version_is_refused, was_logged,
};
use crate::laws::is_later;
use crate::laws::layout::script_runs_in_order;
use crate::laws::versions::{newer_is_later, server_wins_unless_the_local_version_is_later};
use crate::driver::Step;
use crate::store::Store;
use crate::sync::conflict::{
    conflict_log_command, decide, decide_by, ensure_conflict_log_table, log_conflict,
    log_conflicts, logging, resolve_conflict, resolve_conflict_at, resolve_conflicts, resolution_times,
    resolved, resolved_now, resolving,
    scan_and_resolve_all, ConflictResolution, ConflictWinner,
};
use crate::sync::push::ConflictInfo;
use vstd::prelude::*;

verus! {

/// `compare_timestamps` says whether the first time is later than the second.
pub proof fn compare_timestamps_comes_to(
    a: &str,
    x: Option<(i64, u32)>,
    b: &str,
    y: Option<(i64, u32)>,
    r: bool,
)
    requires
        call_ensures(compare_timestamps, (a, x, b, y), r),
    ensures
        r <==> is_later(a@, x, b@, y),
{
    newer_is_later(a@, x, b@, y);
}

/// `decide_by` lets the local version win exactly where it is later.
pub proof fn decide_by_comes_to(
    local: &str,
    x: Option<(i64, u32)>,
    server: &str,
    y: Option<(i64, u32)>,
    r: ConflictWinner,
)
    requires
        call_ensures(decide_by, (local, x, server, y), r),
    ensures
        r == (if is_later(local@, x, server@, y) {
            ConflictWinner::Local
        } else {
            ConflictWinner::Server
        }),
{
    server_wins_unless_the_local_version_is_later(local@, x, server@, y);
}

/// `decide` lets the local version win exactly where it is later.
pub proof fn decide_comes_to(local: &str, server: &str, r: ConflictWinner)
    requires
        call_ensures(decide, (local, server), r),
    ensures
        r == (if is_later(local@, instant_of(local@), server@, instant_of(server@)) {
            ConflictWinner::Local
        } else {
            ConflictWinner::Server
        }),
{
    server_wins_unless_the_local_version_is_later(
        local@,
        instant_of(local@),
        server@,
        instant_of(server@),
    );
}

/// `resolve_conflict_at` keeps the later version, and says that it was resolved
/// at the given time.
pub proof fn resolve_conflict_at_comes_to(
    store: &mut Store,
    table: &str,
    conflict: &ConflictInfo,
    resolved_at: String,
    r: Result<ConflictResolution, String>,
)
    requires
        call_ensures(resolve_conflict_at, (store, table, conflict, resolved_at), r),
    ensures
        final(store).conn() == old(store).conn(),
        match r {
            Ok(resolution) => later_version_is_kept(
                table@,
                *conflict,
                resolved_at@,
                old(store).log(),
                final(store).log(),
                resolution,
            ),
            Err(e) => server_version_is_refused(
                table@,
                *conflict,
                old(store).log(),
                final(store).log(),
                e@,
            ),
        },
{
    match r {
        Ok(resolution) => {
            resolution_keeps_the_later_version(
                table@,
                *conflict,
                resolved_at@,
                old(store).log(),
                final(store).log(),
                resolution,
            );
        },
        Err(e) => {
            refused_resolution_says_why(
                table@,
                *conflict,
                resolved_at@,
                old(store).log(),
                final(store).log(),
                e@,
            );
        },
    }
}

/// `resolve_conflict` reads the clock once, keeps the later version, and says that
/// it was resolved at that time.
pub proof fn resolve_conflict_comes_to(
    store: &mut Store,
    table: &str,
    conflict: &ConflictInfo,
    r: Result<ConflictResolution, String>,
)
    requires
        call_ensures(resolve_conflict, (store, table, conflict), r),
    ensures
        final(store).conn() == old(store).conn(),
        final(store).readings().len() == old(store).readings().len() + 1,
        final(store).readings().take(old(store).readings().len() as int) == old(store).readings(),
        match r {
            Ok(resolution) => later_version_is_kept(
                table@,
                *conflict,
                final(store).readings().last(),
                old(store).log(),
                final(store).log(),
                resolution,
            ),
            Err(e) => server_version_is_refused(
                table@,
                *conflict,
                old(store).log(),
                final(store).log(),
                e@,
            ),
        },
{
    let now = final(store).readings().last();
    assert(final(store).readings().take(old(store).readings().len() as int) =~= old(store).readings());
    match r {
        Ok(resolution) => {
            resolution_keeps_the_later_version(
                table@,
                *conflict,
                now,
                old(store).log(),
                final(store).log(),
                resolution,
            );
        },
        Err(e) => {
            refused_resolution_says_why(
                table@,
                *conflict,
                now,
                old(store).log(),
                final(store).log(),
                e@,
            );
        },
    }
}

/// `resolve_conflicts` resolves each conflict, in their order, by the later
/// version, and bears for each the time that the clock showed for it.
pub proof fn resolve_conflicts_comes_to(
    store: &mut Store,
    table: &str,
    conflicts: &[ConflictInfo],
    list: Vec<ConflictResolution>,
)
    requires
        call_ensures(
            resolve_conflicts,
            (store, table, conflicts),
            Ok::<Vec<ConflictResolution>, String>(list),
        ),
    ensures
        final(store).conn() == old(store).conn(),
        list@.len() == conflicts@.len(),
        final(store).readings().len() == old(store).readings().len() + list@.len(),
        forall|i: int|
            0 <= i < list@.len() ==> {
                let resolution = #[trigger] list@[i];
                let local = resolution.local_updated_at@;
                let server = conflicts@[i].server_updated_at@;
                &&& resolution.doc_id@ == conflicts@[i].doc_id@
                &&& resolution.server_updated_at@ == server
                &&& resolution.resolved_at@ == final(store).readings()[old(store).readings().len()
                    + i]
                &&& resolution.winner == ConflictWinner::Local <==> is_later(
                    local,
                    instant_of(local),
                    server,
                    instant_of(server),
                )
            },
{
    every_conflict_is_resolved(table@, conflicts@, old(store).log(), final(store).log(), list@);
    assert forall|i: int| 0 <= i < list@.len() implies (#[trigger] list@[i]).resolved_at@ == final(store).readings()[old(store).readings().len() + i] by {
        assert(resolution_times(list@)[i] == list@[i].resolved_at@);
    }
}

/// `scan_and_resolve_all` finds nothing, for nothing lingers.
pub proof fn scan_and_resolve_all_comes_to(
    store: &Store,
    table: &str,
    r: Result<Vec<ConflictResolution>, String>,
)
    requires
        call_ensures(scan_and_resolve_all, (store, table), r),
    ensures
        r is Ok,
        r->Ok_0@.len() == 0,
{
}

/// `ensure_conflict_log_table` creates the table, unless it exists.
pub proof fn ensure_conflict_log_table_comes_to(store: &mut Store, r: Result<(), String>)
    requires
        call_ensures(ensure_conflict_log_table, (store,), r),
    ensures
        final(store).conn() == old(store).conn(),
        final(store).log().len() == old(store).log().len() + 1,
        final(store).log().take(old(store).log().len() as int) == old(store).log(),
        final(store).log().last() is Scripted,
        final(store).log().last()->Scripted_sql == "CREATE TABLE IF NOT EXISTS _conflict_log (
            id                INTEGER PRIMARY KEY AUTOINCREMENT,
            doc_id            TEXT NOT NULL,
            table_name        TEXT NOT NULL,
            local_updated_at  TEXT NOT NULL,
            server_updated_at TEXT NOT NULL,
            winner            TEXT NOT NULL,
            resolved_at       TEXT NOT NULL
        );"@,
        match final(store).log().last()->Scripted_outcome {
            Ok(_) => r is Ok,
            Err(e) => r is Err && r->Err_0@ == "Failed to create _conflict_log table: "@ + e,
        },
{
    let list = seq![conflict_log_command()];
    script_runs_in_order(list, old(store).log(), final(store).log(), words_of(r));
    if r is Ok {
        assert(final(store).log()[old(store).log().len() as int + 0] == (Step::Scripted {
            sql: list[0].sql,
            outcome: Ok(()),
        }));
    }
}

/// `log_conflict` adds the resolution to the conflict log and returns the id of
/// the entry.
pub proof fn log_conflict_comes_to(
    store: &mut Store,
    table: &str,
    resolution: &ConflictResolution,
    r: Result<i64, String>,
)
    requires
        call_ensures(log_conflict, (store, table, resolution), r),
    ensures
        final(store).conn() == old(store).conn(),
        was_logged(table@, *resolution, old(store).log(), final(store).log(), words_of(r)),
{
    resolution_is_logged(
        table@,
        *resolution,
        old(store).log(),
        final(store).log(),
        words_of(r),
    );
}

/// `log_conflicts` adds each resolution to the conflict log, in their order, and
/// returns the ids of the entries.
pub proof fn log_conflicts_comes_to(
    store: &mut Store,
    table: &str,
    resolutions: &[ConflictResolution],
    ids: Vec<i64>,
)
    requires
        call_ensures(log_conflicts, (store, table, resolutions), Ok::<Vec<i64>, String>(ids)),
    ensures
        final(store).conn() == old(store).conn(),
        ids@.len() == resolutions@.len(),
        exists|logs: Seq<Seq<Step>>|
            {
                &&& #[trigger] logs.len() == resolutions@.len() + 1
                &&& logs[0] == old(store).log()
                &&& logs.last() == final(store).log()
                &&& forall|i: int|
                    0 <= i < resolutions@.len() ==> was_logged(
                        table@,
                        resolutions@[i],
                        logs[i],
                        logs[i + 1],
                        Ok(#[trigger] ids@[i]),
                    )
            },
{
    every_resolution_is_logged(
        table@,
        resolutions@,
        old(store).log(),
        final(store).log(),
        ids@,
    );
}

/// `resolve_conflicts` fails where the server's version of a conflict is refused;
/// those before it are resolved, and none after it is.
pub proof fn refused_resolve_conflicts_comes_to(
    store: &mut Store,
    table: &str,
    conflicts: &[ConflictInfo],
    message: String,
)
    requires
        call_ensures(
            resolve_conflicts,
            (store, table, conflicts),
            Err::<Vec<ConflictResolution>, String>(message),
        ),
    ensures
        final(store).conn() == old(store).conn(),
        exists|logs: Seq<Seq<Step>>|
            {
                &&& 0 < #[trigger] logs.len() <= conflicts@.len()
                &&& logs[0] == old(store).log()
                &&& forall|i: int|
                    0 <= i < logs.len() - 1 ==> is_resolved(
                        table@,
                        #[trigger] conflicts@[i],
                        logs[i],
                        logs[i + 1],
                    )
                &&& server_version_is_refused(
                    table@,
                    conflicts@[logs.len() - 1],
                    logs.last(),
                    final(store).log(),
                    message@,
                )
            },
{
    let (results, logs) = choose|results: Seq<ConflictResolution>, logs: Seq<Seq<Step>>| #[trigger]
        first_ran(conflicts@, results, logs, resolving(table@)) && results.len() < conflicts@.len()
            && logs[0] == old(store).log() && resolving(table@)(
            conflicts@[results.len() as int],
            logs.last(),
            final(store).log(),
            Err(message@),
        );
    let n = results.len() as int;
    assert forall|i: int| 0 <= i < logs.len() - 1 implies is_resolved(
        table@,
        #[trigger] conflicts@[i],
        logs[i],
        logs[i + 1],
    ) by {
        let conflict = conflicts@[i];
        assert(resolving(table@)(conflict, logs[i], logs[i + 1], Ok(results[i])));
        let at = choose|at: Seq<char>| #[trigger]
            resolved(table@, conflict, at, logs[i], logs[i + 1], Ok(results[i]));
        resolution_keeps_the_later_version(
            table@,
            conflict,
            at,
            logs[i],
            logs[i + 1],
            results[i],
        );
    }
    let conflict = conflicts@[n];
    assert(resolved_now(table@, conflict, logs.last(), final(store).log(), Err(message@)));
    let at = choose|at: Seq<char>| #[trigger]
        resolved(table@, conflict, at, logs.last(), final(store).log(), Err(message@));
    refused_resolution_says_why(
        table@,
        conflict,
        at,
        logs.last(),
        final(store).log(),
        message@,
    );
    assert(0 < logs.len() <= conflicts@.len());
}

/// The conflict was resolved by the later version.
pub open spec fn is_resolved(
    table: Seq<char>,
    conflict: ConflictInfo,
    before: Seq<Step>,
    after: Seq<Step>,
) -> bool {
    exists|resolved_at: Seq<char>, resolution: ConflictResolution| #[trigger]
        later_version_is_kept(table, conflict, resolved_at, before, after, resolution)
}

/// `log_conflicts` fails where a resolution could not be logged; those before it
/// are logged, and none after it is.
pub proof fn refused_log_conflicts_comes_to(
    store: &mut Store,
    table: &str,
    resolutions: &[ConflictResolution],
    message: String,
)
    requires
        call_ensures(
            log_conflicts,
            (store, table, resolutions),
            Err::<Vec<i64>, String>(message),
        ),
    ensures
        final(store).conn() == old(store).conn(),
        exists|ids: Seq<i64>, logs: Seq<Seq<Step>>|
            {
                &&& #[trigger] ids.len() < resolutions@.len()
                &&& #[trigger] logs.len() == ids.len() + 1
                &&& logs[0] == old(store).log()
                &&& forall|i: int|
                    0 <= i < ids.len() ==> was_logged(
                        table@,
                        resolutions@[i],
                        logs[i],
                        logs[i + 1],
                        Ok(#[trigger] ids[i]),
                    )
                &&& was_logged(
                    table@,
                    resolutions@[ids.len() as int],
                    logs.last(),
                    final(store).log(),
                    Err(message@),
                )
            },
{
    let (ids, logs) = choose|ids: Seq<i64>, logs: Seq<Seq<Step>>| #[trigger]
        first_ran(resolutions@, ids, logs, logging(table@)) && ids.len() < resolutions@.len()
            && logs[0] == old(store).log() && logging(table@)(
            resolutions@[ids.len() as int],
            logs.last(),
            final(store).log(),
            Err(message@),
        );
    assert forall|i: int| 0 <= i < ids.len() implies was_logged(
        table@,
        resolutions@[i],
        logs[i],
        logs[i + 1],
        Ok(#[trigger] ids[i]),
    ) by {
        assert(logging(table@)(resolutions@[i], logs[i], logs[i + 1], Ok(ids[i])));
        resolution_is_logged(table@, resolutions@[i], logs[i], logs[i + 1], Ok(ids[i]));
    }
    resolution_is_logged(
        table@,
        resolutions@[ids.len() as int],
        logs.last(),
        final(store).log(),
        Err(message@),
    );
    assert(ids.len() < resolutions@.len());
    assert(logs.len() == ids.len() + 1);
}

/// A winner's name is `local` or `server`.
pub proof fn winner_to_string_comes_to(winner: &ConflictWinner, r: String)
    requires
        call_ensures(ConflictWinner::to_string, (winner,), r),
    ensures
        r@ == match *winner {
            ConflictWinner::Local => "local"@,
            ConflictWinner::Server => "server"@,
        },
{
}

} // verus!
