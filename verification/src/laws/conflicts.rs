//! What becomes of a conflict.

use crate::chain::{each_ran, first_ran};
use crate::clock::instant_of;
use crate::driver::{Step, Stored};
use crate::json::json_display;
use crate::laws::changes::recorded_is_inserted;
use crate::laws::pulling::document_is_written_whole;
use crate::laws::versions::server_wins_unless_the_local_version_is_later;
use crate::laws::{document_text, inserted, is_later, is_reading};
use crate::request::{execution, script_ran, script_step, script_steps};
use crate::rows::{refusal, Wanted};
use crate::sql::SqlValueView;
use crate::store::{
    reads, selection, selection_only_reads, text_read, Ending, Selected,
};
use crate::sync::conflict::{
    conflict_log_command, conflict_logged, local_version, local_version_params, local_version_sql,
    log_conflict_command, logging, resolution_of, resolved, resolved_against, resolved_at_reading,
    resolved_now, resolving, server_version_command, server_wins, text_or_empty, winner_name,
    ConflictResolution, ConflictWinner,
};
use crate::sync::push::ConflictInfo;
use vstd::prelude::*;
use vstd::utf8::{encode_utf8, encode_utf8_valid_utf8};

verus! {

/// The local version was asked for by the key of the document.
pub open spec fn asks_for_local_version(
    table: Seq<char>,
    doc_id: Seq<char>,
    before: Seq<Step>,
    after: Seq<Step>,
) -> bool {
    let at = before.len() as int;
    &&& before.len() < after.len()
    &&& after.take(at) == before
    &&& after[at] is Prepared
    &&& after[at]->Prepared_sql == "SELECT updatedAt FROM ["@ + table + "] WHERE _id = ?1"@
    &&& after.len() > at + 1 && after[at + 1] is Started ==> after[at + 1]->Started_params == seq![
        SqlValueView::Text(doc_id),
    ]
}

/// The row that was handed out for the local version, if one was.
pub open spec fn local_row(before: Seq<Step>, after: Seq<Step>) -> Option<Seq<Stored>> {
    let at = before.len() as int;
    if after.len() > at + 2 {
        match after[at + 2] {
            Step::Fetched { outcome: Ok(row) } => row,
            _ => None,
        }
    } else {
        None
    }
}

/// The time is that of the local version: the text in the first column of the
/// row, and empty where there is no row or it holds no text there.
pub open spec fn is_local_time(row: Option<Seq<Stored>>, time: Seq<char>) -> bool {
    match row {
        Some(row) => {
            ||| row.len() > 0 && row[0] == Stored::Text(encode_utf8(time))
            ||| time.len() == 0 && forall|text: Seq<char>|
                row.len() == 0 || row[0] != Stored::Text(#[trigger] encode_utf8(text))
        },
        None => time.len() == 0,
    }
}

proof fn answer_gives_the_local_time(
    table: Seq<char>,
    doc_id: Seq<char>,
    answer: Selected,
    local: Seq<char>,
    before: Seq<Step>,
    after: Seq<Step>,
)
    requires
        local_version(answer, local),
        after == before + selection(local_version_sql(table), local_version_params(doc_id), answer)
            || (after.len() == before.len() + selection(
            local_version_sql(table),
            local_version_params(doc_id),
            answer,
        ).len() + 1 && after.last() is Executed && after.drop_last() == before + selection(
            local_version_sql(table),
            local_version_params(doc_id),
            answer,
        )),
    ensures
        asks_for_local_version(table, doc_id, before, after),
        is_local_time(local_row(before, after), local),
{
    let steps = selection(local_version_sql(table), local_version_params(doc_id), answer);
    let at = before.len() as int;
    let whole = before + steps;
    assert forall|i: int| 0 <= i < whole.len() implies after[i] == whole[i] by {
        if after != whole {
            assert(after.drop_last()[i] == after[i]);
        }
    }
    assert(after.take(at) =~= before);
    assert(after[at] == steps[0]);
    let read = choose|read: Result<Option<String>, String>| #[trigger]
        text_read(answer, "updatedAt"@, read) && local == text_or_empty(read);
    match answer {
        Selected::PrepareFailed { message } => {
            if after.len() > at + 1 {
                assert(after[at + 1] == after.last());
            }
        },
        Selected::QueryFailed { message } => {
            assert(after[at + 1] == steps[1]);
            if after.len() > at + 2 {
                assert(after[at + 2] == after.last());
            }
        },
        Selected::Rows { rows, ending } => {
            assert(after[at + 1] == steps[1]);
            assert(after[at + 2] == steps[2]);
            match ending {
                Ending::Failed(e) => {
                    assert(steps[2] == Step::Fetched { outcome: Err(e) });
                },
                Ending::Exhausted => {
                    assert(steps[2] == Step::Fetched { outcome: Ok(None) });
                },
                Ending::Stopped => {
                    assert(steps[2] == Step::Fetched { outcome: Ok(Some(rows[0])) });
                    if read is Err {
                        assert forall|text: Seq<char>|
                            rows[0].len() == 0 || rows[0][0] != Stored::Text(
                                #[trigger] encode_utf8(text),
                            ) by {
                            encode_utf8_valid_utf8(text);
                            assert(refusal(rows[0], 0, "updatedAt"@, Wanted::Text) is Some);
                        }
                    }
                },
            }
        },
    }
}

/// The conflict was decided between the time of the local version, as the
/// database holds it, and that of the server's. The local version is kept where
/// it is later, and nothing is written; else the server's version is written
/// whole in its place.
pub open spec fn later_version_is_kept(
    table: Seq<char>,
    conflict: ConflictInfo,
    resolved_at: Seq<char>,
    before: Seq<Step>,
    after: Seq<Step>,
    resolution: ConflictResolution,
) -> bool {
    let local = resolution.local_updated_at@;
    let server = conflict.server_updated_at@;
    &&& resolution.doc_id@ == conflict.doc_id@
    &&& resolution.server_updated_at@ == server
    &&& resolution.resolved_at@ == resolved_at
    &&& asks_for_local_version(table, conflict.doc_id@, before, after)
    &&& is_local_time(local_row(before, after), local)
    &&& if is_later(local, instant_of(local), server, instant_of(server)) {
        &&& resolution.winner == ConflictWinner::Local
        &&& forall|i: int| before.len() <= i < after.len() ==> is_reading(#[trigger] after[i])
    } else {
        &&& resolution.winner == ConflictWinner::Server
        &&& after.last() is Executed
        &&& after.last()->Executed_sql == document_text(table)
        &&& after.last()->Executed_params == seq![
            SqlValueView::Text(conflict.doc_id@),
            SqlValueView::Text(json_display(conflict.server_data)),
            SqlValueView::Text(server),
        ]
        &&& after.last()->Executed_outcome is Ok
        &&& forall|i: int| before.len() <= i < after.len() - 1 ==> is_reading(#[trigger] after[i])
    }
}

/// The server's version was refused by the database; the message names the
/// document.
pub open spec fn server_version_is_refused(
    table: Seq<char>,
    conflict: ConflictInfo,
    before: Seq<Step>,
    after: Seq<Step>,
    message: Seq<char>,
) -> bool {
    &&& asks_for_local_version(table, conflict.doc_id@, before, after)
    &&& after.last() is Executed
    &&& after.last()->Executed_sql == document_text(table)
    &&& after.last()->Executed_params == seq![
        SqlValueView::Text(conflict.doc_id@),
        SqlValueView::Text(json_display(conflict.server_data)),
        SqlValueView::Text(conflict.server_updated_at@),
    ]
    &&& after.last()->Executed_outcome is Err
    &&& message == "Failed to apply server version for doc '"@ + conflict.doc_id@ + "': "@
        + after.last()->Executed_outcome->Err_0
}

/// A conflict that is resolved was decided between the time of the local version,
/// as the database holds it, and that of the server's: the local version is kept
/// where it is later, and nothing is written; else the server's version is
/// written whole in its place.
pub proof fn resolution_keeps_the_later_version(
    table: Seq<char>,
    conflict: ConflictInfo,
    resolved_at: Seq<char>,
    before: Seq<Step>,
    after: Seq<Step>,
    resolution: ConflictResolution,
)
    requires
        resolved(table, conflict, resolved_at, before, after, Ok(resolution)),
    ensures
        later_version_is_kept(table, conflict, resolved_at, before, after, resolution),
{
    let sql = local_version_sql(table);
    let params = local_version_params(conflict.doc_id@);
    let (answer, local) = choose|answer: Selected, local: Seq<char>|
        #![trigger selection(sql, params, answer), local_version(answer, local)]
        local_version(answer, local) && resolved_against(
            table,
            conflict,
            local,
            resolved_at,
            before + selection(sql, params, answer),
            after,
            Ok(resolution),
        );
    let middle = before + selection(sql, params, answer);
    let server = conflict.server_updated_at@;
    selection_only_reads(before, sql, params, answer);
    assert forall|i: int| before.len() <= i < middle.len() implies is_reading(
        #[trigger] middle[i],
    ) by {
        assert(reads()(middle[i]));
    }
    server_wins_unless_the_local_version_is_later(
        local,
        instant_of(local),
        server,
        instant_of(server),
    );
    if server_wins(local, server) {
        let command = server_version_command(table, conflict);
        let r = Ok::<ConflictResolution, Seq<char>>(resolution);
        let outcome = choose|outcome: Result<usize, Seq<char>>|
            after == middle.push(#[trigger] execution(command, outcome)) && match outcome {
                Ok(_) => r is Ok && resolution_of(
                    r->Ok_0,
                    conflict,
                    local,
                    ConflictWinner::Server,
                    resolved_at,
                ),
                Err(e) => r == Err::<ConflictResolution, Seq<char>>(command.failure + e),
            };
        document_is_written_whole(
            table,
            conflict.doc_id@,
            conflict.server_data,
            server,
            command.failure,
        );
        assert(after.drop_last() =~= middle);
        assert(after.last() == execution(command, outcome));
        assert forall|i: int| before.len() <= i < after.len() - 1 implies is_reading(
            #[trigger] after[i],
        ) by {
            assert(after[i] == middle[i]);
        }
    }
    answer_gives_the_local_time(table, conflict.doc_id@, answer, local, before, after);
}

/// A conflict that cannot be resolved is one whose server version was refused by
/// the database; the message names the document.
pub proof fn refused_resolution_says_why(
    table: Seq<char>,
    conflict: ConflictInfo,
    resolved_at: Seq<char>,
    before: Seq<Step>,
    after: Seq<Step>,
    message: Seq<char>,
)
    requires
        resolved(table, conflict, resolved_at, before, after, Err(message)),
    ensures
        server_version_is_refused(table, conflict, before, after, message),
{
    let sql = local_version_sql(table);
    let params = local_version_params(conflict.doc_id@);
    let r = Err::<ConflictResolution, Seq<char>>(message);
    let (answer, local) = choose|answer: Selected, local: Seq<char>|
        #![trigger selection(sql, params, answer), local_version(answer, local)]
        local_version(answer, local) && resolved_against(
            table,
            conflict,
            local,
            resolved_at,
            before + selection(sql, params, answer),
            after,
            r,
        );
    let middle = before + selection(sql, params, answer);
    let command = server_version_command(table, conflict);
    let outcome = choose|outcome: Result<usize, Seq<char>>|
        after == middle.push(#[trigger] execution(command, outcome)) && match outcome {
            Ok(_) => r is Ok && resolution_of(
                r->Ok_0,
                conflict,
                local,
                ConflictWinner::Server,
                resolved_at,
            ),
            Err(e) => r == Err::<ConflictResolution, Seq<char>>(command.failure + e),
        };
    document_is_written_whole(
        table,
        conflict.doc_id@,
        conflict.server_data,
        conflict.server_updated_at@,
        command.failure,
    );
    assert(after.drop_last() =~= middle);
    assert(after.last() == execution(command, outcome));
    answer_gives_the_local_time(table, conflict.doc_id@, answer, local, before, after);
}

/// A resolution bears the time that the clock showed during the call, which was
/// read once.
pub proof fn resolution_bears_the_time_of_the_call(
    table: Seq<char>,
    conflict: ConflictInfo,
    readings: Seq<Seq<char>>,
    readings_after: Seq<Seq<char>>,
    before: Seq<Step>,
    after: Seq<Step>,
    resolution: ConflictResolution,
)
    requires
        resolved_at_reading(
            table,
            conflict,
            readings,
            readings_after,
            before,
            after,
            Ok(resolution),
        ),
    ensures
        readings_after.len() == readings.len() + 1,
        readings_after.take(readings.len() as int) == readings,
        resolution.resolved_at@ == readings_after[readings.len() as int],
{
    assert(readings_after.take(readings.len() as int) =~= readings);
    resolution_keeps_the_later_version(
        table,
        conflict,
        readings_after.last(),
        before,
        after,
        resolution,
    );
}

/// Conflicts are resolved one by one, in their order, each by the later version.
pub proof fn every_conflict_is_resolved(
    table: Seq<char>,
    conflicts: Seq<ConflictInfo>,
    before: Seq<Step>,
    after: Seq<Step>,
    resolutions: Seq<ConflictResolution>,
)
    requires
        each_ran(conflicts, before, after, Ok(resolutions), resolving(table)),
    ensures
        resolutions.len() == conflicts.len(),
        forall|i: int|
            0 <= i < conflicts.len() ==> {
                let resolution = #[trigger] resolutions[i];
                let local = resolution.local_updated_at@;
                let server = conflicts[i].server_updated_at@;
                &&& resolution.doc_id@ == conflicts[i].doc_id@
                &&& resolution.server_updated_at@ == server
                &&& resolution.winner == ConflictWinner::Local <==> is_later(
                    local,
                    instant_of(local),
                    server,
                    instant_of(server),
                )
            },
{
    let logs = choose|logs: Seq<Seq<Step>>| #[trigger]
        first_ran(conflicts, resolutions, logs, resolving(table)) && resolutions.len()
            == conflicts.len() && logs[0] == before && logs.last() == after;
    assert forall|i: int| 0 <= i < conflicts.len() implies {
        let resolution = #[trigger] resolutions[i];
        let local = resolution.local_updated_at@;
        let server = conflicts[i].server_updated_at@;
        &&& resolution.doc_id@ == conflicts[i].doc_id@
        &&& resolution.server_updated_at@ == server
        &&& resolution.winner == ConflictWinner::Local <==> is_later(
            local,
            instant_of(local),
            server,
            instant_of(server),
        )
    } by {
        let conflict = conflicts[i];
        assert(resolving(table)(conflict, logs[i], logs[i + 1], Ok(resolutions[i])));
        assert(resolved_now(table, conflict, logs[i], logs[i + 1], Ok(resolutions[i])));
        let at = choose|at: Seq<char>| #[trigger]
            resolved(table, conflict, at, logs[i], logs[i + 1], Ok(resolutions[i]));
        resolution_keeps_the_later_version(
            table,
            conflict,
            at,
            logs[i],
            logs[i + 1],
            resolutions[i],
        );
    }
}

/// The resolution was added to the conflict log, whose table was ensured first.
pub open spec fn was_logged(
    table: Seq<char>,
    resolution: ConflictResolution,
    before: Seq<Step>,
    after: Seq<Step>,
    r: Result<i64, Seq<char>>,
) -> bool {
    let at = before.len() as int;
    let first = after.take(at + 1);
    &&& after.len() > at
    &&& first.take(at) == before
    &&& first.last() is Scripted
    &&& first.last()->Scripted_sql == "CREATE TABLE IF NOT EXISTS _conflict_log (
            id                INTEGER PRIMARY KEY AUTOINCREMENT,
            doc_id            TEXT NOT NULL,
            table_name        TEXT NOT NULL,
            local_updated_at  TEXT NOT NULL,
            server_updated_at TEXT NOT NULL,
            winner            TEXT NOT NULL,
            resolved_at       TEXT NOT NULL
        );"@
    &&& match first.last()->Scripted_outcome {
        Ok(_) => inserted(
            first,
            after,
            "INSERT INTO _conflict_log (doc_id, table_name, local_updated_at, server_updated_at, winner, resolved_at)
         VALUES (?1, ?2, ?3, ?4, ?5, ?6)"@,
            seq![
                SqlValueView::Text(resolution.doc_id@),
                SqlValueView::Text(table),
                SqlValueView::Text(resolution.local_updated_at@),
                SqlValueView::Text(resolution.server_updated_at@),
                SqlValueView::Text(
                    match resolution.winner {
                        ConflictWinner::Local => "local"@,
                        ConflictWinner::Server => "server"@,
                    },
                ),
                SqlValueView::Text(resolution.resolved_at@),
            ],
            "Failed to log conflict resolution: "@,
            r,
        ),
        Err(e) => after == first && r is Err && r->Err_0
            == "Failed to create _conflict_log table: "@ + e,
    }
}

/// A resolution is logged with all that it says, and the id of its entry
/// returned.
pub proof fn resolution_is_logged(
    table: Seq<char>,
    resolution: ConflictResolution,
    before: Seq<Step>,
    after: Seq<Step>,
    r: Result<i64, Seq<char>>,
)
    requires
        conflict_logged(table, resolution, before, after, r),
    ensures
        was_logged(table, resolution, before, after, r),
{
    let script = seq![conflict_log_command()];
    let (middle, ensured) = choose|middle: Seq<Step>, ensured: Result<(), Seq<char>>|
        #[trigger] script_ran(script, before, middle, ensured) && match ensured {
            Ok(_) => crate::request::recorded(
                middle,
                after,
                log_conflict_command(table, resolution),
                r,
            ),
            Err(e) => after == middle && r == Err::<i64, Seq<char>>(e),
        };
    let at = before.len() as int;
    match ensured {
        Ok(_) => {
            assert(script_steps(script) =~= seq![script_step(conflict_log_command(), Ok(()))]);
            let command = log_conflict_command(table, resolution);
            recorded_is_inserted(middle, after, command, r);
            assert(after.take(at + 1) =~= middle);
            assert(middle.take(at) =~= before);
            assert(command.params =~= seq![
                SqlValueView::Text(resolution.doc_id@),
                SqlValueView::Text(table),
                SqlValueView::Text(resolution.local_updated_at@),
                SqlValueView::Text(resolution.server_updated_at@),
                SqlValueView::Text(
                    match resolution.winner {
                        ConflictWinner::Local => "local"@,
                        ConflictWinner::Server => "server"@,
                    },
                ),
                SqlValueView::Text(resolution.resolved_at@),
            ]);
        },
        Err(message) => {
            let (n, e) = choose|n: int, e: Seq<char>|
                0 <= n < script.len() && message == script[n].failure + e && middle == before
                    + script_steps(script.take(n)) + seq![#[trigger] script_step(script[n], Err(e))];
            assert(n == 0);
            assert(script_steps(script.take(0)) =~= Seq::empty());
            assert(middle =~= before.push(script_step(script[0], Err(e))));
            assert(after.take(at + 1) =~= after);
            assert(after.take(at) =~= before);
        },
    }
}

/// Resolutions are logged one by one, in their order, and the ids returned.
pub proof fn every_resolution_is_logged(
    table: Seq<char>,
    resolutions: Seq<ConflictResolution>,
    before: Seq<Step>,
    after: Seq<Step>,
    ids: Seq<i64>,
)
    requires
        each_ran(resolutions, before, after, Ok(ids), logging(table)),
    ensures
        ids.len() == resolutions.len(),
        exists|logs: Seq<Seq<Step>>|
            {
                &&& #[trigger] logs.len() == resolutions.len() + 1
                &&& logs[0] == before
                &&& logs.last() == after
                &&& forall|i: int|
                    0 <= i < resolutions.len() ==> was_logged(
                        table,
                        resolutions[i],
                        logs[i],
                        logs[i + 1],
                        Ok(#[trigger] ids[i]),
                    )
            },
{
    let logs = choose|logs: Seq<Seq<Step>>| #[trigger]
        first_ran(resolutions, ids, logs, logging(table)) && ids.len() == resolutions.len()
            && logs[0] == before && logs.last() == after;
    assert forall|i: int| 0 <= i < resolutions.len() implies was_logged(
        table,
        resolutions[i],
        logs[i],
        logs[i + 1],
        Ok(#[trigger] ids[i]),
    ) by {
        assert(logging(table)(resolutions[i], logs[i], logs[i + 1], Ok(ids[i])));
        resolution_is_logged(table, resolutions[i], logs[i], logs[i + 1], Ok(ids[i]));
    }
    assert(logs.len() == resolutions.len() + 1);
}

/// The winners are named.
pub proof fn winners_are_named()
    ensures
        winner_name(ConflictWinner::Local) == "local"@,
        winner_name(ConflictWinner::Server) == "server"@,
{
}

} // verus!
