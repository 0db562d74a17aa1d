//! The checkpoints of tables, modes and filters.

use crate::driver::{holds_text, Step, Stored};
use crate::request::{execution, settled};
use crate::sql::{chars_of, SqlValueView};
use crate::store::{selection, text_read, Selected};
use crate::sync::pull::{
    checkpoint_key, checkpoint_read, update_checkpoint_command, CHECKPOINT_SQL,
};
use crate::tables::{hands_out, text_in, text_is_what_was_stored};
use vstd::prelude::*;
use vstd::utf8::{encode_utf8, encode_utf8_valid_utf8};

verus! {

/// The checkpoints after one step, each under its key.
pub open spec fn checkpoints_after_step(
    checkpoints: Map<Seq<SqlValueView>, Seq<char>>,
    step: Step,
) -> Map<Seq<SqlValueView>, Seq<char>> {
    match step {
        Step::Executed { sql, params, outcome: Ok(_) } => if sql
            == "INSERT OR REPLACE INTO _sync_checkpoint (table_name, sync_mode, filter_key, last_sync_at)
         VALUES (?1, ?2, ?3, ?4)"@ {
            checkpoints.insert(params.take(3), text_in(params[3]))
        } else {
            arbitrary()
        },
        _ => arbitrary(),
    }
}

/// The rows that the query for a checkpoint selects.
pub open spec fn checkpoint_rows(
    checkpoints: Map<Seq<SqlValueView>, Seq<char>>,
    key: Seq<SqlValueView>,
) -> Seq<Seq<Stored>> {
    if checkpoints.contains_key(key) {
        seq![seq![Stored::Text(encode_utf8(checkpoints[key]))]]
    } else {
        Seq::empty()
    }
}

/// The steps ask for a checkpoint, and are answered from the table.
pub open spec fn checkpoint_served(
    checkpoints: Map<Seq<SqlValueView>, Seq<char>>,
    key: Seq<SqlValueView>,
    steps: Seq<Step>,
) -> bool {
    forall|answer: Selected|
        steps == #[trigger] selection(
            "SELECT last_sync_at FROM _sync_checkpoint
         WHERE table_name = ?1 AND sync_mode = ?2 AND filter_key = ?3"@,
            key,
            answer,
        ) ==> hands_out(
            answer,
            checkpoint_rows(checkpoints, key),
        )
}

/// A checkpoint that is asked for is the one that the table holds, and none
/// where it holds none.
pub proof fn checkpoint_is_the_one_held(
    checkpoints: Map<Seq<SqlValueView>, Seq<char>>,
    key: Seq<SqlValueView>,
    before: Seq<Step>,
    after: Seq<Step>,
    r: Result<Option<String>, String>,
)
    requires
        checkpoint_read(key, before, after, r),
        checkpoint_served(checkpoints, key, after.skip(before.len() as int)),
    ensures
        r is Ok,
        chars_of(r->Ok_0) == (if checkpoints.contains_key(key) {
            Some(checkpoints[key])
        } else {
            None
        }),
{
    let (answer, read) = choose|answer: Selected, read: Result<Option<String>, String>|
        #![trigger selection(CHECKPOINT_SQL@, key, answer), text_read(answer, "last_sync_at"@, read)]
        {
            &&& after == before + selection(CHECKPOINT_SQL@, key, answer)
            &&& text_read(answer, "last_sync_at"@, read)
            &&& match read {
                Ok(checkpoint) => r == Ok::<Option<String>, String>(checkpoint),
                Err(e) => r is Err && r->Err_0@ == "Failed to read checkpoint: "@ + e@,
            }
        };
    let steps = selection(CHECKPOINT_SQL@, key, answer);
    assert(after.skip(before.len() as int) =~= steps);
    let held = checkpoint_rows(checkpoints, key);
    assert(hands_out(answer, held));
    if checkpoints.contains_key(key) {
        let rows = answer->rows;
        assert(rows.len() == 1);
        assert(rows[0] == held[0]);
        assert(holds_text(rows[0], 0, checkpoints[key]));
        encode_utf8_valid_utf8(checkpoints[key]);
        let text = read->Ok_0->0;
        text_is_what_was_stored(text@, checkpoints[key]);
    }
}

/// A checkpoint that was set is read back, whatever it was before, and every
/// other one stays as it was.
pub proof fn checkpoint_is_read_back(
    checkpoints: Map<Seq<SqlValueView>, Seq<char>>,
    table: Seq<char>,
    sync_mode: Seq<char>,
    filter_key: Seq<char>,
    last_sync_at: Seq<char>,
    before: Seq<Step>,
    middle: Seq<Step>,
    after: Seq<Step>,
    key: Seq<SqlValueView>,
    r: Result<Option<String>, String>,
)
    requires
        settled(
            before,
            middle,
            update_checkpoint_command(table, sync_mode, filter_key, last_sync_at),
            Ok(()),
        ),
        checkpoint_read(key, middle, after, r),
        checkpoint_served(
            checkpoints_after_step(checkpoints, middle.last()),
            key,
            after.skip(middle.len() as int),
        ),
    ensures
        middle.drop_last() == before,
        r is Ok,
        chars_of(r->Ok_0) == (if key == checkpoint_key(table, sync_mode, filter_key) {
            Some(last_sync_at)
        } else if checkpoints.contains_key(key) {
            Some(checkpoints[key])
        } else {
            None
        }),
{
    let command = update_checkpoint_command(table, sync_mode, filter_key, last_sync_at);
    let own = checkpoint_key(table, sync_mode, filter_key);
    let n = choose|n: usize| middle == before.push(#[trigger] execution(command, Ok(n)));
    assert(middle.drop_last() =~= before);
    assert(middle.last() == execution(command, Ok(n)));
    assert(command.params.take(3) =~= own);
    let held = checkpoints_after_step(checkpoints, middle.last());
    assert(held == checkpoints.insert(own, last_sync_at));
    checkpoint_is_the_one_held(held, key, middle, after, r);
}

} // verus!
