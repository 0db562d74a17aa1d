//! Calls on a store, and on what is kept by name.

use crate::driver::Step;
use crate::laws::calls::changes::words_of;
use crate::laws::calls::layout::ran_in_order;
use crate::laws::changes::{recorded_is_inserted, settled_is_done};
use crate::laws::layout::script_runs_in_order;
use crate::laws::pulling::document_is_written_whole;
use crate::laws::{document_text, done, executed, inserted};
use crate::json::json_display;
use crate::registry::Registry;
use crate::request::{carry_out, insert_returning_id, run_script, settle};
use crate::sql::{
    commands, optional_text_value, text_value, values, Command, SqlValue, SqlValueView,
};
use crate::store::Store;
use crate::sync::document::upsert_of;
use vstd::prelude::*;

verus! {

/// The values that are bound, in order.
pub open spec fn bound_values(params: Seq<SqlValue>) -> Seq<SqlValueView> {
    Seq::new(params.len(), |i: int| params[i]@)
}

/// `Store::execute` hands the command over once, and notes the answer.
pub proof fn execute_comes_to(
    store: &mut Store,
    sql: &str,
    params: &Vec<SqlValue>,
    r: Result<usize, String>,
)
    requires
        call_ensures(Store::execute, (store, sql, params), r),
    ensures
        final(store).conn() == old(store).conn(),
        final(store).log() == old(store).log().push(
            Step::Executed {
                sql: sql@,
                params: bound_values(params@),
                outcome: words_of(r),
            },
        ),
{
    assert(values(params@) =~= bound_values(params@));
}

/// `Store::execute_batch` hands the script over once, and notes the answer.
pub proof fn execute_batch_comes_to(store: &mut Store, sql: &str, r: Result<(), String>)
    requires
        call_ensures(Store::execute_batch, (store, sql), r),
    ensures
        final(store).conn() == old(store).conn(),
        final(store).log() == old(store).log().push(
            Step::Scripted { sql: sql@, outcome: words_of(r) },
        ),
{
}

/// `Store::pragma_update` makes the setting once, and notes the answer.
pub proof fn pragma_update_comes_to(
    store: &mut Store,
    name: &str,
    value: &SqlValue,
    r: Result<(), String>,
)
    requires
        call_ensures(Store::pragma_update, (store, name, value), r),
    ensures
        final(store).conn() == old(store).conn(),
        final(store).log() == old(store).log().push(
            Step::Configured { name: name@, value: value@, outcome: words_of(r) },
        ),
{
}

/// `Store::last_insert_rowid` asks for the id once.
pub proof fn last_insert_rowid_comes_to(store: &mut Store, r: i64)
    requires
        call_ensures(Store::last_insert_rowid, (store,), r),
    ensures
        final(store).conn() == old(store).conn(),
        final(store).log() == old(store).log().push(Step::InsertedId { id: r }),
{
}

/// `carry_out` executes the command once; a refusal has the command's words before
/// it.
pub proof fn carry_out_comes_to(store: &mut Store, command: &Command, r: Result<usize, String>)
    requires
        call_ensures(carry_out, (store, command), r),
    ensures
        final(store).conn() == old(store).conn(),
        executed(
            old(store).log(),
            final(store).log(),
            command.sql@,
            bound_values(command.params@),
            command.failure@,
            words_of(r),
        ),
{
    assert(values(command.params@) =~= bound_values(command.params@));
}

/// `settle` executes the command once; a refusal has the command's words before
/// it.
pub proof fn settle_comes_to(store: &mut Store, command: &Command, r: Result<(), String>)
    requires
        call_ensures(settle, (store, command), r),
    ensures
        final(store).conn() == old(store).conn(),
        done(
            old(store).log(),
            final(store).log(),
            command.sql@,
            bound_values(command.params@),
            command.failure@,
            words_of(r),
        ),
{
    assert(values(command.params@) =~= bound_values(command.params@));
    settled_is_done(old(store).log(), final(store).log(), command@, words_of(r));
}

/// `insert_returning_id` executes the command once and asks for the id then.
pub proof fn insert_returning_id_comes_to(
    store: &mut Store,
    command: &Command,
    r: Result<i64, String>,
)
    requires
        call_ensures(insert_returning_id, (store, command), r),
    ensures
        final(store).conn() == old(store).conn(),
        inserted(
            old(store).log(),
            final(store).log(),
            command.sql@,
            bound_values(command.params@),
            command.failure@,
            words_of(r),
        ),
{
    assert(values(command.params@) =~= bound_values(command.params@));
    recorded_is_inserted(old(store).log(), final(store).log(), command@, words_of(r));
}

/// `run_script` runs the commands in order, up to the first that is refused.
pub proof fn run_script_comes_to(store: &mut Store, list: &Vec<Command>, r: Result<(), String>)
    requires
        call_ensures(run_script, (store, list), r),
    ensures
        final(store).conn() == old(store).conn(),
        ran_in_order(
            Seq::new(list@.len(), |i: int| list@[i]@),
            old(store).log(),
            final(store).log(),
            words_of(r),
        ),
{
    assert(commands(list@) =~= Seq::new(list@.len(), |i: int| list@[i]@));
    script_runs_in_order(commands(list@), old(store).log(), final(store).log(), words_of(r));
}

/// `upsert_of` writes the document whole.
pub proof fn upsert_of_comes_to(
    table: &str,
    doc_id: &str,
    data: &serde_json::Value,
    updated_at: &str,
    words: String,
    r: Command,
)
    requires
        call_ensures(upsert_of, (table, doc_id, data, updated_at, words), r),
    ensures
        r.sql@ == document_text(table@),
        bound_values(r.params@) == seq![
            SqlValueView::Text(doc_id@),
            SqlValueView::Text(json_display(*data)),
            SqlValueView::Text(updated_at@),
        ],
        r.failure@ == words@,
{
    document_is_written_whole(table@, doc_id@, *data, updated_at@, words@);
    assert(values(r.params@) =~= bound_values(r.params@));
}

/// A text is bound as it is, and none as NULL.
pub proof fn texts_are_bound(
    text: &str,
    optional: Option<&str>,
    bound: SqlValue,
    bound_optional: SqlValue,
)
    requires
        call_ensures(text_value, (text,), bound),
        call_ensures(optional_text_value, (optional,), bound_optional),
    ensures
        bound@ == SqlValueView::Text(text@),
        optional matches Some(t) ==> bound_optional@ == SqlValueView::Text(t@),
        optional is None ==> bound_optional@ == SqlValueView::Null,
{
}

/// `Command::plain` and `Command::failed`: the text and the words are kept, and
/// the words come before an error.
pub proof fn plain_command_comes_to(
    sql: String,
    words: String,
    command: Command,
    error: &str,
    message: String,
)
    requires
        call_ensures(Command::plain, (sql, words), command),
        call_ensures(Command::failed, (&command, error), message),
    ensures
        command.sql@ == sql@,
        command.params@.len() == 0,
        command.failure@ == words@,
        message@ == words@ + error@,
{
    assert(command@.params.len() == command.params@.len());
}

/// What is kept under a name is what was put there last, and the other names keep
/// theirs.
pub proof fn insert_comes_to<V>(
    registry: &mut Registry<V>,
    name: String,
    value: V,
    r: Option<V>,
    other: Seq<char>,
)
    requires
        call_ensures(Registry::<V>::insert, (registry, name, value), r),
        other != name@,
    ensures
        final(registry)@.contains_key(name@),
        final(registry)@[name@] == value,
        final(registry)@.contains_key(other) == old(registry)@.contains_key(other),
        old(registry)@.contains_key(other) ==> final(registry)@[other] == old(registry)@[other],
        r is Some <==> old(registry)@.contains_key(name@),
        r matches Some(earlier) ==> earlier == old(registry)@[name@],
{
}

/// What is taken out was there, is gone, and the other names keep theirs.
pub proof fn remove_comes_to<V>(
    registry: &mut Registry<V>,
    name: &str,
    r: Option<V>,
    other: Seq<char>,
)
    requires
        call_ensures(Registry::<V>::remove, (registry, name), r),
        other != name@,
    ensures
        !final(registry)@.contains_key(name@),
        final(registry)@.contains_key(other) == old(registry)@.contains_key(other),
        old(registry)@.contains_key(other) ==> final(registry)@[other] == old(registry)@[other],
        r is Some <==> old(registry)@.contains_key(name@),
        r matches Some(earlier) ==> earlier == old(registry)@[name@],
{
}

} // verus!
