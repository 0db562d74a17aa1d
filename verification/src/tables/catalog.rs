//! The tables and indexes of a database.

use crate::driver::Step;
use crate::request::{script_ran, script_step, script_steps};
use crate::schema::{
    starts_with, table_script, tables_script, tables_script_tolerates_existing, tolerates_existing,
    TableSchema, CREATE_INDEX, CREATE_TABLE,
};
use crate::sql::CommandView;
use vstd::prelude::*;

verus! {

/// The tables and indexes of a database after one step, each name with the text
/// that created it. `names` are the tables and indexes that a text is about: one
/// that says `IF NOT EXISTS` creates those that do not exist, and leaves the
/// others alone.
pub open spec fn catalog_after_step(
    catalog: Map<Seq<char>, Seq<char>>,
    names: spec_fn(Seq<char>) -> Set<Seq<char>>,
    step: Step,
) -> Map<Seq<char>, Seq<char>> {
    match step {
        Step::Scripted { sql, outcome: Ok(_) } => if starts_with(sql, CREATE_TABLE@) || starts_with(
            sql,
            CREATE_INDEX@,
        ) {
            Map::new(
                |name: Seq<char>| catalog.contains_key(name) || names(sql).contains(name),
                |name: Seq<char>|
                    if catalog.contains_key(name) {
                        catalog[name]
                    } else {
                        sql
                    },
            )
        } else {
            arbitrary()
        },
        _ => arbitrary(),
    }
}

/// The tables and indexes of a database after these steps.
pub open spec fn catalog_after(
    catalog: Map<Seq<char>, Seq<char>>,
    names: spec_fn(Seq<char>) -> Set<Seq<char>>,
    steps: Seq<Step>,
) -> Map<Seq<char>, Seq<char>>
    decreases steps.len(),
{
    if steps.len() == 0 {
        catalog
    } else {
        catalog_after_step(
            catalog_after(catalog, names, steps.drop_last()),
            names,
            steps.last(),
        )
    }
}

proof fn script_creates(
    catalog: Map<Seq<char>, Seq<char>>,
    names: spec_fn(Seq<char>) -> Set<Seq<char>>,
    list: Seq<CommandView>,
)
    requires
        forall|i: int| 0 <= i < list.len() ==> tolerates_existing(#[trigger] list[i]),
    ensures
        forall|name: Seq<char>| #[trigger]
            catalog_after(catalog, names, script_steps(list)).contains_key(name)
                <==> catalog.contains_key(name) || exists|i: int|
                0 <= i < list.len() && names((#[trigger] list[i]).sql).contains(name),
        forall|name: Seq<char>| #[trigger]
            catalog.contains_key(name) ==> catalog_after(catalog, names, script_steps(list))[name]
                == catalog[name],
    decreases list.len(),
{
    if list.len() > 0 {
        let shorter = list.drop_last();
        let last = list.last();
        assert forall|i: int| 0 <= i < shorter.len() implies tolerates_existing(
            #[trigger] shorter[i],
        ) by {
            assert(tolerates_existing(list[i]));
        }
        assert(tolerates_existing(list[list.len() - 1]));
        script_creates(catalog, names, shorter);
        assert(script_steps(list).drop_last() =~= script_steps(shorter));
        assert(script_steps(list).last() == script_step(last, Ok(())));
        let earlier = catalog_after(catalog, names, script_steps(shorter));
        let now = catalog_after(catalog, names, script_steps(list));
        assert forall|name: Seq<char>| #[trigger] now.contains_key(name) <==> catalog.contains_key(
            name,
        ) || exists|i: int|
            0 <= i < list.len() && names((#[trigger] list[i]).sql).contains(name) by {
            if now.contains_key(name) && !catalog.contains_key(name) {
                if earlier.contains_key(name) {
                    let i = choose|i: int|
                        0 <= i < shorter.len() && names((#[trigger] shorter[i]).sql).contains(name);
                    assert(names(list[i].sql).contains(name));
                } else {
                    assert(names(list[list.len() - 1].sql).contains(name));
                }
            }
            if exists|i: int|
                0 <= i < list.len() && names((#[trigger] list[i]).sql).contains(name) {
                let i = choose|i: int|
                    0 <= i < list.len() && names((#[trigger] list[i]).sql).contains(name);
                if i < shorter.len() {
                    assert(names(shorter[i].sql).contains(name));
                    assert(earlier.contains_key(name));
                }
            }
        }
    }
}

/// The catalog holds all that the commands are about.
pub open spec fn holds_all(
    catalog: Map<Seq<char>, Seq<char>>,
    names: spec_fn(Seq<char>) -> Set<Seq<char>>,
    list: Seq<CommandView>,
) -> bool {
    forall|i: int, name: Seq<char>|
        0 <= i < list.len() && #[trigger] names(list[i].sql).contains(name)
            ==> catalog.contains_key(name)
}

/// Tables that were created exist, with their indexes, and all that existed
/// before stays as it was.
pub proof fn created_tables_exist(
    catalog: Map<Seq<char>, Seq<char>>,
    names: spec_fn(Seq<char>) -> Set<Seq<char>>,
    schemas: Seq<TableSchema>,
    before: Seq<Step>,
    after: Seq<Step>,
)
    requires
        script_ran(tables_script(schemas), before, after, Ok(())),
    ensures
        ({
            let created = catalog_after(catalog, names, after.skip(before.len() as int));
            &&& holds_all(created, names, tables_script(schemas))
            &&& forall|name: Seq<char>| #[trigger]
                catalog.contains_key(name) ==> created.contains_key(name) && created[name]
                    == catalog[name]
        }),
{
    let list = tables_script(schemas);
    tables_script_tolerates_existing(schemas);
    assert(after.skip(before.len() as int) =~= script_steps(list));
    script_creates(catalog, names, list);
    let created = catalog_after(catalog, names, script_steps(list));
    assert forall|i: int, name: Seq<char>|
        0 <= i < list.len() && #[trigger] names(list[i].sql).contains(
            name,
        ) implies created.contains_key(name) by {
        assert(names(list[i].sql).contains(name));
    }
}

/// Creating tables is idempotent: where all of them exist, with their indexes,
/// it changes nothing, whatever was done since they were created.
pub proof fn creating_again_changes_nothing(
    catalog: Map<Seq<char>, Seq<char>>,
    names: spec_fn(Seq<char>) -> Set<Seq<char>>,
    schemas: Seq<TableSchema>,
    before: Seq<Step>,
    after: Seq<Step>,
)
    requires
        holds_all(catalog, names, tables_script(schemas)),
        script_ran(tables_script(schemas), before, after, Ok(())),
    ensures
        catalog_after(catalog, names, after.skip(before.len() as int)) == catalog,
{
    let list = tables_script(schemas);
    tables_script_tolerates_existing(schemas);
    assert(after.skip(before.len() as int) =~= script_steps(list));
    script_creates(catalog, names, list);
    assert(catalog_after(catalog, names, script_steps(list)) =~= catalog);
}

/// Creating one table is idempotent: where it exists, with its indexes and the
/// change log, it changes nothing, whatever was done since it was created.
pub proof fn creating_a_table_again_changes_nothing(
    catalog: Map<Seq<char>, Seq<char>>,
    names: spec_fn(Seq<char>) -> Set<Seq<char>>,
    schema: TableSchema,
    before: Seq<Step>,
    after: Seq<Step>,
)
    requires
        holds_all(catalog, names, table_script(schema)),
        script_ran(table_script(schema), before, after, Ok(())),
    ensures
        catalog_after(catalog, names, after.skip(before.len() as int)) == catalog,
{
    let schemas = seq![schema];
    assert(schemas.drop_last() =~= Seq::empty());
    assert(tables_script(schemas.drop_last()) =~= Seq::empty());
    assert(tables_script(schemas) =~= table_script(schema));
    creating_again_changes_nothing(catalog, names, schemas, before, after);
}

} // verus!
