//! What holds of the tables that a file creates itself.

use crate::fresh::{
    begun_at, commits, created_before, creates, drops, drops_on_commit, new_table, progress_before,
    step, table_after, tables_after, NewTableView,
};
use crate::history::EventView;
use crate::migration::column::{added_column, lacks_value, AddColumnNotNullNoDefault};
use crate::migration::destructive::{DropColumn, DropTable};
use crate::names::{
    fold, may_affect, name_after, name_change, table_key, NameChangeView, TableKey,
};
use crate::rule::NodeRule;
use crate::syntax::{
    child_tokens, descendants, NodeClass, RenameTarget, SyntaxNode, TokenKind,
};
use crate::transaction::{rolls_back, to_savepoint};
use vstd::prelude::*;

verus! {

/// Whether a table goes by a name among tables that the file has created, since before a node.
/// It goes with the transaction only if `passing`.
pub open spec fn known(
    tables: Seq<NewTableView>,
    table: TableKey,
    before: int,
    passing: bool,
) -> bool {
    exists|k: int|
        0 <= k < tables.len() && (#[trigger] tables[k]).key == table && tables[k].since < before
            && (!passing ==> !tables[k].until_commit)
}

/// Whether the `k`-th node leaves alone a table that the file has created before its `j`-th
/// node: it does not drop the table, does not change what the name stands for, does not commit
/// if the table goes with the transaction, and if it rolls back, then a transaction that the
/// file has opened since.
pub open spec fn leaves_alone(
    nodes: Seq<SyntaxNode>,
    j: int,
    k: int,
    table: TableKey,
    passing: bool,
) -> bool {
    &&& !drops(nodes[k], table)
    &&& name_change(nodes[k]) matches Some(change) ==> !may_affect(change, table)
    &&& !passing || !commits(nodes[k])
    &&& rolls_back(nodes[k]) ==> (begun_at(progress_before(nodes, k)) matches Some(at) && at >= j)
}

/// What becomes of a table is among what becomes of all.
pub proof fn lemma_tables_after(
    node: SyntaxNode,
    i: int,
    begun: Option<int>,
    tables: Seq<NewTableView>,
    k: int,
)
    requires
        0 <= k < tables.len(),
        table_after(node, i, begun, tables[k]) is Some,
    ensures
        tables_after(node, i, begun, tables).contains(table_after(node, i, begun, tables[k])->0),
    decreases tables.len(),
{
    let after = tables_after(node, i, begun, tables);
    let earlier = tables_after(node, i, begun, tables.drop_last());
    let wanted = table_after(node, i, begun, tables[k])->0;
    if k < tables.len() - 1 {
        lemma_tables_after(node, i, begun, tables.drop_last(), k);
        let m = choose|m: int| 0 <= m < earlier.len() && earlier[m] == wanted;
        assert(after[m] == wanted);
    } else {
        assert(after[after.len() - 1] == wanted);
    }
}

/// What becomes of all tables is what becomes of each.
pub proof fn lemma_tables_from(
    node: SyntaxNode,
    i: int,
    begun: Option<int>,
    tables: Seq<NewTableView>,
)
    ensures
        forall|m: int|
            0 <= m < tables_after(node, i, begun, tables).len() ==> exists|k: int|
                0 <= k < tables.len() && table_after(node, i, begun, #[trigger] tables[k]) == Some(
                    #[trigger] tables_after(node, i, begun, tables)[m],
                ),
    decreases tables.len(),
{
    if tables.len() > 0 {
        let earlier = tables_after(node, i, begun, tables.drop_last());
        let after = tables_after(node, i, begun, tables);
        lemma_tables_from(node, i, begun, tables.drop_last());
        assert forall|m: int| 0 <= m < after.len() implies exists|k: int|
            0 <= k < tables.len() && table_after(node, i, begun, #[trigger] tables[k]) == Some(
                #[trigger] after[m],
            ) by {
            if m < earlier.len() {
                assert(after[m] == earlier[m]);
                let k = choose|k: int|
                    0 <= k < tables.drop_last().len() && table_after(
                        node,
                        i,
                        begun,
                        #[trigger] tables.drop_last()[k],
                    ) == Some(earlier[m]);
                assert(tables[k] == tables.drop_last()[k]);
            } else {
                assert(table_after(node, i, begun, tables[tables.len() - 1]) == Some(after[m]));
            }
        }
    }
}

/// What a transaction gives back when it is rolled back is what there was when it was opened.
proof fn lemma_begun(nodes: Seq<SyntaxNode>, i: int)
    ensures
        progress_before(nodes, i).begun matches Some(begun) ==> 0 <= begun.at < i && begun.tables
            == progress_before(nodes, begun.at).tables,
    decreases i,
{
    if i > 0 {
        lemma_begun(nodes, i - 1);
    }
}

proof fn lemma_known_step(
    node: SyntaxNode,
    i: int,
    begun: Option<int>,
    tables: Seq<NewTableView>,
    table: TableKey,
    before: int,
    passing: bool,
)
    requires
        known(tables, table, before, passing),
        !drops(node, table),
        name_change(node) matches Some(change) ==> !may_affect(change, table),
        !passing || !commits(node),
        rolls_back(node) ==> (begun matches Some(at) && at >= before),
    ensures
        known(tables_after(node, i, begun, tables), table, before, passing),
{
    let k = choose|k: int|
        0 <= k < tables.len() && (#[trigger] tables[k]).key == table && tables[k].since < before
            && (!passing ==> !tables[k].until_commit);
    assert(table_after(node, i, begun, tables[k]) == Some(tables[k]));
    lemma_tables_after(node, i, begun, tables, k);
    let after = tables_after(node, i, begun, tables);
    let m = choose|m: int| 0 <= m < after.len() && after[m] == tables[k];
    assert(after[m].key == table);
}

proof fn lemma_known_joined(
    a: Seq<NewTableView>,
    b: Seq<NewTableView>,
    table: TableKey,
    before: int,
    passing: bool,
)
    requires
        known(a, table, before, passing),
    ensures
        known(a + b, table, before, passing),
{
    let k = choose|k: int|
        0 <= k < a.len() && (#[trigger] a[k]).key == table && a[k].since < before && (!passing
            ==> !a[k].until_commit);
    assert((a + b)[k] == a[k]);
}

/// A table that the file has created stays so as long as the nodes leave it alone, and so it
/// does in what the rollback of a transaction gives back that is opened later.
pub proof fn new_table_stays_new(
    nodes: Seq<SyntaxNode>,
    j: int,
    i: int,
    table: TableKey,
    passing: bool,
)
    requires
        0 <= j <= i,
        known(progress_before(nodes, j).tables, table, j, passing),
        forall|k: int| j <= k < i ==> #[trigger] leaves_alone(nodes, j, k, table, passing),
    ensures
        known(progress_before(nodes, i).tables, table, j, passing),
        progress_before(nodes, i).begun matches Some(begun) && begun.at >= j ==> known(
            progress_before(nodes, i).begun->0.tables,
            table,
            j,
            passing,
        ),
    decreases i,
{
    if i == j {
        lemma_begun(nodes, i);
    } else {
        let before = progress_before(nodes, i - 1);
        let node = nodes[i - 1];
        new_table_stays_new(nodes, j, i - 1, table, passing);
        assert(leaves_alone(nodes, j, i - 1, table, passing));
        if rolls_back(node) && !to_savepoint(node) && before.begun is Some {
        } else {
            let carried = tables_after(node, i - 1, begun_at(before), before.tables);
            lemma_known_step(
                node,
                i - 1,
                begun_at(before),
                before.tables,
                table,
                j,
                passing,
            );
            lemma_known_joined(
                carried,
                new_table(node, i - 1, before.begun is Some),
                table,
                j,
                passing,
            );
        }
    }
}

/// Whether the `i`-th node works on exactly the table: it drops it, or is an action that
/// alters it.
pub open spec fn works_on(node: SyntaxNode, table: TableKey) -> bool {
    ||| node.class matches NodeClass::DropStmt { names, .. } && names@.len() == 1 && table_key(
        names@[0],
    ) == table
    ||| node.class matches NodeClass::AlterTableAction { table: Some(name), .. } && table_key(name)
        == table
}

/// A `CREATE TABLE` makes the table one that the file has created. With `ON COMMIT DROP` it has
/// to stand in a transaction.
pub proof fn create_table_makes_a_new_table(nodes: Seq<SyntaxNode>, j: int, table: TableKey)
    requires
        0 <= j,
        creates(nodes[j], table),
        drops_on_commit(nodes[j]) ==> progress_before(nodes, j).begun is Some,
    ensures
        created_before(nodes, j + 1, table),
        known(progress_before(nodes, j + 1).tables, table, j + 1, drops_on_commit(nodes[j])),
{
    let before = progress_before(nodes, j);
    let after = progress_before(nodes, j + 1);
    let added = new_table(nodes[j], j, before.begun is Some);
    let carried = tables_after(nodes[j], j, begun_at(before), before.tables);
    assert(after == step(before, nodes[j], j));
    assert(after.tables == carried + added);
    assert(after.tables[carried.len() as int] == added[0]);
}

/// A table that the file has created stays so under its new name, after a rename of exactly
/// that table, its move to another schema, or the rename of its schema.
pub proof fn new_table_is_followed(
    nodes: Seq<SyntaxNode>,
    i: int,
    change: NameChangeView,
    table: TableKey,
    to: TableKey,
    passing: bool,
)
    requires
        0 <= i,
        known(progress_before(nodes, i).tables, table, i, passing),
        name_change(nodes[i]) == Some(change),
        name_after(change, table) == Some(to),
    ensures
        created_before(nodes, i + 1, to),
        known(progress_before(nodes, i + 1).tables, to, i + 1, passing),
{
    let before = progress_before(nodes, i);
    let after = progress_before(nodes, i + 1);
    let begun = begun_at(before);
    let tables = before.tables;
    let k = choose|k: int|
        0 <= k < tables.len() && (#[trigger] tables[k]).key == table && tables[k].since < i && (
        !passing ==> !tables[k].until_commit);
    assert(after == step(before, nodes[i], i));
    lemma_tables_after(nodes[i], i, begun, tables, k);
    let carried = tables_after(nodes[i], i, begun, tables);
    let followed = table_after(nodes[i], i, begun, tables[k])->0;
    let m = choose|m: int| 0 <= m < carried.len() && carried[m] == followed;
    assert(after.tables[m] == followed);
}

/// A rollback undoes what came after the opening of its transaction and nothing else: the file
/// has then created the tables that it had created before.
pub proof fn rollback_restores_new_tables(nodes: Seq<SyntaxNode>, i: int)
    requires
        0 <= i,
        rolls_back(nodes[i]),
        !to_savepoint(nodes[i]),
        progress_before(nodes, i).begun is Some,
    ensures
        progress_before(nodes, i + 1).tables == progress_before(
            nodes,
            progress_before(nodes, i).begun->0.at,
        ).tables,
{
    lemma_begun(nodes, i);
}

/// Dropping a table that the file has created, dropping its columns, or adding a `NOT NULL`
/// column to it, is not flagged, whatever name it goes by.
pub proof fn created_table_is_exempt(
    root: SyntaxNode,
    columns: Seq<EventView>,
    i: int,
    table: TableKey,
)
    requires
        0 <= i < descendants(root).len(),
        created_before(descendants(root), i, table),
        works_on(descendants(root)[i], table),
    ensures
        DropTable.found_at(root, columns, i).len() == 0,
        DropColumn.found_at(root, columns, i).len() == 0,
        AddColumnNotNullNoDefault.found_at(root, columns, i).len() == 0,
{
}

/// A table that the same file creates has no deployed clients or rows yet: dropping it
/// or its columns, or adding a `NOT NULL` column to it, is not flagged. That holds inside a
/// transaction of a table with `ON COMMIT DROP` too, and across the rollback of a transaction
/// that is opened later.
pub proof fn new_table_is_exempt(
    root: SyntaxNode,
    columns: Seq<EventView>,
    j: int,
    i: int,
    table: TableKey,
)
    requires
        0 <= j < i < descendants(root).len(),
        creates(descendants(root)[j], table),
        drops_on_commit(descendants(root)[j]) ==> progress_before(descendants(root), j).begun
            is Some,
        forall|k: int|
            j < k < i ==> #[trigger] leaves_alone(
                descendants(root),
                j + 1,
                k,
                table,
                drops_on_commit(descendants(root)[j]),
            ),
        works_on(descendants(root)[i], table),
    ensures
        DropTable.found_at(root, columns, i).len() == 0,
        DropColumn.found_at(root, columns, i).len() == 0,
        AddColumnNotNullNoDefault.found_at(root, columns, i).len() == 0,
{
    let nodes = descendants(root);
    let passing = drops_on_commit(nodes[j]);
    create_table_makes_a_new_table(nodes, j, table);
    new_table_stays_new(nodes, j + 1, i, table, passing);
    let tables = progress_before(nodes, i).tables;
    let k = choose|k: int|
        0 <= k < tables.len() && (#[trigger] tables[k]).key == table && tables[k].since < j + 1 && (
        !passing ==> !tables[k].until_commit);
    assert(progress_before(nodes, i).tables[k].key == table);
    created_table_is_exempt(root, columns, i, table);
}

/// Whether a statement may give some other table the name.
pub open spec fn gives_name(node: SyntaxNode, table: TableKey) -> bool {
    match name_change(node) {
        Some(NameChangeView::Table { to, .. }) => to == table,
        Some(NameChangeView::Schema { new, .. }) => table.schema == Some(new),
        _ => false,
    }
}

spec fn none_named(tables: Seq<NewTableView>, table: TableKey) -> bool {
    forall|k: int| 0 <= k < tables.len() ==> (#[trigger] tables[k]).key != table
}

proof fn lemma_never_created(nodes: Seq<SyntaxNode>, i: int, table: TableKey)
    requires
        forall|j: int|
            0 <= j < i ==> !creates(#[trigger] nodes[j], table) && !gives_name(nodes[j], table),
    ensures
        none_named(progress_before(nodes, i).tables, table),
        progress_before(nodes, i).begun matches Some(begun) ==> none_named(begun.tables, table),
    decreases i,
{
    if i > 0 {
        let before = progress_before(nodes, i - 1);
        let after = progress_before(nodes, i);
        let node = nodes[i - 1];
        lemma_never_created(nodes, i - 1, table);
        assert(!creates(node, table) && !gives_name(node, table));
        if rolls_back(node) && !to_savepoint(node) && before.begun is Some {
        } else {
            let begun = begun_at(before);
            let carried = tables_after(node, i - 1, begun, before.tables);
            let added = new_table(node, i - 1, before.begun is Some);
            lemma_tables_from(node, i - 1, begun, before.tables);
            assert forall|m: int| 0 <= m < after.tables.len() implies (
            #[trigger] after.tables[m]).key != table by {
                if m < carried.len() {
                    assert(after.tables[m] == carried[m]);
                    let k = choose|k: int|
                        0 <= k < before.tables.len() && table_after(
                            node,
                            i - 1,
                            begun,
                            #[trigger] before.tables[k],
                        ) == Some(carried[m]);
                    assert(before.tables[k].key != table);
                } else {
                    assert(after.tables[m] == added[m - carried.len()]);
                }
            }
        }
    }
}

/// A table that no statement of the file creates before a node, and to which none gives that
/// name, by a rename, a move to its schema or the rename of another schema to its own, is not one
/// that the file has created. A `CREATE TABLE` with `IF`, that is `IF NOT EXISTS`, is none that
/// creates it for sure.
pub proof fn never_created_table_is_not_new(nodes: Seq<SyntaxNode>, i: int, table: TableKey)
    requires
        forall|j: int|
            0 <= j < i ==> !((#[trigger] nodes[j]).class matches NodeClass::CreateTableStmt {
                table: Some(name),
                ..
            } && table_key(name) == table && forall|t: int|
                0 <= t < child_tokens(nodes[j]).len() ==> !((#[trigger] child_tokens(
                    nodes[j],
                )[t]).kind is IfKw)),
        forall|j: int|
            0 <= j < i ==> !((#[trigger] nodes[j]).class matches NodeClass::AlterStmt {
                rename: Some(RenameTarget::Object { to }),
                ..
            } && fold(to@) == table.name),
        forall|j: int|
            0 <= j < i ==> !((#[trigger] nodes[j]).class matches NodeClass::AlterStmt {
                rename: Some(RenameTarget::Schema { new, .. }),
                ..
            } && table.schema == Some(fold(new@))),
        forall|j: int|
            0 <= j < i ==> !((#[trigger] nodes[j]).class matches NodeClass::AlterStmt {
                new_schema: Some(schema),
                ..
            } && table.schema == Some(fold(schema@))),
    ensures
        !created_before(nodes, i, table),
{
    assert forall|j: int| 0 <= j < i implies !creates(#[trigger] nodes[j], table) && !gives_name(
        nodes[j],
        table,
    ) by {}
    lemma_never_created(nodes, i, table);
}

/// Dropping a table that the file has not created before, dropping a column of one, or
/// adding a `NOT NULL` column without a value to one, is flagged.
pub proof fn deployed_table_is_not_exempt(
    root: SyntaxNode,
    columns: Seq<EventView>,
    i: int,
    table: TableKey,
)
    requires
        0 <= i < descendants(root).len(),
        forall|j: int|
            0 <= j < i ==> !creates(#[trigger] descendants(root)[j], table) && !gives_name(
                descendants(root)[j],
                table,
            ),
        works_on(descendants(root)[i], table),
    ensures
        descendants(root)[i].class matches NodeClass::DropStmt {
            object: Some(TokenKind::TableKw),
            ..
        } ==> DropTable.found_at(root, columns, i).len() == 1,
        descendants(root)[i].class matches NodeClass::AlterTableAction { action, .. } && action
            is DropColumn ==> DropColumn.found_at(root, columns, i).len() == 1,
        added_column(descendants(root)[i]) matches Some(column) && lacks_value(column)
            ==> AddColumnNotNullNoDefault.found_at(root, columns, i).len() == 1,
{
    lemma_never_created(descendants(root), i, table);
    assert(!created_before(descendants(root), i, table));
}

} // verus!
