//! How each statement of a file changes which tables the file has created.

use crate::fresh::{
    begun_at, created_before, drops_on_commit, new_table, progress_before, step, table_after,
    tables_after, temporary_before, NewTableView, ProgressView,
};
use crate::laws::new_tables::{lemma_tables_after, lemma_tables_from};
use crate::laws::trees::row_stands_between_two_parts;
use crate::names::{fold, may_be_same, name_after, name_change, table_key, TableKey};
use crate::syntax::{
    child_tokens, descendant_tokens, first_keyword, plain_kinds, NodeClass, RenameTarget,
    SyntaxNode, TokenKind,
};
use crate::transaction::{rolls_back, to_savepoint};
use vstd::prelude::*;

verus! {

/// A file has created no tables before its first node.
pub proof fn nothing_is_created_at_first(nodes: Seq<SyntaxNode>, key: TableKey)
    ensures
        !created_before(nodes, 0, key),
        !temporary_before(nodes, 0, key),
        begun_at(progress_before(nodes, 0)) is None,
{
}

/// A node that is neither a `CREATE TABLE`, a `DROP`, an `ALTER` statement, a transaction
/// statement, a `SET` nor a call leaves the tables that the file has created as they are.
pub proof fn other_nodes_leave_new_tables_alone(nodes: Seq<SyntaxNode>, j: int, key: TableKey)
    requires
        0 <= j,
        match nodes[j].class {
            NodeClass::CreateTableStmt { .. } => false,
            NodeClass::DropStmt { object, .. } => object != Some(TokenKind::TableKw),
            NodeClass::AlterStmt { .. } => false,
            NodeClass::TransactionStmt => false,
            NodeClass::SetStmt { .. } => false,
            NodeClass::FuncCall { .. } => false,
            _ => true,
        },
    ensures
        created_before(nodes, j + 1, key) == created_before(nodes, j, key),
        temporary_before(nodes, j + 1, key) == temporary_before(nodes, j, key),
        begun_at(progress_before(nodes, j + 1)) == begun_at(progress_before(nodes, j)),
{
    let before = progress_before(nodes, j);
    lemma_all_stay(nodes[j], j, begun_at(before), before.tables);
    assert(progress_before(nodes, j + 1).tables =~= before.tables);
}

proof fn lemma_all_stay(node: SyntaxNode, i: int, begun: Option<int>, tables: Seq<NewTableView>)
    requires
        forall|k: int|
            0 <= k < tables.len() ==> table_after(node, i, begun, #[trigger] tables[k]) == Some(
                tables[k],
            ),
    ensures
        tables_after(node, i, begun, tables) == tables,
    decreases tables.len(),
{
    if tables.len() > 0 {
        assert forall|k: int| 0 <= k < tables.drop_last().len() implies table_after(
            node,
            i,
            begun,
            #[trigger] tables.drop_last()[k],
        ) == Some(tables.drop_last()[k]) by {
            assert(tables.drop_last()[k] == tables[k]);
        }
        lemma_all_stay(node, i, begun, tables.drop_last());
        assert(tables[tables.len() - 1] == tables.last());
        assert(tables_after(node, i, begun, tables) =~= tables);
    }
}

/// A `CREATE TABLE` without a word `IF` that is not temporary adds its table, and one with it, or
/// without a name, adds none. Nothing else changes.
pub proof fn create_table_adds_its_table(nodes: Seq<SyntaxNode>, j: int, key: TableKey)
    requires
        0 <= j,
        nodes[j].class is CreateTableStmt,
    ensures
        ({
            let conditional = exists|t: int|
                0 <= t < child_tokens(nodes[j]).len() && (#[trigger] child_tokens(
                    nodes[j],
                )[t]).kind is IfKw;
            match nodes[j].class {
                NodeClass::CreateTableStmt { table: Some(name), temporary: false } => {
                    &&& created_before(nodes, j + 1, key) <==> created_before(nodes, j, key) || (
                    !conditional && table_key(name) == key)
                    &&& temporary_before(nodes, j + 1, key) == temporary_before(nodes, j, key)
                },
                NodeClass::CreateTableStmt { table: Some(name), temporary: true } => {
                    &&& conditional || table_key(name) != key ==> created_before(nodes, j + 1, key)
                        == created_before(nodes, j, key) && temporary_before(nodes, j + 1, key)
                        == temporary_before(nodes, j, key)
                    &&& !conditional && table_key(name) == key && (!drops_on_commit(nodes[j])
                        || begun_at(progress_before(nodes, j)) is Some) ==> created_before(
                        nodes,
                        j + 1,
                        key,
                    ) && temporary_before(nodes, j + 1, key)
                    &&& created_before(nodes, j, key) ==> created_before(nodes, j + 1, key)
                    &&& drops_on_commit(nodes[j]) && begun_at(progress_before(nodes, j)) is None
                        ==> created_before(nodes, j + 1, key) == created_before(nodes, j, key)
                },
                _ => created_before(nodes, j + 1, key) == created_before(nodes, j, key),
            }
        }),
        begun_at(progress_before(nodes, j + 1)) == begun_at(progress_before(nodes, j)),
{
    let before = progress_before(nodes, j);
    let after = progress_before(nodes, j + 1);
    lemma_all_stay(nodes[j], j, begun_at(before), before.tables);
    let added = new_table(nodes[j], j, before.begun is Some);
    assert(after.tables == before.tables + added);
    lemma_joined(before, added, after, key, nodes, j);
    if added.len() > 0 {
        assert(added.len() == 1);
        assert(after.tables[before.tables.len() as int] == added[0]);
    }
}

proof fn lemma_joined(
    before: ProgressView,
    added: Seq<NewTableView>,
    after: ProgressView,
    key: TableKey,
    nodes: Seq<SyntaxNode>,
    j: int,
)
    requires
        0 <= j,
        before == progress_before(nodes, j),
        after == progress_before(nodes, j + 1),
        after.tables == before.tables + added,
    ensures
        created_before(nodes, j + 1, key) <==> created_before(nodes, j, key) || exists|k: int|
            0 <= k < added.len() && (#[trigger] added[k]).key == key,
        temporary_before(nodes, j + 1, key) <==> temporary_before(nodes, j, key) || exists|k: int|
            0 <= k < added.len() && (#[trigger] added[k]).key == key && added[k].temporary,
{
    assert forall|k: int| 0 <= k < before.tables.len() implies after.tables[k]
        == #[trigger] before.tables[k] by {}
    assert forall|k: int| 0 <= k < added.len() implies after.tables[before.tables.len() + k]
        == #[trigger] added[k] by {}
    assert forall|k: int| before.tables.len() <= k < after.tables.len() implies
        #[trigger] after.tables[k] == added[k - before.tables.len()] by {}
}

/// A statement creates a table that goes with the transaction exactly if it is a `CREATE TABLE` of
/// a temporary one in which the words `COMMIT` and `DROP` stand next to each other.
pub proof fn table_may_go_with_the_transaction(node: SyntaxNode)
    ensures
        ({
            let kinds = plain_kinds(descendant_tokens(node));
            let run = seq![TokenKind::CommitKw, TokenKind::DropKw];
            drops_on_commit(node) <==> (node.class matches NodeClass::CreateTableStmt {
                temporary: true,
                ..
            }) && exists|before: Seq<TokenKind>, behind: Seq<TokenKind>|
                kinds == #[trigger] (before + run + behind)
        }),
{
    row_stands_between_two_parts(
        plain_kinds(descendant_tokens(node)),
        seq![TokenKind::CommitKw, TokenKind::DropKw],
    );
}

/// A `DROP TABLE` takes away every table that one of its names may stand for, and no other.
pub proof fn drop_table_takes_its_tables_away(nodes: Seq<SyntaxNode>, j: int, key: TableKey)
    requires
        0 <= j,
        nodes[j].class matches NodeClass::DropStmt { object: Some(TokenKind::TableKw), .. },
    ensures
        ({
            let names = nodes[j].class->DropStmt_names@;
            created_before(nodes, j + 1, key) <==> created_before(nodes, j, key) && forall|k: int|
                0 <= k < names.len() ==> !may_be_same(table_key(#[trigger] names[k]), key)
        }),
        created_before(nodes, j + 1, key) ==> temporary_before(nodes, j + 1, key)
            == temporary_before(nodes, j, key),
        begun_at(progress_before(nodes, j + 1)) == begun_at(progress_before(nodes, j)),
{
    let before = progress_before(nodes, j);
    let after = progress_before(nodes, j + 1);
    let begun = begun_at(before);
    assert(after.tables =~= tables_after(nodes[j], j, begun, before.tables));
    lemma_tables_from(nodes[j], j, begun, before.tables);
    if created_before(nodes, j + 1, key) {
        let m = choose|m: int|
            0 <= m < after.tables.len() && (#[trigger] after.tables[m]).key == key;
        let k = choose|k: int|
            0 <= k < before.tables.len() && table_after(
                nodes[j],
                j,
                begun,
                #[trigger] before.tables[k],
            ) == Some(after.tables[m]);
        assert(before.tables[k].key == key);
    }
    if created_before(nodes, j, key) {
        let k = choose|k: int|
            0 <= k < before.tables.len() && (#[trigger] before.tables[k]).key == key;
        if table_after(nodes[j], j, begun, before.tables[k]) is Some {
            lemma_tables_after(nodes[j], j, begun, before.tables, k);
            let m = choose|m: int|
                0 <= m < after.tables.len() && after.tables[m] == before.tables[k];
            assert(after.tables[m].key == key);
        }
    }
    if temporary_before(nodes, j + 1, key) {
        let m = choose|m: int|
            0 <= m < after.tables.len() && (#[trigger] after.tables[m]).key == key
                && after.tables[m].temporary;
        let k = choose|k: int|
            0 <= k < before.tables.len() && table_after(
                nodes[j],
                j,
                begun,
                #[trigger] before.tables[k],
            ) == Some(after.tables[m]);
        assert(before.tables[k].key == key && before.tables[k].temporary);
    }
    if temporary_before(nodes, j, key) {
        let k = choose|k: int|
            0 <= k < before.tables.len() && (#[trigger] before.tables[k]).key == key
                && before.tables[k].temporary;
        if table_after(nodes[j], j, begun, before.tables[k]) is Some {
            lemma_tables_after(nodes[j], j, begun, before.tables, k);
            let m = choose|m: int|
                0 <= m < after.tables.len() && after.tables[m] == before.tables[k];
            assert(after.tables[m].key == key && after.tables[m].temporary);
        }
    }
}

/// After a statement that changes what names stand for, the tables that the file has created are
/// those from before, by the names that they go by now; one for which that is not certain is none
/// of them any more.
pub proof fn new_tables_are_followed_by_name(nodes: Seq<SyntaxNode>, j: int, key: TableKey)
    requires
        0 <= j,
        name_change(nodes[j]) is Some,
    ensures
        created_before(nodes, j + 1, key) <==> exists|was: TableKey| #[trigger]
            created_before(nodes, j, was) && name_after(name_change(nodes[j])->0, was) == Some(key),
        temporary_before(nodes, j + 1, key) <==> exists|was: TableKey| #[trigger]
            temporary_before(nodes, j, was) && name_after(name_change(nodes[j])->0, was) == Some(
                key,
            ),
        begun_at(progress_before(nodes, j + 1)) == begun_at(progress_before(nodes, j)),
{
    let before = progress_before(nodes, j);
    let after = progress_before(nodes, j + 1);
    let begun = begun_at(before);
    assert(after.tables =~= tables_after(nodes[j], j, begun, before.tables));
    lemma_tables_from(nodes[j], j, begun, before.tables);
    if created_before(nodes, j + 1, key) {
        let m = choose|m: int|
            0 <= m < after.tables.len() && (#[trigger] after.tables[m]).key == key;
        let k = choose|k: int|
            0 <= k < before.tables.len() && table_after(
                nodes[j],
                j,
                begun,
                #[trigger] before.tables[k],
            ) == Some(after.tables[m]);
        assert(created_before(nodes, j, before.tables[k].key));
    }
    if exists|was: TableKey| #[trigger]
        created_before(nodes, j, was) && name_after(name_change(nodes[j])->0, was) == Some(key) {
        let was = choose|was: TableKey| #[trigger]
            created_before(nodes, j, was) && name_after(name_change(nodes[j])->0, was) == Some(key);
        let k = choose|k: int|
            0 <= k < before.tables.len() && (#[trigger] before.tables[k]).key == was;
        lemma_tables_after(nodes[j], j, begun, before.tables, k);
        let now = table_after(nodes[j], j, begun, before.tables[k])->0;
        let m = choose|m: int| 0 <= m < after.tables.len() && after.tables[m] == now;
        assert(after.tables[m].key == key);
    }
    if temporary_before(nodes, j + 1, key) {
        let m = choose|m: int|
            0 <= m < after.tables.len() && (#[trigger] after.tables[m]).key == key
                && after.tables[m].temporary;
        let k = choose|k: int|
            0 <= k < before.tables.len() && table_after(
                nodes[j],
                j,
                begun,
                #[trigger] before.tables[k],
            ) == Some(after.tables[m]);
        assert(before.tables[k].temporary);
        assert(temporary_before(nodes, j, before.tables[k].key));
    }
    if exists|was: TableKey| #[trigger]
        temporary_before(nodes, j, was) && name_after(name_change(nodes[j])->0, was) == Some(key) {
        let was = choose|was: TableKey| #[trigger]
            temporary_before(nodes, j, was) && name_after(name_change(nodes[j])->0, was) == Some(
                key,
            );
        let k = choose|k: int|
            0 <= k < before.tables.len() && (#[trigger] before.tables[k]).key == was
                && before.tables[k].temporary;
        lemma_tables_after(nodes[j], j, begun, before.tables, k);
        let now = table_after(nodes[j], j, begun, before.tables[k])->0;
        let m = choose|m: int| 0 <= m < after.tables.len() && after.tables[m] == now;
        assert(after.tables[m].key == key && after.tables[m].temporary);
    }
}

/// A statement or call that changes no name leaves the tables that the file has created as they
/// are.
pub proof fn unchanged_names_leave_new_tables_alone(
    nodes: Seq<SyntaxNode>,
    j: int,
    key: TableKey,
)
    requires
        0 <= j,
        nodes[j].class is AlterStmt || nodes[j].class is SetStmt || nodes[j].class is FuncCall,
        name_change(nodes[j]) is None,
    ensures
        created_before(nodes, j + 1, key) == created_before(nodes, j, key),
        temporary_before(nodes, j + 1, key) == temporary_before(nodes, j, key),
        begun_at(progress_before(nodes, j + 1)) == begun_at(progress_before(nodes, j)),
{
    let before = progress_before(nodes, j);
    lemma_all_stay(nodes[j], j, begun_at(before), before.tables);
    assert(progress_before(nodes, j + 1).tables =~= before.tables);
}

/// A `BEGIN` or `START` opens a transaction unless one is open, a `COMMIT` or `END` closes it, and
/// so does a `ROLLBACK` or `ABORT` without a word `TO`. Any other transaction statement leaves it
/// open, or none open.
pub proof fn transaction_statements_open_and_close(nodes: Seq<SyntaxNode>, j: int)
    requires
        0 <= j,
        nodes[j].class is TransactionStmt,
    ensures
        begun_at(progress_before(nodes, j + 1)) == match first_keyword(child_tokens(nodes[j])) {
            Some(TokenKind::BeginKw) | Some(TokenKind::StartKw) => match begun_at(
                progress_before(nodes, j),
            ) {
                Some(at) => Some(at),
                None => Some(j),
            },
            Some(TokenKind::CommitKw) | Some(TokenKind::EndKw) => None,
            Some(TokenKind::RollbackKw) | Some(TokenKind::AbortKw) => if exists|t: int|
                0 <= t < child_tokens(nodes[j]).len() && (#[trigger] child_tokens(
                    nodes[j],
                )[t]).kind is ToKw {
                begun_at(progress_before(nodes, j))
            } else {
                None
            },
            _ => begun_at(progress_before(nodes, j)),
        },
{
}

/// A transaction statement that is neither a `ROLLBACK` nor an `ABORT` leaves the tables that the
/// file has created as they are, unless it is a `COMMIT` or `END` and the file has created a
/// temporary table.
pub proof fn commit_keeps_lasting_tables(nodes: Seq<SyntaxNode>, j: int, key: TableKey)
    requires
        0 <= j,
        nodes[j].class is TransactionStmt,
        first_keyword(child_tokens(nodes[j])) != Some(TokenKind::RollbackKw),
        first_keyword(child_tokens(nodes[j])) != Some(TokenKind::AbortKw),
        first_keyword(child_tokens(nodes[j])) == Some(TokenKind::CommitKw) || first_keyword(
            child_tokens(nodes[j]),
        ) == Some(TokenKind::EndKw) ==> forall|k: int|
            0 <= k < j ==> !((#[trigger] nodes[k]).class matches NodeClass::CreateTableStmt {
                temporary: true,
                ..
            }),
    ensures
        created_before(nodes, j + 1, key) == created_before(nodes, j, key),
        temporary_before(nodes, j + 1, key) == temporary_before(nodes, j, key),
{
    let before = progress_before(nodes, j);
    if forall|k: int|
        0 <= k < j ==> !((#[trigger] nodes[k]).class matches NodeClass::CreateTableStmt {
            temporary: true,
            ..
        }) {
        lemma_none_passing(nodes, j);
    }
    lemma_all_stay(nodes[j], j, begun_at(before), before.tables);
    assert(progress_before(nodes, j + 1).tables =~= before.tables);
}

proof fn lemma_none_passing(nodes: Seq<SyntaxNode>, j: int)
    requires
        forall|k: int|
            0 <= k < j ==> !((#[trigger] nodes[k]).class matches NodeClass::CreateTableStmt {
                temporary: true,
                ..
            }),
    ensures
        forall|k: int|
            0 <= k < progress_before(nodes, j).tables.len() ==> !(#[trigger] progress_before(
                nodes,
                j,
            ).tables[k]).until_commit,
        progress_before(nodes, j).begun matches Some(begun) ==> forall|k: int|
            0 <= k < begun.tables.len() ==> !(#[trigger] begun.tables[k]).until_commit,
    decreases j,
{
    if j > 0 {
        lemma_none_passing(nodes, j - 1);
        let node = nodes[j - 1];
        let before = progress_before(nodes, j - 1);
        let after = progress_before(nodes, j);
        assert(after == step(before, node, j - 1));
        if rolls_back(node) && !to_savepoint(node) && before.begun is Some {
        } else {
            let begun = begun_at(before);
            let carried = tables_after(node, j - 1, begun, before.tables);
            let added = new_table(node, j - 1, before.begun is Some);
            lemma_tables_from(node, j - 1, begun, before.tables);
            assert(!drops_on_commit(nodes[j - 1]));
            assert forall|m: int| 0 <= m < after.tables.len() implies !(
            #[trigger] after.tables[m]).until_commit by {
                if m < carried.len() {
                    assert(after.tables[m] == carried[m]);
                    let k = choose|k: int|
                        0 <= k < before.tables.len() && table_after(
                            node,
                            j - 1,
                            begun,
                            #[trigger] before.tables[k],
                        ) == Some(carried[m]);
                    assert(!before.tables[k].until_commit);
                } else {
                    assert(after.tables[m] == added[m - carried.len()]);
                }
            }
        }
    }
}

/// After a `COMMIT` or `END`, a table that the file has created under `ON COMMIT DROP` is gone,
/// and no table has been added.
pub proof fn commit_adds_no_table(nodes: Seq<SyntaxNode>, j: int, key: TableKey)
    requires
        0 <= j,
        nodes[j].class is TransactionStmt,
        first_keyword(child_tokens(nodes[j])) == Some(TokenKind::CommitKw) || first_keyword(
            child_tokens(nodes[j]),
        ) == Some(TokenKind::EndKw),
    ensures
        created_before(nodes, j + 1, key) <==> exists|k: int|
            0 <= k < progress_before(nodes, j).tables.len() && (#[trigger] progress_before(
                nodes,
                j,
            ).tables[k]).key == key && !progress_before(nodes, j).tables[k].until_commit,
        temporary_before(nodes, j + 1, key) <==> exists|k: int|
            0 <= k < progress_before(nodes, j).tables.len() && (#[trigger] progress_before(
                nodes,
                j,
            ).tables[k]).key == key && !progress_before(nodes, j).tables[k].until_commit
                && progress_before(nodes, j).tables[k].temporary,
{
    let before = progress_before(nodes, j);
    let after = progress_before(nodes, j + 1);
    let begun = begun_at(before);
    assert(after.tables =~= tables_after(nodes[j], j, begun, before.tables));
    lemma_tables_from(nodes[j], j, begun, before.tables);
    if created_before(nodes, j + 1, key) {
        let m = choose|m: int|
            0 <= m < after.tables.len() && (#[trigger] after.tables[m]).key == key;
        let k = choose|k: int|
            0 <= k < before.tables.len() && table_after(
                nodes[j],
                j,
                begun,
                #[trigger] before.tables[k],
            ) == Some(after.tables[m]);
        assert(before.tables[k].key == key && !before.tables[k].until_commit);
    }
    if exists|k: int|
        0 <= k < before.tables.len() && (#[trigger] before.tables[k]).key == key
            && !before.tables[k].until_commit {
        let k = choose|k: int|
            0 <= k < before.tables.len() && (#[trigger] before.tables[k]).key == key
                && !before.tables[k].until_commit;
        lemma_tables_after(nodes[j], j, begun, before.tables, k);
        let m = choose|m: int| 0 <= m < after.tables.len() && after.tables[m] == before.tables[k];
        assert(after.tables[m].key == key);
    }
    if temporary_before(nodes, j + 1, key) {
        let m = choose|m: int|
            0 <= m < after.tables.len() && (#[trigger] after.tables[m]).key == key
                && after.tables[m].temporary;
        let k = choose|k: int|
            0 <= k < before.tables.len() && table_after(
                nodes[j],
                j,
                begun,
                #[trigger] before.tables[k],
            ) == Some(after.tables[m]);
        assert(before.tables[k].key == key && !before.tables[k].until_commit
            && before.tables[k].temporary);
    }
    if exists|k: int|
        0 <= k < before.tables.len() && (#[trigger] before.tables[k]).key == key
            && !before.tables[k].until_commit && before.tables[k].temporary {
        let k = choose|k: int|
            0 <= k < before.tables.len() && (#[trigger] before.tables[k]).key == key
                && !before.tables[k].until_commit && before.tables[k].temporary;
        lemma_tables_after(nodes[j], j, begun, before.tables, k);
        let m = choose|m: int| 0 <= m < after.tables.len() && after.tables[m] == before.tables[k];
        assert(after.tables[m].key == key && after.tables[m].temporary);
    }
}

spec fn all_passing(tables: Seq<NewTableView>, key: TableKey) -> bool {
    forall|k: int|
        0 <= k < tables.len() && (#[trigger] tables[k]).key == key ==> tables[k].until_commit
}

proof fn lemma_stays_passing(nodes: Seq<SyntaxNode>, j: int, i: int, key: TableKey)
    requires
        0 <= j < i,
        !created_before(nodes, j, key),
        drops_on_commit(nodes[j]),
        forall|k: int|
            j < k < i ==> !((#[trigger] nodes[k]).class matches NodeClass::CreateTableStmt {
                table: Some(name),
                ..
            } && table_key(name) == key),
        forall|k: int|
            j < k < i ==> !((#[trigger] nodes[k]).class is TransactionStmt && (first_keyword(
                child_tokens(nodes[k]),
            ) matches Some(TokenKind::RollbackKw | TokenKind::AbortKw))),
        forall|k: int|
            j < k < i ==> !((#[trigger] nodes[k]).class matches NodeClass::AlterStmt {
                rename: Some(RenameTarget::Object { to }),
                ..
            } && fold(to@) == key.name),
        forall|k: int|
            j < k < i ==> !((#[trigger] nodes[k]).class matches NodeClass::AlterStmt {
                rename: Some(RenameTarget::Schema { new, .. }),
                ..
            } && key.schema == Some(fold(new@))),
        forall|k: int|
            j < k < i ==> !((#[trigger] nodes[k]).class matches NodeClass::AlterStmt {
                new_schema: Some(schema),
                ..
            } && key.schema == Some(fold(schema@))),
    ensures
        all_passing(progress_before(nodes, i).tables, key),
    decreases i,
{
    let before = progress_before(nodes, i - 1);
    let after = progress_before(nodes, i);
    let node = nodes[i - 1];
    let begun = begun_at(before);
    if i - 1 > j {
        lemma_stays_passing(nodes, j, i - 1, key);
    } else {
        assert forall|k: int| 0 <= k < before.tables.len() implies (
        #[trigger] before.tables[k]).key != key by {
            assert(progress_before(nodes, j).tables[k].key != key);
        }
    }
    assert(after == step(before, node, i - 1));
    let carried = tables_after(node, i - 1, begun, before.tables);
    let added = new_table(node, i - 1, before.begun is Some);
    lemma_tables_from(node, i - 1, begun, before.tables);
    assert forall|m: int| 0 <= m < after.tables.len() && (#[trigger] after.tables[m]).key
        == key implies after.tables[m].until_commit by {
        if m < carried.len() {
            assert(after.tables[m] == carried[m]);
            let k = choose|k: int|
                0 <= k < before.tables.len() && table_after(
                    node,
                    i - 1,
                    begun,
                    #[trigger] before.tables[k],
                ) == Some(carried[m]);
            assert(before.tables[k].key == key);
        } else {
            assert(after.tables[m] == added[m - carried.len()]);
        }
    }
}

/// A temporary table with `ON COMMIT DROP` is not one that the file has created any more after the
/// `COMMIT` or `END` of its transaction, unless the file had created one of that name before,
/// creates another one or gives another one that name.
pub proof fn table_that_goes_with_the_transaction_is_gone(
    nodes: Seq<SyntaxNode>,
    j: int,
    i: int,
    key: TableKey,
)
    requires
        0 <= j < i,
        !created_before(nodes, j, key),
        drops_on_commit(nodes[j]),
        forall|k: int|
            j < k < i ==> !((#[trigger] nodes[k]).class matches NodeClass::CreateTableStmt {
                table: Some(name),
                ..
            } && table_key(name) == key),
        forall|k: int|
            j < k < i ==> !((#[trigger] nodes[k]).class is TransactionStmt && (first_keyword(
                child_tokens(nodes[k]),
            ) matches Some(TokenKind::RollbackKw | TokenKind::AbortKw))),
        forall|k: int|
            j < k < i ==> !((#[trigger] nodes[k]).class matches NodeClass::AlterStmt {
                rename: Some(RenameTarget::Object { to }),
                ..
            } && fold(to@) == key.name),
        forall|k: int|
            j < k < i ==> !((#[trigger] nodes[k]).class matches NodeClass::AlterStmt {
                rename: Some(RenameTarget::Schema { new, .. }),
                ..
            } && key.schema == Some(fold(new@))),
        forall|k: int|
            j < k < i ==> !((#[trigger] nodes[k]).class matches NodeClass::AlterStmt {
                new_schema: Some(schema),
                ..
            } && key.schema == Some(fold(schema@))),
        nodes[i].class is TransactionStmt,
        first_keyword(child_tokens(nodes[i])) == Some(TokenKind::CommitKw) || first_keyword(
            child_tokens(nodes[i]),
        ) == Some(TokenKind::EndKw),
    ensures
        !created_before(nodes, i + 1, key),
{
    lemma_stays_passing(nodes, j, i, key);
    commit_adds_no_table(nodes, i, key);
}

/// After a `ROLLBACK` or `ABORT` where the file has opened no transaction, the file has created
/// no tables for sure. After one of a whole transaction, it has created those that it had created
/// before the statement that opened it. After one to a savepoint, it has created none but those
/// that it had created both before that statement and before the rollback.
pub proof fn rollback_undoes_what_was_created(
    nodes: Seq<SyntaxNode>,
    j: int,
    at: int,
    key: TableKey,
)
    requires
        0 <= j,
        nodes[j].class is TransactionStmt,
        first_keyword(child_tokens(nodes[j])) == Some(TokenKind::RollbackKw) || first_keyword(
            child_tokens(nodes[j]),
        ) == Some(TokenKind::AbortKw),
    ensures
        begun_at(progress_before(nodes, j)) is None ==> !created_before(nodes, j + 1, key),
        begun_at(progress_before(nodes, j)) == Some(at) && (forall|t: int|
            0 <= t < child_tokens(nodes[j]).len() ==> !((#[trigger] child_tokens(
                nodes[j],
            )[t]).kind is ToKw)) ==> created_before(nodes, j + 1, key) == created_before(
            nodes,
            at,
            key,
        ) && temporary_before(nodes, j + 1, key) == temporary_before(nodes, at, key),
        created_before(nodes, j + 1, key) && (exists|t: int|
            0 <= t < child_tokens(nodes[j]).len() && (#[trigger] child_tokens(nodes[j])[t]).kind
                is ToKw) ==> created_before(nodes, j, key),
        created_before(nodes, j + 1, key) && begun_at(progress_before(nodes, j)) == Some(at)
            ==> created_before(nodes, at, key),
{
    let before = progress_before(nodes, j);
    let after = progress_before(nodes, j + 1);
    let begun = begun_at(before);
    if before.begun is Some && !to_savepoint(nodes[j]) {
        lemma_begun_tables(nodes, j);
    } else {
        assert(after.tables =~= tables_after(nodes[j], j, begun, before.tables));
        lemma_tables_from(nodes[j], j, begun, before.tables);
        if created_before(nodes, j + 1, key) {
            let m = choose|m: int|
                0 <= m < after.tables.len() && (#[trigger] after.tables[m]).key == key;
            let k = choose|k: int|
                0 <= k < before.tables.len() && table_after(
                    nodes[j],
                    j,
                    begun,
                    #[trigger] before.tables[k],
                ) == Some(after.tables[m]);
            assert(before.tables[k].key == key);
            if before.begun is Some {
                lemma_since_before(nodes, j, begun->0);
                let then = progress_before(nodes, begun->0).tables;
                assert(then.contains(before.tables[k]));
                let x = choose|x: int| 0 <= x < then.len() && then[x] == before.tables[k];
                assert(progress_before(nodes, begun->0).tables[x].key == key);
            }
        }
    }
}

/// What goes by its name since before the opening of the transaction that is open was there then.
proof fn lemma_since_before(nodes: Seq<SyntaxNode>, i: int, at: int)
    requires
        begun_at(progress_before(nodes, i)) == Some(at),
    ensures
        forall|k: int|
            0 <= k < progress_before(nodes, i).tables.len() && (#[trigger] progress_before(
                nodes,
                i,
            ).tables[k]).since < at ==> progress_before(nodes, at).tables.contains(
                progress_before(nodes, i).tables[k],
            ),
    decreases i,
{
    if i > 0 {
        let before = progress_before(nodes, i - 1);
        let after = progress_before(nodes, i);
        let node = nodes[i - 1];
        let begun = begun_at(before);
        lemma_begun_tables(nodes, i);
        assert(after == step(before, node, i - 1));
        let carried = tables_after(node, i - 1, begun, before.tables);
        let added = new_table(node, i - 1, before.begun is Some);
        lemma_tables_from(node, i - 1, begun, before.tables);
        if before.begun is Some {
            lemma_since_before(nodes, i - 1, at);
        }
        assert forall|m: int|
            0 <= m < after.tables.len() && (
            #[trigger] after.tables[m]).since < at implies progress_before(
            nodes,
            at,
        ).tables.contains(after.tables[m]) by {
            if m < carried.len() {
                assert(after.tables[m] == carried[m]);
                let k = choose|k: int|
                    0 <= k < before.tables.len() && table_after(
                        node,
                        i - 1,
                        begun,
                        #[trigger] before.tables[k],
                    ) == Some(carried[m]);
                assert(before.tables[k] == after.tables[m]);
                if before.begun is None {
                    assert(progress_before(nodes, at).tables[k] == after.tables[m]);
                }
            } else {
                assert(after.tables[m] == added[m - carried.len()]);
            }
        }
    }
}

proof fn lemma_begun_tables(nodes: Seq<SyntaxNode>, i: int)
    ensures
        progress_before(nodes, i).begun matches Some(begun) ==> 0 <= begun.at < i && begun.tables
            == progress_before(nodes, begun.at).tables,
    decreases i,
{
    if i > 0 {
        lemma_begun_tables(nodes, i - 1);
    }
}

} // verus!
