//! What holds of the rules together, and of what they leave alone.

use crate::history::EventView;
use crate::migration::column::AddColumnNotNullNoDefault;
use crate::migration::constraint::{AddPkUniqueConstraint, ConstraintNotValid};
use crate::migration::destructive::Rename;
use crate::migration::index::{
    ConcurrentIndexInTransaction, DropIndexConcurrently, IndexConcurrently,
};
use crate::migration::statement::RobustStatements;
use crate::migration::transactions::{
    nesting_finding, nesting_findings, TransactionNesting, UncommittedTransaction,
};
use crate::rule::{NodeRule, Rule};
use crate::syntax::{child_in_role, descendants, NodeClass, RenameTarget, Role, SyntaxNode};
use crate::transaction::{is_open, open_at, txn_events, unmatched, TxnEvent};
use vstd::prelude::*;

verus! {

/// Adding a generated column is not flagged as `NOT NULL` without a default: it supplies
/// its own value for every row.
pub proof fn generated_column_is_exempt(root: SyntaxNode, columns: Seq<EventView>, i: int)
    requires
        child_in_role(descendants(root)[i], Role::Column) matches Some(column) && (
        column.class matches NodeClass::ColumnDef { generated, .. } && generated),
    ensures
        AddColumnNotNullNoDefault.found_at(root, columns, i).len() == 0,
{
}

/// `RENAME CONSTRAINT` is not flagged.
pub proof fn rename_constraint_is_exempt(root: SyntaxNode, columns: Seq<EventView>, i: int)
    requires
        descendants(root)[i].class matches NodeClass::AlterStmt {
            rename: Some(RenameTarget::Constraint),
            ..
        },
    ensures
        Rename.found_at(root, columns, i).len() == 0,
{
}

/// Inside an open transaction block, no statement is asked to run `CONCURRENTLY` or to be
/// idempotent.
pub proof fn open_transaction_is_exempt(root: SyntaxNode, columns: Seq<EventView>, i: int)
    requires
        open_at(root, descendants(root)[i].range.start),
    ensures
        IndexConcurrently.found_at(root, columns, i).len() == 0,
        DropIndexConcurrently.found_at(root, columns, i).len() == 0,
        RobustStatements.found_at(root, columns, i).len() == 0,
{
}

/// A `CREATE INDEX` is asked to run `CONCURRENTLY` only where that is not rejected, and at
/// most one of the two is said of it.
pub proof fn concurrently_is_asked_for_only_where_it_runs(
    root: SyntaxNode,
    columns: Seq<EventView>,
    i: int,
)
    ensures
        IndexConcurrently.found_at(root, columns, i).len() > 0 ==> !open_at(
            root,
            descendants(root)[i].range.start,
        ),
        ConcurrentIndexInTransaction.found_at(root, columns, i).len() > 0 ==> open_at(
            root,
            descendants(root)[i].range.start,
        ),
        IndexConcurrently.found_at(root, columns, i).len()
            + ConcurrentIndexInTransaction.found_at(root, columns, i).len() <= 1,
{
}

/// An added constraint is flagged for validating rows or for building an index, never for
/// both.
pub proof fn added_constraint_is_flagged_once(
    root: SyntaxNode,
    columns: Seq<EventView>,
    i: int,
)
    ensures
        ConstraintNotValid.found_at(root, columns, i).len() + AddPkUniqueConstraint.found_at(
            root,
            columns,
            i,
        ).len() <= 1,
{
}

/// A closing statement ends the open transaction, however many statements have opened it, and
/// an opening statement leaves one open.
pub proof fn closing_statement_ends_the_transaction(
    events: Seq<(SyntaxNode, TxnEvent)>,
    stmt: SyntaxNode,
)
    ensures
        !is_open(events.push((stmt, TxnEvent::Close))),
        is_open(events.push((stmt, TxnEvent::Open))),
{
}

proof fn lemma_unnested_depth(events: Seq<(SyntaxNode, TxnEvent)>)
    requires
        nesting_findings(events).len() == 0,
    ensures
        unmatched(events).len() == (if is_open(events) {
            1nat
        } else {
            0
        }),
    decreases events.len(),
{
    if events.len() > 0 {
        assert(nesting_findings(events.drop_last()).len() == 0);
        assert(nesting_finding(events).len() == 0);
        lemma_unnested_depth(events.drop_last());
    }
}

/// In a file without nested transactions every closing statement matches the one transaction
/// that is open, so that at most one opening statement is never matched.
pub proof fn unnested_file_leaves_at_most_one_open(root: SyntaxNode, columns: Seq<EventView>)
    requires
        TransactionNesting.findings(root, columns).len() == 0,
    ensures
        UncommittedTransaction.findings(root, columns).len() <= 1,
{
    lemma_unnested_depth(txn_events(root));
}

proof fn lemma_unmatched_bounds(events: Seq<(SyntaxNode, TxnEvent)>)
    ensures
        unmatched(events).len() <= events.len(),
        forall|k: int|
            0 <= k < unmatched(events).len() ==> exists|m: int|
                0 <= m < events.len() && events[m] == (
                    #[trigger] unmatched(events)[k],
                    TxnEvent::Open,
                ),
    decreases events.len(),
{
    if events.len() > 0 {
        let earlier = events.drop_last();
        lemma_unmatched_bounds(earlier);
        let before = unmatched(earlier);
        let after = unmatched(events);
        assert forall|k: int| 0 <= k < after.len() implies exists|m: int|
            0 <= m < events.len() && events[m] == (#[trigger] after[k], TxnEvent::Open) by {
            if k < before.len() {
                assert(after[k] == before[k]);
                let m = choose|m: int|
                    0 <= m < earlier.len() && earlier[m] == (before[k], TxnEvent::Open);
                assert(events[m] == earlier[m]);
            } else {
                assert(events[events.len() - 1] == (after[k], TxnEvent::Open));
            }
        }
    }
}

/// What is flagged as never closed opens a transaction at the top level of the file.
pub proof fn unclosed_statements_open_a_transaction(root: SyntaxNode, k: int)
    requires
        0 <= k < unmatched(txn_events(root)).len(),
    ensures
        exists|m: int|
            0 <= m < txn_events(root).len() && #[trigger] txn_events(root)[m] == (
                unmatched(txn_events(root))[k],
                TxnEvent::Open,
            ),
{
    lemma_unmatched_bounds(txn_events(root));
    let open = unmatched(txn_events(root));
    let m = choose|m: int|
        0 <= m < txn_events(root).len() && txn_events(root)[m] == (open[k], TxnEvent::Open);
    assert(txn_events(root)[m] == (open[k], TxnEvent::Open));
}

} // verus!
