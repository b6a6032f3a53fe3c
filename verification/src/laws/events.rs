//! How each statement of a migration adds to the history of the columns.

use crate::history::{
    column_history, declarations, file_events, file_history, migration_events, node_events,
    type_text, EventView,
};
use crate::laws::trees::{
    lemma_child_in_role, lemma_no_child_in_role, one_more_child_adds_its_nodes,
    one_more_child_adds_its_tokens,
};
use crate::names::{fold, may_affect, may_be_same, name_change, table_key, TableKey};
use crate::syntax::{
    child_nodes, child_tokens, descendants, first_keyword, has_kind, AlterActionKind, NodeClass,
    RenameTarget, Role, SyntaxElement, SyntaxNode, TokenKind,
};
use vstd::prelude::*;

verus! {

/// The type text of a node is that of its first type, and empty without one.
pub proof fn type_text_is_that_of_the_first_type(node: SyntaxNode, c: int)
    requires
        0 <= c <= child_nodes(node).len(),
        forall|m: int| 0 <= m < c ==> !((#[trigger] child_nodes(node)[m]).class is TypeName),
        c < child_nodes(node).len() ==> child_nodes(node)[c].class is TypeName,
    ensures
        type_text(node) == if c < child_nodes(node).len() {
            child_nodes(node)[c].class->TypeName_text@
        } else {
            seq![]
        },
{
    if c < child_nodes(node).len() {
        lemma_child_in_role(node, Role::Type, c);
    } else {
        lemma_no_child_in_role(node, Role::Type);
    }
}

/// A `CREATE TABLE` with one more column declares that column besides, with its type, or with
/// none if the statement has a word `IF`: the column may then have been there before. For other
/// files than its own, a temporary table declares nothing.
pub proof fn one_more_column_is_declared(
    node: SyntaxNode,
    more: SyntaxNode,
    column: SyntaxNode,
    own: bool,
)
    requires
        node.class is CreateTableStmt,
        more.class == node.class,
        more.children@ == node.children@.push(SyntaxElement::Node(column)),
    ensures
        ({
            let known = forall|t: int|
                0 <= t < child_tokens(node).len() ==> !((#[trigger] child_tokens(node)[t]).kind
                    is IfKw);
            node_events(more, own) == match (node.class, column.class) {
                (
                    NodeClass::CreateTableStmt { table: Some(table), temporary },
                    NodeClass::ColumnDef { name: Some(name), .. },
                ) => if own || !temporary {
                    node_events(node, own).push(
                        EventView::Declared {
                            table: table_key(table),
                            column: fold(name@),
                            ty: if known {
                                type_text(column)
                            } else {
                                seq![]
                            },
                        },
                    )
                } else {
                    seq![]
                },
                _ => node_events(node, own),
            }
        }),
{
    one_more_child_adds_its_nodes(node, more, SyntaxElement::Node(column));
    one_more_child_adds_its_tokens(node, more, SyntaxElement::Node(column));
    assert(child_nodes(more) =~= child_nodes(node).push(column));
    assert(child_nodes(node).push(column).drop_last() =~= child_nodes(node));
    assert(child_tokens(more) =~= child_tokens(node));
    if let NodeClass::CreateTableStmt { table: Some(table), temporary } = node.class {
        let known = !has_kind(child_tokens(node), TokenKind::IfKw);
        let before = declarations(table_key(table), child_nodes(node), known);
        if let NodeClass::ColumnDef { name: Some(name), .. } = column.class {
            let event = EventView::Declared {
                table: table_key(table),
                column: fold(name@),
                ty: if known {
                    type_text(column)
                } else {
                    seq![]
                },
            };
            assert(before + seq![event] =~= before.push(event));
        } else {
            assert(before + seq![] =~= before);
        }
    }
}

/// A `CREATE TABLE` without columns, constraints or other parts declares nothing.
pub proof fn table_without_columns_declares_nothing(node: SyntaxNode, own: bool)
    requires
        node.class is CreateTableStmt,
        child_nodes(node).len() == 0,
    ensures
        node_events(node, own).len() == 0,
{
}

/// An action that adds a column declares the first column below it, with its type, or with none
/// if the action has a word `IF`. It declares nothing without a table, a column or its name.
pub proof fn added_column_is_declared(node: SyntaxNode, own: bool, c: int)
    requires
        node.class matches NodeClass::AlterTableAction { action: AlterActionKind::AddColumn, .. },
        0 <= c <= child_nodes(node).len(),
        forall|m: int| 0 <= m < c ==> !((#[trigger] child_nodes(node)[m]).class is ColumnDef),
        c < child_nodes(node).len() ==> child_nodes(node)[c].class is ColumnDef,
    ensures
        ({
            let known = forall|t: int|
                0 <= t < child_tokens(node).len() ==> !((#[trigger] child_tokens(node)[t]).kind
                    is IfKw);
            let table = node.class->AlterTableAction_table;
            let name = child_nodes(node)[c].class->ColumnDef_name;
            node_events(node, own) == if c < child_nodes(node).len() && table is Some && name
                is Some {
                seq![
                    EventView::Declared {
                        table: table_key(table->0),
                        column: fold(name->0@),
                        ty: if known {
                            type_text(child_nodes(node)[c])
                        } else {
                            seq![]
                        },
                    },
                ]
            } else {
                seq![]
            }
        }),
{
    if c < child_nodes(node).len() {
        lemma_child_in_role(node, Role::Column, c);
    } else {
        lemma_no_child_in_role(node, Role::Column);
    }
}

/// An action that changes the type of a column gives it the type that is named, one that does not
/// adds nothing to the history, and so does one without a table.
pub proof fn changed_type_is_recorded(node: SyntaxNode, own: bool)
    requires
        node.class is AlterTableAction,
        !(node.class->action is AddColumn),
    ensures
        node_events(node, own) == match node.class {
            NodeClass::AlterTableAction {
                table: Some(table),
                column: Some(column),
                changes_type: true,
                ..
            } => seq![
                EventView::Retyped {
                    table: table_key(table),
                    column: fold(column@),
                    ty: type_text(node),
                },
            ],
            _ => seq![],
        },
{
}

/// Any other node adds to the history only that a column of a table has another name, or that
/// what names stand for has changed.
pub proof fn other_nodes_record_changes_of_names(node: SyntaxNode, own: bool)
    requires
        !(node.class is CreateTableStmt),
        !(node.class is AlterTableAction),
    ensures
        node_events(node, own) == match node.class {
            NodeClass::AlterStmt {
                table: Some(table),
                rename: Some(RenameTarget::Column { from, to }),
                ..
            } => seq![
                EventView::ColumnRenamed {
                    table: table_key(table),
                    from: fold(from@),
                    to: fold(to@),
                },
            ],
            _ => match name_change(node) {
                Some(change) => seq![EventView::NamesChanged { change }],
                None => seq![],
            },
        },
{
}

/// One more node that does not roll back adds its own events to those of a file and changes none
/// of those before. One that rolls back adds none: it leaves the types unknown that were declared
/// since the opening of the transaction, or all of them if none is open, and nothing else changes.
pub proof fn one_more_node_adds_its_events(nodes: Seq<SyntaxNode>, node: SyntaxNode, own: bool)
    ensures
        ({
            let back = node.class is TransactionStmt && (first_keyword(
                child_tokens(node),
            ) matches Some(TokenKind::RollbackKw | TokenKind::AbortKw));
            let events = file_events(nodes, own);
            let after = file_events(nodes.push(node), own);
            let begun = file_history(nodes, own).begun;
            &&& !back ==> after == events + node_events(node, own)
            &&& back ==> after.len() == events.len() && forall|k: int|
                0 <= k < events.len() ==> #[trigger] after[k] == if (begun is Some && k < begun->0)
                    || !(events[k] is Declared) {
                    events[k]
                } else {
                    EventView::Declared {
                        table: events[k]->Declared_table,
                        column: events[k]->Declared_column,
                        ty: seq![],
                    }
                }
        }),
        ({
            let begun = file_history(nodes, own).begun;
            file_history(nodes.push(node), own).begun == if node.class is TransactionStmt {
                match first_keyword(child_tokens(node)) {
                    Some(TokenKind::BeginKw) | Some(TokenKind::StartKw) => if begun is Some {
                        begun
                    } else {
                        Some(file_events(nodes, own).len())
                    },
                    Some(TokenKind::CommitKw) | Some(TokenKind::EndKw) => None,
                    Some(TokenKind::RollbackKw) | Some(TokenKind::AbortKw) => if exists|t: int|
                        0 <= t < child_tokens(node).len() && (#[trigger] child_tokens(
                            node,
                        )[t]).kind is ToKw {
                        begun
                    } else {
                        None
                    },
                    _ => begun,
                }
            } else {
                begun
            }
        }),
        file_events(Seq::<SyntaxNode>::empty(), own).len() == 0,
        file_history(Seq::<SyntaxNode>::empty(), own).begun is None,
{
    assert(nodes.push(node).drop_last() =~= nodes);
    assert(nodes.push(node).last() == node);
}

/// One more migration adds its own events to those of a set.
pub proof fn one_more_migration_adds_its_events(roots: Seq<SyntaxNode>, root: SyntaxNode)
    ensures
        migration_events(roots.push(root)) == migration_events(roots) + file_events(
            descendants(root),
            false,
        ),
        migration_events(Seq::<SyntaxNode>::empty()).len() == 0,
{
    assert(roots.push(root).drop_last() =~= roots);
}

/// One more event is in the history of a column, behind all others, exactly if it may be about
/// that column: it declares it, changes its type, or renames it or another one to it, under a name
/// that may be that of the table, or it may change what that name stands for.
pub proof fn one_more_event_is_in_the_history_if_it_touches_the_column(
    events: Seq<EventView>,
    event: EventView,
    table: TableKey,
    column: Seq<char>,
)
    ensures
        ({
            let about = match event {
                EventView::Declared { table: t, column: c, .. } => may_be_same(t, table) && c
                    == column,
                EventView::Retyped { table: t, column: c, .. } => may_be_same(t, table) && c
                    == column,
                EventView::ColumnRenamed { table: t, from, to } => may_be_same(t, table) && (from
                    == column || to == column),
                EventView::NamesChanged { change } => may_affect(change, table),
            };
            column_history(events.push(event), table, column) == if about {
                column_history(events, table, column).push(event)
            } else {
                column_history(events, table, column)
            }
        }),
        column_history(Seq::<EventView>::empty(), table, column).len() == 0,
{
    assert(events.push(event).drop_last() =~= events);
}

} // verus!
