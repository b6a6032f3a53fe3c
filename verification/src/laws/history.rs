//! What holds of column histories and of type changes.

use crate::fresh::temporary_before;
use crate::history::{
    column_history, conditional, declaration, declarations, file_events, file_history,
    migration_events, node_events, touches, type_text, unsettled_from, EventView,
};
use crate::migration::destructive::{telling_events, widens_safely, AlterColumnType};
use crate::names::{fold, may_be_same, table_key, TableKey};
use crate::rule::NodeRule;
use crate::syntax::{
    child_in_role, child_nodes, descendant_tokens, descendants, has_kind, NodeClass, Role,
    SyntaxNode, TokenKind,
};
use crate::text::{lower, words};
use crate::transaction::rolls_back;
use crate::types::{
    base_words, is_bigint, is_double, is_int, is_real, plain_type, safe_widening, varchar_length,
};
use vstd::prelude::*;

verus! {

/// Whether a node is an action that changes the type of a column.
pub open spec fn changes_type_of(node: SyntaxNode, table: TableKey, column: Seq<char>) -> bool {
    node.class matches NodeClass::AlterTableAction {
        action,
        table: Some(t),
        column: Some(c),
        changes_type,
    } && changes_type && !(action is AddColumn) && table_key(t) == table && fold(c@) == column
}

/// Whether a node is an action that may change the type of a column: the name of the table may
/// stand for that of the column.
pub open spec fn may_change_type_of(node: SyntaxNode, table: TableKey, column: Seq<char>) -> bool {
    node.class matches NodeClass::AlterTableAction {
        action,
        table: Some(t),
        column: Some(c),
        changes_type,
    } && changes_type && !(action is AddColumn) && may_be_same(table_key(t), table) && fold(c@)
        == column
}

/// The number of nodes that may change the type of a column.
pub open spec fn retypes_in(nodes: Seq<SyntaxNode>, table: TableKey, column: Seq<char>) -> nat
    decreases nodes.len(),
{
    if nodes.len() == 0 {
        0
    } else {
        retypes_in(nodes.drop_last(), table, column) + if may_change_type_of(
            nodes.last(),
            table,
            column,
        ) {
            1nat
        } else {
            0
        }
    }
}

/// The number of times that a migration set may change the type of a column.
pub open spec fn retypes_in_set(
    roots: Seq<SyntaxNode>,
    table: TableKey,
    column: Seq<char>,
) -> nat
    decreases roots.len(),
{
    if roots.len() == 0 {
        0
    } else {
        retypes_in_set(roots.drop_last(), table, column) + retypes_in(
            descendants(roots.last()),
            table,
            column,
        )
    }
}

/// The number of type changes of a column in a sequence of events.
spec fn count_retypes(events: Seq<EventView>, table: TableKey, column: Seq<char>) -> nat
    decreases events.len(),
{
    if events.len() == 0 {
        0
    } else {
        count_retypes(events.drop_last(), table, column) + if events.last() is Retyped && touches(
            events.last(),
            table,
            column,
        ) {
            1nat
        } else {
            0
        }
    }
}

proof fn lemma_count_concat(
    a: Seq<EventView>,
    b: Seq<EventView>,
    table: TableKey,
    column: Seq<char>,
)
    ensures
        count_retypes(a + b, table, column) == count_retypes(a, table, column) + count_retypes(
            b,
            table,
            column,
        ),
    decreases b.len(),
{
    if b.len() == 0 {
        assert(a + b =~= a);
    } else {
        lemma_count_concat(a, b.drop_last(), table, column);
        assert((a + b).drop_last() =~= a + b.drop_last());
        assert((a + b).last() == b.last());
    }
}

proof fn lemma_count_history(events: Seq<EventView>, table: TableKey, column: Seq<char>)
    ensures
        count_retypes(column_history(events, table, column), table, column) == count_retypes(
            events,
            table,
            column,
        ),
    decreases events.len(),
{
    if events.len() > 0 {
        lemma_count_history(events.drop_last(), table, column);
        let earlier = column_history(events.drop_last(), table, column);
        if touches(events.last(), table, column) {
            assert(earlier.push(events.last()).drop_last() =~= earlier);
        }
    }
}

proof fn lemma_declarations_retype_nothing(
    declared: TableKey,
    nodes: Seq<SyntaxNode>,
    known: bool,
    table: TableKey,
    column: Seq<char>,
)
    ensures
        count_retypes(declarations(declared, nodes, known), table, column) == 0,
    decreases nodes.len(),
{
    if nodes.len() > 0 {
        let earlier = declarations(declared, nodes.drop_last(), known);
        let last = declaration(declared, nodes.last(), known);
        lemma_declarations_retype_nothing(declared, nodes.drop_last(), known, table, column);
        lemma_declaration_retypes_nothing(declared, nodes.last(), known, table, column);
        lemma_count_concat(earlier, last, table, column);
    }
}

proof fn lemma_declaration_retypes_nothing(
    declared: TableKey,
    node: SyntaxNode,
    known: bool,
    table: TableKey,
    column: Seq<char>,
)
    ensures
        count_retypes(declaration(declared, node, known), table, column) == 0,
{
    reveal_with_fuel(count_retypes, 2);
}

proof fn lemma_count_node(node: SyntaxNode, own: bool, table: TableKey, column: Seq<char>)
    ensures
        count_retypes(node_events(node, own), table, column) == (if may_change_type_of(
            node,
            table,
            column,
        ) {
            1nat
        } else {
            0
        }),
{
    reveal_with_fuel(count_retypes, 2);
    match node.class {
        NodeClass::CreateTableStmt { table: Some(t), .. } => {
            lemma_declarations_retype_nothing(
                table_key(t),
                child_nodes(node),
                !conditional(node),
                table,
                column,
            );
        },
        NodeClass::AlterTableAction { action, table: Some(t), .. } => {
            if action is AddColumn {
                if let Some(added) = child_in_role(node, Role::Column) {
                    lemma_declaration_retypes_nothing(
                        table_key(t),
                        added,
                        !conditional(node),
                        table,
                        column,
                    );
                }
            }
        },
        _ => {},
    }
}

proof fn lemma_count_unsettled(
    events: Seq<EventView>,
    n: int,
    table: TableKey,
    column: Seq<char>,
)
    ensures
        count_retypes(unsettled_from(events, n), table, column) == count_retypes(
            events,
            table,
            column,
        ),
    decreases events.len(),
{
    if events.len() > 0 {
        lemma_count_unsettled(events.drop_last(), n, table, column);
        assert(unsettled_from(events, n).drop_last() =~= unsettled_from(events.drop_last(), n));
    }
}

proof fn lemma_count_nodes(
    nodes: Seq<SyntaxNode>,
    own: bool,
    table: TableKey,
    column: Seq<char>,
)
    ensures
        count_retypes(file_events(nodes, own), table, column) == retypes_in(nodes, table, column),
    decreases nodes.len(),
{
    if nodes.len() > 0 {
        let before = file_history(nodes.drop_last(), own);
        lemma_count_nodes(nodes.drop_last(), own, table, column);
        if rolls_back(nodes.last()) {
            lemma_count_unsettled(
                before.events,
                match before.begun {
                    Some(n) => n as int,
                    None => 0,
                },
                table,
                column,
            );
        } else {
            lemma_count_node(nodes.last(), own, table, column);
            lemma_count_concat(before.events, node_events(nodes.last(), own), table, column);
        }
    }
}

proof fn lemma_count_set(roots: Seq<SyntaxNode>, table: TableKey, column: Seq<char>)
    ensures
        count_retypes(migration_events(roots), table, column) == retypes_in_set(
            roots,
            table,
            column,
        ),
    decreases roots.len(),
{
    if roots.len() > 0 {
        lemma_count_set(roots.drop_last(), table, column);
        lemma_count_nodes(descendants(roots.last()), false, table, column);
        lemma_count_concat(
            migration_events(roots.drop_last()),
            file_events(descendants(roots.last()), false),
            table,
            column,
        );
    }
}

/// MG06 flags a type change exactly when the history does not prove that it is a safe
/// widening: what is not proven safe is flagged.
pub proof fn unproven_type_change_is_flagged(root: SyntaxNode, columns: Seq<EventView>, i: int)
    requires
        descendants(root)[i].class matches NodeClass::AlterTableAction { changes_type, .. }
            && changes_type,
    ensures
        AlterColumnType.found_at(root, columns, i).len() == (if widens_safely(
            descendants(root),
            i,
            columns,
        ) {
            0nat
        } else {
            1
        }),
{
}

/// Whether the history of a column is that it is declared with the type `from` and then
/// changed to the type `to`.
pub open spec fn changed_once(
    columns: Seq<EventView>,
    table: TableKey,
    column: Seq<char>,
    from: Seq<char>,
    to: Seq<char>,
) -> bool {
    column_history(columns, table, column) == seq![
        EventView::Declared { table, column, ty: from },
        EventView::Retyped { table, column, ty: to },
    ]
}

/// The one type change of a column is not flagged if it is a safe widening, made without a
/// `USING` expression.
pub proof fn safe_widening_is_not_flagged(
    root: SyntaxNode,
    columns: Seq<EventView>,
    i: int,
    table: TableKey,
    column: Seq<char>,
    from: Seq<char>,
)
    requires
        changes_type_of(descendants(root)[i], table, column),
        changed_once(
            telling_events(descendants(root), i, table, columns),
            table,
            column,
            from,
            type_text(descendants(root)[i]),
        ),
        safe_widening(from, type_text(descendants(root)[i])),
        !has_kind(descendant_tokens(descendants(root)[i]), TokenKind::UsingKw),
    ensures
        AlterColumnType.found_at(root, columns, i).len() == 0,
{
}

/// The one type change of a column is flagged if it is a narrowing: a change whose reverse
/// is a safe widening, between types that do not have the same length limit.
pub proof fn narrowing_is_flagged(
    root: SyntaxNode,
    columns: Seq<EventView>,
    i: int,
    table: TableKey,
    column: Seq<char>,
    from: Seq<char>,
)
    requires
        changes_type_of(descendants(root)[i], table, column),
        changed_once(
            telling_events(descendants(root), i, table, columns),
            table,
            column,
            from,
            type_text(descendants(root)[i]),
        ),
        safe_widening(type_text(descendants(root)[i]), from),
        varchar_length(from) is None || varchar_length(from) != varchar_length(
            type_text(descendants(root)[i]),
        ),
    ensures
        AlterColumnType.found_at(root, columns, i).len() == 1,
{
    narrowing_is_not_safe(from, type_text(descendants(root)[i]));
}

/// An unknown type does not widen safely to any type.
proof fn lemma_unknown_type(to: Seq<char>)
    ensures
        !safe_widening(seq![], to),
{
    let unknown = Seq::<char>::empty();
    assert(lower(unknown) =~= unknown);
    assert(unknown.take(0) =~= unknown);
    assert(words(unknown) =~= seq![]);
    assert(base_words(unknown).len() == 0);
    reveal_strlit("int");
    reveal_strlit("integer");
    reveal_strlit("int4");
    reveal_strlit("real");
    reveal_strlit("float4");
    reveal_strlit("varchar");
    reveal_strlit("character varying");
}

/// Whether no event declares a column with a known type.
pub open spec fn leaves_type_unknown(
    events: Seq<EventView>,
    table: TableKey,
    column: Seq<char>,
) -> bool {
    forall|k: int|
        0 <= k < events.len() ==> (#[trigger] events[k] matches EventView::Declared {
            table: t,
            column: c,
            ty,
        } ==> (t == table && c == column ==> ty.len() == 0))
}

/// A type change of a column whose type is unknown is flagged: no migration declares it, or
/// those that do leave its type unknown.
pub proof fn unknown_type_is_flagged(
    root: SyntaxNode,
    columns: Seq<EventView>,
    i: int,
    table: TableKey,
    column: Seq<char>,
)
    requires
        changes_type_of(descendants(root)[i], table, column),
        leaves_type_unknown(telling_events(descendants(root), i, table, columns), table, column),
    ensures
        AlterColumnType.found_at(root, columns, i).len() == 1,
{
    let events = telling_events(descendants(root), i, table, columns);
    let history = column_history(events, table, column);
    lemma_history_from_events(events, table, column);
    lemma_unknown_type(type_text(descendants(root)[i]));
    if history.len() == 2 && history[0] is Declared && history[0]->Declared_table == table {
        let k = choose|k: int| 0 <= k < events.len() && events[k] == history[0];
        assert(touches(events[k], table, column));
        assert(history[0]->Declared_ty =~= seq![]);
    }
}

proof fn lemma_history_from_events(events: Seq<EventView>, table: TableKey, column: Seq<char>)
    ensures
        forall|i: int|
            0 <= i < column_history(events, table, column).len() ==> touches(
                #[trigger] column_history(events, table, column)[i],
                table,
                column,
            ) && events.contains(column_history(events, table, column)[i]),
    decreases events.len(),
{
    if events.len() > 0 {
        lemma_history_from_events(events.drop_last(), table, column);
        let earlier = column_history(events.drop_last(), table, column);
        let history = column_history(events, table, column);
        assert forall|i: int| 0 <= i < history.len() implies touches(
            #[trigger] history[i],
            table,
            column,
        ) && events.contains(history[i]) by {
            if i < earlier.len() {
                assert(history[i] == earlier[i]);
                let k = choose|k: int|
                    0 <= k < events.drop_last().len() && events.drop_last()[k] == earlier[i];
                assert(events[k] == earlier[i]);
            } else {
                assert(events[events.len() - 1] == history[i]);
            }
        }
    }
}

/// Every type change of a column whose type the migration set may change more than once, under
/// any name that the table may go by, is flagged. For a temporary table that the file has
/// created, only the file counts.
pub proof fn column_retyped_twice_is_flagged(
    roots: Seq<SyntaxNode>,
    root: SyntaxNode,
    i: int,
    table: TableKey,
    column: Seq<char>,
)
    requires
        changes_type_of(descendants(root)[i], table, column),
        (if temporary_before(descendants(root), i, table) {
            retypes_in(descendants(root), table, column)
        } else {
            retypes_in_set(roots, table, column)
        }) > 1,
    ensures
        AlterColumnType.found_at(root, migration_events(roots), i).len() == 1,
{
    let events = telling_events(descendants(root), i, table, migration_events(roots));
    let history = column_history(events, table, column);
    lemma_count_set(roots, table, column);
    lemma_count_nodes(descendants(root), true, table, column);
    lemma_count_history(events, table, column);
    if history.len() == 2 && history[0] is Declared {
        assert(history.drop_last().drop_last() =~= seq![]);
        reveal_with_fuel(count_retypes, 3);
    }
}

proof fn lemma_begun_within(nodes: Seq<SyntaxNode>, own: bool)
    ensures
        file_history(nodes, own).begun matches Some(n) ==> n <= file_events(nodes, own).len(),
    decreases nodes.len(),
{
    if nodes.len() > 0 {
        lemma_begun_within(nodes.drop_last(), own);
    }
}

/// A rollback leaves alone what the file has declared before the opening of the transaction
/// that it undoes.
pub proof fn rollback_keeps_earlier_declarations(nodes: Seq<SyntaxNode>, own: bool)
    requires
        nodes.len() > 0,
        rolls_back(nodes.last()),
        file_history(nodes.drop_last(), own).begun is Some,
    ensures
        ({
            let n = file_history(nodes.drop_last(), own).begun->0 as int;
            file_events(nodes, own).take(n) == file_events(nodes.drop_last(), own).take(n)
        }),
{
    lemma_begun_within(nodes.drop_last(), own);
    let n = file_history(nodes.drop_last(), own).begun->0 as int;
    assert(file_events(nodes, own).take(n) =~= file_events(nodes.drop_last(), own).take(n));
}

/// The events of two migration sets, one after the other, are those of the first and then
/// those of the second.
pub proof fn events_of_joined_sets(a: Seq<SyntaxNode>, b: Seq<SyntaxNode>)
    ensures
        migration_events(a + b) == migration_events(a) + migration_events(b),
    decreases b.len(),
{
    if b.len() == 0 {
        assert(a + b =~= a);
        assert(migration_events(a) + migration_events(b) =~= migration_events(a));
    } else {
        events_of_joined_sets(a, b.drop_last());
        assert((a + b).drop_last() =~= a + b.drop_last());
        assert(migration_events(a) + migration_events(b) =~= migration_events(a + b.drop_last())
            + file_events(descendants(b.last()), false));
    }
}

proof fn lemma_type_names_differ()
    ensures
        forall|t: Seq<char>| is_int(t) ==> !is_real(t) && !is_bigint(t) && !is_double(t),
        forall|t: Seq<char>| is_bigint(t) ==> !is_real(t) && !is_double(t),
        forall|t: Seq<char>| is_real(t) ==> !is_double(t),
        forall|t: Seq<char>|
            is_int(t) || is_bigint(t) || is_real(t) || is_double(t) || plain_type(t, "text"@)
                ==> varchar_length(t) is None,
        forall|t: Seq<char>|
            plain_type(t, "text"@) ==> !is_int(t) && !is_bigint(t) && !is_real(t) && !is_double(t),
{
    reveal_strlit("int");
    reveal_strlit("integer");
    reveal_strlit("int4");
    reveal_strlit("bigint");
    reveal_strlit("int8");
    reveal_strlit("real");
    reveal_strlit("float4");
    reveal_strlit("double precision");
    reveal_strlit("float8");
    reveal_strlit("text");
    reveal_strlit("varchar");
    reveal_strlit("character varying");
    assert("int"@.len() == 3 && "integer"@.len() == 7 && "int4"@.len() == 4);
    assert("bigint"@.len() == 6 && "int8"@.len() == 4);
    assert("real"@.len() == 4 && "float4"@.len() == 6);
    assert("double precision"@.len() == 16 && "float8"@.len() == 6);
    assert("text"@.len() == 4 && "varchar"@.len() == 7 && "character varying"@.len() == 17);
    assert("int4"@[3] != "int8"@[3]);
    assert("float4"@[5] != "float8"@[5]);
    assert("int4"@[0] != "real"@[0]);
    assert("int8"@[0] != "real"@[0]);
    assert("bigint"@[0] != "float4"@[0]);
    assert("bigint"@[0] != "float8"@[0]);
    assert("text"@[0] != "int4"@[0]);
    assert("text"@[0] != "int8"@[0]);
    assert("text"@[0] != "real"@[0]);
    assert("integer"@[0] != "varchar"@[0]);
}

/// Safe widenings compose.
pub proof fn safe_widening_is_transitive(a: Seq<char>, b: Seq<char>, c: Seq<char>)
    requires
        safe_widening(a, b),
        safe_widening(b, c),
    ensures
        safe_widening(a, c),
{
    lemma_type_names_differ();
}

/// A change that undoes a safe widening is none itself, unless the two types have the
/// same length limit.
pub proof fn narrowing_is_not_safe(from: Seq<char>, to: Seq<char>)
    requires
        safe_widening(to, from),
    ensures
        safe_widening(from, to) <==> varchar_length(from) is Some && varchar_length(from)
            == varchar_length(to),
{
    lemma_type_names_differ();
}

} // verus!
