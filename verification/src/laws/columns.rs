//! What holds of columns that are added to a table or dropped from it.

use crate::diagnostic::{Finding, RuleCode, Severity};
use crate::fresh::created_before;
use crate::history::EventView;
use crate::laws::new_tables::never_created_table_is_not_new;
use crate::laws::trees::{lemma_child_in_role, lemma_no_child_in_role};
use crate::migration::column::{
    AddColumnNotNullNoDefault, AddColumnVolatileDefault, VOLATILE_DEFAULT_FUNCS,
};
use crate::migration::destructive::DropColumn;
use crate::names::{fold, table_key, TableKey};
use crate::rule::NodeRule;
use crate::syntax::{
    child_nodes, child_tokens, descendants, AlterActionKind, NodeClass, RenameTarget, Role,
    SyntaxNode,
};
use crate::text::lower;
use vstd::prelude::*;

verus! {

/// A column definition that is the first one below an action which adds a column is flagged by
/// MG04, once and at the action, exactly if it is `NOT NULL`, not generated and without a
/// default below it, and the table is not one that the file has created. Nothing else that is
/// written in the action matters.
pub proof fn added_column_without_a_value_is_flagged(
    root: SyntaxNode,
    columns: Seq<EventView>,
    i: int,
    c: int,
)
    requires
        0 <= i < descendants(root).len(),
        descendants(root)[i].class matches NodeClass::AlterTableAction {
            action: AlterActionKind::AddColumn,
            ..
        },
        0 <= c < child_nodes(descendants(root)[i]).len(),
        child_nodes(descendants(root)[i])[c].class is ColumnDef,
        forall|m: int|
            0 <= m < c ==> !((#[trigger] child_nodes(descendants(root)[i])[m]).class is ColumnDef),
    ensures
        ({
            let column = child_nodes(descendants(root)[i])[c];
            let flagged = (column.class matches NodeClass::ColumnDef {
                not_null: true,
                generated: false,
                ..
            }) && (forall|m: int|
                0 <= m < child_nodes(column).len() ==> !((#[trigger] child_nodes(
                    column,
                )[m]).class is DefaultExpr)) && !(
            descendants(root)[i].class matches NodeClass::AlterTableAction {
                table: Some(table),
                ..
            } && created_before(descendants(root), i, table_key(table)));
            AddColumnNotNullNoDefault.found_at(root, columns, i) == if flagged {
                seq![
                    (Finding {
                        severity: Severity::Warning,
                        code: Some(RuleCode::Mg04),
                        message:
                            "ADD COLUMN NOT NULL without a DEFAULT fails on a table that already has rows"@,
                        range: Some(descendants(root)[i].range),
                        fixes: seq![],
                    }),
                ]
            } else {
                seq![]
            }
        }),
{
    let column = child_nodes(descendants(root)[i])[c];
    lemma_child_in_role(descendants(root)[i], Role::Column, c);
    lemma_no_child_in_role(column, Role::Default);
}

/// A node that adds no column, because it is no action that adds one or has no column definition
/// below it, is flagged neither by MG03 nor by MG04.
pub proof fn no_added_column_is_not_flagged(root: SyntaxNode, columns: Seq<EventView>, i: int)
    requires
        0 <= i < descendants(root).len(),
        !(descendants(root)[i].class matches NodeClass::AlterTableAction {
            action: AlterActionKind::AddColumn,
            ..
        }) || forall|m: int|
            0 <= m < child_nodes(descendants(root)[i]).len() ==> !((#[trigger] child_nodes(
                descendants(root)[i],
            )[m]).class is ColumnDef),
    ensures
        AddColumnNotNullNoDefault.found_at(root, columns, i).len() == 0,
        AddColumnVolatileDefault.found_at(root, columns, i).len() == 0,
{
    lemma_no_child_in_role(descendants(root)[i], Role::Column);
}

proof fn lemma_volatile_names()
    ensures
        forall|k: int|
            0 <= k < 11 ==> lower((#[trigger] VOLATILE_DEFAULT_FUNCS@[k])@)
                == VOLATILE_DEFAULT_FUNCS@[k]@,
        VOLATILE_DEFAULT_FUNCS@.len() == 11,
        VOLATILE_DEFAULT_FUNCS@[0]@ == "now"@,
        VOLATILE_DEFAULT_FUNCS@[1]@ == "clock_timestamp"@,
        VOLATILE_DEFAULT_FUNCS@[2]@ == "statement_timestamp"@,
        VOLATILE_DEFAULT_FUNCS@[3]@ == "transaction_timestamp"@,
        VOLATILE_DEFAULT_FUNCS@[4]@ == "timeofday"@,
        VOLATILE_DEFAULT_FUNCS@[5]@ == "random"@,
        VOLATILE_DEFAULT_FUNCS@[6]@ == "gen_random_uuid"@,
        VOLATILE_DEFAULT_FUNCS@[7]@ == "uuid_generate_v1"@,
        VOLATILE_DEFAULT_FUNCS@[8]@ == "uuid_generate_v1mc"@,
        VOLATILE_DEFAULT_FUNCS@[9]@ == "uuid_generate_v4"@,
        VOLATILE_DEFAULT_FUNCS@[10]@ == "nextval"@,
{
    reveal_strlit("now");
    reveal_strlit("clock_timestamp");
    reveal_strlit("statement_timestamp");
    reveal_strlit("transaction_timestamp");
    reveal_strlit("timeofday");
    reveal_strlit("random");
    reveal_strlit("gen_random_uuid");
    reveal_strlit("uuid_generate_v1");
    reveal_strlit("uuid_generate_v1mc");
    reveal_strlit("uuid_generate_v4");
    reveal_strlit("nextval");
    assert(lower("now"@) =~= "now"@);
    assert(lower("clock_timestamp"@) =~= "clock_timestamp"@);
    assert(lower("statement_timestamp"@) =~= "statement_timestamp"@);
    assert(lower("transaction_timestamp"@) =~= "transaction_timestamp"@);
    assert(lower("timeofday"@) =~= "timeofday"@);
    assert(lower("random"@) =~= "random"@);
    assert(lower("gen_random_uuid"@) =~= "gen_random_uuid"@);
    assert(lower("uuid_generate_v1"@) =~= "uuid_generate_v1"@);
    assert(lower("uuid_generate_v1mc"@) =~= "uuid_generate_v1mc"@);
    assert(lower("uuid_generate_v4"@) =~= "uuid_generate_v4"@);
    assert(lower("nextval"@) =~= "nextval"@);
}

/// A column definition that is the first one below an action which adds a column, with the first
/// default below it, is flagged by MG03, once and at the action, exactly if somewhere in the
/// default a function is called whose name in lower case is one of those that give another value
/// at each call.
pub proof fn added_column_with_a_volatile_default_is_flagged(
    root: SyntaxNode,
    columns: Seq<EventView>,
    i: int,
    c: int,
    d: int,
)
    requires
        0 <= i < descendants(root).len(),
        descendants(root)[i].class matches NodeClass::AlterTableAction {
            action: AlterActionKind::AddColumn,
            ..
        },
        0 <= c < child_nodes(descendants(root)[i]).len(),
        child_nodes(descendants(root)[i])[c].class is ColumnDef,
        forall|m: int|
            0 <= m < c ==> !((#[trigger] child_nodes(descendants(root)[i])[m]).class is ColumnDef),
        0 <= d < child_nodes(child_nodes(descendants(root)[i])[c]).len(),
        child_nodes(child_nodes(descendants(root)[i])[c])[d].class is DefaultExpr,
        forall|m: int|
            0 <= m < d ==> !((#[trigger] child_nodes(
                child_nodes(descendants(root)[i])[c],
            )[m]).class is DefaultExpr),
    ensures
        ({
            let inner = descendants(child_nodes(child_nodes(descendants(root)[i])[c])[d]);
            let flagged = exists|k: int|
                0 <= k < inner.len() && ((#[trigger] inner[k]).class matches NodeClass::FuncCall {
                    name: Some(name),
                } && {
                    ||| lower(name@) == "now"@
                    ||| lower(name@) == "clock_timestamp"@
                    ||| lower(name@) == "statement_timestamp"@
                    ||| lower(name@) == "transaction_timestamp"@
                    ||| lower(name@) == "timeofday"@
                    ||| lower(name@) == "random"@
                    ||| lower(name@) == "gen_random_uuid"@
                    ||| lower(name@) == "uuid_generate_v1"@
                    ||| lower(name@) == "uuid_generate_v1mc"@
                    ||| lower(name@) == "uuid_generate_v4"@
                    ||| lower(name@) == "nextval"@
                });
            AddColumnVolatileDefault.found_at(root, columns, i) == if flagged {
                seq![
                    (Finding {
                        severity: Severity::Warning,
                        code: Some(RuleCode::Mg03),
                        message:
                            "ADD COLUMN with a volatile DEFAULT rewrites the whole table; add the column without a default, then backfill"@,
                        range: Some(descendants(root)[i].range),
                        fixes: seq![],
                    }),
                ]
            } else {
                seq![]
            }
        }),
{
    let column = child_nodes(descendants(root)[i])[c];
    lemma_child_in_role(descendants(root)[i], Role::Column, c);
    lemma_child_in_role(column, Role::Default, d);
    lemma_volatile_names();
}

/// An added column without a default is not flagged by MG03.
pub proof fn added_column_without_a_default_is_not_volatile(
    root: SyntaxNode,
    columns: Seq<EventView>,
    i: int,
    c: int,
)
    requires
        0 <= i < descendants(root).len(),
        0 <= c < child_nodes(descendants(root)[i]).len(),
        child_nodes(descendants(root)[i])[c].class is ColumnDef,
        forall|m: int|
            0 <= m < c ==> !((#[trigger] child_nodes(descendants(root)[i])[m]).class is ColumnDef),
        forall|m: int|
            0 <= m < child_nodes(child_nodes(descendants(root)[i])[c]).len() ==> !((
            #[trigger] child_nodes(child_nodes(descendants(root)[i])[c])[m]).class is DefaultExpr),
    ensures
        AddColumnVolatileDefault.found_at(root, columns, i).len() == 0,
{
    lemma_child_in_role(descendants(root)[i], Role::Column, c);
    lemma_no_child_in_role(child_nodes(descendants(root)[i])[c], Role::Default);
}

/// A node is flagged by MG05, once and at itself, exactly if it is an action that drops a column
/// of a table that is not one that the file has created. Nothing else that is written in the
/// action matters.
pub proof fn dropped_column_is_flagged(root: SyntaxNode, columns: Seq<EventView>, i: int)
    requires
        0 <= i < descendants(root).len(),
    ensures
        ({
            let flagged = (descendants(root)[i].class matches NodeClass::AlterTableAction {
                action: AlterActionKind::DropColumn,
                ..
            }) && !(descendants(root)[i].class matches NodeClass::AlterTableAction {
                table: Some(table),
                ..
            } && created_before(descendants(root), i, table_key(table)));
            DropColumn.found_at(root, columns, i) == if flagged {
                seq![
                    (Finding {
                        severity: Severity::Warning,
                        code: Some(RuleCode::Mg05),
                        message:
                            "DROP COLUMN destroys the column's data and breaks dependent objects"@,
                        range: Some(descendants(root)[i].range),
                        fixes: seq![],
                    }),
                ]
            } else {
                seq![]
            }
        }),
{
}

/// An action on a table that no statement before it creates, and that no statement before it gives
/// its name, has exactly one finding of MG05 if it drops a column, and exactly one of MG04 if it
/// adds one whose definition is `NOT NULL`, not generated and without a default below it,
/// whatever else is written in the action.
pub proof fn column_of_a_deployed_table_is_flagged(
    root: SyntaxNode,
    columns: Seq<EventView>,
    i: int,
    c: int,
    table: TableKey,
)
    requires
        0 <= i < descendants(root).len(),
        descendants(root)[i].class matches NodeClass::AlterTableAction { table: Some(name), .. }
            && table_key(name) == table,
        forall|j: int|
            0 <= j < i ==> !((
            #[trigger] descendants(root)[j]).class matches NodeClass::CreateTableStmt {
                table: Some(name),
                ..
            } && table_key(name) == table && forall|t: int|
                0 <= t < child_tokens(descendants(root)[j]).len() ==> !((#[trigger] child_tokens(
                    descendants(root)[j],
                )[t]).kind is IfKw)),
        forall|j: int|
            0 <= j < i ==> !((#[trigger] descendants(root)[j]).class matches NodeClass::AlterStmt {
                rename: Some(RenameTarget::Object { to }),
                ..
            } && fold(to@) == table.name),
        forall|j: int|
            0 <= j < i ==> !((#[trigger] descendants(root)[j]).class matches NodeClass::AlterStmt {
                rename: Some(RenameTarget::Schema { new, .. }),
                ..
            } && table.schema == Some(fold(new@))),
        forall|j: int|
            0 <= j < i ==> !((#[trigger] descendants(root)[j]).class matches NodeClass::AlterStmt {
                new_schema: Some(schema),
                ..
            } && table.schema == Some(fold(schema@))),
    ensures
        descendants(root)[i].class matches NodeClass::AlterTableAction {
            action: AlterActionKind::DropColumn,
            ..
        } ==> DropColumn.found_at(root, columns, i) == seq![
            (Finding {
                severity: Severity::Warning,
                code: Some(RuleCode::Mg05),
                message: "DROP COLUMN destroys the column's data and breaks dependent objects"@,
                range: Some(descendants(root)[i].range),
                fixes: seq![],
            }),
        ],
        (descendants(root)[i].class matches NodeClass::AlterTableAction {
            action: AlterActionKind::AddColumn,
            ..
        }) && 0 <= c < child_nodes(descendants(root)[i]).len() && (
        child_nodes(descendants(root)[i])[c].class matches NodeClass::ColumnDef {
            not_null: true,
            generated: false,
            ..
        }) && (forall|m: int|
            0 <= m < c ==> !((#[trigger] child_nodes(descendants(root)[i])[m]).class is ColumnDef))
            && (forall|m: int|
            0 <= m < child_nodes(child_nodes(descendants(root)[i])[c]).len() ==> !((
            #[trigger] child_nodes(child_nodes(descendants(root)[i])[c])[m]).class is DefaultExpr))
            ==> AddColumnNotNullNoDefault.found_at(root, columns, i) == seq![
            (Finding {
                severity: Severity::Warning,
                code: Some(RuleCode::Mg04),
                message:
                    "ADD COLUMN NOT NULL without a DEFAULT fails on a table that already has rows"@,
                range: Some(descendants(root)[i].range),
                fixes: seq![],
            }),
        ],
{
    never_created_table_is_not_new(descendants(root), i, table);
    dropped_column_is_flagged(root, columns, i);
    if (descendants(root)[i].class matches NodeClass::AlterTableAction {
        action: AlterActionKind::AddColumn,
        ..
    }) && 0 <= c < child_nodes(descendants(root)[i]).len() && child_nodes(
        descendants(root)[i],
    )[c].class is ColumnDef && (forall|m: int|
        0 <= m < c ==> !((#[trigger] child_nodes(descendants(root)[i])[m]).class is ColumnDef)) {
        added_column_without_a_value_is_flagged(root, columns, i, c);
    }
}

} // verus!
