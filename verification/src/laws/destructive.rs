//! What holds of the statements that destroy or rename what is deployed.

use crate::diagnostic::{Finding, RuleCode, Severity};
use crate::fresh::created_before;
use crate::history::EventView;
use crate::laws::new_tables::never_created_table_is_not_new;
use crate::migration::destructive::{
    AlterColumnType, DropDatabase, DropTable, Rename, TruncateCascade,
};
use crate::names::{fold, table_key, TableKey};
use crate::rule::NodeRule;
use crate::syntax::{
    child_tokens, descendants, NodeClass, RenameTarget, SyntaxNode, TokenKind,
};
use vstd::prelude::*;

verus! {

/// A node is flagged by MG16, once and at itself, exactly if it is a `DROP TABLE` that names no
/// table or some table that is not one that the file has created. Nothing else that is written
/// in the statement matters, nor how many tables it names.
pub proof fn dropped_table_is_flagged(root: SyntaxNode, columns: Seq<EventView>, i: int)
    requires
        0 <= i < descendants(root).len(),
    ensures
        DropTable.found_at(root, columns, i) == if (
        descendants(root)[i].class matches NodeClass::DropStmt {
            object: Some(TokenKind::TableKw),
            names,
            ..
        } && (names@.len() == 0 || exists|k: int|
            0 <= k < names@.len() && !created_before(
                descendants(root),
                i,
                table_key(#[trigger] names@[k]),
            ))) {
            seq![
                (Finding {
                    severity: Severity::Warning,
                    code: Some(RuleCode::Mg16),
                    message: "DROP TABLE destroys the table and everything depending on it"@,
                    range: Some(descendants(root)[i].range),
                    fixes: seq![],
                }),
            ]
        } else {
            seq![]
        },
{
}

/// A `DROP TABLE` with any number of names, with or without `IF EXISTS`, is flagged if one of
/// the names is of a table that no statement before it creates and that no statement before it
/// gives that name: whether the file creates the other tables does not matter.
pub proof fn dropping_a_deployed_table_is_flagged(
    root: SyntaxNode,
    columns: Seq<EventView>,
    i: int,
    k: int,
    table: TableKey,
)
    requires
        0 <= i < descendants(root).len(),
        descendants(root)[i].class matches NodeClass::DropStmt {
            object: Some(TokenKind::TableKw),
            names,
            ..
        } && 0 <= k < names@.len() && table_key(names@[k]) == table,
        forall|j: int|
            0 <= j < i ==> !((
            #[trigger] descendants(root)[j]).class matches NodeClass::CreateTableStmt {
                table: Some(name),
                ..
            } && table_key(name) == table && forall|t: int|
                0 <= t < child_tokens(descendants(root)[j]).len() ==> !((#[trigger] child_tokens(
                    descendants(root)[j],
                )[t]).kind is IfKw)),
        forall|j: int|
            0 <= j < i ==> !((#[trigger] descendants(root)[j]).class matches NodeClass::AlterStmt {
                rename: Some(RenameTarget::Object { to }),
                ..
            } && fold(to@) == table.name),
        forall|j: int|
            0 <= j < i ==> !((#[trigger] descendants(root)[j]).class matches NodeClass::AlterStmt {
                rename: Some(RenameTarget::Schema { new, .. }),
                ..
            } && table.schema == Some(fold(new@))),
        forall|j: int|
            0 <= j < i ==> !((#[trigger] descendants(root)[j]).class matches NodeClass::AlterStmt {
                new_schema: Some(schema),
                ..
            } && table.schema == Some(fold(schema@))),
    ensures
        DropTable.found_at(root, columns, i) == seq![
            (Finding {
                severity: Severity::Warning,
                code: Some(RuleCode::Mg16),
                message: "DROP TABLE destroys the table and everything depending on it"@,
                range: Some(descendants(root)[i].range),
                fixes: seq![],
            }),
        ],
{
    never_created_table_is_not_new(descendants(root), i, table);
    dropped_table_is_flagged(root, columns, i);
}

/// A node is flagged by MG18, once and at itself, exactly if it is a `DROP DATABASE`.
pub proof fn dropped_database_is_flagged(root: SyntaxNode, columns: Seq<EventView>, i: int)
    requires
        0 <= i < descendants(root).len(),
    ensures
        DropDatabase.found_at(root, columns, i) == if (
        descendants(root)[i].class matches NodeClass::DropStmt {
            object: Some(TokenKind::DatabaseKw),
            ..
        }) {
            seq![
                (Finding {
                    severity: Severity::Warning,
                    code: Some(RuleCode::Mg18),
                    message: "DROP DATABASE destroys the whole database and all its data"@,
                    range: Some(descendants(root)[i].range),
                    fixes: seq![],
                }),
            ]
        } else {
            seq![]
        },
{
}

/// A node is flagged by MG08, once and at itself, exactly if it is a `TRUNCATE … CASCADE`.
pub proof fn cascading_truncate_is_flagged(root: SyntaxNode, columns: Seq<EventView>, i: int)
    requires
        0 <= i < descendants(root).len(),
    ensures
        TruncateCascade.found_at(root, columns, i) == if (
        descendants(root)[i].class matches NodeClass::TruncateStmt { cascade: true }) {
            seq![
                (Finding {
                    severity: Severity::Warning,
                    code: Some(RuleCode::Mg08),
                    message:
                        "TRUNCATE ... CASCADE also empties every table with a foreign key into the targets"@,
                    range: Some(descendants(root)[i].range),
                    fixes: seq![],
                }),
            ]
        } else {
            seq![]
        },
{
}

/// A node is flagged by MG07, once and at itself, exactly if it renames a column, a schema, or
/// the altered object itself; a rename of a constraint is not flagged.
pub proof fn rename_is_flagged(root: SyntaxNode, columns: Seq<EventView>, i: int)
    requires
        0 <= i < descendants(root).len(),
    ensures
        ({
            let message = match descendants(root)[i].class {
                NodeClass::AlterStmt { rename: Some(RenameTarget::Object { .. }), .. } => Some(
                    "RENAME of a table breaks code that still refers to the old name"@,
                ),
                NodeClass::AlterStmt { rename: Some(RenameTarget::Schema { .. }), .. } => Some(
                    "RENAME of a table breaks code that still refers to the old name"@,
                ),
                NodeClass::AlterStmt { rename: Some(RenameTarget::Column { .. }), .. } => Some(
                    "RENAME of a column or constraint breaks code that still refers to the old name"@,
                ),
                _ => None,
            };
            Rename.found_at(root, columns, i) == match message {
                Some(message) => seq![
                    (Finding {
                        severity: Severity::Warning,
                        code: Some(RuleCode::Mg07),
                        message,
                        range: Some(descendants(root)[i].range),
                        fixes: seq![],
                    }),
                ],
                None => seq![],
            }
        }),
{
    reveal_strlit("RENAME of ");
    reveal_strlit("a table");
    reveal_strlit("a column or constraint");
    reveal_strlit(" breaks code that still refers to the old name");
    reveal_strlit("RENAME of a table breaks code that still refers to the old name");
    reveal_strlit("RENAME of a column or constraint breaks code that still refers to the old name");
    assert("RENAME of "@ + "a table"@ + " breaks code that still refers to the old name"@
        =~= "RENAME of a table breaks code that still refers to the old name"@);
    assert("RENAME of "@ + "a column or constraint"@
        + " breaks code that still refers to the old name"@
        =~= "RENAME of a column or constraint breaks code that still refers to the old name"@);
}

/// A node is flagged by MG06 at most once, and then at itself; a node that changes no type is
/// not.
pub proof fn type_change_is_flagged_at_most_once(
    root: SyntaxNode,
    columns: Seq<EventView>,
    i: int,
)
    requires
        0 <= i < descendants(root).len(),
    ensures
        AlterColumnType.found_at(root, columns, i).len() == 0 || AlterColumnType.found_at(
            root,
            columns,
            i,
        ) == seq![
            (Finding {
                severity: Severity::Warning,
                code: Some(RuleCode::Mg06),
                message: "ALTER COLUMN TYPE rewrites the table under an exclusive lock"@,
                range: Some(descendants(root)[i].range),
                fixes: seq![],
            }),
        ],
        !(descendants(root)[i].class matches NodeClass::AlterTableAction {
            changes_type: true,
            ..
        }) ==> AlterColumnType.found_at(root, columns, i).len() == 0,
{
}

} // verus!
