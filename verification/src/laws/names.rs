//! What holds of the names of tables, and of the statements that change what a name stands for.

use crate::names::{
    fold, may_affect, may_be_same, name_after, name_change, table_key, NameChangeView, TableKey,
};
use crate::syntax::{NodeClass, RenameTarget, SyntaxNode, TableName};
use crate::text::{collapse_quotes, lower};
use vstd::prelude::*;

verus! {

/// An identifier in double quotes stands for what is between them, and any other one for its
/// lower-case form.
pub proof fn only_quoted_names_keep_their_case(raw: Seq<char>, inner: Seq<char>)
    ensures
        fold(seq!['"'] + inner + seq!['"']) == collapse_quotes(inner),
        raw.len() < 2 || raw[0] != '"' || raw[raw.len() - 1] != '"' ==> fold(raw) == lower(raw),
{
    let quoted = seq!['"'] + inner + seq!['"'];
    assert(quoted.subrange(1, quoted.len() - 1) =~= inner);
    assert(quoted.last() == '"');
}

/// Two table names stand for the same table exactly if their names do and their schemas do, or
/// neither has one.
pub proof fn table_names_are_compared_by_part(a: TableName, b: TableName)
    ensures
        table_key(a) == table_key(b) <==> fold(a.name@) == fold(b.name@) && match (
            a.schema,
            b.schema,
        ) {
            (Some(x), Some(y)) => fold(x@) == fold(y@),
            (None, None) => true,
            _ => false,
        },
        table_key(a).name == fold(a.name@),
        table_key(a).schema is None <==> a.schema is None,
        a.schema matches Some(x) ==> table_key(a).schema == Some(fold(x@)),
{
}

/// Two names may stand for the same table exactly if they are the same but for a schema that one
/// of them leaves out.
pub proof fn names_may_differ_by_a_missing_schema(a: TableKey, b: TableKey)
    ensures
        may_be_same(a, b) <==> a.name == b.name && !(a.schema is Some && b.schema is Some
            && a.schema->0 != b.schema->0),
        may_be_same(a, b) == may_be_same(b, a),
        may_be_same(a, a),
{
}

/// After the rename of a table, exactly that table goes by the new name, in the same schema. What
/// any other table goes by is not changed, except that it is not certain for one whose name may
/// be the old or the new one.
pub proof fn renamed_table_has_the_new_name(
    node: SyntaxNode,
    table: TableName,
    to: Seq<char>,
    key: TableKey,
)
    requires
        node.class matches NodeClass::AlterStmt {
            table: Some(t),
            rename: Some(RenameTarget::Object { to: new }),
            ..
        } && t == table && new@ == to,
    ensures
        name_change(node) is Some,
        ({
            let from = table_key(table);
            let new = TableKey { schema: from.schema, name: fold(to) };
            name_after(name_change(node)->0, key) == if key == from {
                Some(new)
            } else if may_be_same(from, key) || may_be_same(new, key) {
                None
            } else {
                Some(key)
            }
        }),
        may_affect(name_change(node)->0, key) <==> may_be_same(table_key(table), key)
            || may_be_same(
            (TableKey { schema: table_key(table).schema, name: fold(to) }),
            key,
        ),
{
}

/// After the move of a table to another schema, exactly that table goes by its name in the new
/// schema. What any other table goes by is not changed, except that it is not certain for one
/// whose name may be the old or the new one.
pub proof fn moved_table_has_the_new_schema(
    node: SyntaxNode,
    table: TableName,
    schema: Seq<char>,
    key: TableKey,
)
    requires
        node.class matches NodeClass::AlterStmt { table: Some(t), rename, new_schema: Some(s) }
            && t == table && s@ == schema && !(rename matches Some(RenameTarget::Object { .. }))
            && !(rename matches Some(RenameTarget::Schema { .. })),
    ensures
        name_change(node) is Some,
        ({
            let from = table_key(table);
            let new = TableKey { schema: Some(fold(schema)), name: from.name };
            name_after(name_change(node)->0, key) == if key == from {
                Some(new)
            } else if may_be_same(from, key) || may_be_same(new, key) {
                None
            } else {
                Some(key)
            }
        }),
        may_affect(name_change(node)->0, key) <==> may_be_same(table_key(table), key)
            || may_be_same(
            (TableKey { schema: Some(fold(schema)), name: table_key(table).name }),
            key,
        ),
{
}

/// After the rename of a schema, the tables of that schema go by the new one. What a table goes by
/// whose name has no schema, or the new one, is not certain.
pub proof fn renamed_schema_takes_its_tables(
    node: SyntaxNode,
    old_name: Seq<char>,
    new_name: Seq<char>,
    key: TableKey,
)
    requires
        node.class matches NodeClass::AlterStmt {
            rename: Some(RenameTarget::Schema { old: a, new: b }),
            ..
        } && a@ == old_name && b@ == new_name,
    ensures
        name_change(node) is Some,
        name_after(name_change(node)->0, key) == if key.schema == Some(fold(old_name)) {
            Some((TableKey { schema: Some(fold(new_name)), name: key.name }))
        } else if key.schema is None || key.schema == Some(fold(new_name)) {
            None
        } else {
            Some(key)
        },
        may_affect(name_change(node)->0, key) <==> key.schema is None || key.schema == Some(
            fold(old_name),
        ) || key.schema == Some(fold(new_name)),
{
}

/// After a statement that may set the `search_path`, it is not certain what a name without a
/// schema stands for; a name with one stands for the same table. Such a statement sets or resets
/// that parameter, or all of them, or calls `set_config`, whatever the case of the name.
pub proof fn search_path_matters_to_unqualified_names(node: SyntaxNode, key: TableKey)
    requires
        match node.class {
            NodeClass::SetStmt { parameter: Some(parameter) } => fold(parameter@)
                == "search_path"@,
            NodeClass::SetStmt { parameter: None } => true,
            NodeClass::FuncCall { name: Some(name) } => fold(name@) == "set_config"@,
            _ => false,
        },
    ensures
        name_change(node) == Some(NameChangeView::SearchPath),
        name_after(NameChangeView::SearchPath, key) == if key.schema is None {
            None
        } else {
            Some(key)
        },
        may_affect(NameChangeView::SearchPath, key) <==> key.schema is None,
{
}

/// No other statement changes what a name stands for.
pub proof fn other_statements_change_no_name(node: SyntaxNode)
    requires
        match node.class {
            NodeClass::SetStmt { parameter: Some(parameter) } => fold(parameter@)
                != "search_path"@,
            NodeClass::SetStmt { parameter: None } => false,
            NodeClass::FuncCall { name: Some(name) } => fold(name@) != "set_config"@,
            NodeClass::AlterStmt { rename: Some(RenameTarget::Schema { .. }), .. } => false,
            NodeClass::AlterStmt { table: None, .. } => true,
            NodeClass::AlterStmt { rename: Some(RenameTarget::Object { .. }), .. } => false,
            NodeClass::AlterStmt { new_schema, .. } => new_schema is None,
            _ => true,
        },
    ensures
        name_change(node) is None,
{
}

} // verus!
