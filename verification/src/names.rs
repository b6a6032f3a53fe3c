//! Identifiers: the names that identifiers as written stand for, and the statements that
//! change which table goes by a name.

use crate::syntax::{NodeClass, RenameTarget, SyntaxNode, TableName};
use crate::text::{chars_of, collapse_quotes, collapsed, lower, same_text, to_lower};
use vstd::prelude::*;

verus! {

/// Whether an identifier is written in double quotes.
pub open spec fn quoted(raw: Seq<char>) -> bool {
    raw.len() >= 2 && raw[0] == '"' && raw.last() == '"'
}

/// The name that an identifier stands for: a quoted one stands for what is between
/// the quotes, any other one for its lower-case form.
pub open spec fn fold(raw: Seq<char>) -> Seq<char> {
    if quoted(raw) {
        collapse_quotes(raw.subrange(1, raw.len() - 1))
    } else {
        lower(raw)
    }
}

/// The table that a name stands for, as a mathematical value.
pub ghost struct TableKey {
    pub schema: Option<Seq<char>>,
    pub name: Seq<char>,
}

/// The table that a name as written stands for. Since the `search_path` is not known, a name
/// without a schema may stand for the table of that name in any schema.
pub open spec fn table_key(table: TableName) -> TableKey {
    TableKey {
        schema: match table.schema {
            Some(schema) => Some(fold(schema@)),
            None => None,
        },
        name: fold(table.name@),
    }
}

/// Whether two names may stand for the same table.
pub open spec fn may_be_same(a: TableKey, b: TableKey) -> bool {
    a.name == b.name && (a.schema is None || b.schema is None || a.schema == b.schema)
}

/// A change of which table goes by a name, as a mathematical value.
pub ghost enum NameChangeView {
    Table { from: TableKey, to: TableKey },
    Schema { old: Seq<char>, new: Seq<char> },
    SearchPath,
}

/// Whether a statement sets the `search_path`: `SET` or `RESET` of it, `RESET ALL`, or a call
/// of `set_config`, which may be about any parameter.
pub open spec fn sets_search_path(node: SyntaxNode) -> bool {
    match node.class {
        NodeClass::SetStmt { parameter: Some(parameter) } => fold(parameter@) == "search_path"@,
        NodeClass::SetStmt { parameter: None } => true,
        NodeClass::FuncCall { name: Some(name) } => fold(name@) == "set_config"@,
        _ => false,
    }
}

/// How a statement changes which table goes by a name: it renames a table, moves it to another
/// schema, renames a schema, or sets the `search_path`.
pub open spec fn name_change(node: SyntaxNode) -> Option<NameChangeView> {
    match node.class {
        NodeClass::AlterStmt { rename: Some(RenameTarget::Schema { old, new }), .. } => Some(
            NameChangeView::Schema { old: fold(old@), new: fold(new@) },
        ),
        NodeClass::AlterStmt { table: Some(table), rename: Some(RenameTarget::Object { to }), .. }
            => Some(
            NameChangeView::Table {
                from: table_key(table),
                to: TableKey { name: fold(to@), ..table_key(table) },
            },
        ),
        NodeClass::AlterStmt { table: Some(table), new_schema: Some(schema), .. } => Some(
            NameChangeView::Table {
                from: table_key(table),
                to: TableKey { schema: Some(fold(schema@)), ..table_key(table) },
            },
        ),
        _ => if sets_search_path(node) {
            Some(NameChangeView::SearchPath)
        } else {
            None
        },
    }
}

/// Whether, after a change, another table than before may go by the name of `table`.
pub open spec fn may_affect(change: NameChangeView, table: TableKey) -> bool {
    match change {
        NameChangeView::Table { from, to } => may_be_same(from, table) || may_be_same(to, table),
        NameChangeView::Schema { old, new } => table.schema is None || table.schema == Some(old)
            || table.schema == Some(new),
        NameChangeView::SearchPath => table.schema is None,
    }
}

/// The name that a table goes by after a change, if that is certain: the change is about
/// exactly that name, or may not affect it.
pub open spec fn name_after(change: NameChangeView, table: TableKey) -> Option<TableKey> {
    match change {
        NameChangeView::Table { from, to } if from == table => Some(to),
        NameChangeView::Schema { old, new } if table.schema == Some(old) => Some(
            TableKey { schema: Some(new), ..table },
        ),
        _ => if may_affect(change, table) {
            None
        } else {
            Some(table)
        },
    }
}

/// The table that a name stands for.
#[derive(Debug)]
pub struct NameKey {
    pub schema: Option<String>,
    pub name: String,
}

impl View for NameKey {
    type V = TableKey;

    open spec fn view(&self) -> TableKey {
        TableKey {
            schema: match self.schema {
                Some(schema) => Some(schema@),
                None => None,
            },
            name: self.name@,
        }
    }
}

/// The name that an identifier stands for.
pub fn folded(raw: &str) -> (r: String)
    ensures
        r@ == fold(raw@),
{
    let chars = chars_of(raw);
    if chars.len() >= 2 && chars[0] == '"' && chars[chars.len() - 1] == '"' {
        collapsed(&chars, 1, chars.len() - 1)
    } else {
        to_lower(raw)
    }
}

impl NameKey {
    /// The table that a name as written stands for.
    pub fn of(table: &TableName) -> (r: NameKey)
        ensures
            r@ == table_key(*table),
    {
        NameKey {
            schema: match &table.schema {
                Some(schema) => Some(folded(schema.as_str())),
                None => None,
            },
            name: folded(table.name.as_str()),
        }
    }

    /// Whether two keys stand for the same table.
    pub fn same(&self, other: &NameKey) -> (r: bool)
        ensures
            r == (self@ == other@),
    {
        let same_schema = match (&self.schema, &other.schema) {
            (Some(a), Some(b)) => *a == *b,
            (None, None) => true,
            _ => false,
        };
        same_schema && self.name == other.name
    }

    /// The same key once more.
    pub fn copy(&self) -> (r: NameKey)
        ensures
            r@ == self@,
    {
        NameKey {
            schema: match &self.schema {
                Some(schema) => Some(schema.clone()),
                None => None,
            },
            name: self.name.clone(),
        }
    }

    /// Whether two keys may stand for the same table.
    pub fn may_be(&self, other: &NameKey) -> (r: bool)
        ensures
            r == may_be_same(self@, other@),
    {
        let schemas_agree = match (&self.schema, &other.schema) {
            (Some(a), Some(b)) => *a == *b,
            _ => true,
        };
        schemas_agree && self.name == other.name
    }
}

/// A change of which table goes by a name.
#[derive(Debug)]
pub enum NameChange {
    /// A table is renamed or moved to another schema.
    Table { from: NameKey, to: NameKey },
    /// A schema is renamed.
    Schema { old: String, new: String },
    /// The `search_path` is set.
    SearchPath,
}

impl View for NameChange {
    type V = NameChangeView;

    open spec fn view(&self) -> NameChangeView {
        match self {
            NameChange::Table { from, to } => NameChangeView::Table { from: from@, to: to@ },
            NameChange::Schema { old, new } => NameChangeView::Schema { old: old@, new: new@ },
            NameChange::SearchPath => NameChangeView::SearchPath,
        }
    }
}

fn is_setting_search_path(node: &SyntaxNode) -> (r: bool)
    ensures
        r == sets_search_path(*node),
{
    match &node.class {
        NodeClass::SetStmt { parameter: Some(parameter) } => same_text(
            folded(parameter.as_str()).as_str(),
            "search_path",
        ),
        NodeClass::SetStmt { parameter: None } => true,
        NodeClass::FuncCall { name: Some(name) } => same_text(
            folded(name.as_str()).as_str(),
            "set_config",
        ),
        _ => false,
    }
}

impl NameChange {
    /// How a statement changes which table goes by a name.
    pub fn of(node: &SyntaxNode) -> (r: Option<NameChange>)
        ensures
            match r {
                Some(change) => name_change(*node) == Some(change@),
                None => name_change(*node) is None,
            },
    {
        match &node.class {
            NodeClass::AlterStmt { rename: Some(RenameTarget::Schema { old, new }), .. } => Some(
                NameChange::Schema { old: folded(old.as_str()), new: folded(new.as_str()) },
            ),
            NodeClass::AlterStmt {
                table: Some(table),
                rename: Some(RenameTarget::Object { to }),
                ..
            } => {
                let from = NameKey::of(table);
                let to = NameKey { schema: NameKey::of(table).schema, name: folded(to.as_str()) };
                Some(NameChange::Table { from, to })
            },
            NodeClass::AlterStmt { table: Some(table), new_schema: Some(schema), .. } => {
                let from = NameKey::of(table);
                let to = NameKey {
                    schema: Some(folded(schema.as_str())),
                    name: NameKey::of(table).name,
                };
                Some(NameChange::Table { from, to })
            },
            _ => if is_setting_search_path(node) {
                Some(NameChange::SearchPath)
            } else {
                None
            },
        }
    }

    /// The name that a table goes by after the change, if that is certain.
    pub fn name_after(&self, table: &NameKey) -> (r: Option<NameKey>)
        ensures
            name_after(self@, table@) == match r {
                Some(key) => Some(key@),
                None => None,
            },
    {
        match self {
            NameChange::Table { from, to } => {
                if from.same(table) {
                    return Some(to.copy());
                }
            },
            NameChange::Schema { old, new } => {
                if let Some(schema) = &table.schema {
                    if *schema == *old {
                        return Some(
                            NameKey { schema: Some(new.clone()), name: table.name.clone() },
                        );
                    }
                }
            },
            NameChange::SearchPath => {},
        }
        if self.affects(table) {
            None
        } else {
            Some(table.copy())
        }
    }

    /// Whether, after the change, another table than before may go by the name of `table`.
    pub fn affects(&self, table: &NameKey) -> (r: bool)
        ensures
            r == may_affect(self@, table@),
    {
        match self {
            NameChange::Table { from, to } => from.may_be(table) || to.may_be(table),
            NameChange::Schema { old, new } => match &table.schema {
                Some(schema) => *schema == *old || *schema == *new,
                None => true,
            },
            NameChange::SearchPath => table.schema.is_none(),
        }
    }
}

} // verus!
