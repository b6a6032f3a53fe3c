//! Changes that break code or data that the deployed application depends on.

use crate::diagnostic::{warn, warning_at, BuiltinLintPack, Finding, RuleCode};
use crate::fresh::{
    created_before, is_created_before, is_temporary_before, temporary_before,
};
use crate::history::{
    collect_own_columns, file_events, proven_widening, type_text, type_text_of, EventView,
    MigrationColumns,
};
use crate::migration::column::{alters_new_table, is_altering_new_table};
use crate::names::{fold, table_key, TableKey};
use crate::rule::{
    found_in_tree, lemma_found_own, visit, Analyzer, NodeRule, Outline, Rule,
};
use crate::syntax::{
    descendant_tokens, descendants, has_kind, AlterActionKind, NodeClass, RenameTarget, SyntaxNode,
    TableName, TokenKind,
};
use vstd::prelude::*;
use vstd::string::StringExecFns;

verus! {

pub const DROP_COLUMN_DESTROYS: &'static str =
    "DROP COLUMN destroys the column's data and breaks dependent objects";

pub const ALTER_TYPE_REWRITES: &'static str =
    "ALTER COLUMN TYPE rewrites the table under an exclusive lock";

pub const TRUNCATE_CASCADES: &'static str =
    "TRUNCATE ... CASCADE also empties every table with a foreign key into \
     the targets";

pub const DROP_TABLE_DESTROYS: &'static str =
    "DROP TABLE destroys the table and everything depending on it";

pub const DROP_DATABASE_DESTROYS: &'static str =
    "DROP DATABASE destroys the whole database and all its data";

/// The column events that tell what the types of a table are at the `i`-th node: those of the
/// migration set, or those of the file for a temporary table that the file has created.
pub open spec fn telling_events(
    nodes: Seq<SyntaxNode>,
    i: int,
    table: TableKey,
    columns: Seq<EventView>,
) -> Seq<EventView> {
    if temporary_before(nodes, i, table) {
        file_events(nodes, true)
    } else {
        columns
    }
}

/// Whether the history proves that the type change of the `i`-th node is a safe widening.
/// A conversion by a `USING` expression proves nothing.
pub open spec fn widens_safely(nodes: Seq<SyntaxNode>, i: int, columns: Seq<EventView>) -> bool {
    &&& nodes[i].class matches NodeClass::AlterTableAction {
        table: Some(table),
        column: Some(column),
        ..
    } && proven_widening(
        telling_events(nodes, i, table_key(table), columns),
        table_key(table),
        fold(column@),
        type_text(nodes[i]),
    )
    &&& !has_kind(descendant_tokens(nodes[i]), TokenKind::UsingKw)
}

/// Whether the `i`-th node drops only tables that the file has created before.
pub open spec fn drops_new_tables(nodes: Seq<SyntaxNode>, i: int) -> bool {
    nodes[i].class matches NodeClass::DropStmt { names, .. } && names@.len() > 0 && forall|k: int|
        0 <= k < names@.len() ==> created_before(nodes, i, table_key(#[trigger] names@[k]))
}

/// The message for a rename.
pub open spec fn rename_message(what: Seq<char>) -> Seq<char> {
    "RENAME of "@ + what + " breaks code that still refers to the old name"@
}

fn is_widening_safely(tree: &Outline, i: usize, columns: &MigrationColumns) -> (r: bool)
    requires
        tree.wf(),
        i < tree.nodes.len(),
    ensures
        r == widens_safely(descendants(*tree.root), i as int, columns@),
{
    let action = tree.nodes[i];
    assert(*action == descendants(*tree.root)[i as int]);
    match &action.class {
        NodeClass::AlterTableAction { table: Some(table), column: Some(column), .. } => {
            let ty = type_text_of(action);
            let proven = if is_temporary_before(tree, i, table) {
                collect_own_columns(tree.root).proves_widening(table, column.as_str(), ty.as_str())
            } else {
                columns.proves_widening(table, column.as_str(), ty.as_str())
            };
            proven && !action.has_token(TokenKind::UsingKw)
        },
        _ => false,
    }
}

/// Whether all tables in `names` are ones that the file has created before its `i`-th
/// node.
fn are_created_before(tree: &Outline, i: usize, names: &Vec<TableName>) -> (r: bool)
    requires
        tree.wf(),
        i < tree.nodes.len(),
    ensures
        r == forall|k: int|
            0 <= k < names@.len() ==> created_before(
                descendants(*tree.root),
                i as int,
                table_key(#[trigger] names@[k]),
            ),
{
    let mut n: usize = 0;
    while n < names.len()
        invariant
            n <= names.len(),
            tree.wf(),
            i < tree.nodes.len(),
            forall|k: int|
                0 <= k < n ==> created_before(
                    descendants(*tree.root),
                    i as int,
                    table_key(#[trigger] names@[k]),
                ),
        decreases names.len() - n,
    {
        if !is_created_before(tree, i, &names[n]) {
            assert(!created_before(
                descendants(*tree.root),
                i as int,
                table_key(names@[n as int]),
            ));
            return false;
        }
        n += 1;
    }
    true
}

fn rename_text(what: &str) -> (r: String)
    ensures
        r@ == rename_message(what@),
{
    let mut message = "RENAME of ".to_owned();
    message.append(what);
    message.append(" breaks code that still refers to the old name");
    message
}

/// MG05: `DROP COLUMN` permanently destroys the column's data and breaks any view,
/// index, or application code that depends on it. A table that the same file creates
/// has no data and no clients yet.
pub struct DropColumn;

impl NodeRule for DropColumn {
    open spec fn found_at(&self, root: SyntaxNode, columns: Seq<EventView>, i: int) -> Seq<
        Finding,
    > {
        let node = descendants(root)[i];
        if node.class matches NodeClass::AlterTableAction { action, .. } && action is DropColumn
            && !alters_new_table(descendants(root), i) {
            seq![warning_at(RuleCode::Mg05, DROP_COLUMN_DESTROYS@, node.range)]
        } else {
            seq![]
        }
    }

    fn inspect(&self, tree: &Outline, i: usize, analyzer: &mut Analyzer) {
        let node = tree.nodes[i];
        assert(*node == descendants(*tree.root)[i as int]);
        if let NodeClass::AlterTableAction { action: AlterActionKind::DropColumn, .. } =
            &node.class {
            if !is_altering_new_table(tree, i) {
                analyzer.emit(warn(RuleCode::Mg05, DROP_COLUMN_DESTROYS, node.range));
            }
        }
    }
}

impl Rule for DropColumn {
    open spec fn own_codes(&self) -> Seq<RuleCode> {
        seq![RuleCode::Mg05]
    }

    open spec fn findings(&self, root: SyntaxNode, columns: Seq<EventView>) -> Seq<Finding> {
        found_in_tree(*self, root, columns)
    }

    proof fn own_findings(&self, root: SyntaxNode, columns: Seq<EventView>) {
        assert(self.own_codes()[0] == RuleCode::Mg05);
        lemma_found_own(
            *self,
            root,
            columns,
            self.own_codes(),
            descendants(root).len() as int,
        );
    }

    fn codes(&self) -> &'static [RuleCode] {
        &[RuleCode::Mg05]
    }

    fn group(&self) -> BuiltinLintPack {
        BuiltinLintPack::Migration
    }

    fn run(&self, root: &SyntaxNode, analyzer: &mut Analyzer) {
        visit(self, root, analyzer)
    }
}

/// MG06: `ALTER COLUMN … TYPE` rewrites the table under an exclusive lock and can fail
/// or lose data on an incompatible conversion, unless the column's type history proves
/// that it is a safe widening.
pub struct AlterColumnType;

impl NodeRule for AlterColumnType {
    open spec fn found_at(&self, root: SyntaxNode, columns: Seq<EventView>, i: int) -> Seq<
        Finding,
    > {
        let node = descendants(root)[i];
        if node.class matches NodeClass::AlterTableAction { changes_type, .. } && changes_type
            && !widens_safely(descendants(root), i, columns) {
            seq![warning_at(RuleCode::Mg06, ALTER_TYPE_REWRITES@, node.range)]
        } else {
            seq![]
        }
    }

    fn inspect(&self, tree: &Outline, i: usize, analyzer: &mut Analyzer) {
        let node = tree.nodes[i];
        assert(*node == descendants(*tree.root)[i as int]);
        if let NodeClass::AlterTableAction { changes_type: true, .. } = &node.class {
            if !is_widening_safely(tree, i, analyzer.columns) {
                analyzer.emit(warn(RuleCode::Mg06, ALTER_TYPE_REWRITES, node.range));
            }
        }
    }
}

impl Rule for AlterColumnType {
    open spec fn own_codes(&self) -> Seq<RuleCode> {
        seq![RuleCode::Mg06]
    }

    open spec fn findings(&self, root: SyntaxNode, columns: Seq<EventView>) -> Seq<Finding> {
        found_in_tree(*self, root, columns)
    }

    proof fn own_findings(&self, root: SyntaxNode, columns: Seq<EventView>) {
        assert(self.own_codes()[0] == RuleCode::Mg06);
        lemma_found_own(
            *self,
            root,
            columns,
            self.own_codes(),
            descendants(root).len() as int,
        );
    }

    fn codes(&self) -> &'static [RuleCode] {
        &[RuleCode::Mg06]
    }

    fn group(&self) -> BuiltinLintPack {
        BuiltinLintPack::Migration
    }

    fn run(&self, root: &SyntaxNode, analyzer: &mut Analyzer) {
        visit(self, root, analyzer)
    }
}

/// MG07: renaming a table or column breaks every query, view, and client that still
/// refers to the old name. Client code does not refer to the names of constraints.
pub struct Rename;

impl NodeRule for Rename {
    open spec fn found_at(&self, root: SyntaxNode, columns: Seq<EventView>, i: int) -> Seq<
        Finding,
    > {
        let node = descendants(root)[i];
        match node.class {
            NodeClass::AlterStmt {
                rename: Some(RenameTarget::Object { .. } | RenameTarget::Schema { .. }),
                ..
            } => seq![
                warning_at(RuleCode::Mg07, rename_message("a table"@), node.range),
            ],
            NodeClass::AlterStmt { rename: Some(RenameTarget::Column { .. }), .. } => seq![
                warning_at(RuleCode::Mg07, rename_message("a column or constraint"@), node.range),
            ],
            _ => seq![],
        }
    }

    fn inspect(&self, tree: &Outline, i: usize, analyzer: &mut Analyzer) {
        let node = tree.nodes[i];
        assert(*node == descendants(*tree.root)[i as int]);
        match &node.class {
            NodeClass::AlterStmt {
                rename: Some(RenameTarget::Object { .. } | RenameTarget::Schema { .. }),
                ..
            } => {
                let message = rename_text("a table");
                analyzer.emit(warn(RuleCode::Mg07, message.as_str(), node.range));
            },
            NodeClass::AlterStmt { rename: Some(RenameTarget::Column { .. }), .. } => {
                let message = rename_text("a column or constraint");
                analyzer.emit(warn(RuleCode::Mg07, message.as_str(), node.range));
            },
            _ => {},
        }
    }
}

impl Rule for Rename {
    open spec fn own_codes(&self) -> Seq<RuleCode> {
        seq![RuleCode::Mg07]
    }

    open spec fn findings(&self, root: SyntaxNode, columns: Seq<EventView>) -> Seq<Finding> {
        found_in_tree(*self, root, columns)
    }

    proof fn own_findings(&self, root: SyntaxNode, columns: Seq<EventView>) {
        assert(self.own_codes()[0] == RuleCode::Mg07);
        lemma_found_own(
            *self,
            root,
            columns,
            self.own_codes(),
            descendants(root).len() as int,
        );
    }

    fn codes(&self) -> &'static [RuleCode] {
        &[RuleCode::Mg07]
    }

    fn group(&self) -> BuiltinLintPack {
        BuiltinLintPack::Migration
    }

    fn run(&self, root: &SyntaxNode, analyzer: &mut Analyzer) {
        visit(self, root, analyzer)
    }
}

/// MG08: `TRUNCATE … CASCADE` empties not just the named tables but every table with a
/// foreign key into them, often far more than intended.
pub struct TruncateCascade;

impl NodeRule for TruncateCascade {
    open spec fn found_at(&self, root: SyntaxNode, columns: Seq<EventView>, i: int) -> Seq<
        Finding,
    > {
        let node = descendants(root)[i];
        if node.class matches NodeClass::TruncateStmt { cascade } && cascade {
            seq![warning_at(RuleCode::Mg08, TRUNCATE_CASCADES@, node.range)]
        } else {
            seq![]
        }
    }

    fn inspect(&self, tree: &Outline, i: usize, analyzer: &mut Analyzer) {
        let node = tree.nodes[i];
        assert(*node == descendants(*tree.root)[i as int]);
        if let NodeClass::TruncateStmt { cascade: true } = &node.class {
            analyzer.emit(warn(RuleCode::Mg08, TRUNCATE_CASCADES, node.range));
        }
    }
}

impl Rule for TruncateCascade {
    open spec fn own_codes(&self) -> Seq<RuleCode> {
        seq![RuleCode::Mg08]
    }

    open spec fn findings(&self, root: SyntaxNode, columns: Seq<EventView>) -> Seq<Finding> {
        found_in_tree(*self, root, columns)
    }

    proof fn own_findings(&self, root: SyntaxNode, columns: Seq<EventView>) {
        assert(self.own_codes()[0] == RuleCode::Mg08);
        lemma_found_own(
            *self,
            root,
            columns,
            self.own_codes(),
            descendants(root).len() as int,
        );
    }

    fn codes(&self) -> &'static [RuleCode] {
        &[RuleCode::Mg08]
    }

    fn group(&self) -> BuiltinLintPack {
        BuiltinLintPack::Migration
    }

    fn run(&self, root: &SyntaxNode, analyzer: &mut Analyzer) {
        visit(self, root, analyzer)
    }
}

/// MG16: `DROP TABLE` permanently destroys the table and cascades to views, foreign
/// keys, and policies that depend on it. Dropping tables that the same file creates
/// destroys nothing that is deployed.
pub struct DropTable;

impl NodeRule for DropTable {
    open spec fn found_at(&self, root: SyntaxNode, columns: Seq<EventView>, i: int) -> Seq<
        Finding,
    > {
        let node = descendants(root)[i];
        if node.class matches NodeClass::DropStmt { object: Some(TokenKind::TableKw), .. }
            && !drops_new_tables(descendants(root), i) {
            seq![warning_at(RuleCode::Mg16, DROP_TABLE_DESTROYS@, node.range)]
        } else {
            seq![]
        }
    }

    fn inspect(&self, tree: &Outline, i: usize, analyzer: &mut Analyzer) {
        let node = tree.nodes[i];
        assert(*node == descendants(*tree.root)[i as int]);
        if let NodeClass::DropStmt { object: Some(TokenKind::TableKw), names, .. } = &node.class {
            if names.len() == 0 || !are_created_before(tree, i, names) {
                analyzer.emit(warn(RuleCode::Mg16, DROP_TABLE_DESTROYS, node.range));
            }
        }
    }
}

impl Rule for DropTable {
    open spec fn own_codes(&self) -> Seq<RuleCode> {
        seq![RuleCode::Mg16]
    }

    open spec fn findings(&self, root: SyntaxNode, columns: Seq<EventView>) -> Seq<Finding> {
        found_in_tree(*self, root, columns)
    }

    proof fn own_findings(&self, root: SyntaxNode, columns: Seq<EventView>) {
        assert(self.own_codes()[0] == RuleCode::Mg16);
        lemma_found_own(
            *self,
            root,
            columns,
            self.own_codes(),
            descendants(root).len() as int,
        );
    }

    fn codes(&self) -> &'static [RuleCode] {
        &[RuleCode::Mg16]
    }

    fn group(&self) -> BuiltinLintPack {
        BuiltinLintPack::Migration
    }

    fn run(&self, root: &SyntaxNode, analyzer: &mut Analyzer) {
        visit(self, root, analyzer)
    }
}

/// MG18: `DROP DATABASE` destroys an entire database. It cannot run inside a transaction
/// and is almost never something a migration should do.
pub struct DropDatabase;

impl NodeRule for DropDatabase {
    open spec fn found_at(&self, root: SyntaxNode, columns: Seq<EventView>, i: int) -> Seq<
        Finding,
    > {
        let node = descendants(root)[i];
        if node.class matches NodeClass::DropStmt { object: Some(TokenKind::DatabaseKw), .. } {
            seq![warning_at(RuleCode::Mg18, DROP_DATABASE_DESTROYS@, node.range)]
        } else {
            seq![]
        }
    }

    fn inspect(&self, tree: &Outline, i: usize, analyzer: &mut Analyzer) {
        let node = tree.nodes[i];
        assert(*node == descendants(*tree.root)[i as int]);
        if let NodeClass::DropStmt { object: Some(TokenKind::DatabaseKw), .. } = &node.class {
            analyzer.emit(warn(RuleCode::Mg18, DROP_DATABASE_DESTROYS, node.range));
        }
    }
}

impl Rule for DropDatabase {
    open spec fn own_codes(&self) -> Seq<RuleCode> {
        seq![RuleCode::Mg18]
    }

    open spec fn findings(&self, root: SyntaxNode, columns: Seq<EventView>) -> Seq<Finding> {
        found_in_tree(*self, root, columns)
    }

    proof fn own_findings(&self, root: SyntaxNode, columns: Seq<EventView>) {
        assert(self.own_codes()[0] == RuleCode::Mg18);
        lemma_found_own(
            *self,
            root,
            columns,
            self.own_codes(),
            descendants(root).len() as int,
        );
    }

    fn codes(&self) -> &'static [RuleCode] {
        &[RuleCode::Mg18]
    }

    fn group(&self) -> BuiltinLintPack {
        BuiltinLintPack::Migration
    }

    fn run(&self, root: &SyntaxNode, analyzer: &mut Analyzer) {
        visit(self, root, analyzer)
    }
}

} // verus!
