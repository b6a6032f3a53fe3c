//! Columns that are added to an existing table.

use crate::diagnostic::{warn, warning_at, BuiltinLintPack, Finding, RuleCode};
use crate::fresh::{created_before, is_created_before};
use crate::history::EventView;
use crate::names::table_key;
use crate::rule::{
    found_in_tree, lemma_found_own, visit, Analyzer, NodeRule, Outline, Rule,
};
use crate::syntax::{
    child_in_role, descendants, AlterActionKind, NodeClass, Role, SyntaxNode,
};
use crate::text::{lower, same_ignoring_case};
use vstd::prelude::*;

verus! {

pub const VOLATILE_DEFAULT_REWRITES: &'static str =
    "ADD COLUMN with a volatile DEFAULT rewrites the whole table; add the \
     column without a default, then backfill";

pub const NOT_NULL_FAILS: &'static str =
    "ADD COLUMN NOT NULL without a DEFAULT fails on a table that already \
     has rows";

/// The functions that make a default volatile.
pub const VOLATILE_DEFAULT_FUNCS: [&'static str; 11] = [
    "now",
    "clock_timestamp",
    "statement_timestamp",
    "transaction_timestamp",
    "timeofday",
    "random",
    "gen_random_uuid",
    "uuid_generate_v1",
    "uuid_generate_v1mc",
    "uuid_generate_v4",
    "nextval",
];

/// Whether a function makes a default volatile, whatever the case of its name.
pub open spec fn volatile_name(name: Seq<char>) -> bool {
    exists|k: int|
        0 <= k < VOLATILE_DEFAULT_FUNCS@.len() && lower(name) == lower(
            (#[trigger] VOLATILE_DEFAULT_FUNCS@[k])@,
        )
}

/// Whether a node is a call of a volatile function.
pub open spec fn volatile_call(node: SyntaxNode) -> bool {
    node.class matches NodeClass::FuncCall { name: Some(name) } && volatile_name(name@)
}

/// Whether an expression calls a volatile function.
pub open spec fn volatile_expr(expr: SyntaxNode) -> bool {
    exists|k: int|
        0 <= k < descendants(expr).len() && volatile_call(#[trigger] descendants(expr)[k])
}

/// The column that an action adds.
pub open spec fn added_column(node: SyntaxNode) -> Option<SyntaxNode> {
    if node.class matches NodeClass::AlterTableAction { action, .. } && action is AddColumn {
        child_in_role(node, Role::Column)
    } else {
        None
    }
}

/// Whether the table that an action alters is one that the file has created before.
pub open spec fn alters_new_table(nodes: Seq<SyntaxNode>, i: int) -> bool {
    nodes[i].class matches NodeClass::AlterTableAction { table: Some(table), .. }
        && created_before(nodes, i, table_key(table))
}

/// Whether a column is `NOT NULL` with no value for the rows that are there: it has
/// no default and is not generated.
pub open spec fn lacks_value(column: SyntaxNode) -> bool {
    column.class matches NodeClass::ColumnDef { not_null, generated, .. } && not_null && !generated
        && child_in_role(column, Role::Default) is None
}

/// The column that an action adds.
fn find_added_column(node: &SyntaxNode) -> (r: Option<&SyntaxNode>)
    ensures
        match r {
            Some(column) => added_column(*node) == Some(*column),
            None => added_column(*node) is None,
        },
{
    match &node.class {
        NodeClass::AlterTableAction { action: AlterActionKind::AddColumn, .. } => {
            node.child_in_role(Role::Column)
        },
        _ => None,
    }
}

fn is_volatile_name(name: &str) -> (r: bool)
    ensures
        r == volatile_name(name@),
{
    let mut k: usize = 0;
    while k < 11
        invariant
            k <= 11,
            forall|j: int|
                0 <= j < k ==> lower(name@) != lower((#[trigger] VOLATILE_DEFAULT_FUNCS@[j])@),
        decreases 11 - k,
    {
        if same_ignoring_case(name, VOLATILE_DEFAULT_FUNCS[k]) {
            assert(lower(name@) == lower(VOLATILE_DEFAULT_FUNCS@[k as int]@));
            return true;
        }
        k += 1;
    }
    false
}

fn is_volatile_expr(expr: &SyntaxNode) -> (r: bool)
    ensures
        r == volatile_expr(*expr),
{
    let nodes = expr.descendants();
    let ghost all = descendants(*expr);
    let mut k: usize = 0;
    while k < nodes.len()
        invariant
            k <= nodes.len(),
            all == descendants(*expr),
            all == nodes@.unref(),
            forall|j: int| 0 <= j < k ==> !volatile_call(#[trigger] all[j]),
        decreases nodes.len() - k,
    {
        assert(all[k as int] == *nodes@[k as int]);
        if let NodeClass::FuncCall { name: Some(name) } = &nodes[k].class {
            if is_volatile_name(name.as_str()) {
                assert(volatile_call(all[k as int]));
                return true;
            }
        }
        k += 1;
    }
    false
}

/// Whether the table that an action alters is one that the file has created before.
pub fn is_altering_new_table(tree: &Outline, i: usize) -> (r: bool)
    requires
        tree.wf(),
        i < tree.nodes.len(),
    ensures
        r == alters_new_table(descendants(*tree.root), i as int),
{
    assert(*tree.nodes@[i as int] == descendants(*tree.root)[i as int]);
    match &tree.nodes[i].class {
        NodeClass::AlterTableAction { table: Some(table), .. } => is_created_before(
            tree,
            i,
            table,
        ),
        _ => false,
    }
}

/// MG03: `ADD COLUMN … DEFAULT <volatile>` evaluates the default for every existing
/// row, rewriting the whole table under an exclusive lock.
pub struct AddColumnVolatileDefault;

impl NodeRule for AddColumnVolatileDefault {
    open spec fn found_at(&self, root: SyntaxNode, columns: Seq<EventView>, i: int) -> Seq<
        Finding,
    > {
        let node = descendants(root)[i];
        match added_column(node) {
            Some(column) => match child_in_role(column, Role::Default) {
                Some(default) => if volatile_expr(default) {
                    seq![warning_at(RuleCode::Mg03, VOLATILE_DEFAULT_REWRITES@, node.range)]
                } else {
                    seq![]
                },
                None => seq![],
            },
            None => seq![],
        }
    }

    fn inspect(&self, tree: &Outline, i: usize, analyzer: &mut Analyzer) {
        let node = tree.nodes[i];
        assert(*node == descendants(*tree.root)[i as int]);
        if let Some(column) = find_added_column(node) {
            if let Some(default) = column.child_in_role(Role::Default) {
                if is_volatile_expr(default) {
                    analyzer.emit(warn(RuleCode::Mg03, VOLATILE_DEFAULT_REWRITES, node.range));
                }
            }
        }
    }
}

impl Rule for AddColumnVolatileDefault {
    open spec fn own_codes(&self) -> Seq<RuleCode> {
        seq![RuleCode::Mg03]
    }

    open spec fn findings(&self, root: SyntaxNode, columns: Seq<EventView>) -> Seq<Finding> {
        found_in_tree(*self, root, columns)
    }

    proof fn own_findings(&self, root: SyntaxNode, columns: Seq<EventView>) {
        assert(self.own_codes()[0] == RuleCode::Mg03);
        lemma_found_own(
            *self,
            root,
            columns,
            self.own_codes(),
            descendants(root).len() as int,
        );
    }

    fn codes(&self) -> &'static [RuleCode] {
        &[RuleCode::Mg03]
    }

    fn group(&self) -> BuiltinLintPack {
        BuiltinLintPack::Migration
    }

    fn run(&self, root: &SyntaxNode, analyzer: &mut Analyzer) {
        visit(self, root, analyzer)
    }
}

/// MG04: `ADD COLUMN … NOT NULL` without a `DEFAULT` fails immediately on a table that
/// already has rows. A generated column supplies its own value for every row, and a
/// table that the same file creates has no rows yet.
pub struct AddColumnNotNullNoDefault;

impl NodeRule for AddColumnNotNullNoDefault {
    open spec fn found_at(&self, root: SyntaxNode, columns: Seq<EventView>, i: int) -> Seq<
        Finding,
    > {
        let node = descendants(root)[i];
        match added_column(node) {
            Some(column) => if lacks_value(column) && !alters_new_table(descendants(root), i) {
                seq![warning_at(RuleCode::Mg04, NOT_NULL_FAILS@, node.range)]
            } else {
                seq![]
            },
            None => seq![],
        }
    }

    fn inspect(&self, tree: &Outline, i: usize, analyzer: &mut Analyzer) {
        let node = tree.nodes[i];
        assert(*node == descendants(*tree.root)[i as int]);
        if let Some(column) = find_added_column(node) {
            if let NodeClass::ColumnDef { not_null: true, generated: false, .. } = &column.class {
                if column.child_in_role(Role::Default).is_none() && !is_altering_new_table(
                    tree,
                    i,
                ) {
                    analyzer.emit(warn(RuleCode::Mg04, NOT_NULL_FAILS, node.range));
                }
            }
        }
    }
}

impl Rule for AddColumnNotNullNoDefault {
    open spec fn own_codes(&self) -> Seq<RuleCode> {
        seq![RuleCode::Mg04]
    }

    open spec fn findings(&self, root: SyntaxNode, columns: Seq<EventView>) -> Seq<Finding> {
        found_in_tree(*self, root, columns)
    }

    proof fn own_findings(&self, root: SyntaxNode, columns: Seq<EventView>) {
        assert(self.own_codes()[0] == RuleCode::Mg04);
        lemma_found_own(
            *self,
            root,
            columns,
            self.own_codes(),
            descendants(root).len() as int,
        );
    }

    fn codes(&self) -> &'static [RuleCode] {
        &[RuleCode::Mg04]
    }

    fn group(&self) -> BuiltinLintPack {
        BuiltinLintPack::Migration
    }

    fn run(&self, root: &SyntaxNode, analyzer: &mut Analyzer) {
        visit(self, root, analyzer)
    }
}

} // verus!
