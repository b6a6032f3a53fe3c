//! Constraints that are added, set or dropped on an existing table.

use crate::diagnostic::{
    insertion, one_edit, warn, warning_at, with_fix, BuiltinLintPack, Finding, RuleCode,
};
use crate::history::EventView;
use crate::rule::{
    found_in_tree, lemma_found_own, visit, Analyzer, NodeRule, Outline, Rule,
};
use crate::syntax::{
    child_in_role, child_tokens, descendant_tokens, descendants, last_token_end, plain_kinds,
    AlterActionKind, ConstraintKind, NodeClass, Role, SyntaxNode, TextRange, TokenKind,
};
use crate::text::in_row;
use vstd::prelude::*;

verus! {

pub const CONSTRAINT_VALIDATES: &'static str =
    "ADD CONSTRAINT without NOT VALID validates every existing row under a lock; \
     add it NOT VALID and VALIDATE CONSTRAINT separately";

pub const KEY_BUILDS_INDEX: &'static str =
    "ADD PRIMARY KEY/UNIQUE builds its index under an exclusive lock; build a \
     unique index CONCURRENTLY and attach it with ADD CONSTRAINT ... USING INDEX";

pub const SET_NOT_NULL_SCANS: &'static str =
    "ALTER COLUMN SET NOT NULL scans the whole table under a lock; add a \
     CHECK (col IS NOT NULL) NOT VALID, VALIDATE it, then SET NOT NULL";

pub const NULLS_LET_IN: &'static str =
    "ALTER COLUMN DROP NOT NULL lets nulls into a column clients may assume \
     is always set";

/// The constraint that an action adds.
pub open spec fn added_constraint(node: SyntaxNode) -> Option<SyntaxNode> {
    if node.class matches NodeClass::AlterTableAction { action, .. } && action is AddConstraint {
        child_in_role(node, Role::Constraint)
    } else {
        None
    }
}

/// The constraint that an action adds.
fn find_added_constraint(node: &SyntaxNode) -> (r: Option<&SyntaxNode>)
    ensures
        match r {
            Some(constraint) => added_constraint(*node) == Some(*constraint),
            None => added_constraint(*node) is None,
        },
{
    match &node.class {
        NodeClass::AlterTableAction { action: AlterActionKind::AddConstraint, .. } => {
            node.child_in_role(Role::Constraint)
        },
        _ => None,
    }
}

/// A finding with a fix that appends `NOT VALID` to the constraint.
pub open spec fn add_not_valid(finding: Finding, constraint: SyntaxNode) -> Finding {
    match last_token_end(constraint) {
        Some(at) => with_fix(
            finding,
            one_edit("Add NOT VALID"@, TextRange { start: at, end: at }, " NOT VALID"@),
        ),
        None => finding,
    }
}

/// Whether a constraint is a foreign key or a check that is not marked `NOT VALID`.
pub open spec fn validates_rows(class: NodeClass) -> bool {
    class matches NodeClass::Constraint { constraint, not_valid, .. } && (constraint is ForeignKey
        || constraint is Check) && !not_valid
}

/// Whether an added key takes over an index that is there already, by name. Such a key has no
/// column list. `USING INDEX TABLESPACE` behind a column list only says where the index that
/// is built is put.
pub open spec fn attaches_index(action: SyntaxNode, constraint: NodeClass) -> bool {
    &&& constraint matches NodeClass::Constraint { columns, .. } && columns@.len() == 0
    &&& in_row(
        plain_kinds(descendant_tokens(action)),
        seq![TokenKind::UsingKw, TokenKind::IndexKw],
    )
}

/// Whether a constraint is a primary key or a unique constraint.
pub open spec fn is_key(class: NodeClass) -> bool {
    class matches NodeClass::Constraint { constraint, .. } && (constraint is PrimaryKey
        || constraint is Unique)
}

/// Whether an action on a column is `verb NOT NULL`: these are words of the action itself, in
/// a row.
pub open spec fn alters_nullness(node: SyntaxNode, verb: TokenKind) -> bool {
    &&& node.class matches NodeClass::AlterTableAction { action, .. } && action is AlterColumn
    &&& in_row(
        plain_kinds(child_tokens(node)),
        seq![verb, TokenKind::NotKw, TokenKind::NullKw],
    )
}

fn is_attaching_index(action: &SyntaxNode, constraint: &NodeClass) -> (r: bool)
    ensures
        r == attaches_index(*action, *constraint),
{
    let run = vec![TokenKind::UsingKw, TokenKind::IndexKw];
    assert(run@ =~= seq![TokenKind::UsingKw, TokenKind::IndexKw]);
    match constraint {
        NodeClass::Constraint { columns, .. } => columns.len() == 0 && action.has_run(&run),
        _ => false,
    }
}

fn is_altering_nullness(node: &SyntaxNode, verb: TokenKind) -> (r: bool)
    ensures
        r == alters_nullness(*node, verb),
{
    let run = vec![verb, TokenKind::NotKw, TokenKind::NullKw];
    assert(run@ =~= seq![verb, TokenKind::NotKw, TokenKind::NullKw]);
    matches!(
        &node.class,
        NodeClass::AlterTableAction { action: AlterActionKind::AlterColumn, .. }
    ) && node.has_child_run(&run)
}

/// MG02: adding a `FOREIGN KEY` or `CHECK` constraint without `NOT VALID` scans and
/// validates every existing row while holding a lock. Add the constraint `NOT VALID`,
/// then `VALIDATE CONSTRAINT` in a separate step.
pub struct ConstraintNotValid;

impl NodeRule for ConstraintNotValid {
    open spec fn found_at(&self, root: SyntaxNode, columns: Seq<EventView>, i: int) -> Seq<
        Finding,
    > {
        let node = descendants(root)[i];
        match added_constraint(node) {
            Some(constraint) => if validates_rows(constraint.class) {
                seq![
                    add_not_valid(
                        warning_at(RuleCode::Mg02, CONSTRAINT_VALIDATES@, node.range),
                        constraint,
                    ),
                ]
            } else {
                seq![]
            },
            None => seq![],
        }
    }

    fn inspect(&self, tree: &Outline, i: usize, analyzer: &mut Analyzer) {
        let node = tree.nodes[i];
        assert(*node == descendants(*tree.root)[i as int]);
        if let Some(constraint) = find_added_constraint(node) {
            if matches!(
                &constraint.class,
                NodeClass::Constraint {
                    constraint: ConstraintKind::ForeignKey | ConstraintKind::Check,
                    not_valid: false,
                    ..
                }
            ) {
                let mut diag = warn(RuleCode::Mg02, CONSTRAINT_VALIDATES, node.range);
                if let Some(at) = constraint.last_token_end() {
                    diag = diag.with_fix(insertion("Add NOT VALID", at, " NOT VALID"));
                }
                analyzer.emit(diag);
            }
        }
    }
}

impl Rule for ConstraintNotValid {
    open spec fn own_codes(&self) -> Seq<RuleCode> {
        seq![RuleCode::Mg02]
    }

    open spec fn findings(&self, root: SyntaxNode, columns: Seq<EventView>) -> Seq<Finding> {
        found_in_tree(*self, root, columns)
    }

    proof fn own_findings(&self, root: SyntaxNode, columns: Seq<EventView>) {
        assert(self.own_codes()[0] == RuleCode::Mg02);
        lemma_found_own(
            *self,
            root,
            columns,
            self.own_codes(),
            descendants(root).len() as int,
        );
    }

    fn codes(&self) -> &'static [RuleCode] {
        &[RuleCode::Mg02]
    }

    fn group(&self) -> BuiltinLintPack {
        BuiltinLintPack::Migration
    }

    fn run(&self, root: &SyntaxNode, analyzer: &mut Analyzer) {
        visit(self, root, analyzer)
    }
}

/// MG13: `ADD PRIMARY KEY`/`ADD UNIQUE` builds the backing index while holding an
/// exclusive lock. Build a unique index `CONCURRENTLY`, then attach it with
/// `ADD CONSTRAINT … USING INDEX`, which is the safe form.
pub struct AddPkUniqueConstraint;

impl NodeRule for AddPkUniqueConstraint {
    open spec fn found_at(&self, root: SyntaxNode, columns: Seq<EventView>, i: int) -> Seq<
        Finding,
    > {
        let node = descendants(root)[i];
        match added_constraint(node) {
            Some(constraint) => if is_key(constraint.class) && !attaches_index(
                node,
                constraint.class,
            ) {
                seq![warning_at(RuleCode::Mg13, KEY_BUILDS_INDEX@, node.range)]
            } else {
                seq![]
            },
            None => seq![],
        }
    }

    fn inspect(&self, tree: &Outline, i: usize, analyzer: &mut Analyzer) {
        let node = tree.nodes[i];
        assert(*node == descendants(*tree.root)[i as int]);
        if let Some(constraint) = find_added_constraint(node) {
            if matches!(
                &constraint.class,
                NodeClass::Constraint {
                    constraint: ConstraintKind::PrimaryKey | ConstraintKind::Unique,
                    ..
                }
            ) && !is_attaching_index(node, &constraint.class) {
                analyzer.emit(warn(RuleCode::Mg13, KEY_BUILDS_INDEX, node.range));
            }
        }
    }
}

impl Rule for AddPkUniqueConstraint {
    open spec fn own_codes(&self) -> Seq<RuleCode> {
        seq![RuleCode::Mg13]
    }

    open spec fn findings(&self, root: SyntaxNode, columns: Seq<EventView>) -> Seq<Finding> {
        found_in_tree(*self, root, columns)
    }

    proof fn own_findings(&self, root: SyntaxNode, columns: Seq<EventView>) {
        assert(self.own_codes()[0] == RuleCode::Mg13);
        lemma_found_own(
            *self,
            root,
            columns,
            self.own_codes(),
            descendants(root).len() as int,
        );
    }

    fn codes(&self) -> &'static [RuleCode] {
        &[RuleCode::Mg13]
    }

    fn group(&self) -> BuiltinLintPack {
        BuiltinLintPack::Migration
    }

    fn run(&self, root: &SyntaxNode, analyzer: &mut Analyzer) {
        visit(self, root, analyzer)
    }
}

/// MG14: `ALTER COLUMN … SET NOT NULL` scans every existing row to verify the
/// constraint while holding a lock. Add a `CHECK (col IS NOT NULL) NOT VALID`,
/// validate it, then set `NOT NULL`, which can then reuse the validated check.
pub struct SetNotNull;

impl NodeRule for SetNotNull {
    open spec fn found_at(&self, root: SyntaxNode, columns: Seq<EventView>, i: int) -> Seq<
        Finding,
    > {
        let node = descendants(root)[i];
        if alters_nullness(node, TokenKind::SetKw) {
            seq![warning_at(RuleCode::Mg14, SET_NOT_NULL_SCANS@, node.range)]
        } else {
            seq![]
        }
    }

    fn inspect(&self, tree: &Outline, i: usize, analyzer: &mut Analyzer) {
        let node = tree.nodes[i];
        assert(*node == descendants(*tree.root)[i as int]);
        if is_altering_nullness(node, TokenKind::SetKw) {
            analyzer.emit(warn(RuleCode::Mg14, SET_NOT_NULL_SCANS, node.range));
        }
    }
}

impl Rule for SetNotNull {
    open spec fn own_codes(&self) -> Seq<RuleCode> {
        seq![RuleCode::Mg14]
    }

    open spec fn findings(&self, root: SyntaxNode, columns: Seq<EventView>) -> Seq<Finding> {
        found_in_tree(*self, root, columns)
    }

    proof fn own_findings(&self, root: SyntaxNode, columns: Seq<EventView>) {
        assert(self.own_codes()[0] == RuleCode::Mg14);
        lemma_found_own(
            *self,
            root,
            columns,
            self.own_codes(),
            descendants(root).len() as int,
        );
    }

    fn codes(&self) -> &'static [RuleCode] {
        &[RuleCode::Mg14]
    }

    fn group(&self) -> BuiltinLintPack {
        BuiltinLintPack::Migration
    }

    fn run(&self, root: &SyntaxNode, analyzer: &mut Analyzer) {
        visit(self, root, analyzer)
    }
}

/// MG17: `ALTER COLUMN … DROP NOT NULL` relaxes the column to accept nulls. Code and
/// clients that assumed the column was always set can break, and the change is hard
/// to reverse once nulls exist.
pub struct DropNotNull;

impl NodeRule for DropNotNull {
    open spec fn found_at(&self, root: SyntaxNode, columns: Seq<EventView>, i: int) -> Seq<
        Finding,
    > {
        let node = descendants(root)[i];
        if alters_nullness(node, TokenKind::DropKw) {
            seq![warning_at(RuleCode::Mg17, NULLS_LET_IN@, node.range)]
        } else {
            seq![]
        }
    }

    fn inspect(&self, tree: &Outline, i: usize, analyzer: &mut Analyzer) {
        let node = tree.nodes[i];
        assert(*node == descendants(*tree.root)[i as int]);
        if is_altering_nullness(node, TokenKind::DropKw) {
            analyzer.emit(warn(RuleCode::Mg17, NULLS_LET_IN, node.range));
        }
    }
}

impl Rule for DropNotNull {
    open spec fn own_codes(&self) -> Seq<RuleCode> {
        seq![RuleCode::Mg17]
    }

    open spec fn findings(&self, root: SyntaxNode, columns: Seq<EventView>) -> Seq<Finding> {
        found_in_tree(*self, root, columns)
    }

    proof fn own_findings(&self, root: SyntaxNode, columns: Seq<EventView>) {
        assert(self.own_codes()[0] == RuleCode::Mg17);
        lemma_found_own(
            *self,
            root,
            columns,
            self.own_codes(),
            descendants(root).len() as int,
        );
    }

    fn codes(&self) -> &'static [RuleCode] {
        &[RuleCode::Mg17]
    }

    fn group(&self) -> BuiltinLintPack {
        BuiltinLintPack::Migration
    }

    fn run(&self, root: &SyntaxNode, analyzer: &mut Analyzer) {
        visit(self, root, analyzer)
    }
}

} // verus!
