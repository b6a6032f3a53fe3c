//! Index operations: building and dropping an index without blocking writes.

use crate::diagnostic::{
    insertion, one_edit, warn, warning_at, with_fix, BuiltinLintPack, Finding, RuleCode,
};
use crate::history::EventView;
use crate::rule::{
    found_in_tree, lemma_found_own, visit, Analyzer, NodeRule, Outline, Rule,
};
use crate::syntax::{descendants, token_end, NodeClass, SyntaxNode, TextRange, TokenKind};
use crate::transaction::{in_open_transaction, open_at};
use vstd::prelude::*;

verus! {

pub const INDEX_BUILD_LOCKS: &'static str =
    "CREATE INDEX without CONCURRENTLY locks the table against writes for the \
     duration of the build";

pub const INDEX_DROP_LOCKS: &'static str = "DROP INDEX without CONCURRENTLY locks the table";

pub const CONCURRENT_BUILD_REJECTED: &'static str =
    "CREATE INDEX CONCURRENTLY cannot run inside a transaction block and will \
     be rejected by Postgres";

/// A finding with a fix that inserts `CONCURRENTLY` after the keyword `INDEX`, if
/// the statement has that keyword.
pub open spec fn add_concurrently(finding: Finding, stmt: SyntaxNode) -> Finding {
    match token_end(stmt, TokenKind::IndexKw) {
        Some(at) => with_fix(
            finding,
            one_edit("Add CONCURRENTLY"@, TextRange { start: at, end: at }, " CONCURRENTLY"@),
        ),
        None => finding,
    }
}

/// MG01: `CREATE INDEX` without `CONCURRENTLY` takes an exclusive lock that blocks
/// writes for the whole build. `CONCURRENTLY` cannot run inside an explicit
/// transaction block, so it is not asked for there.
pub struct IndexConcurrently;

impl NodeRule for IndexConcurrently {
    open spec fn found_at(&self, root: SyntaxNode, columns: Seq<EventView>, i: int) -> Seq<
        Finding,
    > {
        let node = descendants(root)[i];
        if node.class matches NodeClass::CreateIndexStmt { concurrent } && !concurrent && !open_at(
            root,
            node.range.start,
        ) {
            seq![
                add_concurrently(
                    warning_at(RuleCode::Mg01, INDEX_BUILD_LOCKS@, node.range),
                    node,
                ),
            ]
        } else {
            seq![]
        }
    }

    fn inspect(&self, tree: &Outline, i: usize, analyzer: &mut Analyzer) {
        let node = tree.nodes[i];
        assert(*node == descendants(*tree.root)[i as int]);
        if let NodeClass::CreateIndexStmt { concurrent } = &node.class {
            if !*concurrent && !in_open_transaction(node, tree.root) {
                let mut diag = warn(RuleCode::Mg01, INDEX_BUILD_LOCKS, node.range);
                if let Some(at) = node.token_end(TokenKind::IndexKw) {
                    diag = diag.with_fix(insertion("Add CONCURRENTLY", at, " CONCURRENTLY"));
                }
                analyzer.emit(diag);
            }
        }
    }
}

impl Rule for IndexConcurrently {
    open spec fn own_codes(&self) -> Seq<RuleCode> {
        seq![RuleCode::Mg01]
    }

    open spec fn findings(&self, root: SyntaxNode, columns: Seq<EventView>) -> Seq<Finding> {
        found_in_tree(*self, root, columns)
    }

    proof fn own_findings(&self, root: SyntaxNode, columns: Seq<EventView>) {
        assert(self.own_codes()[0] == RuleCode::Mg01);
        lemma_found_own(
            *self,
            root,
            columns,
            self.own_codes(),
            descendants(root).len() as int,
        );
    }

    fn codes(&self) -> &'static [RuleCode] {
        &[RuleCode::Mg01]
    }

    fn group(&self) -> BuiltinLintPack {
        BuiltinLintPack::Migration
    }

    fn run(&self, root: &SyntaxNode, analyzer: &mut Analyzer) {
        visit(self, root, analyzer)
    }
}

/// MG12: `DROP INDEX` without `CONCURRENTLY` takes an exclusive lock on the table
/// while the index is removed.
pub struct DropIndexConcurrently;

impl NodeRule for DropIndexConcurrently {
    open spec fn found_at(&self, root: SyntaxNode, columns: Seq<EventView>, i: int) -> Seq<
        Finding,
    > {
        let node = descendants(root)[i];
        if node.class matches NodeClass::DropStmt {
            object: Some(TokenKind::IndexKw),
            concurrent,
            ..
        } && !concurrent && !open_at(root, node.range.start) {
            seq![
                add_concurrently(
                    warning_at(RuleCode::Mg12, INDEX_DROP_LOCKS@, node.range),
                    node,
                ),
            ]
        } else {
            seq![]
        }
    }

    fn inspect(&self, tree: &Outline, i: usize, analyzer: &mut Analyzer) {
        let node = tree.nodes[i];
        assert(*node == descendants(*tree.root)[i as int]);
        if let NodeClass::DropStmt { object: Some(TokenKind::IndexKw), concurrent, .. } =
            &node.class {
            if !*concurrent && !in_open_transaction(node, tree.root) {
                let mut diag = warn(RuleCode::Mg12, INDEX_DROP_LOCKS, node.range);
                if let Some(at) = node.token_end(TokenKind::IndexKw) {
                    diag = diag.with_fix(insertion("Add CONCURRENTLY", at, " CONCURRENTLY"));
                }
                analyzer.emit(diag);
            }
        }
    }
}

impl Rule for DropIndexConcurrently {
    open spec fn own_codes(&self) -> Seq<RuleCode> {
        seq![RuleCode::Mg12]
    }

    open spec fn findings(&self, root: SyntaxNode, columns: Seq<EventView>) -> Seq<Finding> {
        found_in_tree(*self, root, columns)
    }

    proof fn own_findings(&self, root: SyntaxNode, columns: Seq<EventView>) {
        assert(self.own_codes()[0] == RuleCode::Mg12);
        lemma_found_own(
            *self,
            root,
            columns,
            self.own_codes(),
            descendants(root).len() as int,
        );
    }

    fn codes(&self) -> &'static [RuleCode] {
        &[RuleCode::Mg12]
    }

    fn group(&self) -> BuiltinLintPack {
        BuiltinLintPack::Migration
    }

    fn run(&self, root: &SyntaxNode, analyzer: &mut Analyzer) {
        visit(self, root, analyzer)
    }
}

/// MG19: `CREATE INDEX CONCURRENTLY` cannot run inside a transaction block; Postgres
/// rejects it at runtime. Move it out of the `BEGIN`/`COMMIT`.
pub struct ConcurrentIndexInTransaction;

impl NodeRule for ConcurrentIndexInTransaction {
    open spec fn found_at(&self, root: SyntaxNode, columns: Seq<EventView>, i: int) -> Seq<
        Finding,
    > {
        let node = descendants(root)[i];
        if node.class matches NodeClass::CreateIndexStmt { concurrent } && concurrent && open_at(
            root,
            node.range.start,
        ) {
            seq![warning_at(RuleCode::Mg19, CONCURRENT_BUILD_REJECTED@, node.range)]
        } else {
            seq![]
        }
    }

    fn inspect(&self, tree: &Outline, i: usize, analyzer: &mut Analyzer) {
        let node = tree.nodes[i];
        assert(*node == descendants(*tree.root)[i as int]);
        if let NodeClass::CreateIndexStmt { concurrent } = &node.class {
            if *concurrent && in_open_transaction(node, tree.root) {
                analyzer.emit(warn(RuleCode::Mg19, CONCURRENT_BUILD_REJECTED, node.range));
            }
        }
    }
}

impl Rule for ConcurrentIndexInTransaction {
    open spec fn own_codes(&self) -> Seq<RuleCode> {
        seq![RuleCode::Mg19]
    }

    open spec fn findings(&self, root: SyntaxNode, columns: Seq<EventView>) -> Seq<Finding> {
        found_in_tree(*self, root, columns)
    }

    proof fn own_findings(&self, root: SyntaxNode, columns: Seq<EventView>) {
        assert(self.own_codes()[0] == RuleCode::Mg19);
        lemma_found_own(
            *self,
            root,
            columns,
            self.own_codes(),
            descendants(root).len() as int,
        );
    }

    fn codes(&self) -> &'static [RuleCode] {
        &[RuleCode::Mg19]
    }

    fn group(&self) -> BuiltinLintPack {
        BuiltinLintPack::Migration
    }

    fn run(&self, root: &SyntaxNode, analyzer: &mut Analyzer) {
        visit(self, root, analyzer)
    }
}

} // verus!
