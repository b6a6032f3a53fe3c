//! The migration pack as a whole.

use crate::config::{configured_findings, LintConfig};
use crate::diagnostic::{Diagnostic, Finding};
use crate::history::{EventView, MigrationColumns};
use crate::migration::column::{AddColumnNotNullNoDefault, AddColumnVolatileDefault};
use crate::migration::column_types::{PreferIdentity, TypePreference};
use crate::migration::constraint::{
    AddPkUniqueConstraint, ConstraintNotValid, DropNotNull, SetNotNull,
};
use crate::migration::destructive::{
    AlterColumnType, DropColumn, DropDatabase, DropTable, Rename, TruncateCascade,
};
use crate::migration::index::{
    ConcurrentIndexInTransaction, DropIndexConcurrently, IndexConcurrently,
};
use crate::migration::statement::{IdentifierTooLong, RequireTableSchema, RobustStatements};
use crate::migration::transactions::{TransactionNesting, UncommittedTransaction};
use crate::rule::{Analyzer, Rule};
use crate::syntax::SyntaxNode;
use vstd::prelude::*;

verus! {

/// What the rules of the pack find in the tree of a file, rule by rule.
pub open spec fn pack_findings(root: SyntaxNode, columns: Seq<EventView>) -> Seq<Finding> {
    IndexConcurrently.findings(root, columns)
        + DropIndexConcurrently.findings(root, columns)
        + ConstraintNotValid.findings(root, columns)
        + AddColumnVolatileDefault.findings(root, columns)
        + AddColumnNotNullNoDefault.findings(root, columns)
        + DropColumn.findings(root, columns)
        + AlterColumnType.findings(root, columns)
        + Rename.findings(root, columns)
        + TruncateCascade.findings(root, columns)
        + TypePreference.findings(root, columns)
        + AddPkUniqueConstraint.findings(root, columns)
        + SetNotNull.findings(root, columns)
        + PreferIdentity.findings(root, columns)
        + DropTable.findings(root, columns)
        + DropNotNull.findings(root, columns)
        + DropDatabase.findings(root, columns)
        + ConcurrentIndexInTransaction.findings(root, columns)
        + UncommittedTransaction.findings(root, columns)
        + TransactionNesting.findings(root, columns)
        + RobustStatements.findings(root, columns)
        + RequireTableSchema.findings(root, columns)
        + IdentifierTooLong.findings(root, columns)
}

/// Runs the rules of the pack on the tree of a file.
pub fn lint_migration(root: &SyntaxNode, columns: &MigrationColumns) -> (r: Vec<Diagnostic>)
    ensures
        r@.map_values(|d: Diagnostic| d@) == pack_findings(*root, columns@),
{
    let mut analyzer = Analyzer::new(columns);
    IndexConcurrently.run(root, &mut analyzer);
    DropIndexConcurrently.run(root, &mut analyzer);
    ConstraintNotValid.run(root, &mut analyzer);
    AddColumnVolatileDefault.run(root, &mut analyzer);
    AddColumnNotNullNoDefault.run(root, &mut analyzer);
    DropColumn.run(root, &mut analyzer);
    AlterColumnType.run(root, &mut analyzer);
    Rename.run(root, &mut analyzer);
    TruncateCascade.run(root, &mut analyzer);
    TypePreference.run(root, &mut analyzer);
    AddPkUniqueConstraint.run(root, &mut analyzer);
    SetNotNull.run(root, &mut analyzer);
    PreferIdentity.run(root, &mut analyzer);
    DropTable.run(root, &mut analyzer);
    DropNotNull.run(root, &mut analyzer);
    DropDatabase.run(root, &mut analyzer);
    ConcurrentIndexInTransaction.run(root, &mut analyzer);
    UncommittedTransaction.run(root, &mut analyzer);
    TransactionNesting.run(root, &mut analyzer);
    RobustStatements.run(root, &mut analyzer);
    RequireTableSchema.run(root, &mut analyzer);
    IdentifierTooLong.run(root, &mut analyzer);
    assert(analyzer@ =~= pack_findings(*root, columns@));
    analyzer.diagnostics
}

/// The findings of the pack in the tree of a file, as the configuration has them
/// reported.
pub fn analyze(root: &SyntaxNode, columns: &MigrationColumns, config: &LintConfig) -> (r: Vec<
    Diagnostic,
>)
    requires
        config.wf(),
    ensures
        r@.map_values(|d: Diagnostic| d@) == configured_findings(
            *config,
            pack_findings(*root, columns@),
        ),
{
    config.apply(lint_migration(root, columns))
}

/// Whether all findings have a property.
pub open spec fn all_are(findings: Seq<Finding>, property: spec_fn(Finding) -> bool) -> bool {
    forall|k: int| 0 <= k < findings.len() ==> property(#[trigger] findings[k])
}

proof fn lemma_all_joined(
    a: Seq<Finding>,
    b: Seq<Finding>,
    property: spec_fn(Finding) -> bool,
)
    ensures
        all_are(a + b, property) <==> all_are(a, property) && all_are(b, property),
{
    let c = a + b;
    if all_are(c, property) {
        assert forall|k: int| 0 <= k < a.len() implies property(#[trigger] a[k]) by {
            assert(c[k] == a[k]);
        }
        assert forall|k: int| 0 <= k < b.len() implies property(#[trigger] b[k]) by {
            assert(c[a.len() + k] == b[k]);
        }
    }
}

/// A property holds of all findings of the pack exactly when it holds of what each rule finds.
pub proof fn lemma_pack_all(
    root: SyntaxNode,
    columns: Seq<EventView>,
    property: spec_fn(Finding) -> bool,
)
    ensures
        all_are(pack_findings(root, columns), property) <==> {
            &&& all_are(IndexConcurrently.findings(root, columns), property)
            &&& all_are(DropIndexConcurrently.findings(root, columns), property)
            &&& all_are(ConstraintNotValid.findings(root, columns), property)
            &&& all_are(AddColumnVolatileDefault.findings(root, columns), property)
            &&& all_are(AddColumnNotNullNoDefault.findings(root, columns), property)
            &&& all_are(DropColumn.findings(root, columns), property)
            &&& all_are(AlterColumnType.findings(root, columns), property)
            &&& all_are(Rename.findings(root, columns), property)
            &&& all_are(TruncateCascade.findings(root, columns), property)
            &&& all_are(TypePreference.findings(root, columns), property)
            &&& all_are(AddPkUniqueConstraint.findings(root, columns), property)
            &&& all_are(SetNotNull.findings(root, columns), property)
            &&& all_are(PreferIdentity.findings(root, columns), property)
            &&& all_are(DropTable.findings(root, columns), property)
            &&& all_are(DropNotNull.findings(root, columns), property)
            &&& all_are(DropDatabase.findings(root, columns), property)
            &&& all_are(ConcurrentIndexInTransaction.findings(root, columns), property)
            &&& all_are(UncommittedTransaction.findings(root, columns), property)
            &&& all_are(TransactionNesting.findings(root, columns), property)
            &&& all_are(RobustStatements.findings(root, columns), property)
            &&& all_are(RequireTableSchema.findings(root, columns), property)
            &&& all_are(IdentifierTooLong.findings(root, columns), property)
        },
{
    let mut all = IndexConcurrently.findings(root, columns);
    lemma_all_joined(all, DropIndexConcurrently.findings(root, columns), property);
    all = all + DropIndexConcurrently.findings(root, columns);
    lemma_all_joined(all, ConstraintNotValid.findings(root, columns), property);
    all = all + ConstraintNotValid.findings(root, columns);
    lemma_all_joined(all, AddColumnVolatileDefault.findings(root, columns), property);
    all = all + AddColumnVolatileDefault.findings(root, columns);
    lemma_all_joined(all, AddColumnNotNullNoDefault.findings(root, columns), property);
    all = all + AddColumnNotNullNoDefault.findings(root, columns);
    lemma_all_joined(all, DropColumn.findings(root, columns), property);
    all = all + DropColumn.findings(root, columns);
    lemma_all_joined(all, AlterColumnType.findings(root, columns), property);
    all = all + AlterColumnType.findings(root, columns);
    lemma_all_joined(all, Rename.findings(root, columns), property);
    all = all + Rename.findings(root, columns);
    lemma_all_joined(all, TruncateCascade.findings(root, columns), property);
    all = all + TruncateCascade.findings(root, columns);
    lemma_all_joined(all, TypePreference.findings(root, columns), property);
    all = all + TypePreference.findings(root, columns);
    lemma_all_joined(all, AddPkUniqueConstraint.findings(root, columns), property);
    all = all + AddPkUniqueConstraint.findings(root, columns);
    lemma_all_joined(all, SetNotNull.findings(root, columns), property);
    all = all + SetNotNull.findings(root, columns);
    lemma_all_joined(all, PreferIdentity.findings(root, columns), property);
    all = all + PreferIdentity.findings(root, columns);
    lemma_all_joined(all, DropTable.findings(root, columns), property);
    all = all + DropTable.findings(root, columns);
    lemma_all_joined(all, DropNotNull.findings(root, columns), property);
    all = all + DropNotNull.findings(root, columns);
    lemma_all_joined(all, DropDatabase.findings(root, columns), property);
    all = all + DropDatabase.findings(root, columns);
    lemma_all_joined(all, ConcurrentIndexInTransaction.findings(root, columns), property);
    all = all + ConcurrentIndexInTransaction.findings(root, columns);
    lemma_all_joined(all, UncommittedTransaction.findings(root, columns), property);
    all = all + UncommittedTransaction.findings(root, columns);
    lemma_all_joined(all, TransactionNesting.findings(root, columns), property);
    all = all + TransactionNesting.findings(root, columns);
    lemma_all_joined(all, RobustStatements.findings(root, columns), property);
    all = all + RobustStatements.findings(root, columns);
    lemma_all_joined(all, RequireTableSchema.findings(root, columns), property);
    all = all + RequireTableSchema.findings(root, columns);
    lemma_all_joined(all, IdentifierTooLong.findings(root, columns), property);
    all = all + IdentifierTooLong.findings(root, columns);
}

/// Every finding of the pack is a warning with a code, at a range.
pub proof fn pack_findings_are_coded_warnings(root: SyntaxNode, columns: Seq<EventView>)
    ensures
        forall|k: int|
            0 <= k < pack_findings(root, columns).len() ==> (#[trigger] pack_findings(
                root,
                columns,
            )[k]).severity is Warning && pack_findings(root, columns)[k].code is Some
                && pack_findings(root, columns)[k].range is Some,
{
    IndexConcurrently.own_findings(root, columns);
    DropIndexConcurrently.own_findings(root, columns);
    ConstraintNotValid.own_findings(root, columns);
    AddColumnVolatileDefault.own_findings(root, columns);
    AddColumnNotNullNoDefault.own_findings(root, columns);
    DropColumn.own_findings(root, columns);
    AlterColumnType.own_findings(root, columns);
    Rename.own_findings(root, columns);
    TruncateCascade.own_findings(root, columns);
    TypePreference.own_findings(root, columns);
    AddPkUniqueConstraint.own_findings(root, columns);
    SetNotNull.own_findings(root, columns);
    PreferIdentity.own_findings(root, columns);
    DropTable.own_findings(root, columns);
    DropNotNull.own_findings(root, columns);
    DropDatabase.own_findings(root, columns);
    ConcurrentIndexInTransaction.own_findings(root, columns);
    UncommittedTransaction.own_findings(root, columns);
    TransactionNesting.own_findings(root, columns);
    RobustStatements.own_findings(root, columns);
    RequireTableSchema.own_findings(root, columns);
    IdentifierTooLong.own_findings(root, columns);
}

} // verus!
