//! What the backward-incompatible changes are.

use crate::config::is_breaking;
use crate::diagnostic::Finding;
use crate::history::EventView;
use crate::migration::column::{AddColumnNotNullNoDefault, AddColumnVolatileDefault};
use crate::migration::column_types::{PreferIdentity, TypePreference};
use crate::migration::constraint::{
    AddPkUniqueConstraint, ConstraintNotValid, DropNotNull, SetNotNull,
};
use crate::migration::destructive::{
    AlterColumnType, DropColumn, DropDatabase, DropTable, Rename, TruncateCascade,
};
use crate::migration::index::{
    ConcurrentIndexInTransaction, DropIndexConcurrently, IndexConcurrently,
};
use crate::migration::statement::{IdentifierTooLong, RequireTableSchema, RobustStatements};
use crate::migration::transactions::{TransactionNesting, UncommittedTransaction};
use crate::pack::{all_are, lemma_pack_all, pack_findings};
use crate::rule::Rule;
use crate::syntax::SyntaxNode;
use vstd::prelude::*;

verus! {

/// Whether some finding is of a backward-incompatible change.
pub open spec fn breaking_in(findings: Seq<Finding>) -> bool {
    exists|k: int|
        0 <= k < findings.len() && (#[trigger] findings[k]).code is Some && is_breaking(
            findings[k].code->0,
        )
}

/// Whether a migration holds a backward-incompatible change.
pub open spec fn has_breaking_change(root: SyntaxNode, columns: Seq<EventView>) -> bool {
    breaking_in(pack_findings(root, columns))
}

/// The property of findings that are not of backward-incompatible changes.
pub open spec fn harmless() -> spec_fn(Finding) -> bool {
    |finding: Finding| !(finding.code is Some && is_breaking(finding.code->0))
}

proof fn lemma_harmless(findings: Seq<Finding>)
    ensures
        all_are(findings, harmless()) <==> !breaking_in(findings),
{
    if !all_are(findings, harmless()) {
        let k = choose|k: int| 0 <= k < findings.len() && !harmless()(#[trigger] findings[k]);
        assert(findings[k].code is Some);
    }
    if breaking_in(findings) {
        let k = choose|k: int|
            0 <= k < findings.len() && (#[trigger] findings[k]).code is Some && is_breaking(
                findings[k].code->0,
            );
        assert(!harmless()(findings[k]));
    }
}

/// Whether a rule has no code of breaking changes.
spec fn advisory<R: Rule>(rule: R) -> bool {
    forall|i: int|
        0 <= i < rule.own_codes().len() ==> !is_breaking(#[trigger] rule.own_codes()[i])
}

/// Whether a rule has only codes of breaking changes.
spec fn gating<R: Rule>(rule: R) -> bool {
    forall|i: int| 0 <= i < rule.own_codes().len() ==> is_breaking(#[trigger] rule.own_codes()[i])
}

/// An advisory rule finds no breaking changes.
proof fn lemma_advisory<R: Rule>(rule: R, root: SyntaxNode, columns: Seq<EventView>)
    requires
        advisory(rule),
    ensures
        all_are(rule.findings(root, columns), harmless()),
{
    let findings = rule.findings(root, columns);
    let codes = rule.own_codes();
    rule.own_findings(root, columns);
    assert forall|k: int| 0 <= k < findings.len() implies harmless()(#[trigger] findings[k]) by {
        assert(codes.contains(findings[k].code->0));
    }
}

/// What a gating rule finds are breaking changes.
proof fn lemma_gating<R: Rule>(rule: R, root: SyntaxNode, columns: Seq<EventView>)
    requires
        gating(rule),
    ensures
        all_are(rule.findings(root, columns), harmless()) <==> rule.findings(root, columns).len()
            == 0,
{
    let findings = rule.findings(root, columns);
    rule.own_findings(root, columns);
    if findings.len() > 0 {
        assert(rule.own_codes().contains(findings[0].code->0));
        assert(!harmless()(findings[0]));
    }
}

/// A migration holds a backward-incompatible change exactly when one of these rules finds
/// something: a column added `NOT NULL` without a default, a dropped column, a changed
/// type, a rename, `TRUNCATE … CASCADE`, a dropped table, a dropped `NOT NULL`, or a dropped
/// database.
pub proof fn breaking_changes_are_found_by_these_rules(root: SyntaxNode, columns: Seq<EventView>)
    ensures
        has_breaking_change(root, columns) <==> {
            ||| AddColumnNotNullNoDefault.findings(root, columns).len() > 0
            ||| DropColumn.findings(root, columns).len() > 0
            ||| AlterColumnType.findings(root, columns).len() > 0
            ||| Rename.findings(root, columns).len() > 0
            ||| TruncateCascade.findings(root, columns).len() > 0
            ||| DropTable.findings(root, columns).len() > 0
            ||| DropNotNull.findings(root, columns).len() > 0
            ||| DropDatabase.findings(root, columns).len() > 0
        },
{
    lemma_advisory(IndexConcurrently, root, columns);
    lemma_advisory(DropIndexConcurrently, root, columns);
    lemma_advisory(ConstraintNotValid, root, columns);
    lemma_advisory(AddColumnVolatileDefault, root, columns);
    lemma_gating(AddColumnNotNullNoDefault, root, columns);
    lemma_gating(DropColumn, root, columns);
    lemma_gating(AlterColumnType, root, columns);
    lemma_gating(Rename, root, columns);
    lemma_gating(TruncateCascade, root, columns);
    lemma_advisory(TypePreference, root, columns);
    lemma_advisory(AddPkUniqueConstraint, root, columns);
    lemma_advisory(SetNotNull, root, columns);
    lemma_advisory(PreferIdentity, root, columns);
    lemma_gating(DropTable, root, columns);
    lemma_gating(DropNotNull, root, columns);
    lemma_gating(DropDatabase, root, columns);
    lemma_advisory(ConcurrentIndexInTransaction, root, columns);
    lemma_advisory(UncommittedTransaction, root, columns);
    lemma_advisory(TransactionNesting, root, columns);
    lemma_advisory(RobustStatements, root, columns);
    lemma_advisory(RequireTableSchema, root, columns);
    lemma_advisory(IdentifierTooLong, root, columns);
    lemma_pack_all(root, columns, harmless());
    lemma_harmless(pack_findings(root, columns));
}

} // verus!
