//! What holds of the suggested fixes.

use crate::diagnostic::Finding;
use crate::history::EventView;
use crate::migration::column::{AddColumnNotNullNoDefault, AddColumnVolatileDefault};
use crate::migration::column_types::{
    key_columns, key_type_finding, key_type_findings, limited_text_findings, timestamp_findings,
    GivenTypes, KeyTypes, PreferIdentity, TypePreference,
};
use crate::migration::constraint::{
    added_constraint, AddPkUniqueConstraint, ConstraintNotValid, DropNotNull, SetNotNull,
};
use crate::migration::destructive::{
    AlterColumnType, DropColumn, DropDatabase, DropTable, Rename, TruncateCascade,
};
use crate::migration::index::{
    ConcurrentIndexInTransaction, DropIndexConcurrently, IndexConcurrently,
};
use crate::migration::statement::{
    too_long_finding, too_long_findings, RequireTableSchema, RobustStatements,
};
use crate::migration::transactions::{nesting_finding, nesting_findings};
use crate::pack::{all_are, lemma_pack_all, pack_findings};
use crate::rule::{found_below, NodeRule, Rule};
use crate::syntax::{
    all_placed, child_in_role, child_nodes, child_tokens, descendant_tokens, descendants,
    first_in_role, first_of_kind, forest_nodes, forest_tokens, greatest_end, nodes_of, plays,
    tokens_of, well_placed, within, Role, SyntaxElement, SyntaxNode, SyntaxToken, TextRange,
    TokenKind,
};
use crate::transaction::{txn_events, TxnEvent};
use vstd::prelude::*;

verus! {

/// Whether the edits of the fixes of a finding lie inside the range of the finding.
pub open spec fn fix_inside(finding: Finding) -> bool {
    forall|m: int, e: int|
        0 <= m < finding.fixes.len() && 0 <= e < finding.fixes[m].edits.len()
            ==> finding.range is Some && within(
            (#[trigger] finding.fixes[m].edits[e]).range,
            finding.range->0,
        )
}

/// The property of findings whose fixes lie inside their range.
pub open spec fn inside() -> spec_fn(Finding) -> bool {
    |finding: Finding| fix_inside(finding)
}

/// Whether the edits of the fixes of each finding lie inside the range of the finding.
pub open spec fn fixes_inside(findings: Seq<Finding>) -> bool {
    all_are(findings, inside())
}

proof fn lemma_tokens_within(elements: Seq<SyntaxElement>, range: TextRange)
    requires
        all_placed(elements, range),
    ensures
        forall|k: int|
            0 <= k < forest_tokens(elements).len() ==> within(
                (#[trigger] forest_tokens(elements)[k]).range,
                range,
            ),
    decreases elements,
{
    if elements.len() > 0 {
        lemma_tokens_within(elements.drop_last(), range);
        reveal_with_fuel(all_placed, 2);
        reveal_with_fuel(forest_tokens, 2);
        if let SyntaxElement::Node(node) = elements.last() {
            assert(decreases_to!(elements => elements[elements.len() - 1]));
            lemma_tokens_within(node.children@, node.range);
            assert(forest_tokens(elements) == forest_tokens(elements.drop_last())
                + forest_tokens(node.children@));
        } else {
            assert(forest_tokens(elements) == forest_tokens(elements.drop_last())
                + seq![elements.last()->Token_0]);
        }
    }
}

proof fn lemma_nodes_placed(elements: Seq<SyntaxElement>, range: TextRange)
    requires
        all_placed(elements, range),
    ensures
        forall|k: int|
            0 <= k < forest_nodes(elements).len() ==> well_placed(
                #[trigger] forest_nodes(elements)[k],
            ),
    decreases elements,
{
    if elements.len() > 0 {
        lemma_nodes_placed(elements.drop_last(), range);
        reveal_with_fuel(all_placed, 2);
        reveal_with_fuel(forest_nodes, 2);
        if let SyntaxElement::Node(node) = elements.last() {
            assert(decreases_to!(elements => elements[elements.len() - 1]));
            lemma_nodes_placed(node.children@, node.range);
            assert(forest_nodes(elements) == forest_nodes(elements.drop_last()) + (seq![node]
                + forest_nodes(node.children@)));
        } else {
            assert(forest_nodes(elements) =~= forest_nodes(elements.drop_last()));
        }
    }
}

/// The nodes of a well-placed tree are well placed.
proof fn lemma_descendants_placed(root: SyntaxNode)
    requires
        well_placed(root),
    ensures
        forall|k: int|
            0 <= k < descendants(root).len() ==> well_placed(#[trigger] descendants(root)[k]),
{
    lemma_nodes_placed(root.children@, root.range);
    assert(descendants(root) == seq![root] + forest_nodes(root.children@));
}

proof fn lemma_child_tokens_within(elements: Seq<SyntaxElement>, range: TextRange)
    requires
        all_placed(elements, range),
    ensures
        forall|k: int|
            0 <= k < tokens_of(elements).len() ==> within(
                (#[trigger] tokens_of(elements)[k]).range,
                range,
            ),
    decreases elements.len(),
{
    if elements.len() > 0 {
        lemma_child_tokens_within(elements.drop_last(), range);
    }
}

proof fn lemma_child_nodes_within(elements: Seq<SyntaxElement>, range: TextRange)
    requires
        all_placed(elements, range),
    ensures
        forall|k: int|
            0 <= k < nodes_of(elements).len() ==> within(
                (#[trigger] nodes_of(elements)[k]).range,
                range,
            ) && well_placed(nodes_of(elements)[k]),
    decreases elements.len(),
{
    if elements.len() > 0 {
        lemma_child_nodes_within(elements.drop_last(), range);
    }
}

proof fn lemma_first_of_kind(tokens: Seq<SyntaxToken>, kind: TokenKind)
    ensures
        first_of_kind(tokens, kind) matches Some(token) ==> exists|k: int|
            0 <= k < tokens.len() && #[trigger] tokens[k] == token,
    decreases tokens.len(),
{
    if tokens.len() > 0 {
        if tokens[0].kind != kind {
            lemma_first_of_kind(tokens.skip(1), kind);
            if let Some(token) = first_of_kind(tokens.skip(1), kind) {
                let k = choose|k: int|
                    0 <= k < tokens.skip(1).len() && #[trigger] tokens.skip(1)[k] == token;
                assert(tokens[k + 1] == token);
            }
        }
    }
}

proof fn lemma_first_in_role(nodes: Seq<SyntaxNode>, role: Role)
    ensures
        first_in_role(nodes, role) matches Some(node) ==> exists|k: int|
            0 <= k < nodes.len() && #[trigger] nodes[k] == node,
    decreases nodes.len(),
{
    if nodes.len() > 0 {
        if !plays(nodes[0].class, role) {
            lemma_first_in_role(nodes.skip(1), role);
            if let Some(node) = first_in_role(nodes.skip(1), role) {
                let k = choose|k: int|
                    0 <= k < nodes.skip(1).len() && #[trigger] nodes.skip(1)[k] == node;
                assert(nodes[k + 1] == node);
            }
        }
    }
}

proof fn lemma_greatest_end(tokens: Seq<SyntaxToken>)
    ensures
        greatest_end(tokens) matches Some(end) ==> exists|k: int|
            0 <= k < tokens.len() && (#[trigger] tokens[k]).range.end == end,
    decreases tokens.len(),
{
    if tokens.len() > 0 {
        lemma_greatest_end(tokens.drop_last());
        assert(tokens[tokens.len() - 1] == tokens.last());
        if let Some(end) = greatest_end(tokens.drop_last()) {
            let k = choose|k: int|
                0 <= k < tokens.drop_last().len() && (#[trigger] tokens.drop_last()[k]).range.end
                    == end;
            assert(tokens[k].range.end == end);
        }
    }
}

/// The first child token of a kind lies inside the node.
proof fn lemma_token_inside(node: SyntaxNode, kind: TokenKind)
    requires
        well_placed(node),
    ensures
        first_of_kind(child_tokens(node), kind) matches Some(token) ==> within(
            token.range,
            node.range,
        ),
{
    lemma_child_tokens_within(node.children@, node.range);
    lemma_first_of_kind(child_tokens(node), kind);
}

/// A child in a role lies inside the node and is well placed.
proof fn lemma_child_inside(node: SyntaxNode, role: Role)
    requires
        well_placed(node),
    ensures
        child_in_role(node, role) matches Some(child) ==> within(child.range, node.range)
            && well_placed(child),
{
    lemma_child_nodes_within(node.children@, node.range);
    lemma_first_in_role(child_nodes(node), role);
}

proof fn lemma_found_inside<R: NodeRule>(
    rule: R,
    root: SyntaxNode,
    columns: Seq<EventView>,
    n: int,
)
    requires
        n <= descendants(root).len(),
        forall|i: int|
            0 <= i < descendants(root).len() ==> fixes_inside(
                #[trigger] rule.found_at(root, columns, i),
            ),
    ensures
        fixes_inside(found_below(rule, root, columns, n)),
    decreases n,
{
    if n > 0 {
        lemma_found_inside(rule, root, columns, n - 1);
        lemma_inside_concat(
            found_below(rule, root, columns, n - 1),
            rule.found_at(root, columns, n - 1),
        );
    }
}

proof fn lemma_inside_concat(a: Seq<Finding>, b: Seq<Finding>)
    requires
        fixes_inside(a),
        fixes_inside(b),
    ensures
        fixes_inside(a + b),
{
}

/// The fixes of MG01 and MG12 stay inside their statements.
proof fn lemma_index_fixes(root: SyntaxNode, columns: Seq<EventView>)
    requires
        well_placed(root),
    ensures
        fixes_inside(IndexConcurrently.findings(root, columns)),
        fixes_inside(DropIndexConcurrently.findings(root, columns)),
{
    lemma_descendants_placed(root);
    let n = descendants(root).len() as int;
    assert forall|i: int| 0 <= i < n implies fixes_inside(
        #[trigger] IndexConcurrently.found_at(root, columns, i),
    ) by {
        lemma_token_inside(descendants(root)[i], TokenKind::IndexKw);
    }
    assert forall|i: int| 0 <= i < n implies fixes_inside(
        #[trigger] DropIndexConcurrently.found_at(root, columns, i),
    ) by {
        lemma_token_inside(descendants(root)[i], TokenKind::IndexKw);
    }
    lemma_found_inside(IndexConcurrently, root, columns, n);
    lemma_found_inside(DropIndexConcurrently, root, columns, n);
}

/// The fix of MG02 stays inside the action.
proof fn lemma_constraint_fixes(root: SyntaxNode, columns: Seq<EventView>)
    requires
        well_placed(root),
    ensures
        fixes_inside(ConstraintNotValid.findings(root, columns)),
{
    lemma_descendants_placed(root);
    let n = descendants(root).len() as int;
    assert forall|i: int| 0 <= i < n implies fixes_inside(
        #[trigger] ConstraintNotValid.found_at(root, columns, i),
    ) by {
        let node = descendants(root)[i];
        lemma_child_inside(node, Role::Constraint);
        if let Some(constraint) = added_constraint(node) {
            lemma_tokens_within(constraint.children@, constraint.range);
            lemma_greatest_end(descendant_tokens(constraint));
        }
    }
    lemma_found_inside(ConstraintNotValid, root, columns, n);
}

proof fn lemma_key_type_fixes(nodes: Seq<SyntaxNode>, keys: Seq<Seq<char>>)
    ensures
        fixes_inside(key_type_findings(nodes, keys)),
    decreases nodes.len(),
{
    if nodes.len() > 0 {
        lemma_key_type_fixes(nodes.drop_last(), keys);
        lemma_inside_concat(
            key_type_findings(nodes.drop_last(), keys),
            key_type_finding(nodes.last(), keys),
        );
    }
}

/// The fixes of MG09 and MG10 stay inside the type.
proof fn lemma_type_fixes(root: SyntaxNode, columns: Seq<EventView>)
    requires
        well_placed(root),
    ensures
        fixes_inside(TypePreference.findings(root, columns)),
{
    lemma_descendants_placed(root);
    let n = descendants(root).len() as int;
    assert forall|i: int| 0 <= i < n implies fixes_inside(
        #[trigger] GivenTypes.found_at(root, columns, i),
    ) by {
        let node = descendants(root)[i];
        lemma_child_inside(node, Role::Type);
        if let Some(ty) = child_in_role(node, Role::Type) {
            lemma_token_inside(ty, TokenKind::TimestampKw);
            assert(fixes_inside(limited_text_findings(ty)));
            assert(fixes_inside(timestamp_findings(ty)));
            lemma_inside_concat(
                limited_text_findings(ty),
                timestamp_findings(ty),
            );
        }
    }
    assert forall|i: int| 0 <= i < n implies fixes_inside(
        #[trigger] KeyTypes.found_at(root, columns, i),
    ) by {
        let nodes = child_nodes(descendants(root)[i]);
        lemma_key_type_fixes(nodes, key_columns(nodes));
    }
    lemma_found_inside(GivenTypes, root, columns, n);
    lemma_found_inside(KeyTypes, root, columns, n);
    lemma_inside_concat(
        found_below(GivenTypes, root, columns, n),
        found_below(KeyTypes, root, columns, n),
    );
}

proof fn lemma_nesting_fixes(events: Seq<(SyntaxNode, TxnEvent)>)
    ensures
        fixes_inside(nesting_findings(events)),
    decreases events.len(),
{
    if events.len() > 0 {
        lemma_nesting_fixes(events.drop_last());
        lemma_inside_concat(
            nesting_findings(events.drop_last()),
            nesting_finding(events),
        );
    }
}

proof fn lemma_too_long_fixes(tokens: Seq<SyntaxToken>)
    ensures
        fixes_inside(too_long_findings(tokens)),
    decreases tokens.len(),
{
    if tokens.len() > 0 {
        lemma_too_long_fixes(tokens.drop_last());
        lemma_inside_concat(
            too_long_findings(tokens.drop_last()),
            too_long_finding(tokens.last()),
        );
    }
}

/// In a well-placed tree every suggested edit lies inside the range of its finding.
pub proof fn fixes_stay_inside_their_findings(root: SyntaxNode, columns: Seq<EventView>)
    requires
        well_placed(root),
    ensures
        fixes_inside(pack_findings(root, columns)),
{
    let n = descendants(root).len() as int;
    lemma_index_fixes(root, columns);
    lemma_constraint_fixes(root, columns);
    lemma_type_fixes(root, columns);
    lemma_nesting_fixes(txn_events(root));
    lemma_too_long_fixes(descendant_tokens(root));
    lemma_found_inside(AddColumnVolatileDefault, root, columns, n);
    lemma_found_inside(AddColumnNotNullNoDefault, root, columns, n);
    lemma_found_inside(DropColumn, root, columns, n);
    lemma_found_inside(AlterColumnType, root, columns, n);
    lemma_found_inside(Rename, root, columns, n);
    lemma_found_inside(TruncateCascade, root, columns, n);
    lemma_found_inside(AddPkUniqueConstraint, root, columns, n);
    lemma_found_inside(SetNotNull, root, columns, n);
    lemma_found_inside(PreferIdentity, root, columns, n);
    lemma_found_inside(DropTable, root, columns, n);
    lemma_found_inside(DropNotNull, root, columns, n);
    lemma_found_inside(DropDatabase, root, columns, n);
    lemma_found_inside(ConcurrentIndexInTransaction, root, columns, n);
    lemma_found_inside(RobustStatements, root, columns, n);
    lemma_found_inside(RequireTableSchema, root, columns, n);
    lemma_pack_all(root, columns, inside());
}

} // verus!
