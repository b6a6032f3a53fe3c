//! Which rule the findings of each code come from.

use crate::diagnostic::{Finding, RuleCode};
use crate::history::EventView;
use crate::migration::column::{AddColumnNotNullNoDefault, AddColumnVolatileDefault};
use crate::migration::column_types::{
    key_columns, key_type_findings, GivenTypes, KeyTypes, PreferIdentity, TypePreference,
};
use crate::migration::constraint::{
    AddPkUniqueConstraint, ConstraintNotValid, DropNotNull, SetNotNull,
};
use crate::migration::destructive::{
    AlterColumnType, DropColumn, DropDatabase, DropTable, Rename, TruncateCascade,
};
use crate::migration::index::{
    ConcurrentIndexInTransaction, DropIndexConcurrently, IndexConcurrently,
};
use crate::migration::statement::{IdentifierTooLong, RequireTableSchema, RobustStatements};
use crate::migration::transactions::{TransactionNesting, UncommittedTransaction};
use crate::pack::pack_findings;
use crate::rule::{found_below, NodeRule, Rule};
use crate::syntax::{child_nodes, descendants, SyntaxNode};
use vstd::prelude::*;

verus! {

/// The findings of a code, in order.
pub open spec fn with_code(findings: Seq<Finding>, code: RuleCode) -> Seq<Finding>
    decreases findings.len(),
{
    if findings.len() == 0 {
        seq![]
    } else if findings.last().code == Some(code) {
        with_code(findings.drop_last(), code).push(findings.last())
    } else {
        with_code(findings.drop_last(), code)
    }
}

/// What a rule finds at the first `n` nodes of a tree, in the order of the nodes.
pub open spec fn at_nodes<R: NodeRule>(
    rule: R,
    root: SyntaxNode,
    columns: Seq<EventView>,
    n: int,
) -> Seq<Finding>
    decreases n,
{
    if n <= 0 {
        seq![]
    } else {
        at_nodes(rule, root, columns, n - 1) + rule.found_at(root, columns, n - 1)
    }
}

proof fn lemma_at_nodes<R: NodeRule>(rule: R, root: SyntaxNode, columns: Seq<EventView>, n: int)
    ensures
        at_nodes(rule, root, columns, n) == found_below(rule, root, columns, n),
    decreases n,
{
    if n > 0 {
        lemma_at_nodes(rule, root, columns, n - 1);
    }
}

proof fn lemma_with_code_joined(a: Seq<Finding>, b: Seq<Finding>, code: RuleCode)
    ensures
        with_code(a + b, code) == with_code(a, code) + with_code(b, code),
    decreases b.len(),
{
    if b.len() == 0 {
        assert(a + b =~= a);
    } else {
        lemma_with_code_joined(a, b.drop_last(), code);
        assert((a + b).drop_last() =~= a + b.drop_last());
    }
    assert(with_code(a + b, code) =~= with_code(a, code) + with_code(b, code));
}

proof fn lemma_none_of_code(findings: Seq<Finding>, code: RuleCode)
    requires
        forall|k: int| 0 <= k < findings.len() ==> (#[trigger] findings[k]).code != Some(code),
    ensures
        with_code(findings, code).len() == 0,
    decreases findings.len(),
{
    if findings.len() > 0 {
        assert(findings[findings.len() - 1].code != Some(code));
        lemma_none_of_code(findings.drop_last(), code);
    }
}

proof fn lemma_only_code(findings: Seq<Finding>, code: RuleCode)
    requires
        forall|k: int| 0 <= k < findings.len() ==> (#[trigger] findings[k]).code == Some(code),
    ensures
        with_code(findings, code) == findings,
    decreases findings.len(),
{
    if findings.len() > 0 {
        assert(findings[findings.len() - 1].code == Some(code));
        lemma_only_code(findings.drop_last(), code);
        assert(with_code(findings, code) =~= findings);
    }
}

/// The place of the rule of a code among the rules of the pack.
pub open spec fn place(code: RuleCode) -> int {
    match code {
        RuleCode::Mg01 => 0,
        RuleCode::Mg12 => 1,
        RuleCode::Mg02 => 2,
        RuleCode::Mg03 => 3,
        RuleCode::Mg04 => 4,
        RuleCode::Mg05 => 5,
        RuleCode::Mg06 => 6,
        RuleCode::Mg07 => 7,
        RuleCode::Mg08 => 8,
        RuleCode::Mg09 => 9,
        RuleCode::Mg10 => 9,
        RuleCode::Mg11 => 9,
        RuleCode::Mg13 => 10,
        RuleCode::Mg14 => 11,
        RuleCode::Mg15 => 12,
        RuleCode::Mg16 => 13,
        RuleCode::Mg17 => 14,
        RuleCode::Mg18 => 15,
        RuleCode::Mg19 => 16,
        RuleCode::Mg20 => 17,
        RuleCode::Mg21 => 18,
        RuleCode::Mg22 => 19,
        RuleCode::Mg23 => 20,
        RuleCode::Mg24 => 21,
        RuleCode::Other(_) => -1,
    }
}

spec fn joined(parts: Seq<Seq<Finding>>) -> Seq<Finding>
    decreases parts.len(),
{
    if parts.len() == 0 {
        seq![]
    } else {
        joined(parts.drop_last()) + parts.last()
    }
}

proof fn lemma_joined_push(parts: Seq<Seq<Finding>>, part: Seq<Finding>)
    ensures
        joined(parts.push(part)) == joined(parts) + part,
{
    assert(parts.push(part).drop_last() =~= parts);
}

proof fn lemma_joined_with_code(parts: Seq<Seq<Finding>>, code: RuleCode, p: int)
    requires
        forall|q: int|
            0 <= q < parts.len() && q != p ==> with_code(#[trigger] parts[q], code).len() == 0,
    ensures
        with_code(joined(parts), code) == if 0 <= p < parts.len() {
            with_code(parts[p], code)
        } else {
            seq![]
        },
    decreases parts.len(),
{
    if parts.len() > 0 {
        let earlier = parts.drop_last();
        assert(forall|q: int| 0 <= q < earlier.len() ==> #[trigger] earlier[q] == parts[q]);
        lemma_joined_with_code(earlier, code, p);
        lemma_with_code_joined(joined(earlier), parts.last(), code);
        assert(parts[parts.len() - 1] == parts.last());
        assert(with_code(joined(parts), code) =~= if 0 <= p < parts.len() {
            with_code(parts[p], code)
        } else {
            seq![]
        });
    }
}

/// Whether the codes of findings are those of the rule at a place.
spec fn at_place(findings: Seq<Finding>, p: int) -> bool {
    forall|k: int|
        0 <= k < findings.len() ==> (#[trigger] findings[k]).code is Some && place(
            findings[k].code->0,
        ) == p
}

proof fn lemma_own_part<R: Rule>(rule: R, root: SyntaxNode, columns: Seq<EventView>, p: int)
    requires
        forall|c: int|
            0 <= c < rule.own_codes().len() ==> place(#[trigger] rule.own_codes()[c]) == p,
    ensures
        at_place(rule.findings(root, columns), p),
{
    rule.own_findings(root, columns);
    let findings = rule.findings(root, columns);
    let codes = rule.own_codes();
    assert forall|k: int| 0 <= k < findings.len() implies (#[trigger] findings[k]).code is Some
        && place(findings[k].code->0) == p by {
        assert(codes.contains(findings[k].code->0));
        let c = choose|c: int| 0 <= c < codes.len() && codes[c] == findings[k].code->0;
        assert(place(codes[c]) == p);
    }
}

/// What the rules of the pack find, rule by rule.
spec fn parts_of(root: SyntaxNode, columns: Seq<EventView>) -> Seq<Seq<Finding>> {
    seq![
        IndexConcurrently.findings(root, columns),
        DropIndexConcurrently.findings(root, columns),
        ConstraintNotValid.findings(root, columns),
        AddColumnVolatileDefault.findings(root, columns),
        AddColumnNotNullNoDefault.findings(root, columns),
        DropColumn.findings(root, columns),
        AlterColumnType.findings(root, columns),
        Rename.findings(root, columns),
        TruncateCascade.findings(root, columns),
        TypePreference.findings(root, columns),
        AddPkUniqueConstraint.findings(root, columns),
        SetNotNull.findings(root, columns),
        PreferIdentity.findings(root, columns),
        DropTable.findings(root, columns),
        DropNotNull.findings(root, columns),
        DropDatabase.findings(root, columns),
        ConcurrentIndexInTransaction.findings(root, columns),
        UncommittedTransaction.findings(root, columns),
        TransactionNesting.findings(root, columns),
        RobustStatements.findings(root, columns),
        RequireTableSchema.findings(root, columns),
        IdentifierTooLong.findings(root, columns),
    ]
}

proof fn lemma_parts(root: SyntaxNode, columns: Seq<EventView>)
    ensures
        joined(parts_of(root, columns)) == pack_findings(root, columns),
        forall|p: int| 0 <= p < 22 ==> at_place(#[trigger] parts_of(root, columns)[p], p),
{
    lemma_own_part(IndexConcurrently, root, columns, 0);
    lemma_own_part(DropIndexConcurrently, root, columns, 1);
    lemma_own_part(ConstraintNotValid, root, columns, 2);
    lemma_own_part(AddColumnVolatileDefault, root, columns, 3);
    lemma_own_part(AddColumnNotNullNoDefault, root, columns, 4);
    lemma_own_part(DropColumn, root, columns, 5);
    lemma_own_part(AlterColumnType, root, columns, 6);
    lemma_own_part(Rename, root, columns, 7);
    lemma_own_part(TruncateCascade, root, columns, 8);
    lemma_own_part(TypePreference, root, columns, 9);
    lemma_own_part(AddPkUniqueConstraint, root, columns, 10);
    lemma_own_part(SetNotNull, root, columns, 11);
    lemma_own_part(PreferIdentity, root, columns, 12);
    lemma_own_part(DropTable, root, columns, 13);
    lemma_own_part(DropNotNull, root, columns, 14);
    lemma_own_part(DropDatabase, root, columns, 15);
    lemma_own_part(ConcurrentIndexInTransaction, root, columns, 16);
    lemma_own_part(UncommittedTransaction, root, columns, 17);
    lemma_own_part(TransactionNesting, root, columns, 18);
    lemma_own_part(RobustStatements, root, columns, 19);
    lemma_own_part(RequireTableSchema, root, columns, 20);
    lemma_own_part(IdentifierTooLong, root, columns, 21);
    let mut parts: Seq<Seq<Finding>> = seq![];
    lemma_joined_push(parts, IndexConcurrently.findings(root, columns));
    parts = parts.push(IndexConcurrently.findings(root, columns));
    lemma_joined_push(parts, DropIndexConcurrently.findings(root, columns));
    parts = parts.push(DropIndexConcurrently.findings(root, columns));
    lemma_joined_push(parts, ConstraintNotValid.findings(root, columns));
    parts = parts.push(ConstraintNotValid.findings(root, columns));
    lemma_joined_push(parts, AddColumnVolatileDefault.findings(root, columns));
    parts = parts.push(AddColumnVolatileDefault.findings(root, columns));
    lemma_joined_push(parts, AddColumnNotNullNoDefault.findings(root, columns));
    parts = parts.push(AddColumnNotNullNoDefault.findings(root, columns));
    lemma_joined_push(parts, DropColumn.findings(root, columns));
    parts = parts.push(DropColumn.findings(root, columns));
    lemma_joined_push(parts, AlterColumnType.findings(root, columns));
    parts = parts.push(AlterColumnType.findings(root, columns));
    lemma_joined_push(parts, Rename.findings(root, columns));
    parts = parts.push(Rename.findings(root, columns));
    lemma_joined_push(parts, TruncateCascade.findings(root, columns));
    parts = parts.push(TruncateCascade.findings(root, columns));
    lemma_joined_push(parts, TypePreference.findings(root, columns));
    parts = parts.push(TypePreference.findings(root, columns));
    lemma_joined_push(parts, AddPkUniqueConstraint.findings(root, columns));
    parts = parts.push(AddPkUniqueConstraint.findings(root, columns));
    lemma_joined_push(parts, SetNotNull.findings(root, columns));
    parts = parts.push(SetNotNull.findings(root, columns));
    lemma_joined_push(parts, PreferIdentity.findings(root, columns));
    parts = parts.push(PreferIdentity.findings(root, columns));
    lemma_joined_push(parts, DropTable.findings(root, columns));
    parts = parts.push(DropTable.findings(root, columns));
    lemma_joined_push(parts, DropNotNull.findings(root, columns));
    parts = parts.push(DropNotNull.findings(root, columns));
    lemma_joined_push(parts, DropDatabase.findings(root, columns));
    parts = parts.push(DropDatabase.findings(root, columns));
    lemma_joined_push(parts, ConcurrentIndexInTransaction.findings(root, columns));
    parts = parts.push(ConcurrentIndexInTransaction.findings(root, columns));
    lemma_joined_push(parts, UncommittedTransaction.findings(root, columns));
    parts = parts.push(UncommittedTransaction.findings(root, columns));
    lemma_joined_push(parts, TransactionNesting.findings(root, columns));
    parts = parts.push(TransactionNesting.findings(root, columns));
    lemma_joined_push(parts, RobustStatements.findings(root, columns));
    parts = parts.push(RobustStatements.findings(root, columns));
    lemma_joined_push(parts, RequireTableSchema.findings(root, columns));
    parts = parts.push(RequireTableSchema.findings(root, columns));
    lemma_joined_push(parts, IdentifierTooLong.findings(root, columns));
    parts = parts.push(IdentifierTooLong.findings(root, columns));
    assert(parts =~= parts_of(root, columns));
    assert(joined(parts) =~= pack_findings(root, columns));
}

proof fn lemma_of_code(root: SyntaxNode, columns: Seq<EventView>, code: RuleCode)
    ensures
        with_code(pack_findings(root, columns), code) == if 0 <= place(code) {
            with_code(parts_of(root, columns)[place(code)], code)
        } else {
            seq![]
        },
{
    lemma_parts(root, columns);
    let parts = parts_of(root, columns);
    let p = place(code);
    assert forall|q: int| 0 <= q < parts.len() && q != p implies with_code(
        #[trigger] parts[q],
        code,
    ).len() == 0 by {
        assert(at_place(parts[q], q));
        lemma_none_of_code(parts[q], code);
    }
    lemma_joined_with_code(parts, code, p);
}

proof fn lemma_all_of_code<R: Rule>(
    rule: R,
    root: SyntaxNode,
    columns: Seq<EventView>,
    code: RuleCode,
)
    requires
        rule.own_codes() == seq![code],
    ensures
        with_code(rule.findings(root, columns), code) == rule.findings(root, columns),
{
    rule.own_findings(root, columns);
    let findings = rule.findings(root, columns);
    assert forall|k: int| 0 <= k < findings.len() implies (#[trigger] findings[k]).code == Some(
        code,
    ) by {
        assert(rule.own_codes().contains(findings[k].code->0));
    }
    lemma_only_code(findings, code);
}

proof fn lemma_key_codes(nodes: Seq<SyntaxNode>, keys: Seq<Seq<char>>)
    ensures
        forall|k: int|
            0 <= k < key_type_findings(nodes, keys).len() ==> (#[trigger] key_type_findings(
                nodes,
                keys,
            )[k]).code == Some(RuleCode::Mg11),
    decreases nodes.len(),
{
    if nodes.len() > 0 {
        lemma_key_codes(nodes.drop_last(), keys);
    }
}

proof fn lemma_types_apart(root: SyntaxNode, columns: Seq<EventView>, n: int)
    ensures
        forall|k: int|
            0 <= k < found_below(GivenTypes, root, columns, n).len() ==> (#[trigger] found_below(
                GivenTypes,
                root,
                columns,
                n,
            )[k]).code != Some(RuleCode::Mg11),
        forall|k: int|
            0 <= k < found_below(KeyTypes, root, columns, n).len() ==> (#[trigger] found_below(
                KeyTypes,
                root,
                columns,
                n,
            )[k]).code == Some(RuleCode::Mg11),
    decreases n,
{
    if n > 0 {
        lemma_types_apart(root, columns, n - 1);
        let nodes = child_nodes(descendants(root)[n - 1]);
        lemma_key_codes(nodes, key_columns(nodes));
    }
}

proof fn lemma_types_of_code(root: SyntaxNode, columns: Seq<EventView>, code: RuleCode)
    requires
        code is Mg09 || code is Mg10 || code is Mg11,
    ensures
        with_code(TypePreference.findings(root, columns), code) == if code is Mg11 {
            found_below(KeyTypes, root, columns, descendants(root).len() as int)
        } else {
            with_code(found_below(GivenTypes, root, columns, descendants(root).len() as int), code)
        },
{
    let n = descendants(root).len() as int;
    let given = found_below(GivenTypes, root, columns, n);
    let keyed = found_below(KeyTypes, root, columns, n);
    lemma_types_apart(root, columns, n);
    lemma_with_code_joined(given, keyed, code);
    if code is Mg11 {
        lemma_none_of_code(given, code);
        lemma_only_code(keyed, code);
        assert(with_code(given, code) + with_code(keyed, code) =~= keyed);
    } else {
        lemma_none_of_code(keyed, code);
        assert(with_code(given, code) + with_code(keyed, code) =~= with_code(given, code));
    }
}

/// What the pack finds in a file has, for each code, the findings of the rule of that code and no
/// others, in the order of the nodes at which the rule finds them, and nothing of any other code.
pub proof fn findings_of_a_code_are_those_of_its_rule(
    root: SyntaxNode,
    columns: Seq<EventView>,
    other: RuleCode,
)
    requires
        other is Other,
    ensures
        with_code(pack_findings(root, columns), RuleCode::Mg01) == at_nodes(
            IndexConcurrently,
            root,
            columns,
            descendants(root).len() as int,
        ),
        with_code(pack_findings(root, columns), RuleCode::Mg02) == at_nodes(
            ConstraintNotValid,
            root,
            columns,
            descendants(root).len() as int,
        ),
        with_code(pack_findings(root, columns), RuleCode::Mg03) == at_nodes(
            AddColumnVolatileDefault,
            root,
            columns,
            descendants(root).len() as int,
        ),
        with_code(pack_findings(root, columns), RuleCode::Mg04) == at_nodes(
            AddColumnNotNullNoDefault,
            root,
            columns,
            descendants(root).len() as int,
        ),
        with_code(pack_findings(root, columns), RuleCode::Mg05) == at_nodes(
            DropColumn,
            root,
            columns,
            descendants(root).len() as int,
        ),
        with_code(pack_findings(root, columns), RuleCode::Mg06) == at_nodes(
            AlterColumnType,
            root,
            columns,
            descendants(root).len() as int,
        ),
        with_code(pack_findings(root, columns), RuleCode::Mg07) == at_nodes(
            Rename,
            root,
            columns,
            descendants(root).len() as int,
        ),
        with_code(pack_findings(root, columns), RuleCode::Mg08) == at_nodes(
            TruncateCascade,
            root,
            columns,
            descendants(root).len() as int,
        ),
        with_code(pack_findings(root, columns), RuleCode::Mg09) == with_code(
            at_nodes(GivenTypes, root, columns, descendants(root).len() as int),
            RuleCode::Mg09,
        ),
        with_code(pack_findings(root, columns), RuleCode::Mg10) == with_code(
            at_nodes(GivenTypes, root, columns, descendants(root).len() as int),
            RuleCode::Mg10,
        ),
        with_code(pack_findings(root, columns), RuleCode::Mg11) == at_nodes(
            KeyTypes,
            root,
            columns,
            descendants(root).len() as int,
        ),
        with_code(pack_findings(root, columns), RuleCode::Mg12) == at_nodes(
            DropIndexConcurrently,
            root,
            columns,
            descendants(root).len() as int,
        ),
        with_code(pack_findings(root, columns), RuleCode::Mg13) == at_nodes(
            AddPkUniqueConstraint,
            root,
            columns,
            descendants(root).len() as int,
        ),
        with_code(pack_findings(root, columns), RuleCode::Mg14) == at_nodes(
            SetNotNull,
            root,
            columns,
            descendants(root).len() as int,
        ),
        with_code(pack_findings(root, columns), RuleCode::Mg15) == at_nodes(
            PreferIdentity,
            root,
            columns,
            descendants(root).len() as int,
        ),
        with_code(pack_findings(root, columns), RuleCode::Mg16) == at_nodes(
            DropTable,
            root,
            columns,
            descendants(root).len() as int,
        ),
        with_code(pack_findings(root, columns), RuleCode::Mg17) == at_nodes(
            DropNotNull,
            root,
            columns,
            descendants(root).len() as int,
        ),
        with_code(pack_findings(root, columns), RuleCode::Mg18) == at_nodes(
            DropDatabase,
            root,
            columns,
            descendants(root).len() as int,
        ),
        with_code(pack_findings(root, columns), RuleCode::Mg19) == at_nodes(
            ConcurrentIndexInTransaction,
            root,
            columns,
            descendants(root).len() as int,
        ),
        with_code(pack_findings(root, columns), RuleCode::Mg20) == UncommittedTransaction.findings(
            root,
            columns,
        ),
        with_code(pack_findings(root, columns), RuleCode::Mg21) == TransactionNesting.findings(
            root,
            columns,
        ),
        with_code(pack_findings(root, columns), RuleCode::Mg22) == at_nodes(
            RobustStatements,
            root,
            columns,
            descendants(root).len() as int,
        ),
        with_code(pack_findings(root, columns), RuleCode::Mg23) == at_nodes(
            RequireTableSchema,
            root,
            columns,
            descendants(root).len() as int,
        ),
        with_code(pack_findings(root, columns), RuleCode::Mg24) == IdentifierTooLong.findings(
            root,
            columns,
        ),
        with_code(pack_findings(root, columns), other).len() == 0,
{
    lemma_of_code(root, columns, RuleCode::Mg01);
    lemma_at_nodes(IndexConcurrently, root, columns, descendants(root).len() as int);
    lemma_all_of_code(IndexConcurrently, root, columns, RuleCode::Mg01);
    lemma_of_code(root, columns, RuleCode::Mg12);
    lemma_at_nodes(DropIndexConcurrently, root, columns, descendants(root).len() as int);
    lemma_all_of_code(DropIndexConcurrently, root, columns, RuleCode::Mg12);
    lemma_of_code(root, columns, RuleCode::Mg02);
    lemma_at_nodes(ConstraintNotValid, root, columns, descendants(root).len() as int);
    lemma_all_of_code(ConstraintNotValid, root, columns, RuleCode::Mg02);
    lemma_of_code(root, columns, RuleCode::Mg03);
    lemma_at_nodes(AddColumnVolatileDefault, root, columns, descendants(root).len() as int);
    lemma_all_of_code(AddColumnVolatileDefault, root, columns, RuleCode::Mg03);
    lemma_of_code(root, columns, RuleCode::Mg04);
    lemma_at_nodes(AddColumnNotNullNoDefault, root, columns, descendants(root).len() as int);
    lemma_all_of_code(AddColumnNotNullNoDefault, root, columns, RuleCode::Mg04);
    lemma_of_code(root, columns, RuleCode::Mg05);
    lemma_at_nodes(DropColumn, root, columns, descendants(root).len() as int);
    lemma_all_of_code(DropColumn, root, columns, RuleCode::Mg05);
    lemma_of_code(root, columns, RuleCode::Mg06);
    lemma_at_nodes(AlterColumnType, root, columns, descendants(root).len() as int);
    lemma_all_of_code(AlterColumnType, root, columns, RuleCode::Mg06);
    lemma_of_code(root, columns, RuleCode::Mg07);
    lemma_at_nodes(Rename, root, columns, descendants(root).len() as int);
    lemma_all_of_code(Rename, root, columns, RuleCode::Mg07);
    lemma_of_code(root, columns, RuleCode::Mg08);
    lemma_at_nodes(TruncateCascade, root, columns, descendants(root).len() as int);
    lemma_all_of_code(TruncateCascade, root, columns, RuleCode::Mg08);
    lemma_of_code(root, columns, RuleCode::Mg09);
    lemma_of_code(root, columns, RuleCode::Mg10);
    lemma_of_code(root, columns, RuleCode::Mg11);
    lemma_of_code(root, columns, RuleCode::Mg13);
    lemma_at_nodes(AddPkUniqueConstraint, root, columns, descendants(root).len() as int);
    lemma_all_of_code(AddPkUniqueConstraint, root, columns, RuleCode::Mg13);
    lemma_of_code(root, columns, RuleCode::Mg14);
    lemma_at_nodes(SetNotNull, root, columns, descendants(root).len() as int);
    lemma_all_of_code(SetNotNull, root, columns, RuleCode::Mg14);
    lemma_of_code(root, columns, RuleCode::Mg15);
    lemma_at_nodes(PreferIdentity, root, columns, descendants(root).len() as int);
    lemma_all_of_code(PreferIdentity, root, columns, RuleCode::Mg15);
    lemma_of_code(root, columns, RuleCode::Mg16);
    lemma_at_nodes(DropTable, root, columns, descendants(root).len() as int);
    lemma_all_of_code(DropTable, root, columns, RuleCode::Mg16);
    lemma_of_code(root, columns, RuleCode::Mg17);
    lemma_at_nodes(DropNotNull, root, columns, descendants(root).len() as int);
    lemma_all_of_code(DropNotNull, root, columns, RuleCode::Mg17);
    lemma_of_code(root, columns, RuleCode::Mg18);
    lemma_at_nodes(DropDatabase, root, columns, descendants(root).len() as int);
    lemma_all_of_code(DropDatabase, root, columns, RuleCode::Mg18);
    lemma_of_code(root, columns, RuleCode::Mg19);
    lemma_at_nodes(ConcurrentIndexInTransaction, root, columns, descendants(root).len() as int);
    lemma_all_of_code(ConcurrentIndexInTransaction, root, columns, RuleCode::Mg19);
    lemma_of_code(root, columns, RuleCode::Mg20);
    lemma_all_of_code(UncommittedTransaction, root, columns, RuleCode::Mg20);
    lemma_of_code(root, columns, RuleCode::Mg21);
    lemma_all_of_code(TransactionNesting, root, columns, RuleCode::Mg21);
    lemma_of_code(root, columns, RuleCode::Mg22);
    lemma_at_nodes(RobustStatements, root, columns, descendants(root).len() as int);
    lemma_all_of_code(RobustStatements, root, columns, RuleCode::Mg22);
    lemma_of_code(root, columns, RuleCode::Mg23);
    lemma_at_nodes(RequireTableSchema, root, columns, descendants(root).len() as int);
    lemma_all_of_code(RequireTableSchema, root, columns, RuleCode::Mg23);
    lemma_of_code(root, columns, RuleCode::Mg24);
    lemma_all_of_code(IdentifierTooLong, root, columns, RuleCode::Mg24);
    lemma_types_of_code(root, columns, RuleCode::Mg09);
    lemma_types_of_code(root, columns, RuleCode::Mg10);
    lemma_types_of_code(root, columns, RuleCode::Mg11);
    lemma_at_nodes(GivenTypes, root, columns, descendants(root).len() as int);
    lemma_at_nodes(KeyTypes, root, columns, descendants(root).len() as int);
    lemma_of_code(root, columns, other);
}

proof fn lemma_joined_in_order(parts: Seq<Seq<Finding>>)
    requires
        forall|p: int| 0 <= p < parts.len() ==> at_place(#[trigger] parts[p], p),
    ensures
        forall|a: int|
            0 <= a < joined(parts).len() ==> (#[trigger] joined(parts)[a]).code is Some && place(
                joined(parts)[a].code->0,
            ) < parts.len(),
        forall|a: int, b: int|
            0 <= a < b < joined(parts).len() ==> place((#[trigger] joined(parts)[a]).code->0)
                <= place((#[trigger] joined(parts)[b]).code->0),
    decreases parts.len(),
{
    if parts.len() > 0 {
        let earlier = parts.drop_last();
        assert(forall|p: int| 0 <= p < earlier.len() ==> #[trigger] earlier[p] == parts[p]);
        lemma_joined_in_order(earlier);
        let before = joined(earlier);
        let all = joined(parts);
        assert(at_place(parts[parts.len() - 1], parts.len() - 1));
        assert forall|a: int| before.len() <= a < all.len() implies (#[trigger] all[a]).code is Some
            && place(all[a].code->0) == parts.len() - 1 by {
            assert(all[a] == parts.last()[a - before.len()]);
        }
        assert forall|a: int| 0 <= a < before.len() implies #[trigger] all[a] == before[a] by {}
    }
}

/// What the pack finds comes rule by rule, in the order of the rules.
pub proof fn findings_come_rule_by_rule(root: SyntaxNode, columns: Seq<EventView>, a: int, b: int)
    requires
        0 <= a < b < pack_findings(root, columns).len(),
    ensures
        pack_findings(root, columns)[a].code is Some,
        pack_findings(root, columns)[b].code is Some,
        place(pack_findings(root, columns)[a].code->0) <= place(
            pack_findings(root, columns)[b].code->0,
        ),
{
    lemma_parts(root, columns);
    lemma_joined_in_order(parts_of(root, columns));
    assert(joined(parts_of(root, columns))[a].code is Some);
    assert(joined(parts_of(root, columns))[b].code is Some);
}

/// The codes of each rule of the pack.
pub proof fn rules_have_these_codes()
    ensures
        IndexConcurrently.own_codes() == seq![RuleCode::Mg01],
        DropIndexConcurrently.own_codes() == seq![RuleCode::Mg12],
        ConstraintNotValid.own_codes() == seq![RuleCode::Mg02],
        AddColumnVolatileDefault.own_codes() == seq![RuleCode::Mg03],
        AddColumnNotNullNoDefault.own_codes() == seq![RuleCode::Mg04],
        DropColumn.own_codes() == seq![RuleCode::Mg05],
        AlterColumnType.own_codes() == seq![RuleCode::Mg06],
        Rename.own_codes() == seq![RuleCode::Mg07],
        TruncateCascade.own_codes() == seq![RuleCode::Mg08],
        TypePreference.own_codes() == seq![RuleCode::Mg09, RuleCode::Mg10, RuleCode::Mg11],
        AddPkUniqueConstraint.own_codes() == seq![RuleCode::Mg13],
        SetNotNull.own_codes() == seq![RuleCode::Mg14],
        PreferIdentity.own_codes() == seq![RuleCode::Mg15],
        DropTable.own_codes() == seq![RuleCode::Mg16],
        DropNotNull.own_codes() == seq![RuleCode::Mg17],
        DropDatabase.own_codes() == seq![RuleCode::Mg18],
        ConcurrentIndexInTransaction.own_codes() == seq![RuleCode::Mg19],
        UncommittedTransaction.own_codes() == seq![RuleCode::Mg20],
        TransactionNesting.own_codes() == seq![RuleCode::Mg21],
        RobustStatements.own_codes() == seq![RuleCode::Mg22],
        RequireTableSchema.own_codes() == seq![RuleCode::Mg23],
        IdentifierTooLong.own_codes() == seq![RuleCode::Mg24],
{
}

} // verus!
