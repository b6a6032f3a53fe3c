//! What holds of constraints that are added to a table, and of `NOT NULL`.

use crate::diagnostic::{EditView, Finding, FixView, RuleCode, Severity};
use crate::history::EventView;
use crate::laws::trees::{
    lemma_child_in_role, lemma_no_child_in_role, row_stands_between_two_parts,
};
use crate::migration::constraint::{
    AddPkUniqueConstraint, ConstraintNotValid, DropNotNull, SetNotNull,
};
use crate::rule::NodeRule;
use crate::syntax::{
    child_nodes, child_tokens, descendant_tokens, descendants, last_token_end, plain_kinds,
    AlterActionKind, ConstraintKind, NodeClass, Role, SyntaxNode, TextRange, TokenKind,
};
use vstd::prelude::*;

verus! {

/// A constraint that is the first one below an action which adds a constraint is flagged by
/// MG02, once and at the action, exactly if it is a foreign key or a check and is not marked
/// `NOT VALID`. One that is so marked is not flagged, whatever its kind.
pub proof fn constraint_that_validates_is_flagged(
    root: SyntaxNode,
    columns: Seq<EventView>,
    i: int,
    c: int,
)
    requires
        0 <= i < descendants(root).len(),
        descendants(root)[i].class matches NodeClass::AlterTableAction {
            action: AlterActionKind::AddConstraint,
            ..
        },
        0 <= c < child_nodes(descendants(root)[i]).len(),
        child_nodes(descendants(root)[i])[c].class is Constraint,
        forall|m: int|
            0 <= m < c ==> !((#[trigger] child_nodes(descendants(root)[i])[m]).class is Constraint),
    ensures
        child_nodes(descendants(root)[i])[c].class matches NodeClass::Constraint {
            not_valid: true,
            ..
        } ==> ConstraintNotValid.found_at(root, columns, i).len() == 0,
        child_nodes(descendants(root)[i])[c].class matches NodeClass::Constraint {
            constraint: ConstraintKind::PrimaryKey | ConstraintKind::Unique | ConstraintKind::Other,
            ..
        } ==> ConstraintNotValid.found_at(root, columns, i).len() == 0,
        child_nodes(descendants(root)[i])[c].class matches NodeClass::Constraint {
            constraint: ConstraintKind::ForeignKey | ConstraintKind::Check,
            not_valid: false,
            ..
        } ==> ConstraintNotValid.found_at(root, columns, i) == seq![
            (Finding {
                severity: Severity::Warning,
                code: Some(RuleCode::Mg02),
                message:
                    "ADD CONSTRAINT without NOT VALID validates every existing row under a lock; add it NOT VALID and VALIDATE CONSTRAINT separately"@,
                range: Some(descendants(root)[i].range),
                fixes: match last_token_end(child_nodes(descendants(root)[i])[c]) {
                    Some(end) => seq![
                        (FixView {
                            title: "Add NOT VALID"@,
                            edits: seq![
                                (EditView {
                                    range: (TextRange { start: end, end }),
                                    text: " NOT VALID"@,
                                }),
                            ],
                        }),
                    ],
                    None => seq![],
                },
            }),
        ],
{
    lemma_child_in_role(descendants(root)[i], Role::Constraint, c);
    if let Some(end) = last_token_end(child_nodes(descendants(root)[i])[c]) {
        let fix = FixView {
            title: "Add NOT VALID"@,
            edits: seq![EditView { range: TextRange { start: end, end }, text: " NOT VALID"@ }],
        };
        assert(Seq::<FixView>::empty().push(fix) =~= seq![fix]);
    }
}

/// A node that adds no constraint, because it is no action that adds one or has no constraint
/// below it, is flagged neither by MG02 nor by MG13.
pub proof fn no_added_constraint_is_not_flagged(
    root: SyntaxNode,
    columns: Seq<EventView>,
    i: int,
)
    requires
        0 <= i < descendants(root).len(),
        !(descendants(root)[i].class matches NodeClass::AlterTableAction {
            action: AlterActionKind::AddConstraint,
            ..
        }) || forall|m: int|
            0 <= m < child_nodes(descendants(root)[i]).len() ==> !((#[trigger] child_nodes(
                descendants(root)[i],
            )[m]).class is Constraint),
    ensures
        ConstraintNotValid.found_at(root, columns, i).len() == 0,
        AddPkUniqueConstraint.found_at(root, columns, i).len() == 0,
{
    lemma_no_child_in_role(descendants(root)[i], Role::Constraint);
}

/// A constraint that is the first one below an action which adds a constraint is flagged by
/// MG13, once and at the action, exactly if it is a primary key or a unique constraint, unless
/// it has no columns of its own and the words `USING` and `INDEX` stand next to each other in
/// the action: then it takes over an index that is there.
pub proof fn key_that_builds_an_index_is_flagged(
    root: SyntaxNode,
    columns: Seq<EventView>,
    i: int,
    c: int,
)
    requires
        0 <= i < descendants(root).len(),
        descendants(root)[i].class matches NodeClass::AlterTableAction {
            action: AlterActionKind::AddConstraint,
            ..
        },
        0 <= c < child_nodes(descendants(root)[i]).len(),
        child_nodes(descendants(root)[i])[c].class is Constraint,
        forall|m: int|
            0 <= m < c ==> !((#[trigger] child_nodes(descendants(root)[i])[m]).class is Constraint),
    ensures
        ({
            let constraint = child_nodes(descendants(root)[i])[c];
            let kinds = plain_kinds(descendant_tokens(descendants(root)[i]));
            let run = seq![TokenKind::UsingKw, TokenKind::IndexKw];
            let attached = (constraint.class matches NodeClass::Constraint { columns, .. }
                && columns@.len() == 0) && exists|before: Seq<TokenKind>, behind: Seq<TokenKind>|
                kinds == #[trigger] (before + run + behind);
            let flagged = (constraint.class matches NodeClass::Constraint {
                constraint: ConstraintKind::PrimaryKey | ConstraintKind::Unique,
                ..
            }) && !attached;
            AddPkUniqueConstraint.found_at(root, columns, i) == if flagged {
                seq![
                    (Finding {
                        severity: Severity::Warning,
                        code: Some(RuleCode::Mg13),
                        message:
                            "ADD PRIMARY KEY/UNIQUE builds its index under an exclusive lock; build a unique index CONCURRENTLY and attach it with ADD CONSTRAINT ... USING INDEX"@,
                        range: Some(descendants(root)[i].range),
                        fixes: seq![],
                    }),
                ]
            } else {
                seq![]
            }
        }),
{
    lemma_child_in_role(descendants(root)[i], Role::Constraint, c);
    row_stands_between_two_parts(
        plain_kinds(descendant_tokens(descendants(root)[i])),
        seq![TokenKind::UsingKw, TokenKind::IndexKw],
    );
}

/// A node is flagged by MG14, once and at itself, exactly if it is an action that alters a column
/// and the words `SET`, `NOT` and `NULL` stand next to each other among its own words.
pub proof fn set_not_null_is_flagged(root: SyntaxNode, columns: Seq<EventView>, i: int)
    requires
        0 <= i < descendants(root).len(),
    ensures
        ({
            let kinds = plain_kinds(child_tokens(descendants(root)[i]));
            let run = seq![TokenKind::SetKw, TokenKind::NotKw, TokenKind::NullKw];
            let flagged = (descendants(root)[i].class matches NodeClass::AlterTableAction {
                action: AlterActionKind::AlterColumn,
                ..
            }) && exists|before: Seq<TokenKind>, behind: Seq<TokenKind>|
                kinds == #[trigger] (before + run + behind);
            SetNotNull.found_at(root, columns, i) == if flagged {
                seq![
                    (Finding {
                        severity: Severity::Warning,
                        code: Some(RuleCode::Mg14),
                        message:
                            "ALTER COLUMN SET NOT NULL scans the whole table under a lock; add a CHECK (col IS NOT NULL) NOT VALID, VALIDATE it, then SET NOT NULL"@,
                        range: Some(descendants(root)[i].range),
                        fixes: seq![],
                    }),
                ]
            } else {
                seq![]
            }
        }),
{
    row_stands_between_two_parts(
        plain_kinds(child_tokens(descendants(root)[i])),
        seq![TokenKind::SetKw, TokenKind::NotKw, TokenKind::NullKw],
    );
}

/// A node is flagged by MG17, once and at itself, exactly if it is an action that alters a column
/// and the words `DROP`, `NOT` and `NULL` stand next to each other among its own words.
pub proof fn drop_not_null_is_flagged(root: SyntaxNode, columns: Seq<EventView>, i: int)
    requires
        0 <= i < descendants(root).len(),
    ensures
        ({
            let kinds = plain_kinds(child_tokens(descendants(root)[i]));
            let run = seq![TokenKind::DropKw, TokenKind::NotKw, TokenKind::NullKw];
            let flagged = (descendants(root)[i].class matches NodeClass::AlterTableAction {
                action: AlterActionKind::AlterColumn,
                ..
            }) && exists|before: Seq<TokenKind>, behind: Seq<TokenKind>|
                kinds == #[trigger] (before + run + behind);
            DropNotNull.found_at(root, columns, i) == if flagged {
                seq![
                    (Finding {
                        severity: Severity::Warning,
                        code: Some(RuleCode::Mg17),
                        message:
                            "ALTER COLUMN DROP NOT NULL lets nulls into a column clients may assume is always set"@,
                        range: Some(descendants(root)[i].range),
                        fixes: seq![],
                    }),
                ]
            } else {
                seq![]
            }
        }),
{
    row_stands_between_two_parts(
        plain_kinds(child_tokens(descendants(root)[i])),
        seq![TokenKind::DropKw, TokenKind::NotKw, TokenKind::NullKw],
    );
}

} // verus!
