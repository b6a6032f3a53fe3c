//! What holds of the types that columns are given.

use crate::diagnostic::{EditView, Finding, FixView, RuleCode, Severity};
use crate::history::EventView;
use crate::laws::trees::{
    child_in_role_is_the_first_of_its_class, lemma_child_in_role, lemma_no_child_in_role,
    row_stands_between_two_parts,
};
use crate::migration::column_types::{
    key_columns, key_type_finding, key_type_findings, GivenTypes, KeyTypes,
    PreferIdentity,
};
use crate::rule::NodeRule;
use crate::syntax::{
    child_in_role, child_nodes, child_tokens, descendants, first_of_kind, ConstraintKind,
    NodeClass, Role, SyntaxNode, TokenKind,
};
use crate::text::{lower, words};
use crate::types::base_words;
use vstd::prelude::*;

verus! {

/// A column definition is flagged by MG15, once and at its type, exactly if its type, in lower
/// case and without modifiers, is one of the `serial` types.
pub proof fn serial_column_is_flagged(
    root: SyntaxNode,
    columns: Seq<EventView>,
    i: int,
    c: int,
    text: Seq<char>,
)
    requires
        0 <= i < descendants(root).len(),
        descendants(root)[i].class is ColumnDef,
        0 <= c < child_nodes(descendants(root)[i]).len(),
        child_nodes(descendants(root)[i])[c].class matches NodeClass::TypeName { text: t } && t@
            == text,
        forall|m: int|
            0 <= m < c ==> !((#[trigger] child_nodes(descendants(root)[i])[m]).class is TypeName),
    ensures
        PreferIdentity.found_at(root, columns, i) == if base_words(text) == "serial"@ || base_words(
            text,
        ) == "serial4"@ || base_words(text) == "bigserial"@ || base_words(text) == "serial8"@
            || base_words(text) == "smallserial"@ || base_words(text) == "serial2"@ {
            seq![
                (Finding {
                    severity: Severity::Warning,
                    code: Some(RuleCode::Mg15),
                    message:
                        "prefer GENERATED ... AS IDENTITY to serial; serial leaves a detached sequence with awkward ownership and grants"@,
                    range: Some(child_nodes(descendants(root)[i])[c].range),
                    fixes: seq![],
                }),
            ]
        } else {
            seq![]
        },
{
    lemma_child_in_role(descendants(root)[i], Role::Type, c);
}

/// A node that is no column definition, or one without a type, is not flagged by MG15.
pub proof fn only_column_types_are_serial(root: SyntaxNode, columns: Seq<EventView>, i: int)
    requires
        0 <= i < descendants(root).len(),
        !(descendants(root)[i].class is ColumnDef) || forall|m: int|
            0 <= m < child_nodes(descendants(root)[i]).len() ==> !((#[trigger] child_nodes(
                descendants(root)[i],
            )[m]).class is TypeName),
    ensures
        PreferIdentity.found_at(root, columns, i).len() == 0,
{
    lemma_no_child_in_role(descendants(root)[i], Role::Type);
}

/// The type of a column definition, and the new type of a column, is flagged by MG09, once and
/// with a fix that puts `text` in its place, exactly if it is, in lower case and without
/// modifiers, one of the character types with a length. It is flagged by MG10, once and with a
/// fix that puts `timestamptz` in place of its keyword `TIMESTAMP`, exactly if it is `timestamp`
/// and the words `time` and `zone` do not stand next to each other in it.
pub proof fn type_with_a_better_one_is_flagged(
    root: SyntaxNode,
    columns: Seq<EventView>,
    i: int,
    c: int,
    text: Seq<char>,
)
    requires
        0 <= i < descendants(root).len(),
        descendants(root)[i].class is ColumnDef || (
        descendants(root)[i].class matches NodeClass::AlterTableAction { changes_type: true, .. }),
        0 <= c < child_nodes(descendants(root)[i]).len(),
        child_nodes(descendants(root)[i])[c].class matches NodeClass::TypeName { text: t } && t@
            == text,
        forall|m: int|
            0 <= m < c ==> !((#[trigger] child_nodes(descendants(root)[i])[m]).class is TypeName),
    ensures
        ({
            let ty = child_nodes(descendants(root)[i])[c];
            let limited = base_words(text) == "char"@ || base_words(text) == "character"@
                || base_words(text) == "varchar"@ || base_words(text) == "character varying"@;
            let zone = seq!["time"@, "zone"@];
            let zoned = exists|before: Seq<Seq<char>>, behind: Seq<Seq<char>>|
                words(lower(text)) == #[trigger] (before + zone + behind);
            GivenTypes.found_at(root, columns, i) == (if limited {
                seq![
                    (Finding {
                        severity: Severity::Warning,
                        code: Some(RuleCode::Mg09),
                        message:
                            "prefer text to char(n)/varchar(n); the length limit gives no storage benefit and changing it later rewrites the table"@,
                        range: Some(ty.range),
                        fixes: seq![
                            (FixView {
                                title: "Use text"@,
                                edits: seq![(EditView { range: ty.range, text: "text"@ })],
                            }),
                        ],
                    }),
                ]
            } else {
                seq![]
            }) + (if base_words(text) == "timestamp"@ && !zoned {
                seq![
                    (Finding {
                        severity: Severity::Warning,
                        code: Some(RuleCode::Mg10),
                        message:
                            "prefer timestamptz to timestamp; timestamp without time zone ignores the session time zone and is a frequent source of bugs"@,
                        range: Some(ty.range),
                        fixes: match first_of_kind(child_tokens(ty), TokenKind::TimestampKw) {
                            Some(keyword) => seq![
                                (FixView {
                                    title: "Use timestamptz"@,
                                    edits: seq![
                                        (EditView { range: keyword.range, text: "timestamptz"@ }),
                                    ],
                                }),
                            ],
                            None => seq![],
                        },
                    }),
                ]
            } else {
                seq![]
            })
        }),
{
    let ty = child_nodes(descendants(root)[i])[c];
    lemma_child_in_role(descendants(root)[i], Role::Type, c);
    row_stands_between_two_parts(words(lower(text)), seq!["time"@, "zone"@]);
    let fix = FixView {
        title: "Use text"@,
        edits: seq![EditView { range: ty.range, text: "text"@ }],
    };
    assert(Seq::<FixView>::empty().push(fix) =~= seq![fix]);
    if let Some(keyword) = first_of_kind(child_tokens(ty), TokenKind::TimestampKw) {
        let fix = FixView {
            title: "Use timestamptz"@,
            edits: seq![EditView { range: keyword.range, text: "timestamptz"@ }],
        };
        assert(Seq::<FixView>::empty().push(fix) =~= seq![fix]);
    }
}

/// A node that gives no column a type is flagged neither by MG09 nor by MG10.
pub proof fn only_given_types_are_flagged(root: SyntaxNode, columns: Seq<EventView>, i: int)
    requires
        0 <= i < descendants(root).len(),
        !(descendants(root)[i].class is ColumnDef || (
        descendants(root)[i].class matches NodeClass::AlterTableAction { changes_type: true, .. }))
            || forall|m: int|
            0 <= m < child_nodes(descendants(root)[i]).len() ==> !((#[trigger] child_nodes(
                descendants(root)[i],
            )[m]).class is TypeName),
    ensures
        GivenTypes.found_at(root, columns, i).len() == 0,
{
    lemma_no_child_in_role(descendants(root)[i], Role::Type);
}

proof fn lemma_key_columns(nodes: Seq<SyntaxNode>, name: Seq<char>)
    ensures
        (exists|k: int|
            0 <= k < key_columns(nodes).len() && lower(#[trigger] key_columns(nodes)[k]) == lower(
                name,
            )) <==> exists|n: int|
            0 <= n < nodes.len() && ((#[trigger] nodes[n]).class matches NodeClass::Constraint {
                constraint: ConstraintKind::PrimaryKey,
                columns,
                ..
            } && columns@.len() == 1 && lower(columns@[0]@) == lower(name)),
    decreases nodes.len(),
{
    if nodes.len() > 0 {
        let earlier = nodes.drop_last();
        lemma_key_columns(earlier, name);
        let keys = key_columns(earlier);
        assert(forall|n: int| 0 <= n < earlier.len() ==> #[trigger] earlier[n] == nodes[n]);
        assert(nodes[nodes.len() - 1] == nodes.last());
        assert(forall|k: int| 0 <= k < keys.len() ==> #[trigger] keys[k] == key_columns(nodes)[k]);
        if exists|k: int| 0 <= k < keys.len() && lower(#[trigger] keys[k]) == lower(name) {
            let k = choose|k: int| 0 <= k < keys.len() && lower(#[trigger] keys[k]) == lower(name);
            assert(lower(key_columns(nodes)[k]) == lower(name));
            let n = choose|n: int|
                0 <= n < earlier.len() && ((
                #[trigger] earlier[n]).class matches NodeClass::Constraint {
                    constraint: ConstraintKind::PrimaryKey,
                    columns,
                    ..
                } && columns@.len() == 1 && lower(columns@[0]@) == lower(name));
            assert(nodes[n] == earlier[n]);
        } else if key_columns(nodes).len() > keys.len() && lower(
            key_columns(nodes)[keys.len() as int],
        ) == lower(name) {
            assert(nodes[nodes.len() - 1].class is Constraint);
        } else {
            assert forall|k: int| 0 <= k < key_columns(nodes).len() implies lower(
                #[trigger] key_columns(nodes)[k],
            ) != lower(name) by {
                if k < keys.len() {
                    assert(keys[k] == key_columns(nodes)[k]);
                }
            }
            assert forall|n: int| 0 <= n < nodes.len() implies !((
            #[trigger] nodes[n]).class matches NodeClass::Constraint {
                constraint: ConstraintKind::PrimaryKey,
                columns,
                ..
            } && columns@.len() == 1 && lower(columns@[0]@) == lower(name)) by {
                if n < earlier.len() {
                    assert(earlier[n] == nodes[n]);
                }
            }
        }
    }
}

proof fn lemma_one_more_key_type(nodes: Seq<SyntaxNode>, keys: Seq<Seq<char>>, n: int)
    requires
        0 <= n < nodes.len(),
    ensures
        key_type_findings(nodes.take(n + 1), keys) == key_type_findings(nodes.take(n), keys)
            + key_type_finding(nodes[n], keys),
{
    assert(nodes.take(n + 1).drop_last() =~= nodes.take(n));
}

/// What MG11 finds in a `CREATE TABLE` is one finding for each primary-key column whose type, in
/// lower case and without modifiers, is an integer type narrower than `bigint`, in the order of
/// the columns and each at the type. A column is the primary key if it says so itself, or if a
/// primary key of the table has it for its only column, whatever the case of the name.
pub proof fn narrow_key_columns_are_flagged(
    root: SyntaxNode,
    columns: Seq<EventView>,
    i: int,
    nodes: Seq<SyntaxNode>,
) -> (at: Seq<int>)
    requires
        0 <= i < descendants(root).len(),
        descendants(root)[i].class is CreateTableStmt,
        nodes == child_nodes(descendants(root)[i]),
    ensures
        KeyTypes.found_at(root, columns, i).len() == at.len(),
        forall|a: int, b: int| 0 <= a < b < at.len() ==> at[a] < at[b],
        forall|k: int|
            0 <= k < at.len() ==> 0 <= #[trigger] at[k] < nodes.len()
                && child_in_role(nodes[at[k]], Role::Type) is Some
                && KeyTypes.found_at(root, columns, i)[k] == (Finding {
                severity: Severity::Warning,
                code: Some(RuleCode::Mg11),
                message:
                    "prefer bigint for a primary key; a narrower integer can run out of values and is costly to widen later"@,
                range: Some(
                    child_in_role(
                        nodes[at[k]],
                        Role::Type,
                    )->0.range,
                ),
                fixes: seq![],
            }),
        forall|m: int|
            0 <= m < nodes.len() ==> (at.contains(m) <==> {
                &&& (#[trigger] nodes[m]).class matches NodeClass::ColumnDef {
                    name,
                    primary_key,
                    ..
                } && (primary_key || (name matches Some(name) && exists|n: int|
                    0 <= n < nodes.len() && ((
                    #[trigger] nodes[n]).class matches NodeClass::Constraint {
                        constraint: ConstraintKind::PrimaryKey,
                        columns,
                        ..
                    } && columns@.len() == 1 && lower(columns@[0]@) == lower(name@))))
                &&& child_in_role(nodes[m], Role::Type) matches Some(ty)
                    && ty.class matches NodeClass::TypeName { text } && (base_words(text@)
                    == "int"@ || base_words(text@) == "integer"@ || base_words(text@) == "int4"@
                    || base_words(text@) == "smallint"@ || base_words(text@) == "int2"@)
            }),
{
    let keys = key_columns(nodes);
    let at = lemma_key_types_at(nodes, keys, nodes.len() as int);
    assert(nodes.take(nodes.len() as int) =~= nodes);
    assert forall|m: int| 0 <= m < nodes.len() implies (at.contains(m) <==> {
        &&& (#[trigger] nodes[m]).class matches NodeClass::ColumnDef { name, primary_key, .. } && (
        primary_key || (name matches Some(name) && exists|n: int|
            0 <= n < nodes.len() && ((#[trigger] nodes[n]).class matches NodeClass::Constraint {
                constraint: ConstraintKind::PrimaryKey,
                columns,
                ..
            } && columns@.len() == 1 && lower(columns@[0]@) == lower(name@))))
        &&& child_in_role(nodes[m], Role::Type) matches Some(ty)
            && ty.class matches NodeClass::TypeName { text } && (base_words(text@) == "int"@
            || base_words(text@) == "integer"@ || base_words(text@) == "int4"@ || base_words(text@)
            == "smallint"@ || base_words(text@) == "int2"@)
    }) by {
        if let NodeClass::ColumnDef { name: Some(name), .. } = nodes[m].class {
            lemma_key_columns(nodes, name@);
        }
        child_in_role_is_the_first_of_its_class(nodes[m], Role::Type);
    }
    at
}

proof fn lemma_key_types_at(nodes: Seq<SyntaxNode>, keys: Seq<Seq<char>>, n: int) -> (at: Seq<int>)
    requires
        0 <= n <= nodes.len(),
    ensures
        key_type_findings(nodes.take(n), keys).len() == at.len(),
        forall|a: int, b: int| 0 <= a < b < at.len() ==> at[a] < at[b],
        forall|k: int|
            0 <= k < at.len() ==> 0 <= #[trigger] at[k] < n && child_in_role(
                nodes[at[k]],
                Role::Type,
            ) is Some && key_type_findings(nodes.take(n), keys)[k] == (Finding {
                severity: Severity::Warning,
                code: Some(RuleCode::Mg11),
                message:
                    "prefer bigint for a primary key; a narrower integer can run out of values and is costly to widen later"@,
                range: Some(child_in_role(nodes[at[k]], Role::Type)->0.range),
                fixes: seq![],
            }),
        forall|m: int|
            0 <= m < n ==> (#[trigger] at.contains(m) <==> key_type_finding(nodes[m], keys).len()
                > 0),
    decreases n,
{
    if n == 0 {
        seq![]
    } else {
        let before = lemma_key_types_at(nodes, keys, n - 1);
        lemma_one_more_key_type(nodes, keys, n - 1);
        let at = if key_type_finding(nodes[n - 1], keys).len() > 0 {
            before.push(n - 1)
        } else {
            before
        };
        assert forall|m: int| 0 <= m < n implies (#[trigger] at.contains(m) <==> key_type_finding(
            nodes[m],
            keys,
        ).len() > 0) by {
            if m < n - 1 {
                assert(before.contains(m) <==> key_type_finding(nodes[m], keys).len() > 0);
                if before.contains(m) {
                    let k = choose|k: int| 0 <= k < before.len() && before[k] == m;
                    assert(at[k] == m);
                }
            } else if key_type_finding(nodes[m], keys).len() > 0 {
                assert(at[at.len() - 1] == m);
            } else if at.contains(m) {
                let k = choose|k: int| 0 <= k < at.len() && at[k] == m;
                assert(0 <= before[k] < n - 1);
            }
        }
        at
    }
}

/// MG11 finds nothing outside of a `CREATE TABLE`.
pub proof fn only_created_tables_have_narrow_keys(
    root: SyntaxNode,
    columns: Seq<EventView>,
    i: int,
)
    requires
        0 <= i < descendants(root).len(),
        !(descendants(root)[i].class is CreateTableStmt),
    ensures
        KeyTypes.found_at(root, columns, i).len() == 0,
{
}

} // verus!
