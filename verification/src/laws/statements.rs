//! What holds of single statements, whatever the file does otherwise.

use crate::diagnostic::{Finding, RuleCode, Severity};
use crate::history::EventView;
use crate::migration::statement::{
    too_long_finding, too_long_findings, too_long_message, IdentifierTooLong, RequireTableSchema,
    RobustStatements, MAX_IDENTIFIER_BYTES,
};
use crate::rule::{NodeRule, Rule};
use crate::syntax::{
    child_tokens, descendant_tokens, descendants, NodeClass, SyntaxNode, SyntaxToken, TokenKind,
};
use crate::text::{collapse_quotes, decimal, without_delimiters};
use crate::transaction::open_at;
use vstd::prelude::*;
use vstd::utf8::encode_utf8;

verus! {

/// A node is flagged by MG22, once and at itself, exactly if it is a `CREATE TABLE`, a `CREATE
/// INDEX` or a `DROP` of whatever object, without a word `IF` of its own, outside of a
/// transaction.
pub proof fn statement_that_fails_again_is_flagged(
    root: SyntaxNode,
    columns: Seq<EventView>,
    i: int,
)
    requires
        0 <= i < descendants(root).len(),
    ensures
        ({
            let node = descendants(root)[i];
            let message = match node.class {
                NodeClass::CreateTableStmt { .. } => Some(
                    "CREATE TABLE without IF [NOT] EXISTS is not idempotent; a re-run after a partial failure will error"@,
                ),
                NodeClass::CreateIndexStmt { .. } => Some(
                    "CREATE INDEX without IF [NOT] EXISTS is not idempotent; a re-run after a partial failure will error"@,
                ),
                NodeClass::DropStmt { .. } => Some(
                    "DROP without IF [NOT] EXISTS is not idempotent; a re-run after a partial failure will error"@,
                ),
                _ => None,
            };
            let exempt = open_at(root, node.range.start) || exists|t: int|
                0 <= t < child_tokens(node).len() && (#[trigger] child_tokens(node)[t]).kind
                    is IfKw;
            RobustStatements.found_at(root, columns, i) == match message {
                Some(message) => if exempt {
                    seq![]
                } else {
                    seq![
                        (Finding {
                            severity: Severity::Warning,
                            code: Some(RuleCode::Mg22),
                            message,
                            range: Some(node.range),
                            fixes: seq![],
                        }),
                    ]
                },
                None => seq![],
            }
        }),
{
    let rest = " without IF [NOT] EXISTS is not idempotent; a re-run after a partial failure will error";
    reveal_strlit("CREATE TABLE");
    reveal_strlit("CREATE INDEX");
    reveal_strlit("DROP");
    reveal_strlit(
        " without IF [NOT] EXISTS is not idempotent; a re-run after a partial failure will error",
    );
    reveal_strlit(
        "CREATE TABLE without IF [NOT] EXISTS is not idempotent; a re-run after a partial failure will error",
    );
    reveal_strlit(
        "CREATE INDEX without IF [NOT] EXISTS is not idempotent; a re-run after a partial failure will error",
    );
    reveal_strlit(
        "DROP without IF [NOT] EXISTS is not idempotent; a re-run after a partial failure will error",
    );
    assert("CREATE TABLE"@ + rest@
        =~= "CREATE TABLE without IF [NOT] EXISTS is not idempotent; a re-run after a partial failure will error"@);
    assert("CREATE INDEX"@ + rest@
        =~= "CREATE INDEX without IF [NOT] EXISTS is not idempotent; a re-run after a partial failure will error"@);
    assert("DROP"@ + rest@
        =~= "DROP without IF [NOT] EXISTS is not idempotent; a re-run after a partial failure will error"@);
}

/// A node is flagged by MG23, once and at the name of the table, exactly if it creates a table
/// that is not temporary under a name without a schema.
pub proof fn unqualified_table_is_flagged(root: SyntaxNode, columns: Seq<EventView>, i: int)
    requires
        0 <= i < descendants(root).len(),
    ensures
        RequireTableSchema.found_at(root, columns, i) == match descendants(root)[i].class {
            NodeClass::CreateTableStmt { table: Some(table), temporary: false } => if table.schema
                is None {
                seq![
                    (Finding {
                        severity: Severity::Warning,
                        code: Some(RuleCode::Mg23),
                        message:
                            "CREATE TABLE without a schema qualifier depends on search_path; qualify the name (e.g. public.t)"@,
                        range: Some(table.range),
                        fixes: seq![],
                    }),
                ]
            } else {
                seq![]
            },
            _ => seq![],
        },
{
}

proof fn lemma_too_long_message(bytes: nat)
    ensures
        too_long_message(bytes) == "identifier is "@ + decimal(bytes)
            + " bytes; Postgres truncates names to 63 bytes, which can cause collisions"@,
{
    reveal_strlit(" bytes; Postgres truncates names to ");
    reveal_strlit(" bytes, which can cause collisions");
    reveal_strlit(" bytes; Postgres truncates names to 63 bytes, which can cause collisions");
    reveal_with_fuel(decimal, 2);
    let limit = decimal(MAX_IDENTIFIER_BYTES as nat);
    assert(limit =~= seq!['6', '3']);
    assert(" bytes; Postgres truncates names to "@ + limit + " bytes, which can cause collisions"@
        =~= " bytes; Postgres truncates names to 63 bytes, which can cause collisions"@);
    assert(too_long_message(bytes) =~= "identifier is "@ + decimal(bytes) + (
    " bytes; Postgres truncates names to "@ + limit + " bytes, which can cause collisions"@));
}

/// What MG24 finds in a file is one finding for each identifier of more than 63 bytes, in the
/// order of the tokens and each at the token. The double quotes around a quoted identifier do not
/// count, and a pair of them inside counts as one.
pub proof fn long_identifiers_are_flagged(
    root: SyntaxNode,
    columns: Seq<EventView>,
    tokens: Seq<SyntaxToken>,
) -> (at: Seq<int>)
    requires
        tokens == descendant_tokens(root),
    ensures
        IdentifierTooLong.findings(root, columns).len() == at.len(),
        forall|a: int, b: int| 0 <= a < b < at.len() ==> at[a] < at[b],
        forall|k: int|
            0 <= k < at.len() ==> 0 <= #[trigger] at[k] < tokens.len()
                && IdentifierTooLong.findings(root, columns)[k] == (Finding {
                severity: Severity::Warning,
                code: Some(RuleCode::Mg24),
                message: "identifier is "@ + decimal(
                    encode_utf8(
                        if tokens[at[k]].kind is QuotedIdent {
                            collapse_quotes(without_delimiters(tokens[at[k]].text@))
                        } else {
                            tokens[at[k]].text@
                        },
                    ).len(),
                ) + " bytes; Postgres truncates names to 63 bytes, which can cause collisions"@,
                range: Some(tokens[at[k]].range),
                fixes: seq![],
            }),
        forall|m: int|
            0 <= m < tokens.len() ==> (#[trigger] at.contains(m) <==> match tokens[m].kind {
                TokenKind::Ident => encode_utf8(tokens[m].text@).len() > 63,
                TokenKind::QuotedIdent => encode_utf8(
                    collapse_quotes(without_delimiters(tokens[m].text@)),
                ).len() > 63,
                _ => false,
            }),
{
    let at = lemma_too_long_at(tokens, tokens.len() as int);
    assert(tokens.take(tokens.len() as int) =~= tokens);
    assert forall|k: int| 0 <= k < at.len() implies 0 <= #[trigger] at[k] < tokens.len()
        && IdentifierTooLong.findings(root, columns)[k] == (Finding {
        severity: Severity::Warning,
        code: Some(RuleCode::Mg24),
        message: "identifier is "@ + decimal(
            encode_utf8(
                if tokens[at[k]].kind is QuotedIdent {
                    collapse_quotes(without_delimiters(tokens[at[k]].text@))
                } else {
                    tokens[at[k]].text@
                },
            ).len(),
        ) + " bytes; Postgres truncates names to 63 bytes, which can cause collisions"@,
        range: Some(tokens[at[k]].range),
        fixes: seq![],
    }) by {
        assert(at.contains(at[k]));
        assert(too_long_finding(tokens[at[k]]).len() > 0);
        lemma_too_long_message(
            encode_utf8(
                if tokens[at[k]].kind is QuotedIdent {
                    collapse_quotes(without_delimiters(tokens[at[k]].text@))
                } else {
                    tokens[at[k]].text@
                },
            ).len(),
        );
    }
    at
}

proof fn lemma_too_long_at(tokens: Seq<SyntaxToken>, n: int) -> (at: Seq<int>)
    requires
        0 <= n <= tokens.len(),
    ensures
        too_long_findings(tokens.take(n)).len() == at.len(),
        forall|a: int, b: int| 0 <= a < b < at.len() ==> at[a] < at[b],
        forall|k: int|
            0 <= k < at.len() ==> 0 <= #[trigger] at[k] < n && too_long_findings(tokens.take(n))[k]
                == too_long_finding(tokens[at[k]])[0],
        forall|m: int|
            0 <= m < n ==> (#[trigger] at.contains(m) <==> too_long_finding(tokens[m]).len() > 0),
    decreases n,
{
    if n == 0 {
        seq![]
    } else {
        let before = lemma_too_long_at(tokens, n - 1);
        assert(tokens.take(n).drop_last() =~= tokens.take(n - 1));
        let at = if too_long_finding(tokens[n - 1]).len() > 0 {
            before.push(n - 1)
        } else {
            before
        };
        assert forall|m: int| 0 <= m < n implies (#[trigger] at.contains(m) <==> too_long_finding(
            tokens[m],
        ).len() > 0) by {
            if m < n - 1 {
                assert(before.contains(m) <==> too_long_finding(tokens[m]).len() > 0);
                if before.contains(m) {
                    let k = choose|k: int| 0 <= k < before.len() && before[k] == m;
                    assert(at[k] == m);
                }
            } else if too_long_finding(tokens[m]).len() > 0 {
                assert(at[at.len() - 1] == m);
            } else if at.contains(m) {
                let k = choose|k: int| 0 <= k < at.len() && at[k] == m;
                assert(0 <= before[k] < n - 1);
            }
        }
        at
    }
}

} // verus!
