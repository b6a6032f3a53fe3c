//! What holds of statements that build or drop an index.

use crate::diagnostic::{EditView, Finding, FixView, RuleCode, Severity};
use crate::history::EventView;
use crate::migration::index::{
    ConcurrentIndexInTransaction, DropIndexConcurrently, IndexConcurrently,
};
use crate::rule::NodeRule;
use crate::syntax::{descendants, token_end, NodeClass, SyntaxNode, TextRange, TokenKind};
use crate::transaction::open_at;
use vstd::prelude::*;

verus! {

/// A node is flagged by MG01, once and at itself, exactly if it is a `CREATE INDEX` without
/// `CONCURRENTLY` outside of a transaction. The fix puts that word behind the first `INDEX`.
pub proof fn blocking_index_build_is_flagged(root: SyntaxNode, columns: Seq<EventView>, i: int)
    requires
        0 <= i < descendants(root).len(),
    ensures
        ({
            let node = descendants(root)[i];
            let flagged = (node.class matches NodeClass::CreateIndexStmt { concurrent: false })
                && !open_at(root, node.range.start);
            IndexConcurrently.found_at(root, columns, i) == if flagged {
                seq![
                    (Finding {
                        severity: Severity::Warning,
                        code: Some(RuleCode::Mg01),
                        message:
                            "CREATE INDEX without CONCURRENTLY locks the table against writes for the duration of the build"@,
                        range: Some(node.range),
                        fixes: match token_end(node, TokenKind::IndexKw) {
                            Some(end) => seq![
                                (FixView {
                                    title: "Add CONCURRENTLY"@,
                                    edits: seq![
                                        (EditView {
                                            range: (TextRange { start: end, end }),
                                            text: " CONCURRENTLY"@,
                                        }),
                                    ],
                                }),
                            ],
                            None => seq![],
                        },
                    }),
                ]
            } else {
                seq![]
            }
        }),
{
    if let Some(end) = token_end(descendants(root)[i], TokenKind::IndexKw) {
        lemma_one_fix(end);
    }
}

proof fn lemma_one_fix(end: u32)
    ensures
        ({
            let fix = FixView {
                title: "Add CONCURRENTLY"@,
                edits: seq![EditView { range: TextRange { start: end, end }, text: " CONCURRENTLY"@ }],
            };
            Seq::<FixView>::empty().push(fix) == seq![fix]
        }),
{
    let fix = FixView {
        title: "Add CONCURRENTLY"@,
        edits: seq![EditView { range: TextRange { start: end, end }, text: " CONCURRENTLY"@ }],
    };
    assert(Seq::<FixView>::empty().push(fix) =~= seq![fix]);
}

/// A node is flagged by MG12, once and at itself, exactly if it is a `DROP INDEX` without
/// `CONCURRENTLY` outside of a transaction. The fix puts that word behind the first `INDEX`.
pub proof fn blocking_index_drop_is_flagged(root: SyntaxNode, columns: Seq<EventView>, i: int)
    requires
        0 <= i < descendants(root).len(),
    ensures
        ({
            let node = descendants(root)[i];
            let flagged = (node.class matches NodeClass::DropStmt {
                object: Some(TokenKind::IndexKw),
                concurrent: false,
                ..
            }) && !open_at(root, node.range.start);
            DropIndexConcurrently.found_at(root, columns, i) == if flagged {
                seq![
                    (Finding {
                        severity: Severity::Warning,
                        code: Some(RuleCode::Mg12),
                        message: "DROP INDEX without CONCURRENTLY locks the table"@,
                        range: Some(node.range),
                        fixes: match token_end(node, TokenKind::IndexKw) {
                            Some(end) => seq![
                                (FixView {
                                    title: "Add CONCURRENTLY"@,
                                    edits: seq![
                                        (EditView {
                                            range: (TextRange { start: end, end }),
                                            text: " CONCURRENTLY"@,
                                        }),
                                    ],
                                }),
                            ],
                            None => seq![],
                        },
                    }),
                ]
            } else {
                seq![]
            }
        }),
{
    if let Some(end) = token_end(descendants(root)[i], TokenKind::IndexKw) {
        lemma_one_fix(end);
    }
}

/// A node is flagged by MG19, once and at itself, exactly if it is a `CREATE INDEX CONCURRENTLY`
/// inside a transaction.
pub proof fn concurrent_build_in_a_transaction_is_flagged(
    root: SyntaxNode,
    columns: Seq<EventView>,
    i: int,
)
    requires
        0 <= i < descendants(root).len(),
    ensures
        ({
            let node = descendants(root)[i];
            let flagged = (node.class matches NodeClass::CreateIndexStmt { concurrent: true })
                && open_at(root, node.range.start);
            ConcurrentIndexInTransaction.found_at(root, columns, i) == if flagged {
                seq![
                    (Finding {
                        severity: Severity::Warning,
                        code: Some(RuleCode::Mg19),
                        message:
                            "CREATE INDEX CONCURRENTLY cannot run inside a transaction block and will be rejected by Postgres"@,
                        range: Some(node.range),
                        fixes: seq![],
                    }),
                ]
            } else {
                seq![]
            }
        }),
{
}

} // verus!
