//! What holds of the transactions that a file opens and closes.

use crate::diagnostic::{Finding, RuleCode, Severity};
use crate::history::EventView;
use crate::laws::trees::one_more_child_adds_its_nodes;
use crate::migration::transactions::{
    nesting_findings, unclosed_findings, TransactionNesting, UncommittedTransaction,
};
use crate::rule::Rule;
use crate::syntax::{
    child_nodes, child_tokens, first_keyword, SyntaxElement, SyntaxNode, TokenKind,
};
use crate::transaction::{
    before_offset, events_of, is_open, open_at, statement_event, txn_events, unmatched,
};
use vstd::prelude::*;

verus! {

proof fn lemma_before_offset(nodes: Seq<SyntaxNode>, start: u32, n: int)
    requires
        0 <= n <= nodes.len(),
        forall|m: int| 0 <= m < n ==> (#[trigger] nodes[m]).range.start < start,
        n < nodes.len() ==> nodes[n].range.start >= start,
    ensures
        before_offset(nodes, start) == nodes.take(n),
    decreases nodes.len(),
{
    if n > 0 {
        assert(nodes[0].range.start < start);
        assert(forall|m: int| 0 <= m < n - 1 ==> (#[trigger] nodes.skip(1)[m]) == nodes[m + 1]);
        lemma_before_offset(nodes.skip(1), start, n - 1);
        assert(seq![nodes[0]] + nodes.skip(1).take(n - 1) =~= nodes.take(n));
    } else {
        assert(nodes.take(0) =~= seq![]);
    }
}

proof fn lemma_left_open(nodes: Seq<SyntaxNode>, n: int, b: int)
    requires
        0 <= n <= nodes.len(),
        0 <= b < n,
        nodes[b].class is TransactionStmt && (first_keyword(
            child_tokens(nodes[b]),
        ) matches Some(TokenKind::BeginKw | TokenKind::StartKw)),
        forall|k: int|
            b < k < n ==> !((#[trigger] nodes[k]).class is TransactionStmt && (first_keyword(
                child_tokens(nodes[k]),
            ) matches Some(
            TokenKind::CommitKw | TokenKind::EndKw | TokenKind::RollbackKw | TokenKind::AbortKw,
        ))),
    ensures
        is_open(events_of(nodes.take(n))),
    decreases n,
{
    assert(nodes.take(n).drop_last() =~= nodes.take(n - 1));
    assert(nodes.take(n).last() == nodes[n - 1]);
    if b < n - 1 {
        lemma_left_open(nodes, n - 1, b);
    }
}

proof fn lemma_not_left_open(nodes: Seq<SyntaxNode>, n: int, c: int)
    requires
        0 <= n <= nodes.len(),
        -1 <= c < n,
        c >= 0 ==> nodes[c].class is TransactionStmt && (first_keyword(
            child_tokens(nodes[c]),
        ) matches Some(
            TokenKind::CommitKw | TokenKind::EndKw | TokenKind::RollbackKw | TokenKind::AbortKw,
        )),
        forall|k: int|
            c < k < n ==> !((#[trigger] nodes[k]).class is TransactionStmt && (first_keyword(
                child_tokens(nodes[k]),
            ) matches Some(TokenKind::BeginKw | TokenKind::StartKw))),
    ensures
        !is_open(events_of(nodes.take(n))),
    decreases n,
{
    if n > 0 {
        assert(nodes.take(n).drop_last() =~= nodes.take(n - 1));
        assert(nodes.take(n).last() == nodes[n - 1]);
        if c < n - 1 {
            lemma_not_left_open(nodes, n - 1, c);
        }
    }
}

/// A statement sits inside an open transaction if a `BEGIN` or `START` among the statements of
/// the file before it is not followed, before it, by a `COMMIT`, `END`, `ROLLBACK` or `ABORT`,
/// whatever other statements come between.
pub proof fn transaction_is_open_until_it_is_closed(
    root: SyntaxNode,
    start: u32,
    nodes: Seq<SyntaxNode>,
    n: int,
    b: int,
)
    requires
        nodes == child_nodes(root),
        0 <= n <= nodes.len(),
        forall|m: int| 0 <= m < n ==> (#[trigger] nodes[m]).range.start < start,
        n < nodes.len() ==> nodes[n].range.start >= start,
        0 <= b < n,
        nodes[b].class is TransactionStmt && (first_keyword(
            child_tokens(nodes[b]),
        ) matches Some(TokenKind::BeginKw | TokenKind::StartKw)),
        forall|k: int|
            b < k < n ==> !((#[trigger] nodes[k]).class is TransactionStmt && (first_keyword(
                child_tokens(nodes[k]),
            ) matches Some(
            TokenKind::CommitKw | TokenKind::EndKw | TokenKind::RollbackKw | TokenKind::AbortKw,
        ))),
    ensures
        open_at(root, start),
{
    lemma_before_offset(nodes, start, n);
    lemma_left_open(nodes, n, b);
}

/// A statement sits outside of any transaction if neither a `BEGIN` nor a `START` comes before it
/// in the file, or none after a `COMMIT`, `END`, `ROLLBACK` or `ABORT` that comes before it.
pub proof fn no_transaction_is_open_after_it_is_closed(
    root: SyntaxNode,
    start: u32,
    nodes: Seq<SyntaxNode>,
    n: int,
    c: int,
)
    requires
        nodes == child_nodes(root),
        0 <= n <= nodes.len(),
        forall|m: int| 0 <= m < n ==> (#[trigger] nodes[m]).range.start < start,
        n < nodes.len() ==> nodes[n].range.start >= start,
        -1 <= c < n,
        c >= 0 ==> nodes[c].class is TransactionStmt && (first_keyword(
            child_tokens(nodes[c]),
        ) matches Some(
            TokenKind::CommitKw | TokenKind::EndKw | TokenKind::RollbackKw | TokenKind::AbortKw,
        )),
        forall|k: int|
            c < k < n ==> !((#[trigger] nodes[k]).class is TransactionStmt && (first_keyword(
                child_tokens(nodes[k]),
            ) matches Some(TokenKind::BeginKw | TokenKind::StartKw))),
    ensures
        !open_at(root, start),
{
    lemma_before_offset(nodes, start, n);
    lemma_not_left_open(nodes, n, c);
}

/// With one more statement at the end of a file, MG20 finds one more opening statement that is
/// never closed if the statement is a `BEGIN` or `START`, the last one less if it is a `COMMIT`,
/// `END`, `ROLLBACK` or `ABORT`, and the same ones if it is any other statement.
pub proof fn one_more_statement_opens_or_closes(
    root: SyntaxNode,
    more: SyntaxNode,
    columns: Seq<EventView>,
    stmt: SyntaxNode,
)
    requires
        more.children@ == root.children@.push(SyntaxElement::Node(stmt)),
    ensures
        ({
            let keyword = first_keyword(child_tokens(stmt));
            let opens = stmt.class is TransactionStmt && (keyword matches Some(
                TokenKind::BeginKw | TokenKind::StartKw,
            ));
            let closes = stmt.class is TransactionStmt && (keyword matches Some(
                TokenKind::CommitKw
                | TokenKind::EndKw
                | TokenKind::RollbackKw
                | TokenKind::AbortKw,
            ));
            let found = UncommittedTransaction.findings(root, columns);
            UncommittedTransaction.findings(more, columns) == if opens {
                found.push(
                    (Finding {
                        severity: Severity::Warning,
                        code: Some(RuleCode::Mg20),
                        message:
                            "transaction opened with BEGIN/START is never committed or rolled back"@,
                        range: Some(stmt.range),
                        fixes: seq![],
                    }),
                )
            } else if closes && found.len() > 0 {
                found.drop_last()
            } else {
                found
            }
        }),
{
    let events = txn_events(root);
    let after = txn_events(more);
    lemma_one_more_event(root, more, stmt);
    assert(UncommittedTransaction.findings(root, columns).len() == unmatched(events).len());
    if after.len() > events.len() && after.last().1 is Open {
        assert(unmatched(after) == unmatched(events).push(stmt));
        assert(unclosed_findings(unmatched(after)) =~= unclosed_findings(unmatched(events)).push(
            (Finding {
                severity: Severity::Warning,
                code: Some(RuleCode::Mg20),
                message: "transaction opened with BEGIN/START is never committed or rolled back"@,
                range: Some(stmt.range),
                fixes: seq![],
            }),
        ));
    } else if after.len() > events.len() && unmatched(events).len() > 0 {
        assert(unclosed_findings(unmatched(events).drop_last()) =~= unclosed_findings(
            unmatched(events),
        ).drop_last());
    }
}

proof fn lemma_one_more_event(root: SyntaxNode, more: SyntaxNode, stmt: SyntaxNode)
    requires
        more.children@ == root.children@.push(SyntaxElement::Node(stmt)),
    ensures
        child_nodes(more) == child_nodes(root).push(stmt),
        txn_events(more) == match statement_event(stmt) {
            Some(event) => txn_events(root).push((stmt, event)),
            None => txn_events(root),
        },
        statement_event(stmt) is Some ==> txn_events(more).drop_last() == txn_events(root),
{
    one_more_child_adds_its_nodes(root, more, SyntaxElement::Node(stmt));
    assert(child_nodes(more) =~= child_nodes(root).push(stmt));
    assert(child_nodes(root).push(stmt).drop_last() =~= child_nodes(root));
    if let Some(event) = statement_event(stmt) {
        assert(txn_events(root).push((stmt, event)).drop_last() =~= txn_events(root));
    }
}

/// With one more statement at the end of a file, MG21 finds that statement besides if it is a
/// `BEGIN` or `START` that comes after another one with no `COMMIT`, `END`, `ROLLBACK` or `ABORT`
/// between them.
pub proof fn one_more_opening_inside_is_flagged(
    root: SyntaxNode,
    more: SyntaxNode,
    columns: Seq<EventView>,
    nodes: Seq<SyntaxNode>,
    n: int,
    stmt: SyntaxNode,
    b: int,
)
    requires
        nodes == child_nodes(root),
        n == nodes.len(),
        more.children@ == root.children@.push(SyntaxElement::Node(stmt)),
        stmt.class is TransactionStmt && (first_keyword(
            child_tokens(stmt),
        ) matches Some(TokenKind::BeginKw | TokenKind::StartKw)),
        0 <= b < n,
        nodes[b].class is TransactionStmt && (first_keyword(
            child_tokens(nodes[b]),
        ) matches Some(TokenKind::BeginKw | TokenKind::StartKw)),
        forall|k: int|
            b < k < n ==> !((#[trigger] nodes[k]).class is TransactionStmt && (first_keyword(
                child_tokens(nodes[k]),
            ) matches Some(
            TokenKind::CommitKw | TokenKind::EndKw | TokenKind::RollbackKw | TokenKind::AbortKw,
        ))),
    ensures
        TransactionNesting.findings(more, columns) == TransactionNesting.findings(
            root,
            columns,
        ).push(
            (Finding {
                severity: Severity::Warning,
                code: Some(RuleCode::Mg21),
                message:
                    "BEGIN/START inside an open transaction nests; Postgres ignores the inner BEGIN and the next COMMIT ends the outer transaction"@,
                range: Some(stmt.range),
                fixes: seq![],
            }),
        ),
{
    lemma_one_more_event(root, more, stmt);
    lemma_left_open(nodes, n, b);
    assert(nodes.take(n) =~= nodes);
    assert(nesting_findings(txn_events(more)) =~= nesting_findings(txn_events(root)).push(
        (Finding {
            severity: Severity::Warning,
            code: Some(RuleCode::Mg21),
            message:
                "BEGIN/START inside an open transaction nests; Postgres ignores the inner BEGIN and the next COMMIT ends the outer transaction"@,
            range: Some(stmt.range),
            fixes: seq![],
        }),
    ));
}

/// With one more statement at the end of a file, MG21 finds the same as before if the statement
/// is neither a `BEGIN` nor a `START`, or if no transaction is open there: neither a `BEGIN` nor
/// a `START` comes before it, or none after a `COMMIT`, `END`, `ROLLBACK` or `ABORT`.
pub proof fn one_more_other_statement_is_not_nested(
    root: SyntaxNode,
    more: SyntaxNode,
    columns: Seq<EventView>,
    nodes: Seq<SyntaxNode>,
    n: int,
    stmt: SyntaxNode,
    c: int,
)
    requires
        nodes == child_nodes(root),
        n == nodes.len(),
        more.children@ == root.children@.push(SyntaxElement::Node(stmt)),
        !(stmt.class is TransactionStmt && (first_keyword(
            child_tokens(stmt),
        ) matches Some(TokenKind::BeginKw | TokenKind::StartKw))) || (-1 <= c < n && (c >= 0 ==> nodes[c].class
            is TransactionStmt && (first_keyword(child_tokens(nodes[c])) matches Some(
            TokenKind::CommitKw | TokenKind::EndKw | TokenKind::RollbackKw | TokenKind::AbortKw,
        ))) && forall|k: int|
            c < k < n ==> !((#[trigger] nodes[k]).class is TransactionStmt && (first_keyword(
                child_tokens(nodes[k]),
            ) matches Some(TokenKind::BeginKw | TokenKind::StartKw)))),
    ensures
        TransactionNesting.findings(more, columns) == TransactionNesting.findings(root, columns),
{
    lemma_one_more_event(root, more, stmt);
    if stmt.class is TransactionStmt && (first_keyword(
            child_tokens(stmt),
        ) matches Some(TokenKind::BeginKw | TokenKind::StartKw)) {
        lemma_not_left_open(nodes, n, c);
        assert(nodes.take(n) =~= nodes);
    }
    assert(nesting_findings(txn_events(more)) =~= nesting_findings(txn_events(root)));
}

/// In a file without statements MG20 and MG21 find nothing.
pub proof fn file_without_statements_opens_nothing(root: SyntaxNode, columns: Seq<EventView>)
    requires
        child_nodes(root).len() == 0,
    ensures
        UncommittedTransaction.findings(root, columns).len() == 0,
        TransactionNesting.findings(root, columns).len() == 0,
{
}

/// What MG20 and MG21 find is determined by the statements of the file alone.
pub proof fn only_statements_open_and_close(
    a: SyntaxNode,
    b: SyntaxNode,
    columns: Seq<EventView>,
    others: Seq<EventView>,
)
    requires
        child_nodes(a) == child_nodes(b),
    ensures
        UncommittedTransaction.findings(a, columns) == UncommittedTransaction.findings(b, others),
        TransactionNesting.findings(a, columns) == TransactionNesting.findings(b, others),
{
}

} // verus!
