//! Transaction tracking: which top-level statements open or close a transaction,
//! and what stands inside an open one.

use crate::syntax::{
    child_nodes, child_tokens, first_keyword, has_kind, NodeClass, SyntaxNode, TokenKind,
};
use vstd::prelude::*;

verus! {

/// Whether a transaction statement opens or closes a transaction.
#[derive(Clone, Copy, PartialEq, Eq, Structural, Debug)]
pub enum TxnEvent {
    Open,
    Close,
}

/// What the first keyword of a transaction statement says.
pub open spec fn keyword_event(opener: Option<TokenKind>) -> Option<TxnEvent> {
    match opener {
        Some(TokenKind::BeginKw) | Some(TokenKind::StartKw) => Some(TxnEvent::Open),
        Some(TokenKind::CommitKw) | Some(TokenKind::EndKw) | Some(TokenKind::RollbackKw)
        | Some(TokenKind::AbortKw) => Some(TxnEvent::Close),
        _ => None,
    }
}

/// What a statement does to the open transaction.
pub open spec fn statement_event(node: SyntaxNode) -> Option<TxnEvent> {
    if node.class is TransactionStmt {
        keyword_event(first_keyword(child_tokens(node)))
    } else {
        None
    }
}

/// Whether a statement undoes what the transaction has done so far.
pub open spec fn rolls_back(node: SyntaxNode) -> bool {
    node.class is TransactionStmt && (first_keyword(child_tokens(node)) == Some(
        TokenKind::RollbackKw,
    ) || first_keyword(child_tokens(node)) == Some(TokenKind::AbortKw))
}

/// Whether a statement is a `ROLLBACK TO` a savepoint, which leaves the transaction open.
pub open spec fn to_savepoint(node: SyntaxNode) -> bool {
    rolls_back(node) && has_kind(child_tokens(node), TokenKind::ToKw)
}

/// The statements that open or close a transaction, in order.
pub open spec fn events_of(nodes: Seq<SyntaxNode>) -> Seq<(SyntaxNode, TxnEvent)>
    decreases nodes.len(),
{
    if nodes.len() == 0 {
        seq![]
    } else {
        match statement_event(nodes.last()) {
            Some(event) => events_of(nodes.drop_last()).push((nodes.last(), event)),
            None => events_of(nodes.drop_last()),
        }
    }
}

/// The top-level statements that open or close a transaction, in order.
pub open spec fn txn_events(root: SyntaxNode) -> Seq<(SyntaxNode, TxnEvent)> {
    events_of(child_nodes(root))
}

/// Whether a transaction is open after `events`: Postgres ignores a `BEGIN` inside an open
/// transaction, so that one closing statement ends it, and any opening one leaves one open.
pub open spec fn is_open(events: Seq<(SyntaxNode, TxnEvent)>) -> bool {
    events.len() > 0 && events.last().1 is Open
}

/// The opening statements that no closing statement matches, in order: a closing statement
/// matches the last opening one that is not matched yet, if there is one.
pub open spec fn unmatched(events: Seq<(SyntaxNode, TxnEvent)>) -> Seq<SyntaxNode>
    decreases events.len(),
{
    if events.len() == 0 {
        seq![]
    } else {
        let before = unmatched(events.drop_last());
        match events.last().1 {
            TxnEvent::Open => before.push(events.last().0),
            TxnEvent::Close => if before.len() > 0 {
                before.drop_last()
            } else {
                before
            },
        }
    }
}

/// The nodes that come before the first one that starts at `start` or later.
pub open spec fn before_offset(nodes: Seq<SyntaxNode>, start: u32) -> Seq<SyntaxNode>
    decreases nodes.len(),
{
    if nodes.len() == 0 || nodes[0].range.start >= start {
        seq![]
    } else {
        seq![nodes[0]] + before_offset(nodes.skip(1), start)
    }
}

/// Whether a statement that starts at `start` sits inside an open transaction block:
/// a `BEGIN` precedes it without an intervening `COMMIT`, `ROLLBACK`, `END` or `ABORT`.
pub open spec fn open_at(root: SyntaxNode, start: u32) -> bool {
    is_open(events_of(before_offset(child_nodes(root), start)))
}

/// What a statement does to the open transaction.
pub fn event_of(node: &SyntaxNode) -> (r: Option<TxnEvent>)
    ensures
        r == statement_event(*node),
{
    if !matches!(node.class, NodeClass::TransactionStmt) {
        return None;
    }
    match node.first_keyword() {
        Some(TokenKind::BeginKw) | Some(TokenKind::StartKw) => Some(TxnEvent::Open),
        Some(TokenKind::CommitKw) | Some(TokenKind::EndKw) | Some(TokenKind::RollbackKw) | Some(
            TokenKind::AbortKw,
        ) => Some(TxnEvent::Close),
        _ => None,
    }
}

/// Whether a statement undoes what the transaction has done so far.
pub fn is_rollback(node: &SyntaxNode) -> (r: bool)
    ensures
        r == rolls_back(*node),
{
    matches!(node.class, NodeClass::TransactionStmt) && matches!(
        node.first_keyword(),
        Some(TokenKind::RollbackKw) | Some(TokenKind::AbortKw)
    )
}

/// Whether a statement is a `ROLLBACK TO` a savepoint.
pub fn is_rollback_to_savepoint(node: &SyntaxNode) -> (r: bool)
    ensures
        r == to_savepoint(*node),
{
    is_rollback(node) && node.has_child_token(TokenKind::ToKw)
}

/// The top-level statements that open or close a transaction, in source order.
pub fn transaction_events(root: &SyntaxNode) -> (r: Vec<(&SyntaxNode, TxnEvent)>)
    ensures
        r.len() == txn_events(*root).len(),
        forall|i: int|
            0 <= i < r.len() ==> (*(#[trigger] r@[i]).0, r@[i].1) == txn_events(*root)[i],
{
    let nodes = root.child_nodes();
    let ghost all = child_nodes(*root);
    let mut out: Vec<(&SyntaxNode, TxnEvent)> = Vec::new();
    let mut i: usize = 0;
    while i < nodes.len()
        invariant
            i <= nodes.len(),
            all == nodes@.unref(),
            out.len() == events_of(all.take(i as int)).len(),
            forall|k: int|
                0 <= k < out.len() ==> (*(#[trigger] out@[k]).0, out@[k].1) == events_of(
                    all.take(i as int),
                )[k],
        decreases nodes.len() - i,
    {
        assert(all.take(i + 1).drop_last() =~= all.take(i as int));
        assert(all.take(i + 1).last() == *nodes@[i as int]);
        if let Some(event) = event_of(nodes[i]) {
            out.push((nodes[i], event));
        }
        i += 1;
    }
    assert(all.take(i as int) =~= all);
    out
}

proof fn lemma_before_offset_prefix(nodes: Seq<SyntaxNode>, start: u32, n: int)
    requires
        0 <= n <= nodes.len(),
        forall|k: int| 0 <= k < n ==> (#[trigger] nodes[k]).range.start < start,
        n == nodes.len() || nodes[n].range.start >= start,
    ensures
        before_offset(nodes, start) == nodes.take(n),
    decreases nodes.len(),
{
    if n == 0 {
        assert(nodes.take(0) =~= seq![]);
    } else {
        assert(nodes[0].range.start < start);
        assert forall|k: int| 0 <= k < n - 1 implies (#[trigger] nodes.skip(1)[k]).range.start
            < start by {
            assert(nodes.skip(1)[k] == nodes[k + 1]);
        }
        lemma_before_offset_prefix(nodes.skip(1), start, n - 1);
        assert(seq![nodes[0]] + nodes.skip(1).take(n - 1) =~= nodes.take(n));
    }
}

/// Whether `stmt`, a top-level statement, sits inside an open transaction block.
pub fn in_open_transaction(stmt: &SyntaxNode, root: &SyntaxNode) -> (r: bool)
    ensures
        r == open_at(*root, stmt.range.start),
{
    let start = stmt.range.start;
    let nodes = root.child_nodes();
    let ghost all = child_nodes(*root);
    let mut open = false;
    let mut i: usize = 0;
    while i < nodes.len() && nodes[i].range.start < start
        invariant
            i <= nodes.len(),
            all == nodes@.unref(),
            open == is_open(events_of(all.take(i as int))),
            forall|k: int| 0 <= k < i ==> (#[trigger] all[k]).range.start < start,
        decreases nodes.len() - i,
    {
        assert(all.take(i + 1).drop_last() =~= all.take(i as int));
        assert(all.take(i + 1).last() == *nodes@[i as int]);
        match event_of(nodes[i]) {
            Some(TxnEvent::Open) => open = true,
            Some(TxnEvent::Close) => open = false,
            None => {},
        }
        i += 1;
    }
    proof {
        lemma_before_offset_prefix(all, start, i as int);
    }
    open
}

} // verus!
