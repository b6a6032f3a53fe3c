//! Transaction hygiene.

use crate::diagnostic::{warn, warning_at, BuiltinLintPack, Finding, RuleCode};
use crate::history::EventView;
use crate::rule::{all_own, Analyzer, Rule};
use crate::syntax::SyntaxNode;
use crate::transaction::{is_open, transaction_events, txn_events, unmatched, TxnEvent};
use vstd::prelude::*;

verus! {

pub const NEVER_CLOSED: &'static str =
    "transaction opened with BEGIN/START is never committed or rolled back";

pub const NESTED_BEGIN: &'static str =
    "BEGIN/START inside an open transaction nests; Postgres ignores \
     the inner BEGIN and the next COMMIT ends the outer transaction";

/// What MG20 finds, given the opening statements that are never matched.
pub open spec fn unclosed_findings(open: Seq<SyntaxNode>) -> Seq<Finding> {
    open.map_values(|node: SyntaxNode| warning_at(RuleCode::Mg20, NEVER_CLOSED@, node.range))
}

/// What MG21 finds at the last of a sequence of transaction events: it opens a
/// transaction while one is open.
pub open spec fn nesting_finding(events: Seq<(SyntaxNode, TxnEvent)>) -> Seq<Finding> {
    if events.last().1 is Open && is_open(events.drop_last()) {
        seq![warning_at(RuleCode::Mg21, NESTED_BEGIN@, events.last().0.range)]
    } else {
        seq![]
    }
}

/// What MG21 finds in a sequence of transaction events.
pub open spec fn nesting_findings(events: Seq<(SyntaxNode, TxnEvent)>) -> Seq<Finding>
    decreases events.len(),
{
    if events.len() == 0 {
        seq![]
    } else {
        nesting_findings(events.drop_last()) + nesting_finding(events)
    }
}

proof fn lemma_nesting_own(events: Seq<(SyntaxNode, TxnEvent)>, codes: Seq<RuleCode>)
    requires
        codes.contains(RuleCode::Mg21),
    ensures
        all_own(nesting_findings(events), codes),
    decreases events.len(),
{
    if events.len() > 0 {
        lemma_nesting_own(events.drop_last(), codes);
    }
}

/// MG20: a transaction opened with `BEGIN`/`START` but never matched by a
/// `COMMIT`/`ROLLBACK` leaves the migration in an open transaction.
pub struct UncommittedTransaction;

impl Rule for UncommittedTransaction {
    open spec fn own_codes(&self) -> Seq<RuleCode> {
        seq![RuleCode::Mg20]
    }

    open spec fn findings(&self, root: SyntaxNode, columns: Seq<EventView>) -> Seq<Finding> {
        unclosed_findings(unmatched(txn_events(root)))
    }

    proof fn own_findings(&self, root: SyntaxNode, columns: Seq<EventView>) {
        assert(self.own_codes()[0] == RuleCode::Mg20);
    }

    fn codes(&self) -> &'static [RuleCode] {
        &[RuleCode::Mg20]
    }

    fn group(&self) -> BuiltinLintPack {
        BuiltinLintPack::Migration
    }

    fn run(&self, root: &SyntaxNode, analyzer: &mut Analyzer) {
        let ghost before = analyzer@;
        let ghost columns = analyzer.columns@;
        let events = transaction_events(root);
        let ghost all = txn_events(*root);
        let mut open: Vec<&SyntaxNode> = Vec::new();
        let mut i: usize = 0;
        assert(open@.unref() =~= unmatched(all.take(0)));
        while i < events.len()
            invariant
                i <= events.len(),
                events.len() == all.len(),
                forall|k: int|
                    0 <= k < events.len() ==> (*(#[trigger] events@[k]).0, events@[k].1) == all[k],
                open@.unref() == unmatched(all.take(i as int)),
            decreases events.len() - i,
        {
            assert(all.take(i + 1).drop_last() =~= all.take(i as int));
            let (node, event) = events[i];
            assert((*events@[i as int].0, events@[i as int].1) == all[i as int]);
            match event {
                TxnEvent::Open => open.push(node),
                TxnEvent::Close => {
                    open.pop();
                },
            }
            i += 1;
            assert(open@.unref() =~= unmatched(all.take(i as int)));
        }
        assert(all.take(i as int) =~= all);
        let ghost unclosed = unmatched(all);
        let mut k: usize = 0;
        assert(before =~= before + unclosed_findings(unclosed.take(0)));
        while k < open.len()
            invariant
                k <= open.len(),
                open@.unref() == unclosed,
                analyzer@ == before + unclosed_findings(unclosed.take(k as int)),
                analyzer.columns@ == columns,
            decreases open.len() - k,
        {
            assert(unclosed[k as int] == *open@[k as int]);
            analyzer.emit(warn(RuleCode::Mg20, NEVER_CLOSED, open[k].range));
            k += 1;
            assert(analyzer@ =~= before + unclosed_findings(unclosed.take(k as int)));
        }
        assert(unclosed.take(k as int) =~= unclosed);
    }
}

/// MG21: a `BEGIN`/`START` issued while a transaction is already open. Postgres
/// ignores the inner `BEGIN` (with a warning) and the matching `COMMIT` ends the outer
/// transaction early, which is rarely what was intended.
pub struct TransactionNesting;

impl Rule for TransactionNesting {
    open spec fn own_codes(&self) -> Seq<RuleCode> {
        seq![RuleCode::Mg21]
    }

    open spec fn findings(&self, root: SyntaxNode, columns: Seq<EventView>) -> Seq<Finding> {
        nesting_findings(txn_events(root))
    }

    proof fn own_findings(&self, root: SyntaxNode, columns: Seq<EventView>) {
        assert(self.own_codes()[0] == RuleCode::Mg21);
        lemma_nesting_own(txn_events(root), self.own_codes());
    }

    fn codes(&self) -> &'static [RuleCode] {
        &[RuleCode::Mg21]
    }

    fn group(&self) -> BuiltinLintPack {
        BuiltinLintPack::Migration
    }

    fn run(&self, root: &SyntaxNode, analyzer: &mut Analyzer) {
        let ghost before = analyzer@;
        let ghost columns = analyzer.columns@;
        let events = transaction_events(root);
        let ghost all = txn_events(*root);
        let mut open = false;
        let mut i: usize = 0;
        assert(before =~= before + nesting_findings(all.take(0)));
        while i < events.len()
            invariant
                i <= events.len(),
                events.len() == all.len(),
                forall|k: int|
                    0 <= k < events.len() ==> (*(#[trigger] events@[k]).0, events@[k].1) == all[k],
                open == is_open(all.take(i as int)),
                analyzer@ == before + nesting_findings(all.take(i as int)),
                analyzer.columns@ == columns,
            decreases events.len() - i,
        {
            assert(all.take(i + 1).drop_last() =~= all.take(i as int));
            let (node, event) = events[i];
            assert((*events@[i as int].0, events@[i as int].1) == all[i as int]);
            match event {
                TxnEvent::Open => {
                    if open {
                        analyzer.emit(warn(RuleCode::Mg21, NESTED_BEGIN, node.range));
                    }
                    open = true;
                },
                TxnEvent::Close => open = false,
            }
            i += 1;
            assert(analyzer@ =~= before + nesting_findings(all.take(i as int)));
        }
        assert(all.take(i as int) =~= all);
    }
}

} // verus!
