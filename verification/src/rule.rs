//! What a rule is, and the analyzer that rules report to.

use crate::diagnostic::{BuiltinLintPack, Diagnostic, Finding, RuleCode};
use crate::history::{EventView, MigrationColumns};
use crate::syntax::{descendants, SyntaxNode};
use vstd::prelude::*;

verus! {

/// Where rules report to, with what they may consult: the column history of the
/// migration set that the analyzed file belongs to.
pub struct Analyzer<'a> {
    pub columns: &'a MigrationColumns,
    pub diagnostics: Vec<Diagnostic>,
}

impl<'a> View for Analyzer<'a> {
    type V = Seq<Finding>;

    open spec fn view(&self) -> Seq<Finding> {
        self.diagnostics@.map_values(|d: Diagnostic| d@)
    }
}

impl<'a> Analyzer<'a> {
    /// An analyzer without findings.
    pub fn new(columns: &'a MigrationColumns) -> (r: Analyzer<'a>)
        ensures
            r@ == Seq::<Finding>::empty(),
            r.columns@ == columns@,
    {
        let r = Analyzer { columns, diagnostics: Vec::new() };
        assert(r@ =~= Seq::<Finding>::empty());
        r
    }

    /// Reports a finding.
    pub fn emit(&mut self, diagnostic: Diagnostic)
        ensures
            final(self)@ == old(self)@.push(diagnostic@),
            final(self).columns@ == old(self).columns@,
    {
        let ghost before = self@;
        self.diagnostics.push(diagnostic);
        assert(self@ =~= before.push(diagnostic@));
    }
}

/// Whether findings are warnings with one of `codes`, each at a range.
pub open spec fn all_own(findings: Seq<Finding>, codes: Seq<RuleCode>) -> bool {
    forall|k: int|
        0 <= k < findings.len() ==> (#[trigger] findings[k]).severity is Warning
            && findings[k].code is Some && codes.contains(findings[k].code->0)
            && findings[k].range is Some
}

/// A lint rule.
pub trait Rule {
    /// The codes that the rule reports.
    spec fn own_codes(&self) -> Seq<RuleCode>;

    /// What the rule finds in the tree of a file, given the column events of the
    /// migration set.
    spec fn findings(&self, root: SyntaxNode, columns: Seq<EventView>) -> Seq<Finding>;

    /// What the rule finds are warnings with one of its codes, each at a range.
    proof fn own_findings(&self, root: SyntaxNode, columns: Seq<EventView>)
        ensures
            all_own(self.findings(root, columns), self.own_codes()),
    ;

    /// The codes that the rule reports.
    fn codes(&self) -> (r: &'static [RuleCode])
        ensures
            r@ == self.own_codes(),
    ;

    /// The pack that the rule belongs to.
    fn group(&self) -> (r: BuiltinLintPack)
        ensures
            r == BuiltinLintPack::Migration,
    ;

    /// Reports what the rule finds.
    fn run(&self, root: &SyntaxNode, analyzer: &mut Analyzer)
        ensures
            final(analyzer)@ == old(analyzer)@ + self.findings(*root, old(analyzer).columns@),
            final(analyzer).columns@ == old(analyzer).columns@,
    ;
}

/// A tree with its nodes in source order.
pub struct Outline<'a> {
    pub root: &'a SyntaxNode,
    pub nodes: Vec<&'a SyntaxNode>,
}

impl<'a> Outline<'a> {
    /// Whether the nodes are those of the tree.
    pub open spec fn wf(&self) -> bool {
        self.nodes@.unref() == descendants(*self.root)
    }

    /// The outline of a tree.
    pub fn of(root: &'a SyntaxNode) -> (r: Outline<'a>)
        ensures
            r.wf(),
            *r.root == *root,
    {
        Outline { root, nodes: root.descendants() }
    }
}

/// A rule that looks at one node of the tree at a time.
pub trait NodeRule {
    /// What the rule finds at the `i`-th node of the tree, in source order.
    spec fn found_at(&self, root: SyntaxNode, columns: Seq<EventView>, i: int) -> Seq<Finding>;

    /// Reports what the rule finds at the `i`-th node of the tree.
    fn inspect(&self, tree: &Outline, i: usize, analyzer: &mut Analyzer)
        requires
            tree.wf(),
            i < tree.nodes.len(),
        ensures
            final(analyzer)@ == old(analyzer)@ + self.found_at(
                *tree.root,
                old(analyzer).columns@,
                i as int,
            ),
            final(analyzer).columns@ == old(analyzer).columns@,
    ;
}

/// What a rule finds at the first `n` nodes of the tree.
pub open spec fn found_below<R: NodeRule>(
    rule: R,
    root: SyntaxNode,
    columns: Seq<EventView>,
    n: int,
) -> Seq<Finding>
    decreases n,
{
    if n <= 0 {
        seq![]
    } else {
        found_below(rule, root, columns, n - 1) + rule.found_at(root, columns, n - 1)
    }
}

/// What a rule finds at the nodes of the tree, in source order.
pub open spec fn found_in_tree<R: NodeRule>(
    rule: R,
    root: SyntaxNode,
    columns: Seq<EventView>,
) -> Seq<Finding> {
    found_below(rule, root, columns, descendants(root).len() as int)
}

/// What a rule finds in a tree are warnings with one of `codes` if that is so at each
/// node.
pub proof fn lemma_found_own<R: NodeRule>(
    rule: R,
    root: SyntaxNode,
    columns: Seq<EventView>,
    codes: Seq<RuleCode>,
    n: int,
)
    requires
        forall|i: int| all_own(#[trigger] rule.found_at(root, columns, i), codes),
    ensures
        all_own(found_below(rule, root, columns, n), codes),
    decreases n,
{
    if n > 0 {
        lemma_found_own(rule, root, columns, codes, n - 1);
        assert(all_own(rule.found_at(root, columns, n - 1), codes));
    }
}

/// Reports what a rule finds at the nodes of the tree, in source order.
pub fn visit<R: NodeRule>(rule: &R, root: &SyntaxNode, analyzer: &mut Analyzer)
    ensures
        final(analyzer)@ == old(analyzer)@ + found_in_tree(*rule, *root, old(analyzer).columns@),
        final(analyzer).columns@ == old(analyzer).columns@,
{
    let ghost before = analyzer@;
    let ghost columns = analyzer.columns@;
    let tree = Outline::of(root);
    let mut i: usize = 0;
    assert(before =~= before + found_below(*rule, *root, columns, 0));
    while i < tree.nodes.len()
        invariant
            i <= tree.nodes.len(),
            tree.wf(),
            *tree.root == *root,
            analyzer@ == before + found_below(*rule, *root, columns, i as int),
            analyzer.columns@ == columns,
        decreases tree.nodes.len() - i,
    {
        rule.inspect(&tree, i, analyzer);
        i += 1;
        assert(analyzer@ =~= before + found_below(*rule, *root, columns, i as int));
    }
    assert(tree.nodes@.unref().len() == tree.nodes.len());
}

} // verus!
