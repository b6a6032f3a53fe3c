//! The syntax tree that the rules read.
//!
//! A tree is made of nodes and tokens. A node carries its class, with the facts
//! that a parser knows about a statement or clause of that class, its range in
//! the source text, and its children in source order.

use crate::text::in_row;
use vstd::prelude::*;

verus! {

/// A half-open range of byte offsets into the source text.
#[derive(Clone, Copy, PartialEq, Eq, Structural, Debug)]
pub struct TextRange {
    pub start: u32,
    pub end: u32,
}

/// The kind of a token.
#[derive(Clone, Copy, PartialEq, Eq, Structural, Debug)]
pub enum TokenKind {
    Whitespace,
    Comment,
    Ident,
    QuotedIdent,
    AbortKw,
    BeginKw,
    CommitKw,
    DatabaseKw,
    DropKw,
    EndKw,
    IfKw,
    IndexKw,
    NotKw,
    NullKw,
    RollbackKw,
    SetKw,
    StartKw,
    TableKw,
    TimestampKw,
    ToKw,
    UsingKw,
    /// Any other keyword.
    OtherKw,
    /// Punctuation, operators and literals.
    Other,
}

impl TokenKind {
    /// Whether tokens of this kind carry no meaning.
    pub open spec fn trivia(self) -> bool {
        self is Whitespace || self is Comment
    }

    /// Whether this is the kind of a keyword.
    pub open spec fn keyword(self) -> bool {
        !self.trivia() && !(self is Ident) && !(self is QuotedIdent) && !(self is Other)
    }

    /// Whether tokens of this kind carry no meaning.
    pub fn is_trivia(self) -> (r: bool)
        ensures
            r == self.trivia(),
    {
        matches!(self, TokenKind::Whitespace | TokenKind::Comment)
    }

    /// Whether this is the kind of a keyword.
    pub fn is_keyword(self) -> (r: bool)
        ensures
            r == self.keyword(),
    {
        !matches!(
            self,
            TokenKind::Whitespace | TokenKind::Comment | TokenKind::Ident | TokenKind::QuotedIdent
            | TokenKind::Other
        )
    }
}

/// A token: its kind, its source text and where it stands.
#[derive(Debug)]
pub struct SyntaxToken {
    pub kind: TokenKind,
    pub text: String,
    pub range: TextRange,
}

/// A table name as written: an optional schema qualifier and a name, each with
/// its quotes if it has any.
#[derive(Debug)]
pub struct TableName {
    pub schema: Option<String>,
    pub name: String,
    pub range: TextRange,
}

/// What an `ALTER … RENAME` renames.
#[derive(Debug)]
pub enum RenameTarget {
    /// The altered object itself, to a new name.
    Object { to: String },
    /// A column of the altered table.
    Column { from: String, to: String },
    /// A constraint of the altered table.
    Constraint,
    /// A schema.
    Schema { old: String, new: String },
}

/// What an action of an `ALTER TABLE` does.
#[derive(Clone, Copy, PartialEq, Eq, Structural, Debug)]
pub enum AlterActionKind {
    AddColumn,
    DropColumn,
    AlterColumn,
    AddConstraint,
    Other,
}

/// The kind of a table constraint.
#[derive(Clone, Copy, PartialEq, Eq, Structural, Debug)]
pub enum ConstraintKind {
    PrimaryKey,
    Unique,
    ForeignKey,
    Check,
    Other,
}

/// The class of a node, with the facts that belong to it.
#[derive(Debug)]
pub enum NodeClass {
    CreateIndexStmt { concurrent: bool },
    /// The columns and table constraints are children.
    CreateTableStmt { table: Option<TableName>, temporary: bool },
    /// `object` is the keyword of the kind of object that is dropped.
    DropStmt { object: Option<TokenKind>, concurrent: bool, names: Vec<TableName> },
    TruncateStmt { cascade: bool },
    TransactionStmt,
    /// `table` is the altered table, if it is a table that is altered, and `new_schema` the
    /// schema of a `SET SCHEMA`. The actions of an `ALTER TABLE` are children.
    AlterStmt {
        table: Option<TableName>,
        rename: Option<RenameTarget>,
        new_schema: Option<String>,
    },
    /// `SET` or `RESET` of a session parameter; `RESET ALL` has none.
    SetStmt { parameter: Option<String> },
    /// `table` is the table that the enclosing statement alters and `column` the
    /// column that is dropped or altered. An added column, an added constraint
    /// or a new type is a child.
    AlterTableAction {
        action: AlterActionKind,
        table: Option<TableName>,
        column: Option<String>,
        changes_type: bool,
    },
    /// The type and the default expression are children.
    ColumnDef { name: Option<String>, not_null: bool, primary_key: bool, generated: bool },
    /// A column type, with its source text less comments.
    TypeName { text: String },
    /// The expression of a `DEFAULT` clause.
    DefaultExpr,
    FuncCall { name: Option<String> },
    /// `columns` are the columns of a key constraint.
    Constraint { constraint: ConstraintKind, not_valid: bool, columns: Vec<String> },
    Other,
}

/// A node of the tree.
#[derive(Debug)]
pub struct SyntaxNode {
    pub class: NodeClass,
    pub range: TextRange,
    pub children: Vec<SyntaxElement>,
}

/// A child of a node.
#[derive(Debug)]
pub enum SyntaxElement {
    Node(SyntaxNode),
    Token(SyntaxToken),
}

/// Whether a range lies inside another.
pub open spec fn within(inner: TextRange, outer: TextRange) -> bool {
    outer.start <= inner.start <= inner.end <= outer.end
}

/// Whether the range of each node of a tree holds the ranges of its children.
pub open spec fn well_placed(node: SyntaxNode) -> bool
    decreases node,
{
    node.range.start <= node.range.end && all_placed(node.children@, node.range)
}

/// Whether a range holds the ranges of a sequence of trees that are well placed.
pub open spec fn all_placed(elements: Seq<SyntaxElement>, range: TextRange) -> bool
    decreases elements,
{
    elements.len() == 0 || (all_placed(elements.drop_last(), range) && match elements.last() {
        SyntaxElement::Node(node) => within(node.range, range) && well_placed(node),
        SyntaxElement::Token(token) => within(token.range, range),
    })
}

/// The nodes of the tree below `node`, itself included, in source order: a node
/// comes before its children.
pub open spec fn descendants(node: SyntaxNode) -> Seq<SyntaxNode>
    decreases node,
{
    seq![node] + forest_nodes(node.children@)
}

/// The nodes of a sequence of trees, in source order.
pub open spec fn forest_nodes(elements: Seq<SyntaxElement>) -> Seq<SyntaxNode>
    decreases elements,
{
    if elements.len() == 0 {
        seq![]
    } else {
        forest_nodes(elements.drop_last()) + match elements.last() {
            SyntaxElement::Node(node) => descendants(node),
            SyntaxElement::Token(_) => seq![],
        }
    }
}

/// The tokens anywhere below `node`, in source order.
pub open spec fn descendant_tokens(node: SyntaxNode) -> Seq<SyntaxToken>
    decreases node,
{
    forest_tokens(node.children@)
}

/// The tokens of a sequence of trees, in source order.
pub open spec fn forest_tokens(elements: Seq<SyntaxElement>) -> Seq<SyntaxToken>
    decreases elements,
{
    if elements.len() == 0 {
        seq![]
    } else {
        forest_tokens(elements.drop_last()) + match elements.last() {
            SyntaxElement::Node(node) => descendant_tokens(node),
            SyntaxElement::Token(token) => seq![token],
        }
    }
}

/// The nodes among a sequence of children, in source order.
pub open spec fn nodes_of(elements: Seq<SyntaxElement>) -> Seq<SyntaxNode>
    decreases elements.len(),
{
    if elements.len() == 0 {
        seq![]
    } else {
        match elements.last() {
            SyntaxElement::Node(node) => nodes_of(elements.drop_last()).push(node),
            SyntaxElement::Token(_) => nodes_of(elements.drop_last()),
        }
    }
}

/// The tokens among a sequence of children, in source order.
pub open spec fn tokens_of(elements: Seq<SyntaxElement>) -> Seq<SyntaxToken>
    decreases elements.len(),
{
    if elements.len() == 0 {
        seq![]
    } else {
        match elements.last() {
            SyntaxElement::Node(_) => tokens_of(elements.drop_last()),
            SyntaxElement::Token(token) => tokens_of(elements.drop_last()).push(token),
        }
    }
}

/// The child nodes of a node.
pub open spec fn child_nodes(node: SyntaxNode) -> Seq<SyntaxNode> {
    nodes_of(node.children@)
}

/// The child tokens of a node.
pub open spec fn child_tokens(node: SyntaxNode) -> Seq<SyntaxToken> {
    tokens_of(node.children@)
}

/// The kinds of the tokens that are not trivia.
pub open spec fn plain_kinds(tokens: Seq<SyntaxToken>) -> Seq<TokenKind>
    decreases tokens.len(),
{
    if tokens.len() == 0 {
        seq![]
    } else if tokens.last().kind.trivia() {
        plain_kinds(tokens.drop_last())
    } else {
        plain_kinds(tokens.drop_last()).push(tokens.last().kind)
    }
}

/// Whether some token of a sequence is of `kind`.
pub open spec fn has_kind(tokens: Seq<SyntaxToken>, kind: TokenKind) -> bool {
    exists|i: int| 0 <= i < tokens.len() && (#[trigger] tokens[i]).kind == kind
}

/// The first token of `kind` in a sequence.
pub open spec fn first_of_kind(tokens: Seq<SyntaxToken>, kind: TokenKind) -> Option<SyntaxToken>
    decreases tokens.len(),
{
    if tokens.len() == 0 {
        None
    } else if tokens[0].kind == kind {
        Some(tokens[0])
    } else {
        first_of_kind(tokens.skip(1), kind)
    }
}

/// The kind of the first keyword in a sequence of tokens.
pub open spec fn first_keyword(tokens: Seq<SyntaxToken>) -> Option<TokenKind>
    decreases tokens.len(),
{
    if tokens.len() == 0 {
        None
    } else if tokens[0].kind.keyword() {
        Some(tokens[0].kind)
    } else {
        first_keyword(tokens.skip(1))
    }
}

/// The end of the first child token of `kind`.
pub open spec fn token_end(node: SyntaxNode, kind: TokenKind) -> Option<u32> {
    match first_of_kind(child_tokens(node), kind) {
        Some(token) => Some(token.range.end),
        None => None,
    }
}

/// The greatest end of the tokens that are not trivia.
pub open spec fn greatest_end(tokens: Seq<SyntaxToken>) -> Option<u32>
    decreases tokens.len(),
{
    if tokens.len() == 0 {
        None
    } else {
        let last = tokens.last();
        match greatest_end(tokens.drop_last()) {
            Some(end) => if last.kind.trivia() || last.range.end <= end {
                Some(end)
            } else {
                Some(last.range.end)
            },
            None => if last.kind.trivia() {
                None
            } else {
                Some(last.range.end)
            },
        }
    }
}

/// The end of the last token below `node` that is not trivia.
pub open spec fn last_token_end(node: SyntaxNode) -> Option<u32> {
    greatest_end(descendant_tokens(node))
}

/// What a child node is to its parent.
#[derive(Clone, Copy, PartialEq, Eq, Structural, Debug)]
pub enum Role {
    Column,
    Constraint,
    Type,
    Default,
}

/// Whether a node of class `class` plays `role`.
pub open spec fn plays(class: NodeClass, role: Role) -> bool {
    match role {
        Role::Column => class is ColumnDef,
        Role::Constraint => class is Constraint,
        Role::Type => class is TypeName,
        Role::Default => class is DefaultExpr,
    }
}

/// The first node in a sequence that plays `role`.
pub open spec fn first_in_role(nodes: Seq<SyntaxNode>, role: Role) -> Option<SyntaxNode>
    decreases nodes.len(),
{
    if nodes.len() == 0 {
        None
    } else if plays(nodes[0].class, role) {
        Some(nodes[0])
    } else {
        first_in_role(nodes.skip(1), role)
    }
}

/// The first child node that plays `role`.
pub open spec fn child_in_role(node: SyntaxNode, role: Role) -> Option<SyntaxNode> {
    first_in_role(child_nodes(node), role)
}

impl NodeClass {
    /// Whether a node of this class plays `role`.
    pub fn plays_role(&self, role: Role) -> (r: bool)
        ensures
            r == plays(*self, role),
    {
        match role {
            Role::Column => matches!(self, NodeClass::ColumnDef { .. }),
            Role::Constraint => matches!(self, NodeClass::Constraint { .. }),
            Role::Type => matches!(self, NodeClass::TypeName { .. }),
            Role::Default => matches!(self, NodeClass::DefaultExpr),
        }
    }
}

impl SyntaxNode {
    /// The child nodes, in source order.
    pub fn child_nodes(&self) -> (r: Vec<&SyntaxNode>)
        ensures
            r@.unref() == child_nodes(*self),
    {
        let mut out: Vec<&SyntaxNode> = Vec::new();
        let mut i: usize = 0;
        assert(out@.unref() =~= nodes_of(self.children@.take(0)));
        while i < self.children.len()
            invariant
                i <= self.children.len(),
                out@.unref() == nodes_of(self.children@.take(i as int)),
            decreases self.children.len() - i,
        {
            assert(self.children@.take(i + 1).drop_last() =~= self.children@.take(i as int));
            let ghost held = out@.unref();
            if let SyntaxElement::Node(node) = &self.children[i] {
                out.push(node);
                assert(out@.unref() =~= held.push(*node));
            }
            i += 1;
        }
        assert(self.children@.take(i as int) =~= self.children@);
        out
    }

    /// The child tokens, in source order.
    pub fn child_tokens(&self) -> (r: Vec<&SyntaxToken>)
        ensures
            r@.unref() == child_tokens(*self),
    {
        let mut out: Vec<&SyntaxToken> = Vec::new();
        let mut i: usize = 0;
        assert(out@.unref() =~= tokens_of(self.children@.take(0)));
        while i < self.children.len()
            invariant
                i <= self.children.len(),
                out@.unref() == tokens_of(self.children@.take(i as int)),
            decreases self.children.len() - i,
        {
            assert(self.children@.take(i + 1).drop_last() =~= self.children@.take(i as int));
            let ghost held = out@.unref();
            if let SyntaxElement::Token(token) = &self.children[i] {
                out.push(token);
                assert(out@.unref() =~= held.push(*token));
            }
            i += 1;
        }
        assert(self.children@.take(i as int) =~= self.children@);
        out
    }

    /// The first child node that plays `role`.
    pub fn child_in_role(&self, role: Role) -> (r: Option<&SyntaxNode>)
        ensures
            match r {
                Some(node) => child_in_role(*self, role) == Some(*node),
                None => child_in_role(*self, role) is None,
            },
    {
        let nodes = self.child_nodes();
        let ghost all = nodes@.unref();
        let mut i: usize = 0;
        assert(all.skip(0) =~= all);
        while i < nodes.len()
            invariant
                i <= nodes.len(),
                all == nodes@.unref(),
                all == child_nodes(*self),
                first_in_role(all, role) == first_in_role(all.skip(i as int), role),
            decreases nodes.len() - i,
        {
            assert(all.skip(i as int)[0] == *nodes@[i as int]);
            if nodes[i].class.plays_role(role) {
                return Some(nodes[i]);
            }
            assert(all.skip(i as int).skip(1) =~= all.skip(i + 1));
            i += 1;
        }
        None
    }

    /// The first child token of `kind`.
    pub fn first_token(&self, kind: TokenKind) -> (r: Option<&SyntaxToken>)
        ensures
            match r {
                Some(token) => first_of_kind(child_tokens(*self), kind) == Some(*token),
                None => first_of_kind(child_tokens(*self), kind) is None,
            },
    {
        let tokens = self.child_tokens();
        let ghost all = tokens@.unref();
        let mut i: usize = 0;
        assert(all.skip(0) =~= all);
        while i < tokens.len()
            invariant
                i <= tokens.len(),
                all == tokens@.unref(),
                all == child_tokens(*self),
                first_of_kind(all, kind) == first_of_kind(all.skip(i as int), kind),
            decreases tokens.len() - i,
        {
            assert(all.skip(i as int)[0] == *tokens@[i as int]);
            if tokens[i].kind == kind {
                return Some(tokens[i]);
            }
            assert(all.skip(i as int).skip(1) =~= all.skip(i + 1));
            i += 1;
        }
        None
    }

    /// The kind of the first child token that is a keyword.
    pub fn first_keyword(&self) -> (r: Option<TokenKind>)
        ensures
            r == first_keyword(child_tokens(*self)),
    {
        let tokens = self.child_tokens();
        let ghost all = tokens@.unref();
        let mut i: usize = 0;
        assert(all.skip(0) =~= all);
        while i < tokens.len()
            invariant
                i <= tokens.len(),
                all == tokens@.unref(),
                all == child_tokens(*self),
                first_keyword(all) == first_keyword(all.skip(i as int)),
            decreases tokens.len() - i,
        {
            assert(all.skip(i as int)[0] == *tokens@[i as int]);
            if tokens[i].kind.is_keyword() {
                return Some(tokens[i].kind);
            }
            assert(all.skip(i as int).skip(1) =~= all.skip(i + 1));
            i += 1;
        }
        None
    }

    /// End offset of the first child token of `kind`, for inserting text.
    pub fn token_end(&self, kind: TokenKind) -> (r: Option<u32>)
        ensures
            r == token_end(*self, kind),
    {
        match self.first_token(kind) {
            Some(token) => Some(token.range.end),
            None => None,
        }
    }

    /// End offset of the last token below this node that is not trivia.
    pub fn last_token_end(&self) -> (r: Option<u32>)
        ensures
            r == last_token_end(*self),
    {
        let tokens = self.descendant_tokens();
        let ghost all = tokens@.unref();
        let mut greatest: Option<u32> = None;
        let mut i: usize = 0;
        while i < tokens.len()
            invariant
                i <= tokens.len(),
                all == tokens@.unref(),
                greatest == greatest_end(all.take(i as int)),
            decreases tokens.len() - i,
        {
            assert(all.take(i + 1).drop_last() =~= all.take(i as int));
            assert(all.take(i + 1).last() == *tokens@[i as int]);
            if !tokens[i].kind.is_trivia() {
                let end = tokens[i].range.end;
                greatest = match greatest {
                    Some(known) => if end <= known {
                        Some(known)
                    } else {
                        Some(end)
                    },
                    None => Some(end),
                };
            }
            i += 1;
        }
        assert(all.take(i as int) =~= all);
        greatest
    }

    /// Whether some child token is of `kind`.
    pub fn has_child_token(&self, kind: TokenKind) -> (r: bool)
        ensures
            r == has_kind(child_tokens(*self), kind),
    {
        any_of_kind(&self.child_tokens(), kind)
    }

    /// Whether some token below this node is of `kind`.
    pub fn has_token(&self, kind: TokenKind) -> (r: bool)
        ensures
            r == has_kind(descendant_tokens(*self), kind),
    {
        any_of_kind(&self.descendant_tokens(), kind)
    }

    /// Whether child tokens of the kinds `run` stand in a row, with nothing but trivia
    /// between them.
    pub fn has_child_run(&self, run: &Vec<TokenKind>) -> (r: bool)
        ensures
            r == in_row(plain_kinds(child_tokens(*self)), run@),
    {
        kinds_in_row(&kinds_of(&self.child_tokens()), run)
    }

    /// Whether tokens of the kinds `run` stand in a row below this node, with nothing but
    /// trivia between them.
    pub fn has_run(&self, run: &Vec<TokenKind>) -> (r: bool)
        ensures
            r == in_row(plain_kinds(descendant_tokens(*self)), run@),
    {
        kinds_in_row(&kinds_of(&self.descendant_tokens()), run)
    }

    /// All nodes of the tree below this node, itself included, in source order.
    pub fn descendants(&self) -> (r: Vec<&SyntaxNode>)
        ensures
            r@.unref() == descendants(*self),
    {
        let mut out: Vec<&SyntaxNode> = Vec::new();
        push_descendants(self, &mut out);
        assert(out@.unref() =~= descendants(*self));
        out
    }

    /// All tokens below this node, in source order.
    pub fn descendant_tokens(&self) -> (r: Vec<&SyntaxToken>)
        ensures
            r@.unref() == descendant_tokens(*self),
    {
        let mut out: Vec<&SyntaxToken> = Vec::new();
        push_tokens(self, &mut out);
        assert(out@.unref() =~= descendant_tokens(*self));
        out
    }
}

fn any_of_kind(tokens: &Vec<&SyntaxToken>, kind: TokenKind) -> (r: bool)
    ensures
        r == has_kind(tokens@.unref(), kind),
{
    let mut i: usize = 0;
    while i < tokens.len()
        invariant
            i <= tokens.len(),
            forall|k: int| 0 <= k < i ==> (#[trigger] tokens@.unref()[k]).kind != kind,
        decreases tokens.len() - i,
    {
        if tokens[i].kind == kind {
            assert(tokens@.unref()[i as int].kind == kind);
            return true;
        }
        i += 1;
    }
    false
}

/// The kinds of the tokens that are not trivia.
fn kinds_of(tokens: &Vec<&SyntaxToken>) -> (r: Vec<TokenKind>)
    ensures
        r@ == plain_kinds(tokens@.unref()),
{
    let ghost all = tokens@.unref();
    let mut kinds: Vec<TokenKind> = Vec::new();
    let mut i: usize = 0;
    while i < tokens.len()
        invariant
            i <= tokens.len(),
            all == tokens@.unref(),
            kinds@ == plain_kinds(all.take(i as int)),
        decreases tokens.len() - i,
    {
        assert(all.take(i + 1).drop_last() =~= all.take(i as int));
        assert(all.take(i + 1).last() == *tokens@[i as int]);
        if !tokens[i].kind.is_trivia() {
            kinds.push(tokens[i].kind);
        }
        i += 1;
    }
    assert(all.take(i as int) =~= all);
    kinds
}

fn kinds_in_row(kinds: &Vec<TokenKind>, run: &Vec<TokenKind>) -> (r: bool)
    ensures
        r == in_row(kinds@, run@),
{
    if run.len() > kinds.len() {
        return false;
    }
    let last = kinds.len() - run.len();
    let mut at: usize = 0;
    loop
        invariant
            run.len() <= kinds.len(),
            last == kinds.len() - run.len(),
            at <= last,
            forall|k: int| 0 <= k < at ==> #[trigger] kinds@.subrange(k, k + run@.len()) != run@,
        decreases last - at,
    {
        let mut k: usize = 0;
        while k < run.len() && kinds[at + k] == run[k]
            invariant
                k <= run.len() <= kinds.len(),
                at <= kinds.len() - run.len(),
                forall|j: int| 0 <= j < k ==> kinds@[at + j] == run@[j],
            decreases run.len() - k,
        {
            k += 1;
        }
        let ghost here = kinds@.subrange(at as int, at + run@.len());
        if k == run.len() {
            assert(here =~= run@);
            return true;
        }
        assert(here[k as int] != run@[k as int]);
        if at == last {
            return false;
        }
        at += 1;
    }
}

fn push_descendants<'a>(node: &'a SyntaxNode, out: &mut Vec<&'a SyntaxNode>)
    ensures
        final(out)@.unref() == old(out)@.unref() + descendants(*node),
    decreases node,
{
    let ghost before = out@.unref();
    out.push(node);
    let mut i: usize = 0;
    assert(out@.unref() =~= before + seq![*node] + forest_nodes(node.children@.take(0)));
    while i < node.children.len()
        invariant
            i <= node.children.len(),
            out@.unref() == before + seq![*node] + forest_nodes(node.children@.take(i as int)),
        decreases node.children.len() - i,
    {
        let ghost reached = node.children@.take(i + 1);
        assert(reached.drop_last() =~= node.children@.take(i as int));
        match &node.children[i] {
            SyntaxElement::Node(child) => {
                push_descendants(child, out);
            },
            SyntaxElement::Token(_) => {},
        }
        assert(out@.unref() =~= before + seq![*node] + forest_nodes(reached));
        i += 1;
    }
    assert(node.children@.take(i as int) =~= node.children@);
    assert(out@.unref() =~= before + descendants(*node));
}

fn push_tokens<'a>(node: &'a SyntaxNode, out: &mut Vec<&'a SyntaxToken>)
    ensures
        final(out)@.unref() == old(out)@.unref() + descendant_tokens(*node),
    decreases node,
{
    let ghost before = out@.unref();
    let mut i: usize = 0;
    assert(out@.unref() =~= before + forest_tokens(node.children@.take(0)));
    while i < node.children.len()
        invariant
            i <= node.children.len(),
            out@.unref() == before + forest_tokens(node.children@.take(i as int)),
        decreases node.children.len() - i,
    {
        let ghost reached = node.children@.take(i + 1);
        assert(reached.drop_last() =~= node.children@.take(i as int));
        match &node.children[i] {
            SyntaxElement::Node(child) => {
                push_tokens(child, out);
                assert(forest_tokens(reached) == forest_tokens(reached.drop_last())
                    + descendant_tokens(*child));
            },
            SyntaxElement::Token(token) => {
                let ghost held = out@.unref();
                out.push(token);
                assert(out@.unref() =~= held.push(*token));
                assert(forest_tokens(reached) == forest_tokens(reached.drop_last()) + seq![*token]);
            },
        }
        assert(out@.unref() =~= before + forest_tokens(reached));
        i += 1;
    }
    assert(node.children@.take(i as int) =~= node.children@);
}

} // verus!
