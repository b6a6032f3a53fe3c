//! How statements are written: idempotently, with qualified names, and with
//! identifiers that Postgres does not truncate.

use crate::diagnostic::{warn, warning_at, BuiltinLintPack, Finding, RuleCode};
use crate::history::EventView;
use crate::rule::{
    all_own, found_in_tree, lemma_found_own, visit, Analyzer, NodeRule, Outline, Rule,
};
use crate::syntax::{
    child_tokens, descendant_tokens, descendants, has_kind, NodeClass, SyntaxNode, SyntaxToken,
    TokenKind,
};
use crate::text::{collapse_quotes, decimal, to_decimal, unquoted, without_delimiters};
use crate::transaction::{in_open_transaction, open_at};
use vstd::prelude::*;
use vstd::string::StringExecFns;
use vstd::utf8::encode_utf8;

verus! {

pub const UNQUALIFIED_TABLE: &'static str =
    "CREATE TABLE without a schema qualifier depends on search_path; qualify \
     the name (e.g. public.t)";

/// Postgres `NAMEDATALEN` is 64, so identifiers are limited to 63 bytes.
pub const MAX_IDENTIFIER_BYTES: usize = 63;

/// What a statement that should be idempotent is called.
pub open spec fn statement_name(class: NodeClass) -> Option<Seq<char>> {
    match class {
        NodeClass::CreateTableStmt { .. } => Some("CREATE TABLE"@),
        NodeClass::CreateIndexStmt { .. } => Some("CREATE INDEX"@),
        NodeClass::DropStmt { .. } => Some("DROP"@),
        _ => None,
    }
}

/// The message for a statement that is not idempotent.
pub open spec fn robust_message(what: Seq<char>) -> Seq<char> {
    what
        + " without IF [NOT] EXISTS is not idempotent; a re-run after a partial failure will error"@
}

/// Whether a statement has a keyword `IF`, that is `IF EXISTS` or `IF NOT EXISTS`.
pub open spec fn if_clause(node: SyntaxNode) -> bool {
    has_kind(child_tokens(node), TokenKind::IfKw)
}

/// The number of bytes of an identifier, without the two double quotes around it and with
/// each escaped double quote counted once.
pub open spec fn identifier_bytes(token: SyntaxToken) -> Option<nat> {
    match token.kind {
        TokenKind::Ident => Some(encode_utf8(token.text@).len()),
        TokenKind::QuotedIdent => Some(
            encode_utf8(collapse_quotes(without_delimiters(token.text@))).len(),
        ),
        _ => None,
    }
}

/// The message for an identifier that is too long.
pub open spec fn too_long_message(bytes: nat) -> Seq<char> {
    "identifier is "@ + decimal(bytes) + " bytes; Postgres truncates names to "@ + decimal(
        MAX_IDENTIFIER_BYTES as nat,
    ) + " bytes, which can cause collisions"@
}

/// What MG24 finds at a token.
pub open spec fn too_long_finding(token: SyntaxToken) -> Seq<Finding> {
    match identifier_bytes(token) {
        Some(bytes) => if bytes > MAX_IDENTIFIER_BYTES {
            seq![warning_at(RuleCode::Mg24, too_long_message(bytes), token.range)]
        } else {
            seq![]
        },
        None => seq![],
    }
}

/// What MG24 finds in a sequence of tokens.
pub open spec fn too_long_findings(tokens: Seq<SyntaxToken>) -> Seq<Finding>
    decreases tokens.len(),
{
    if tokens.len() == 0 {
        seq![]
    } else {
        too_long_findings(tokens.drop_last()) + too_long_finding(tokens.last())
    }
}

proof fn lemma_too_long_own(tokens: Seq<SyntaxToken>, codes: Seq<RuleCode>)
    requires
        codes.contains(RuleCode::Mg24),
    ensures
        all_own(too_long_findings(tokens), codes),
    decreases tokens.len(),
{
    if tokens.len() > 0 {
        lemma_too_long_own(tokens.drop_last(), codes);
    }
}

/// Whether a statement carries an `IF` keyword (`IF EXISTS` / `IF NOT EXISTS`); in
/// these DDL forms `IF` appears only there.
fn has_if_clause(node: &SyntaxNode) -> (r: bool)
    ensures
        r == if_clause(*node),
{
    node.has_child_token(TokenKind::IfKw)
}

fn robust_text(what: &str) -> (r: String)
    ensures
        r@ == robust_message(what@),
{
    let mut message = what.to_owned();
    message.append(
        " without IF [NOT] EXISTS is not idempotent; a re-run after a partial failure will error",
    );
    message
}

fn too_long_text(bytes: usize) -> (r: String)
    ensures
        r@ == too_long_message(bytes as nat),
{
    let mut message = "identifier is ".to_owned();
    message.append(to_decimal(bytes).as_str());
    message.append(" bytes; Postgres truncates names to ");
    message.append(to_decimal(MAX_IDENTIFIER_BYTES).as_str());
    message.append(" bytes, which can cause collisions");
    message
}

fn count_identifier_bytes(token: &SyntaxToken) -> (r: Option<usize>)
    ensures
        match r {
            Some(bytes) => identifier_bytes(*token) == Some(bytes as nat),
            None => identifier_bytes(*token) is None,
        },
{
    match token.kind {
        TokenKind::Ident => Some(token.text.as_str().as_bytes().len()),
        TokenKind::QuotedIdent => {
            let name = unquoted(token.text.as_str());
            Some(name.as_str().as_bytes().len())
        },
        _ => None,
    }
}

/// MG22: a `CREATE TABLE`, `CREATE INDEX` or `DROP` without `IF [NOT] EXISTS` fails on
/// re-run, so a migration that partially applied cannot be retried cleanly. Outside a
/// transaction, prefer the idempotent form. Statements already inside a transaction
/// roll back atomically, so they are exempt.
pub struct RobustStatements;

impl NodeRule for RobustStatements {
    open spec fn found_at(&self, root: SyntaxNode, columns: Seq<EventView>, i: int) -> Seq<
        Finding,
    > {
        let node = descendants(root)[i];
        match statement_name(node.class) {
            Some(what) => if !if_clause(node) && !open_at(root, node.range.start) {
                seq![warning_at(RuleCode::Mg22, robust_message(what), node.range)]
            } else {
                seq![]
            },
            None => seq![],
        }
    }

    fn inspect(&self, tree: &Outline, i: usize, analyzer: &mut Analyzer) {
        let node = tree.nodes[i];
        assert(*node == descendants(*tree.root)[i as int]);
        let what = match &node.class {
            NodeClass::CreateTableStmt { .. } => "CREATE TABLE",
            NodeClass::CreateIndexStmt { .. } => "CREATE INDEX",
            NodeClass::DropStmt { .. } => "DROP",
            _ => {
                return ;
            },
        };
        if !has_if_clause(node) && !in_open_transaction(node, tree.root) {
            analyzer.emit(warn(RuleCode::Mg22, robust_text(what).as_str(), node.range));
        }
    }
}

impl Rule for RobustStatements {
    open spec fn own_codes(&self) -> Seq<RuleCode> {
        seq![RuleCode::Mg22]
    }

    open spec fn findings(&self, root: SyntaxNode, columns: Seq<EventView>) -> Seq<Finding> {
        found_in_tree(*self, root, columns)
    }

    proof fn own_findings(&self, root: SyntaxNode, columns: Seq<EventView>) {
        assert(self.own_codes()[0] == RuleCode::Mg22);
        lemma_found_own(
            *self,
            root,
            columns,
            self.own_codes(),
            descendants(root).len() as int,
        );
    }

    fn codes(&self) -> &'static [RuleCode] {
        &[RuleCode::Mg22]
    }

    fn group(&self) -> BuiltinLintPack {
        BuiltinLintPack::Migration
    }

    fn run(&self, root: &SyntaxNode, analyzer: &mut Analyzer) {
        visit(self, root, analyzer)
    }
}

/// MG23: `CREATE TABLE` without a schema qualifier relies on the session `search_path`,
/// so the table can land in an unexpected schema. Qualify it (e.g. `public.t`).
/// Temporary tables are exempt: they cannot be qualified.
pub struct RequireTableSchema;

impl NodeRule for RequireTableSchema {
    open spec fn found_at(&self, root: SyntaxNode, columns: Seq<EventView>, i: int) -> Seq<
        Finding,
    > {
        let node = descendants(root)[i];
        match node.class {
            NodeClass::CreateTableStmt { table: Some(table), temporary } => if !temporary
                && table.schema is None {
                seq![warning_at(RuleCode::Mg23, UNQUALIFIED_TABLE@, table.range)]
            } else {
                seq![]
            },
            _ => seq![],
        }
    }

    fn inspect(&self, tree: &Outline, i: usize, analyzer: &mut Analyzer) {
        let node = tree.nodes[i];
        assert(*node == descendants(*tree.root)[i as int]);
        if let NodeClass::CreateTableStmt { table: Some(table), temporary: false } = &node.class {
            if table.schema.is_none() {
                analyzer.emit(warn(RuleCode::Mg23, UNQUALIFIED_TABLE, table.range));
            }
        }
    }
}

impl Rule for RequireTableSchema {
    open spec fn own_codes(&self) -> Seq<RuleCode> {
        seq![RuleCode::Mg23]
    }

    open spec fn findings(&self, root: SyntaxNode, columns: Seq<EventView>) -> Seq<Finding> {
        found_in_tree(*self, root, columns)
    }

    proof fn own_findings(&self, root: SyntaxNode, columns: Seq<EventView>) {
        assert(self.own_codes()[0] == RuleCode::Mg23);
        lemma_found_own(
            *self,
            root,
            columns,
            self.own_codes(),
            descendants(root).len() as int,
        );
    }

    fn codes(&self) -> &'static [RuleCode] {
        &[RuleCode::Mg23]
    }

    fn group(&self) -> BuiltinLintPack {
        BuiltinLintPack::Migration
    }

    fn run(&self, root: &SyntaxNode, analyzer: &mut Analyzer) {
        visit(self, root, analyzer)
    }
}

/// MG24: an identifier longer than 63 bytes is silently truncated by Postgres, so two
/// distinct names can collide and a migration can act on the wrong object.
pub struct IdentifierTooLong;

impl Rule for IdentifierTooLong {
    open spec fn own_codes(&self) -> Seq<RuleCode> {
        seq![RuleCode::Mg24]
    }

    open spec fn findings(&self, root: SyntaxNode, columns: Seq<EventView>) -> Seq<Finding> {
        too_long_findings(descendant_tokens(root))
    }

    proof fn own_findings(&self, root: SyntaxNode, columns: Seq<EventView>) {
        assert(self.own_codes()[0] == RuleCode::Mg24);
        lemma_too_long_own(descendant_tokens(root), self.own_codes());
    }

    fn codes(&self) -> &'static [RuleCode] {
        &[RuleCode::Mg24]
    }

    fn group(&self) -> BuiltinLintPack {
        BuiltinLintPack::Migration
    }

    fn run(&self, root: &SyntaxNode, analyzer: &mut Analyzer) {
        let ghost before = analyzer@;
        let ghost columns = analyzer.columns@;
        let tokens = root.descendant_tokens();
        let ghost all = descendant_tokens(*root);
        let mut i: usize = 0;
        assert(before =~= before + too_long_findings(all.take(0)));
        while i < tokens.len()
            invariant
                i <= tokens.len(),
                all == tokens@.unref(),
                analyzer@ == before + too_long_findings(all.take(i as int)),
                analyzer.columns@ == columns,
            decreases tokens.len() - i,
        {
            assert(all.take(i + 1).drop_last() =~= all.take(i as int));
            assert(all.take(i + 1).last() == *tokens@[i as int]);
            if let Some(bytes) = count_identifier_bytes(tokens[i]) {
                if bytes > MAX_IDENTIFIER_BYTES {
                    analyzer.emit(
                        warn(RuleCode::Mg24, too_long_text(bytes).as_str(), tokens[i].range),
                    );
                }
            }
            i += 1;
            assert(analyzer@ =~= before + too_long_findings(all.take(i as int)));
        }
        assert(all.take(i as int) =~= all);
    }
}

} // verus!
