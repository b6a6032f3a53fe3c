//! Texts, names, types and trees.

use banshee_lint::diagnostic::{insertion, replacement, RuleCode};
use banshee_lint::names::{folded, NameKey};
use banshee_lint::syntax::{
    NodeClass, Role, SyntaxElement, SyntaxNode, SyntaxToken, TableName, TextRange, TokenKind,
};
use banshee_lint::text::{
    chars_of, collapsed, is_white_space, join_texts, same_ignoring_case, same_text, text_of,
    to_decimal, to_lower, trimmed, unquoted, words_of,
};
use banshee_lint::transaction::{
    in_open_transaction, is_rollback, is_rollback_to_savepoint, transaction_events, TxnEvent,
};
use banshee_lint::types::{base_type, is_safe_widening, varchar_length_of};

fn range(start: u32, end: u32) -> TextRange {
    TextRange { start, end }
}

fn token(kind: TokenKind, start: u32, end: u32) -> SyntaxElement {
    SyntaxElement::Token(SyntaxToken { kind, text: String::new(), range: range(start, end) })
}

fn node(class: NodeClass, start: u32, end: u32, children: Vec<SyntaxElement>) -> SyntaxNode {
    SyntaxNode { class, range: range(start, end), children }
}

fn name(schema: Option<&str>, name: &str) -> NameKey {
    NameKey::of(&TableName {
        schema: schema.map(|s| s.to_string()),
        name: name.to_string(),
        range: range(0, 0),
    })
}

#[test]
fn lower_case_is_ascii_only() {
    assert_eq!(to_lower("VarChar(10)"), "varchar(10)");
    assert_eq!(to_lower("ÄZ[@"), "Äz[@");
    assert!(same_ignoring_case("NOW", "now"));
    assert!(!same_ignoring_case("Ä", "ä"));
    assert!(!same_ignoring_case("now", "nows"));
    assert!(same_text("ab", "ab"));
    assert!(!same_text("ab", "aB"));
}

#[test]
fn white_space_is_trimmed() {
    assert_eq!(trimmed(&chars_of(" \t\u{a0}a b\u{3000}\n")), "a b");
    assert_eq!(trimmed(&chars_of(" \n ")), "");
    assert!(is_white_space('\u{2009}'));
    assert!(!is_white_space('\u{200b}'));
    for c in '\u{0}'..='\u{ffff}' {
        assert_eq!(is_white_space(c), c.is_whitespace());
    }
}

#[test]
fn parts_of_a_text() {
    assert_eq!(text_of(&chars_of("žluť"), 1, 3), "lu");
    assert_eq!(words_of(&chars_of(" time \n zone ")), ["time", "zone"]);
    assert_eq!(words_of(&chars_of("varchar(3)[] x")), ["varchar", "3", "x"]);
    assert!(words_of(&chars_of(" \t")).is_empty());
}

#[test]
fn texts_are_joined() {
    let parts = |texts: &[&str]| -> Vec<String> { texts.iter().map(|t| t.to_string()).collect() };
    assert_eq!(join_texts(&parts(&[]), ", "), "");
    assert_eq!(join_texts(&parts(&["a"]), ", "), "a");
    assert_eq!(join_texts(&parts(&["a", "", "b"]), ", "), "a, , b");
}

#[test]
fn decimal_numerals() {
    assert_eq!(to_decimal(0), "0");
    assert_eq!(to_decimal(9), "9");
    assert_eq!(to_decimal(10), "10");
    assert_eq!(to_decimal(18_446_744_073), "18446744073");
    assert_eq!(to_decimal(usize::MAX), usize::MAX.to_string());
}

#[test]
fn quotes_are_stripped_and_collapsed() {
    assert_eq!(unquoted("\"a\"\"b\""), "a\"b");
    assert_eq!(unquoted("\"\"\"a\"\"\""), "\"a\"");
    assert_eq!(unquoted("\"\"\"\""), "\"");
    assert_eq!(unquoted("\"\""), "");
    assert_eq!(unquoted("\""), "");
    assert_eq!(unquoted("ab"), "ab");
    assert_eq!(collapsed(&chars_of("\"\"\"\"\""), 0, 5), "\"\"\"");
    assert_eq!(collapsed(&chars_of("\"\"\"\"\""), 1, 3), "\"");
}

#[test]
fn identifiers_are_folded() {
    assert_eq!(folded("Users"), "users");
    assert_eq!(folded("\"Users\""), "Users");
    assert_eq!(folded("\"a\"\"B\""), "a\"B");
    assert_eq!(folded("\""), "\"");
    assert!(name(Some("Public"), "T").same(&name(Some("public"), "\"t\"")));
    assert!(!name(Some("public"), "t").same(&name(None, "t")));
    assert!(name(Some("public"), "t").may_be(&name(None, "t")));
    assert!(name(None, "t").may_be(&name(None, "T")));
    assert!(!name(Some("a"), "t").may_be(&name(Some("b"), "t")));
    assert!(!name(None, "t").may_be(&name(None, "u")));
    assert!(!name(Some("a"), "t").same(&name(Some("b"), "t")));
    assert!(!name(None, "t").same(&name(None, "u")));
}

#[test]
fn base_types() {
    assert_eq!(base_type("varchar(255)"), "varchar");
    assert_eq!(base_type("double precision"), "double precision");
    assert_eq!(base_type("Character \n Varying (3)"), "character varying");
    assert_eq!(base_type("Text []"), "text");
    assert_eq!(base_type(" NUMERIC (10, 2)"), "numeric");
    assert_eq!(base_type(""), "");
}

#[test]
fn varchar_lengths() {
    assert_eq!(varchar_length_of("varchar(50)"), Some(50));
    assert_eq!(varchar_length_of("CHARACTER VARYING ( 7 )"), Some(7));
    assert_eq!(varchar_length_of("varchar(10485760)"), Some(10_485_760));
    assert_eq!(varchar_length_of("varchar(10485761)"), None);
    assert_eq!(varchar_length_of("varchar(99999999999999999999999)"), None);
    assert_eq!(varchar_length_of("varchar"), None);
    assert_eq!(varchar_length_of("varchar()"), None);
    assert_eq!(varchar_length_of("varchar(5)[]"), None);
    assert_eq!(varchar_length_of("varchar(-5)"), None);
    assert_eq!(varchar_length_of("text(5)"), None);
}

#[test]
fn safe_widenings() {
    assert!(is_safe_widening("int", "bigint"));
    assert!(is_safe_widening("INTEGER", "int8"));
    assert!(is_safe_widening("int4", "BIGINT"));
    assert!(is_safe_widening("real", "double precision"));
    assert!(is_safe_widening("float4", "float8"));
    assert!(is_safe_widening("varchar(5)", "text"));
    assert!(is_safe_widening("varchar(5)", "varchar(5)"));
    assert!(is_safe_widening("varchar(5)", "character varying(6)"));
}

#[test]
fn other_type_changes_are_not_safe_widenings() {
    assert!(!is_safe_widening("bigint", "int"));
    assert!(!is_safe_widening("varchar(100)", "varchar(50)"));
    assert!(!is_safe_widening("double precision", "real"));
    assert!(!is_safe_widening("int", "int"));
    assert!(!is_safe_widening("int", "text"));
    assert!(!is_safe_widening("int[]", "bigint[]"));
    assert!(!is_safe_widening("int", "bigint[]"));
    assert!(!is_safe_widening("varchar", "text"));
    assert!(!is_safe_widening("varchar(5)", "varchar"));
    assert!(!is_safe_widening("varchar(5)", "text[]"));
    assert!(!is_safe_widening("varchar(5)", "char(6)"));
    assert!(!is_safe_widening("text", "varchar(5)"));
}

#[test]
fn widenings_compose() {
    assert!(is_safe_widening("varchar(5)", "varchar(6)"));
    assert!(is_safe_widening("varchar(6)", "text"));
    assert!(is_safe_widening("varchar(5)", "text"));
}

#[test]
fn code_texts() {
    assert_eq!(RuleCode::Mg01.as_str(), "MG01");
    assert_eq!(RuleCode::Mg10.as_str(), "MG10");
    assert_eq!(RuleCode::Mg24.as_str(), "MG24");
    assert_eq!(RuleCode::Other("ST01").as_str(), "ST01");
}

#[test]
fn fixes_of_one_edit() {
    let inserted = insertion("Add", 7, " x");
    assert_eq!(inserted.title, "Add");
    assert_eq!(inserted.edits.len(), 1);
    assert_eq!(inserted.edits[0].range, range(7, 7));
    assert_eq!(inserted.edits[0].text, " x");
    let replaced = replacement("Use", range(2, 5), "y");
    assert_eq!(replaced.edits[0].range, range(2, 5));
    assert_eq!(replaced.edits[0].text, "y");
}

#[test]
fn trees_are_walked_in_source_order() {
    let inner = node(NodeClass::DefaultExpr, 4, 6, vec![token(TokenKind::SetKw, 4, 6)]);
    let tree = node(
        NodeClass::Other,
        0,
        9,
        vec![
            token(TokenKind::IndexKw, 0, 2),
            SyntaxElement::Node(inner),
            token(TokenKind::IndexKw, 6, 7),
            token(TokenKind::Comment, 7, 9),
        ],
    );
    let starts: Vec<u32> = tree.descendants().iter().map(|n| n.range.start).collect();
    assert_eq!(starts, [0, 4]);
    let ends: Vec<u32> = tree.descendant_tokens().iter().map(|t| t.range.end).collect();
    assert_eq!(ends, [2, 6, 7, 9]);
    assert_eq!(tree.child_nodes().len(), 1);
    assert_eq!(tree.child_tokens().len(), 3);
    assert_eq!(tree.token_end(TokenKind::IndexKw), Some(2));
    assert_eq!(tree.token_end(TokenKind::SetKw), None);
    assert_eq!(tree.last_token_end(), Some(7));
    assert!(tree.has_token(TokenKind::SetKw));
    assert!(!tree.has_child_token(TokenKind::SetKw));
    assert_eq!(tree.first_keyword(), Some(TokenKind::IndexKw));
    assert_eq!(tree.child_in_role(Role::Default).map(|n| n.range), Some(range(4, 6)));
    assert!(tree.child_in_role(Role::Type).is_none());
}

#[test]
fn empty_tree_has_no_tokens() {
    let empty = node(NodeClass::Other, 0, 0, vec![]);
    assert_eq!(empty.last_token_end(), None);
    assert_eq!(empty.first_keyword(), None);
    let blank = node(NodeClass::Other, 0, 1, vec![token(TokenKind::Whitespace, 0, 1)]);
    assert_eq!(blank.last_token_end(), None);
}

#[test]
fn transactions_open_and_close() {
    let keywords = [
        TokenKind::BeginKw,
        TokenKind::StartKw,
        TokenKind::CommitKw,
        TokenKind::EndKw,
        TokenKind::RollbackKw,
        TokenKind::AbortKw,
        TokenKind::SetKw,
    ];
    let children: Vec<SyntaxElement> = keywords
        .iter()
        .enumerate()
        .map(|(i, kind)| {
            let at = 10 * i as u32;
            let tokens = vec![
                token(TokenKind::Whitespace, at, at + 1),
                token(*kind, at + 1, at + 5),
            ];
            SyntaxElement::Node(node(NodeClass::TransactionStmt, at, at + 5, tokens))
        })
        .collect();
    let root = node(NodeClass::Other, 0, 70, children);
    let events: Vec<TxnEvent> = transaction_events(&root).iter().map(|event| event.1).collect();
    let (open, close) = (TxnEvent::Open, TxnEvent::Close);
    assert_eq!(events, [open, open, close, close, close, close]);
    let inside: Vec<bool> =
        root.child_nodes().iter().map(|stmt| in_open_transaction(stmt, &root)).collect();
    assert_eq!(inside, [false, true, true, false, false, false, false]);
    let rollbacks: Vec<bool> = root.child_nodes().iter().map(|stmt| is_rollback(stmt)).collect();
    assert_eq!(rollbacks, [false, false, false, false, true, true, false]);
    let savepoint = node(
        NodeClass::TransactionStmt,
        0,
        9,
        vec![token(TokenKind::RollbackKw, 0, 4), token(TokenKind::ToKw, 5, 7)],
    );
    assert!(is_rollback_to_savepoint(&savepoint));
    assert!(!is_rollback_to_savepoint(root.child_nodes()[4]));
}
