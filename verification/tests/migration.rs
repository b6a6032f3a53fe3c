//! The rules of the migration pack, on statements written as SQL.

use banshee_lint::config::{LintConfig, RuleEntry, RuleSetting, BREAKING};
use banshee_lint::diagnostic::{Diagnostic, RuleCode, Severity};
use banshee_lint::history::{collect_migration_columns, MigrationColumns};
use banshee_lint::lint_cmd::{
    configure, run, FileReport, LintArgs, ReportFormat, Reported, EXIT_FINDINGS, EXIT_OK,
};
use banshee_lint::migration::column_types::TypePreference;
use banshee_lint::migration::index::IndexConcurrently;
use banshee_lint::pack::{analyze, lint_migration};
use banshee_lint::rule::{Analyzer, Rule};
use banshee_lint::syntax::{
    AlterActionKind, ConstraintKind, NodeClass, RenameTarget, SyntaxElement, SyntaxNode,
    SyntaxToken, TableName, TextRange, TokenKind,
};

// ---------------------------------------------------------------------------
// A small parser for the statements of these tests
// ---------------------------------------------------------------------------

const KEYWORDS: &[(&str, TokenKind)] = &[
    ("ABORT", TokenKind::AbortKw),
    ("BEGIN", TokenKind::BeginKw),
    ("COMMIT", TokenKind::CommitKw),
    ("DATABASE", TokenKind::DatabaseKw),
    ("DROP", TokenKind::DropKw),
    ("END", TokenKind::EndKw),
    ("IF", TokenKind::IfKw),
    ("INDEX", TokenKind::IndexKw),
    ("NOT", TokenKind::NotKw),
    ("NULL", TokenKind::NullKw),
    ("ROLLBACK", TokenKind::RollbackKw),
    ("SET", TokenKind::SetKw),
    ("START", TokenKind::StartKw),
    ("TABLE", TokenKind::TableKw),
    ("TIMESTAMP", TokenKind::TimestampKw),
    ("TO", TokenKind::ToKw),
    ("USING", TokenKind::UsingKw),
];

const OTHER_KEYWORDS: &[&str] = &[
    "ADD", "ALL", "ALTER", "ALWAYS", "AS", "CASCADE", "CHECK", "COLUMN", "CONCURRENTLY",
    "CONSTRAINT", "CREATE", "DEFAULT", "EXISTS", "FOREIGN", "GENERATED", "IDENTITY", "IS", "KEY",
    "ON", "PRIMARY", "REFERENCES", "RENAME", "RESET", "SCHEMA", "SELECT", "TABLESPACE", "TEMP",
    "TRANSACTION", "TRUNCATE", "TYPE", "UNIQUE", "VALID",
];

fn copy(token: &SyntaxToken) -> SyntaxToken {
    SyntaxToken { kind: token.kind, text: token.text.clone(), range: token.range }
}

fn tokenize(sql: &str) -> Vec<SyntaxToken> {
    let chars: Vec<(usize, char)> = sql.char_indices().collect();
    let mut out = Vec::new();
    let mut i = 0;
    while i < chars.len() {
        let start = i;
        let c = chars[i].1;
        let kind = if c.is_whitespace() {
            while i < chars.len() && chars[i].1.is_whitespace() {
                i += 1;
            }
            TokenKind::Whitespace
        } else if c == '"' {
            i += 1;
            while i < chars.len() {
                if chars[i].1 == '"' {
                    if i + 1 < chars.len() && chars[i + 1].1 == '"' {
                        i += 2;
                        continue;
                    }
                    break;
                }
                i += 1;
            }
            i += 1;
            TokenKind::QuotedIdent
        } else if c.is_alphanumeric() || c == '_' {
            while i < chars.len() && (chars[i].1.is_alphanumeric() || chars[i].1 == '_') {
                i += 1;
            }
            TokenKind::Ident
        } else {
            i += 1;
            TokenKind::Other
        };
        let from = chars[start].0;
        let to = if i < chars.len() { chars[i].0 } else { sql.len() };
        let text = sql[from..to].to_string();
        let upper = text.to_ascii_uppercase();
        let kind = if kind == TokenKind::Ident {
            if let Some((_, known)) = KEYWORDS.iter().find(|(word, _)| *word == upper) {
                *known
            } else if OTHER_KEYWORDS.contains(&upper.as_str()) {
                TokenKind::OtherKw
            } else if text.chars().all(|c| c.is_ascii_digit()) {
                TokenKind::Other
            } else {
                TokenKind::Ident
            }
        } else {
            kind
        };
        out.push(SyntaxToken {
            kind,
            text,
            range: TextRange { start: from as u32, end: to as u32 },
        });
    }
    out
}

/// A token list without white space at its ends.
fn strip(mut tokens: &[SyntaxToken]) -> &[SyntaxToken] {
    while !tokens.is_empty() && tokens[0].kind == TokenKind::Whitespace {
        tokens = &tokens[1..];
    }
    while !tokens.is_empty() && tokens[tokens.len() - 1].kind == TokenKind::Whitespace {
        tokens = &tokens[..tokens.len() - 1];
    }
    tokens
}

fn range_of(tokens: &[SyntaxToken]) -> TextRange {
    let tokens = strip(tokens);
    TextRange { start: tokens[0].range.start, end: tokens[tokens.len() - 1].range.end }
}

fn is_word(token: &SyntaxToken, word: &str) -> bool {
    token.text.eq_ignore_ascii_case(word)
}

fn has_words(tokens: &[SyntaxToken], words: &[&str]) -> bool {
    let plain: Vec<&SyntaxToken> =
        tokens.iter().filter(|t| t.kind != TokenKind::Whitespace).collect();
    plain.windows(words.len()).any(|w| w.iter().zip(words).all(|(t, word)| is_word(t, word)))
}

fn starts_with(tokens: &[SyntaxToken], words: &[&str]) -> bool {
    let plain: Vec<&SyntaxToken> =
        tokens.iter().filter(|t| t.kind != TokenKind::Whitespace).collect();
    plain.len() >= words.len() && plain.iter().zip(words).all(|(t, word)| is_word(t, word))
}

/// The index after the first `n` words of a token list.
fn skip_words(tokens: &[SyntaxToken], n: usize) -> usize {
    let mut seen = 0;
    for (i, token) in tokens.iter().enumerate() {
        if seen == n {
            return i;
        }
        if token.kind != TokenKind::Whitespace {
            seen += 1;
        }
    }
    tokens.len()
}

fn leaf(tokens: &[SyntaxToken]) -> Vec<SyntaxElement> {
    tokens.iter().map(|t| SyntaxElement::Token(copy(t))).collect()
}

fn node(class: NodeClass, tokens: &[SyntaxToken], children: Vec<SyntaxElement>) -> SyntaxNode {
    SyntaxNode { class, range: range_of(tokens), children }
}

/// A table name at the start of a token list, with the rest of the list.
fn table_name(tokens: &[SyntaxToken]) -> (TableName, &[SyntaxToken]) {
    let tokens = strip(tokens);
    if tokens.len() > 2 && tokens[1].text == "." {
        let name = TableName {
            schema: Some(tokens[0].text.clone()),
            name: tokens[2].text.clone(),
            range: range_of(&tokens[..3]),
        };
        (name, &tokens[3..])
    } else {
        let name = TableName {
            schema: None,
            name: tokens[0].text.clone(),
            range: range_of(&tokens[..1]),
        };
        (name, &tokens[1..])
    }
}

/// The parts of a token list between top-level commas.
fn split_commas(tokens: &[SyntaxToken]) -> Vec<&[SyntaxToken]> {
    let mut out = Vec::new();
    let mut depth = 0;
    let mut from = 0;
    for (i, token) in tokens.iter().enumerate() {
        match token.text.as_str() {
            "(" => depth += 1,
            ")" => depth -= 1,
            "," if depth == 0 => {
                out.push(&tokens[from..i]);
                from = i + 1;
            }
            _ => {}
        }
    }
    out.push(&tokens[from..]);
    out
}

fn type_node(tokens: &[SyntaxToken]) -> SyntaxNode {
    let tokens = strip(tokens);
    let text: String = tokens.iter().map(|t| t.text.as_str()).collect();
    node(NodeClass::TypeName { text }, tokens, leaf(tokens))
}

fn default_node(tokens: &[SyntaxToken]) -> SyntaxNode {
    let tokens = strip(tokens);
    let call = tokens.len() > 1 && tokens[1].text == "(";
    if call {
        let inner = node(
            NodeClass::FuncCall { name: Some(tokens[0].text.clone()) },
            tokens,
            leaf(tokens),
        );
        node(NodeClass::DefaultExpr, tokens, vec![SyntaxElement::Node(inner)])
    } else {
        node(NodeClass::DefaultExpr, tokens, leaf(tokens))
    }
}

const ENDS_TYPE: &[&str] =
    &["NOT", "NULL", "DEFAULT", "PRIMARY", "UNIQUE", "REFERENCES", "GENERATED", "CHECK", "USING"];

fn ends_type(token: &SyntaxToken) -> bool {
    ENDS_TYPE.iter().any(|word| is_word(token, word))
}

fn column_node(tokens: &[SyntaxToken]) -> SyntaxNode {
    let tokens = strip(tokens);
    let mut children = leaf(&tokens[..1]);
    let rest = &tokens[1..];
    let cut = rest.iter().position(ends_type).unwrap_or(rest.len());
    if !strip(&rest[..cut]).is_empty() {
        children.push(SyntaxElement::Node(type_node(&rest[..cut])));
    }
    let mut rest = &rest[cut..];
    while !rest.is_empty() {
        children.extend(leaf(&rest[..1]));
        if is_word(&rest[0], "DEFAULT") {
            let after = &rest[1..];
            let cut = after.iter().position(ends_type).unwrap_or(after.len());
            children.push(SyntaxElement::Node(default_node(&after[..cut])));
            rest = &after[cut..];
        } else {
            rest = &rest[1..];
        }
    }
    let class = NodeClass::ColumnDef {
        name: Some(tokens[0].text.clone()),
        not_null: has_words(tokens, &["NOT", "NULL"]),
        primary_key: has_words(tokens, &["PRIMARY", "KEY"]),
        generated: has_words(tokens, &["GENERATED"]),
    };
    node(class, tokens, children)
}

const STARTS_CONSTRAINT: &[&str] = &["CONSTRAINT", "PRIMARY", "UNIQUE", "FOREIGN", "CHECK"];

fn is_constraint(tokens: &[SyntaxToken]) -> bool {
    let tokens = strip(tokens);
    STARTS_CONSTRAINT.iter().any(|word| is_word(&tokens[0], word))
}

fn constraint_node(tokens: &[SyntaxToken]) -> SyntaxNode {
    let tokens = strip(tokens);
    let constraint = if has_words(tokens, &["FOREIGN", "KEY"]) {
        ConstraintKind::ForeignKey
    } else if has_words(tokens, &["PRIMARY", "KEY"]) {
        ConstraintKind::PrimaryKey
    } else if has_words(tokens, &["UNIQUE"]) {
        ConstraintKind::Unique
    } else {
        ConstraintKind::Check
    };
    let columns = match (
        tokens.iter().position(|t| t.text == "("),
        tokens.iter().position(|t| t.text == ")"),
    ) {
        (Some(from), Some(to)) => {
            split_commas(&tokens[from + 1..to]).iter().map(|c| strip(c)[0].text.clone()).collect()
        }
        _ => Vec::new(),
    };
    let class = NodeClass::Constraint {
        constraint,
        not_valid: has_words(tokens, &["NOT", "VALID"]),
        columns,
    };
    node(class, tokens, leaf(tokens))
}

fn action_node(table: &TableName, tokens: &[SyntaxToken]) -> SyntaxNode {
    let tokens = strip(tokens);
    let same = || {
        Some(TableName {
            schema: table.schema.clone(),
            name: table.name.clone(),
            range: table.range,
        })
    };
    if is_word(&tokens[0], "ADD") {
        let mut head = if starts_with(tokens, &["ADD", "COLUMN"]) { 2 } else { 1 };
        if has_words(tokens, &["IF", "NOT", "EXISTS"]) {
            head += 3;
        }
        let cut = skip_words(tokens, head);
        let mut children = leaf(&tokens[..cut]);
        let (action, child) = if is_constraint(&tokens[cut..]) {
            (AlterActionKind::AddConstraint, constraint_node(&tokens[cut..]))
        } else {
            (AlterActionKind::AddColumn, column_node(&tokens[cut..]))
        };
        children.push(SyntaxElement::Node(child));
        let class = NodeClass::AlterTableAction {
            action,
            table: same(),
            column: None,
            changes_type: false,
        };
        return node(class, tokens, children);
    }
    let named = strip(&tokens[skip_words(tokens, 2)..])[0].text.clone();
    if starts_with(tokens, &["DROP", "COLUMN"]) {
        let class = NodeClass::AlterTableAction {
            action: AlterActionKind::DropColumn,
            table: same(),
            column: Some(named),
            changes_type: false,
        };
        return node(class, tokens, leaf(tokens));
    }
    let at = tokens.iter().position(|t| is_word(t, "TYPE"));
    let class = NodeClass::AlterTableAction {
        action: AlterActionKind::AlterColumn,
        table: same(),
        column: Some(named),
        changes_type: at.is_some(),
    };
    let mut children = Vec::new();
    match at {
        Some(at) => {
            let rest = &tokens[at + 1..];
            let cut = rest.iter().position(ends_type).unwrap_or(rest.len());
            children.extend(leaf(&tokens[..at + 1]));
            children.push(SyntaxElement::Node(type_node(&rest[..cut])));
            children.extend(leaf(&rest[cut..]));
        }
        None => {
            let cut = tokens
                .iter()
                .position(|t| is_word(t, "DEFAULT"))
                .map_or(tokens.len(), |at| at + 1);
            children.extend(leaf(&tokens[..cut]));
            if cut < tokens.len() {
                children.push(SyntaxElement::Node(default_node(&tokens[cut..])));
            }
        }
    }
    node(class, tokens, children)
}

fn statement(tokens: &[SyntaxToken]) -> SyntaxNode {
    let tokens = strip(tokens);
    let first = &tokens[0];
    if is_word(first, "CREATE") && has_words(tokens, &["INDEX"]) {
        let class =
            NodeClass::CreateIndexStmt { concurrent: has_words(tokens, &["CONCURRENTLY"]) };
        return node(class, tokens, leaf(tokens));
    }
    if is_word(first, "CREATE") {
        let mut at = tokens.iter().position(|t| is_word(t, "TABLE")).unwrap() + 1;
        if has_words(tokens, &["IF", "NOT", "EXISTS"]) {
            at = tokens.iter().position(|t| is_word(t, "EXISTS")).unwrap() + 1;
        }
        let (table, rest) = table_name(&tokens[at..]);
        let mut children = leaf(&tokens[..at]);
        let open = rest.iter().position(|t| t.text == "(").unwrap();
        let close = rest.iter().rposition(|t| t.text == ")").unwrap();
        for part in split_commas(&rest[open + 1..close]) {
            let child = if is_constraint(part) { constraint_node(part) } else { column_node(part) };
            children.push(SyntaxElement::Node(child));
        }
        children.extend(leaf(&rest[close + 1..]));
        let class = NodeClass::CreateTableStmt {
            table: Some(table),
            temporary: has_words(tokens, &["TEMP"]),
        };
        return node(class, tokens, children);
    }
    if is_word(first, "DROP") {
        let object = strip(&tokens[1..])[0].kind;
        let mut rest = &tokens[skip_words(tokens, 2)..];
        let concurrent = starts_with(rest, &["CONCURRENTLY"]);
        if concurrent {
            rest = &rest[skip_words(rest, 1)..];
        }
        if starts_with(rest, &["IF", "EXISTS"]) {
            rest = &rest[skip_words(rest, 2)..];
        }
        let names = split_commas(rest).into_iter().map(|n| table_name(n).0).collect();
        let class = NodeClass::DropStmt { object: Some(object), concurrent, names };
        return node(class, tokens, leaf(tokens));
    }
    if is_word(first, "TRUNCATE") {
        let class = NodeClass::TruncateStmt { cascade: has_words(tokens, &["CASCADE"]) };
        return node(class, tokens, leaf(tokens));
    }
    if is_word(first, "SET") || is_word(first, "RESET") {
        let name = strip(&tokens[1..])[0].text.clone();
        let parameter = if name.eq_ignore_ascii_case("ALL") { None } else { Some(name) };
        return node(NodeClass::SetStmt { parameter }, tokens, leaf(tokens));
    }
    if is_word(first, "SELECT") {
        let call = strip(&tokens[1..]);
        let name = Some(call[0].text.clone());
        let inner = node(NodeClass::FuncCall { name }, call, leaf(call));
        return node(NodeClass::Other, tokens, vec![SyntaxElement::Node(inner)]);
    }
    if starts_with(tokens, &["ALTER", "SCHEMA"]) {
        let words: Vec<&SyntaxToken> =
            tokens.iter().filter(|t| t.kind != TokenKind::Whitespace).collect();
        let rename = Some(RenameTarget::Schema {
            old: words[2].text.clone(),
            new: words[5].text.clone(),
        });
        let class = NodeClass::AlterStmt { table: None, rename, new_schema: None };
        return node(class, tokens, leaf(tokens));
    }
    if is_word(first, "ALTER") {
        let (table, rest) = table_name(&tokens[skip_words(tokens, 2)..]);
        let rest = strip(rest);
        if is_word(&rest[0], "RENAME") {
            let words: Vec<String> = rest
                .iter()
                .filter(|t| t.kind != TokenKind::Whitespace)
                .map(|t| t.text.clone())
                .collect();
            let rename = match words[1].to_ascii_uppercase().as_str() {
                "TO" => RenameTarget::Object { to: words[2].clone() },
                "COLUMN" => {
                    RenameTarget::Column { from: words[2].clone(), to: words[4].clone() }
                }
                _ => RenameTarget::Constraint,
            };
            let class = NodeClass::AlterStmt {
                table: Some(table),
                rename: Some(rename),
                new_schema: None,
            };
            return node(class, tokens, leaf(tokens));
        }
        if starts_with(rest, &["SET", "SCHEMA"]) {
            let new_schema = Some(rest[rest.len() - 1].text.clone());
            let class = NodeClass::AlterStmt { table: Some(table), rename: None, new_schema };
            return node(class, tokens, leaf(tokens));
        }
        let actions: Vec<SyntaxElement> = split_commas(rest)
            .into_iter()
            .map(|part| SyntaxElement::Node(action_node(&table, part)))
            .collect();
        let class = NodeClass::AlterStmt { table: Some(table), rename: None, new_schema: None };
        return node(class, tokens, actions);
    }
    node(NodeClass::TransactionStmt, tokens, leaf(tokens))
}

fn parse(sql: &str) -> SyntaxNode {
    let tokens = tokenize(sql);
    let children = tokens
        .split(|t| t.text == ";")
        .filter(|part| !strip(part).is_empty())
        .map(|part| SyntaxElement::Node(statement(part)))
        .collect();
    SyntaxNode {
        class: NodeClass::Other,
        range: TextRange { start: 0, end: sql.len() as u32 },
        children,
    }
}

fn no_history() -> MigrationColumns {
    MigrationColumns { events: Vec::new() }
}

/// What the pack finds in a file that is the whole migration set.
fn lint(sql: &str) -> Vec<Diagnostic> {
    let columns = collect_migration_columns(&vec![parse(sql)]);
    lint_migration(&parse(sql), &columns)
}

fn codes(sql: &str) -> Vec<&'static str> {
    lint(sql).iter().map(|d| d.code.unwrap().as_str()).collect()
}

fn fires(code: &str, sql: &str) -> bool {
    codes(sql).contains(&code)
}

fn only(code: RuleCode, sql: &str) -> Diagnostic {
    let mut found: Vec<Diagnostic> =
        lint(sql).into_iter().filter(|d| d.code == Some(code)).collect();
    assert_eq!(found.len(), 1, "{code:?} on {sql}");
    found.remove(0)
}

/// The source with the first fix of a finding applied.
fn fixed(code: RuleCode, sql: &str) -> String {
    let found = only(code, sql);
    let mut out = sql.to_string();
    for edit in &found.fixes[0].edits {
        out.replace_range(edit.range.start as usize..edit.range.end as usize, &edit.text);
    }
    out
}

fn flagged_text(code: RuleCode, sql: &str) -> String {
    let range = only(code, sql).range.unwrap();
    sql[range.start as usize..range.end as usize].to_string()
}

// ---------------------------------------------------------------------------
// Type changes, judged by the column's history across the migration set
// ---------------------------------------------------------------------------

/// Lints `alter_sql` with column history built from `history` (the prior migrations), and
/// returns whether MG06 fired.
fn mg06_fires(history: &[&str], alter_sql: &str) -> bool {
    let mut roots: Vec<SyntaxNode> = history.iter().map(|s| parse(s)).collect();
    roots.push(parse(alter_sql));
    let columns = collect_migration_columns(&roots);
    lint_migration(&parse(alter_sql), &columns)
        .iter()
        .any(|d| d.code.map(|c| c.as_str()) == Some("MG06"))
}

#[test]
fn safe_widenings_are_not_flagged() {
    let history = ["CREATE TABLE public.t (id int, code varchar(50), amount real);"];
    assert!(
        !mg06_fires(
            &history,
            "ALTER TABLE public.t ALTER COLUMN id TYPE bigint;"
        ),
        "int -> bigint is a safe widening"
    );
    assert!(
        !mg06_fires(
            &history,
            "ALTER TABLE public.t ALTER COLUMN code TYPE text;"
        ),
        "varchar(50) -> text is a safe widening"
    );
    assert!(
        !mg06_fires(
            &history,
            "ALTER TABLE public.t ALTER COLUMN code TYPE varchar(100);"
        ),
        "varchar(50) -> varchar(100) is a safe widening"
    );
    assert!(
        !mg06_fires(
            &history,
            "ALTER TABLE public.t ALTER COLUMN amount TYPE double precision;"
        ),
        "real -> double precision is a safe widening"
    );
}

#[test]
fn narrowings_are_flagged() {
    let history = ["CREATE TABLE public.t (id bigint, code varchar(100));"];
    assert!(
        mg06_fires(&history, "ALTER TABLE public.t ALTER COLUMN id TYPE int;"),
        "bigint -> int is a narrowing"
    );
    assert!(
        mg06_fires(
            &history,
            "ALTER TABLE public.t ALTER COLUMN code TYPE varchar(50);"
        ),
        "varchar(100) -> varchar(50) is a narrowing"
    );
}

#[test]
fn unknown_history_stays_conservative() {
    // No CREATE TABLE for the column → cannot prove widening → flag.
    assert!(
        mg06_fires(&[], "ALTER TABLE public.t ALTER COLUMN id TYPE bigint;"),
        "without type history MG06 must stay conservative"
    );
}

#[test]
fn double_retype_is_flagged() {
    // int -> bigint -> int: the column is retyped twice, so the original type is
    // not a reliable one-step comparison; both changes must be flagged.
    let history = [
        "CREATE TABLE public.t (id int);",
        "ALTER TABLE public.t ALTER COLUMN id TYPE bigint;",
    ];
    assert!(
        mg06_fires(&history, "ALTER TABLE public.t ALTER COLUMN id TYPE int;"),
        "a column retyped more than once is never treated as a safe widening"
    );
}

#[test]
fn first_of_two_retypes_is_flagged() {
    let first = "ALTER TABLE public.t ALTER COLUMN id TYPE bigint;";
    let roots = vec![
        parse("CREATE TABLE public.t (id int);"),
        parse(first),
        parse("ALTER TABLE public.t ALTER COLUMN id TYPE int;"),
    ];
    let columns = collect_migration_columns(&roots);
    assert!(lint_migration(&parse(first), &columns)
        .iter()
        .any(|d| d.code == Some(RuleCode::Mg06)));
}

#[test]
fn widening_of_an_added_column_is_not_flagged() {
    let history = ["ALTER TABLE public.t ADD COLUMN n int;"];
    assert!(!mg06_fires(&history, "ALTER TABLE public.t ALTER COLUMN n TYPE bigint;"));
    assert!(!mg06_fires(&history, "ALTER TABLE PUBLIC.\"t\" ALTER COLUMN N TYPE BIGINT;"));
    assert!(mg06_fires(&history, "ALTER TABLE t ALTER COLUMN n TYPE bigint;"));
    assert!(mg06_fires(&history, "ALTER TABLE public.\"T\" ALTER COLUMN n TYPE bigint;"));
}

#[test]
fn widening_with_a_using_expression_is_flagged() {
    let history = ["CREATE TABLE public.t (id int);"];
    assert!(mg06_fires(
        &history,
        "ALTER TABLE public.t ALTER COLUMN id TYPE bigint USING 0;"
    ));
}

#[test]
fn arrays_are_not_widened() {
    let history = ["CREATE TABLE public.t (id int, codes varchar(10));"];
    assert!(mg06_fires(&history, "ALTER TABLE public.t ALTER COLUMN id TYPE bigint[];"));
    assert!(mg06_fires(&history, "ALTER TABLE public.t ALTER COLUMN codes TYPE text[];"));
    assert!(mg06_fires(&history, "ALTER TABLE public.t ALTER COLUMN codes TYPE varchar(20)[];"));
}

#[test]
fn renames_make_a_history_unreliable() {
    let history = [
        "CREATE TABLE public.t (a int, b bigint);",
        "ALTER TABLE public.t RENAME COLUMN a TO c;",
    ];
    assert!(mg06_fires(&history, "ALTER TABLE public.t ALTER COLUMN a TYPE bigint;"));
    let history = ["CREATE TABLE public.t (a int);", "ALTER TABLE public.s RENAME TO t;"];
    assert!(mg06_fires(&history, "ALTER TABLE public.t ALTER COLUMN a TYPE bigint;"));
}

#[test]
fn column_declared_twice_is_flagged() {
    let history = ["CREATE TABLE public.t (a int);", "CREATE TABLE public.t (a int);"];
    assert!(mg06_fires(&history, "ALTER TABLE public.t ALTER COLUMN a TYPE bigint;"));
}

#[test]
fn table_named_with_and_without_schema_may_be_one() {
    let history = [
        "CREATE TABLE public.t (code varchar(50));",
        "ALTER TABLE t ALTER COLUMN code TYPE varchar(200);",
    ];
    assert!(mg06_fires(&history, "ALTER TABLE public.t ALTER COLUMN code TYPE varchar(100);"));
    let history = ["CREATE TABLE public.t (code varchar(50));", "CREATE TABLE t (code text);"];
    assert!(mg06_fires(&history, "ALTER TABLE public.t ALTER COLUMN code TYPE varchar(100);"));
    let history = ["CREATE TABLE public.t (code varchar(50));", "CREATE TABLE s.t (code text);"];
    assert!(!mg06_fires(&history, "ALTER TABLE public.t ALTER COLUMN code TYPE varchar(100);"));
}

#[test]
fn conditional_declaration_is_not_trusted() {
    let alter = "ALTER TABLE public.t ALTER COLUMN code TYPE varchar(100);";
    assert!(mg06_fires(&["CREATE TABLE IF NOT EXISTS public.t (code varchar(50));"], alter));
    let add = "ALTER TABLE public.t ADD COLUMN IF NOT EXISTS code varchar(50);";
    assert!(mg06_fires(&[add], alter));
    assert!(!mg06_fires(&["ALTER TABLE public.t ADD COLUMN code varchar(50);"], alter));
}

#[test]
fn changed_names_make_a_history_unreliable() {
    let create = "CREATE TABLE public.t (id int);";
    let alter = "ALTER TABLE public.t ALTER COLUMN id TYPE bigint;";
    assert!(mg06_fires(&[create, "ALTER TABLE public.t SET SCHEMA old;"], alter));
    assert!(mg06_fires(&[create, "ALTER TABLE new.t SET SCHEMA public;"], alter));
    assert!(mg06_fires(&[create, "ALTER TABLE u RENAME TO t;"], alter));
    assert!(mg06_fires(&[create, "ALTER SCHEMA new RENAME TO public;"], alter));
    assert!(!mg06_fires(&[create, "ALTER TABLE new.t SET SCHEMA old;"], alter));
    assert!(!mg06_fires(&[create, "ALTER SCHEMA new RENAME TO old;"], alter));
    assert!(!mg06_fires(&[create, "SET search_path TO old;"], alter));
    let create = "CREATE TABLE t (id int);";
    let alter = "ALTER TABLE t ALTER COLUMN id TYPE bigint;";
    assert!(!mg06_fires(&[create, "SET lock_timeout TO 1;"], alter));
    assert!(mg06_fires(&[create, "SET search_path TO old;"], alter));
    assert!(mg06_fires(&[create, "RESET ALL;"], alter));
    assert!(mg06_fires(&[create, "SELECT set_config(search_path);"], alter));
}

#[test]
fn rolled_back_declaration_is_not_trusted() {
    let history = ["BEGIN; CREATE TABLE public.t (id int); ROLLBACK;"];
    assert!(mg06_fires(&history, "ALTER TABLE public.t ALTER COLUMN id TYPE bigint;"));
    let history = ["BEGIN; ROLLBACK; CREATE TABLE public.t (id int);"];
    assert!(!mg06_fires(&history, "ALTER TABLE public.t ALTER COLUMN id TYPE bigint;"));
    let history = ["CREATE TABLE public.t (id int); ROLLBACK;"];
    assert!(mg06_fires(&history, "ALTER TABLE public.t ALTER COLUMN id TYPE bigint;"));
    let history = ["BEGIN; CREATE TABLE public.t (id int); BEGIN; ROLLBACK;"];
    assert!(mg06_fires(&history, "ALTER TABLE public.t ALTER COLUMN id TYPE bigint;"));
    let history = ["BEGIN; CREATE TABLE public.t (id int); ROLLBACK TO p; COMMIT;"];
    assert!(mg06_fires(&history, "ALTER TABLE public.t ALTER COLUMN id TYPE bigint;"));
    let history = ["CREATE TABLE public.t (id int);", "BEGIN; ROLLBACK;"];
    assert!(!mg06_fires(&history, "ALTER TABLE public.t ALTER COLUMN id TYPE bigint;"));
}

#[test]
fn rollback_of_a_later_transaction_keeps_a_declaration() {
    let alter = "ALTER TABLE public.t ALTER COLUMN id TYPE bigint;";
    assert!(!mg06_fires(&["CREATE TABLE public.t (id int); BEGIN; ROLLBACK;"], alter));
    assert!(!mg06_fires(
        &["CREATE TABLE public.t (id int); BEGIN; CREATE TABLE u (a int); ROLLBACK TO p; ABORT;"],
        alter
    ));
    assert!(!mg06_fires(
        &["BEGIN; CREATE TABLE public.t (id int); COMMIT; BEGIN; ROLLBACK;"],
        alter
    ));
}

#[test]
fn temporary_table_declares_columns_for_its_own_file() {
    let create = "CREATE TEMP TABLE t (a int, c varchar(9));";
    assert!(!fires("MG06", &format!("{create} ALTER TABLE t ALTER COLUMN a TYPE bigint;")));
    assert!(fires("MG06", &format!("{create} ALTER TABLE t ALTER COLUMN c TYPE varchar(8);")));
    assert!(fires(
        "MG06",
        &format!(
            "{create} ALTER TABLE t ALTER COLUMN a TYPE bigint; \
             ALTER TABLE t ALTER COLUMN a TYPE int;"
        )
    ));
    let later = format!("{create} DROP TABLE t; ALTER TABLE t ALTER COLUMN a TYPE bigint;");
    assert!(fires("MG06", &later));
    let own = format!("{create} ALTER TABLE t ALTER COLUMN a TYPE bigint;");
    assert!(!mg06_fires(&["CREATE TABLE t (a text);"], &own));
}

#[test]
fn column_without_a_type_is_not_trusted() {
    let history = ["CREATE TABLE public.t (id NOT NULL);"];
    assert!(mg06_fires(&history, "ALTER TABLE public.t ALTER COLUMN id TYPE bigint;"));
}

#[test]
fn temporary_table_declares_no_columns() {
    let history = ["CREATE TEMP TABLE t (a int);"];
    assert!(mg06_fires(&history, "ALTER TABLE t ALTER COLUMN a TYPE bigint;"));
    let history = ["CREATE TABLE t (a int);"];
    assert!(!mg06_fires(&history, "ALTER TABLE t ALTER COLUMN a TYPE bigint;"));
}

#[test]
fn type_change_is_reported_at_the_action() {
    let sql = "ALTER TABLE public.t ALTER COLUMN id TYPE uuid;";
    let found = only(RuleCode::Mg06, sql);
    assert_eq!(found.message, "ALTER COLUMN TYPE rewrites the table under an exclusive lock");
    assert_eq!(flagged_text(RuleCode::Mg06, sql), "ALTER COLUMN id TYPE uuid");
}

// ---------------------------------------------------------------------------
// Indexes and transactions
// ---------------------------------------------------------------------------

#[test]
fn index_build_should_be_concurrent() {
    let sql = "CREATE INDEX i ON t (a);";
    let found = only(RuleCode::Mg01, sql);
    assert_eq!(found.severity, Severity::Warning);
    assert_eq!(
        found.message,
        "CREATE INDEX without CONCURRENTLY locks the table against writes for the duration of \
         the build"
    );
    assert_eq!(found.range, Some(TextRange { start: 0, end: 23 }));
    assert_eq!(found.fixes.len(), 1);
    assert_eq!(found.fixes[0].title, "Add CONCURRENTLY");
    assert_eq!(found.fixes[0].edits[0].range, TextRange { start: 12, end: 12 });
    assert_eq!(fixed(RuleCode::Mg01, sql), "CREATE INDEX CONCURRENTLY i ON t (a);");
    assert!(!fires("MG01", "CREATE INDEX CONCURRENTLY i ON t (a);"));
}

#[test]
fn index_drop_should_be_concurrent() {
    assert_eq!(
        only(RuleCode::Mg12, "DROP INDEX i;").message,
        "DROP INDEX without CONCURRENTLY locks the table"
    );
    assert_eq!(fixed(RuleCode::Mg12, "DROP INDEX i;"), "DROP INDEX CONCURRENTLY i;");
    assert!(!fires("MG12", "DROP INDEX CONCURRENTLY i;"));
    assert!(!fires("MG12", "DROP TABLE i;"));
    assert!(!fires("MG12", "BEGIN; DROP INDEX i; COMMIT;"));
}

#[test]
fn concurrent_build_in_a_transaction() {
    let sql = "BEGIN; CREATE INDEX CONCURRENTLY i ON t (a); COMMIT;";
    assert_eq!(
        only(RuleCode::Mg19, sql).message,
        "CREATE INDEX CONCURRENTLY cannot run inside a transaction block and will be rejected by \
         Postgres"
    );
    let plain = "BEGIN; CREATE INDEX i ON t (a); COMMIT;";
    assert!(!fires("MG19", plain));
    assert!(!fires("MG01", plain));
    assert!(!fires("MG19", "BEGIN; COMMIT; CREATE INDEX CONCURRENTLY i ON t (a);"));
    assert!(!fires("MG19", "BEGIN; BEGIN; COMMIT; CREATE INDEX CONCURRENTLY i ON t (a);"));
    assert!(fires("MG19", "BEGIN; BEGIN; CREATE INDEX CONCURRENTLY i ON t (a);"));
    assert!(!fires("MG19", "COMMIT; BEGIN; ABORT; CREATE INDEX CONCURRENTLY i ON t (a);"));
}

#[test]
fn first_closing_statement_ends_a_nested_transaction() {
    let sql = "BEGIN; BEGIN; COMMIT; CREATE INDEX i ON t (a); DROP INDEX i; BEGIN;";
    assert!(fires("MG01", sql));
    assert!(fires("MG12", sql));
    assert_eq!(codes(sql).iter().filter(|code| **code == "MG22").count(), 2);
    assert_eq!(codes(sql).iter().filter(|code| **code == "MG21").count(), 1);
    assert_eq!(codes(sql).iter().filter(|code| **code == "MG20").count(), 2);
}

#[test]
fn transactions_left_open() {
    let sql = "BEGIN; START TRANSACTION; COMMIT;";
    let found = only(RuleCode::Mg20, sql);
    assert_eq!(
        found.message,
        "transaction opened with BEGIN/START is never committed or rolled back"
    );
    assert_eq!(flagged_text(RuleCode::Mg20, sql), "BEGIN");
    assert!(!fires("MG20", "COMMIT; BEGIN; END;"));
    assert_eq!(codes("BEGIN; BEGIN;"), ["MG20", "MG20", "MG21"]);
}

#[test]
fn nested_transactions() {
    let sql = "BEGIN; START TRANSACTION; COMMIT; ROLLBACK;";
    let found = only(RuleCode::Mg21, sql);
    assert_eq!(
        found.message,
        "BEGIN/START inside an open transaction nests; Postgres ignores the inner BEGIN and the \
         next COMMIT ends the outer transaction"
    );
    assert_eq!(flagged_text(RuleCode::Mg21, sql), "START TRANSACTION");
    assert!(!fires("MG21", "BEGIN; COMMIT; BEGIN; COMMIT;"));
    assert!(!fires("MG21", "ROLLBACK; ROLLBACK; BEGIN; COMMIT;"));
}

// ---------------------------------------------------------------------------
// Constraints
// ---------------------------------------------------------------------------

#[test]
fn constraints_should_be_added_not_valid() {
    let sql = "ALTER TABLE t ADD CONSTRAINT c CHECK (a > 0);";
    assert_eq!(
        only(RuleCode::Mg02, sql).message,
        "ADD CONSTRAINT without NOT VALID validates every existing row under a lock; add it NOT \
         VALID and VALIDATE CONSTRAINT separately"
    );
    assert_eq!(
        fixed(RuleCode::Mg02, sql),
        "ALTER TABLE t ADD CONSTRAINT c CHECK (a > 0) NOT VALID;"
    );
    assert!(fires("MG02", "ALTER TABLE t ADD FOREIGN KEY (a) REFERENCES s (b);"));
    assert!(!fires("MG02", "ALTER TABLE t ADD CONSTRAINT c CHECK (a > 0) NOT VALID;"));
    assert!(!fires("MG02", "ALTER TABLE t ADD CONSTRAINT c UNIQUE (a);"));
}

#[test]
fn keys_should_use_a_prepared_index() {
    let sql = "ALTER TABLE t ADD CONSTRAINT c PRIMARY KEY (a);";
    assert_eq!(
        only(RuleCode::Mg13, sql).message,
        "ADD PRIMARY KEY/UNIQUE builds its index under an exclusive lock; build a unique index \
         CONCURRENTLY and attach it with ADD CONSTRAINT ... USING INDEX"
    );
    assert!(fires("MG13", "ALTER TABLE t ADD UNIQUE (a);"));
    assert!(!fires("MG13", "ALTER TABLE t ADD CONSTRAINT c PRIMARY KEY USING INDEX i;"));
    assert!(!fires("MG13", "ALTER TABLE t ADD CONSTRAINT c UNIQUE USING INDEX i;"));
    assert!(fires("MG13", "ALTER TABLE t ADD UNIQUE (a) USING INDEX TABLESPACE fast;"));
    assert!(!fires("MG13", "ALTER TABLE t ADD CONSTRAINT c CHECK (a > 0);"));
}

#[test]
fn not_null_set_and_dropped() {
    assert_eq!(
        only(RuleCode::Mg14, "ALTER TABLE t ALTER COLUMN a SET NOT NULL;").message,
        "ALTER COLUMN SET NOT NULL scans the whole table under a lock; add a CHECK (col IS NOT \
         NULL) NOT VALID, VALIDATE it, then SET NOT NULL"
    );
    assert_eq!(
        only(RuleCode::Mg17, "ALTER TABLE t ALTER COLUMN a DROP NOT NULL;").message,
        "ALTER COLUMN DROP NOT NULL lets nulls into a column clients may assume is always set"
    );
    assert!(!fires("MG17", "ALTER TABLE t ALTER COLUMN a SET NOT NULL;"));
    assert!(!fires("MG14", "ALTER TABLE t ALTER COLUMN a DROP NOT NULL;"));
    assert!(!fires("MG14", "ALTER TABLE t ALTER COLUMN a SET DEFAULT 1;"));
}

#[test]
fn not_null_in_an_expression_is_not_set() {
    let sql = "ALTER TABLE public.t ALTER COLUMN a SET DEFAULT (1 IS NOT NULL); \
               ALTER TABLE public.t ALTER COLUMN b SET NOT NULL;";
    assert_eq!(flagged_text(RuleCode::Mg14, sql), "ALTER COLUMN b SET NOT NULL");
    assert!(!fires("MG17", sql));
    // The same words as tokens of the action itself, but not in a row.
    let kinds = [
        TokenKind::DropKw,
        TokenKind::OtherKw,
        TokenKind::NotKw,
        TokenKind::Whitespace,
        TokenKind::NullKw,
    ];
    let action = |kinds: &[TokenKind]| SyntaxNode {
        class: NodeClass::AlterTableAction {
            action: AlterActionKind::AlterColumn,
            table: None,
            column: None,
            changes_type: false,
        },
        range: TextRange { start: 0, end: 9 },
        children: kinds
            .iter()
            .map(|kind| {
                SyntaxElement::Token(SyntaxToken {
                    kind: *kind,
                    text: String::new(),
                    range: TextRange { start: 0, end: 0 },
                })
            })
            .collect(),
    };
    assert!(lint_migration(&action(&kinds), &no_history()).is_empty());
    let in_row = [TokenKind::DropKw, TokenKind::Comment, TokenKind::NotKw, TokenKind::NullKw];
    let found = lint_migration(&action(&in_row), &no_history());
    assert_eq!(found.len(), 1);
    assert_eq!(found[0].code, Some(RuleCode::Mg17));
}

// ---------------------------------------------------------------------------
// Added columns
// ---------------------------------------------------------------------------

#[test]
fn volatile_defaults() {
    assert_eq!(
        only(RuleCode::Mg03, "ALTER TABLE t ADD COLUMN c uuid DEFAULT gen_random_uuid();").message,
        "ADD COLUMN with a volatile DEFAULT rewrites the whole table; add the column without a \
         default, then backfill"
    );
    assert!(fires("MG03", "ALTER TABLE t ADD COLUMN c timestamptz DEFAULT NOW();"));
    assert!(!fires("MG03", "ALTER TABLE t ADD COLUMN c text DEFAULT lower('A');"));
    assert!(!fires("MG03", "ALTER TABLE t ADD COLUMN c int DEFAULT 1;"));
    assert!(!fires("MG03", "CREATE TABLE t (c timestamptz DEFAULT now());"));
}

#[test]
fn not_null_columns_need_a_value() {
    assert_eq!(
        only(RuleCode::Mg04, "ALTER TABLE t ADD COLUMN c int NOT NULL;").message,
        "ADD COLUMN NOT NULL without a DEFAULT fails on a table that already has rows"
    );
    assert!(!fires("MG04", "ALTER TABLE t ADD COLUMN c int NOT NULL DEFAULT 1;"));
    assert!(!fires("MG04", "ALTER TABLE t ADD COLUMN c int;"));
    assert!(!fires(
        "MG04",
        "ALTER TABLE t ADD COLUMN c int NOT NULL GENERATED ALWAYS AS IDENTITY;"
    ));
}

// ---------------------------------------------------------------------------
// Destructive changes, and tables that the same file creates
// ---------------------------------------------------------------------------

#[test]
fn drops_are_flagged() {
    assert_eq!(
        only(RuleCode::Mg05, "ALTER TABLE t DROP COLUMN a;").message,
        "DROP COLUMN destroys the column's data and breaks dependent objects"
    );
    assert_eq!(
        only(RuleCode::Mg16, "DROP TABLE t;").message,
        "DROP TABLE destroys the table and everything depending on it"
    );
    assert_eq!(
        only(RuleCode::Mg18, "DROP DATABASE d;").message,
        "DROP DATABASE destroys the whole database and all its data"
    );
    assert!(!fires("MG16", "DROP INDEX t;"));
    assert!(!fires("MG18", "DROP TABLE d;"));
}

#[test]
fn tables_created_in_the_same_file_are_exempt() {
    let create = "CREATE TABLE public.t (a int);";
    assert!(!fires("MG04", &format!("{create} ALTER TABLE public.t ADD COLUMN c int NOT NULL;")));
    assert!(!fires("MG05", &format!("{create} ALTER TABLE public.t DROP COLUMN a;")));
    assert!(!fires("MG16", &format!("{create} DROP TABLE public.t;")));
    assert!(!fires("MG16", &format!("{create} DROP TABLE PUBLIC.T;")));
    assert!(!fires("MG16", "CREATE TEMP TABLE s (a int); DROP TABLE s;"));
}

#[test]
fn tables_that_may_be_deployed_are_not_exempt() {
    let create = "CREATE TABLE public.t (a int);";
    assert!(fires("MG16", &format!("DROP TABLE public.t; {create}")));
    assert!(fires("MG16", &format!("{create} DROP TABLE t;")));
    assert!(fires("MG16", &format!("{create} DROP TABLE public.\"T\";")));
    assert!(fires("MG16", &format!("{create} DROP TABLE public.t, public.u;")));
    assert!(fires("MG16", "CREATE TABLE IF NOT EXISTS public.t (a int); DROP TABLE public.t;"));
    assert!(fires("MG16", "CREATE TEMP TABLE s (a int); DROP TABLE s; DROP TABLE s;"));
    assert!(fires("MG16", "CREATE TEMP TABLE s (a int) ON COMMIT DROP; DROP TABLE s;"));
    assert!(fires("MG16", &format!("BEGIN; {create} ROLLBACK; DROP TABLE public.t;")));
    assert!(fires(
        "MG16",
        &format!("{create} ALTER TABLE public.t RENAME TO u; DROP TABLE public.t;")
    ));
    assert!(fires("MG05", &format!("{create} ALTER TABLE public.u DROP COLUMN a;")));
}

#[test]
fn changed_names_end_the_exemption_of_a_new_table() {
    let create = "CREATE TABLE public.s (a int);";
    let drop = "DROP TABLE public.s;";
    assert!(fires(
        "MG16",
        &format!(
            "{create} ALTER TABLE public.s SET SCHEMA old; \
             ALTER TABLE new.s SET SCHEMA public; {drop}"
        )
    ));
    assert!(fires("MG16", &format!("{create} ALTER TABLE new.s SET SCHEMA public; {drop}")));
    assert!(fires("MG16", &format!("{create} ALTER TABLE s RENAME TO u; {drop}")));
    assert!(fires("MG16", &format!("{create} ALTER TABLE public.u RENAME TO s; {drop}")));
    assert!(fires("MG16", &format!("{create} ALTER SCHEMA new RENAME TO public; {drop}")));
    assert!(!fires("MG16", &format!("{create} ALTER TABLE new.u SET SCHEMA public; {drop}")));
    assert!(!fires("MG16", &format!("{create} SET search_path TO new; {drop}")));
    assert!(fires("MG16", "CREATE TABLE s (a int); SET search_path TO new; DROP TABLE s;"));
    assert_eq!(
        codes(&format!("{create} DROP TABLE s; {drop}")).iter().filter(|c| **c == "MG16").count(),
        2
    );
}

#[test]
fn table_for_one_transaction_is_exempt_until_it_closes() {
    let create = "CREATE TEMP TABLE s (a int) ON COMMIT DROP;";
    assert!(!fires("MG16", &format!("BEGIN; {create} DROP TABLE s; COMMIT;")));
    assert!(!fires("MG04", &format!("BEGIN; {create} ALTER TABLE s ADD COLUMN c int NOT NULL;")));
    assert!(fires("MG16", &format!("BEGIN; {create} COMMIT; DROP TABLE s;")));
    assert!(fires("MG16", &format!("BEGIN; {create} END; DROP TABLE s;")));
    assert!(fires("MG16", &format!("BEGIN; {create} ROLLBACK; DROP TABLE s;")));
    assert!(fires("MG16", &format!("BEGIN; COMMIT; {create} DROP TABLE s;")));
    assert!(!fires("MG16", "BEGIN; CREATE TEMP TABLE s (a int); COMMIT; DROP TABLE s;"));
}

#[test]
fn rollback_undoes_only_its_transaction() {
    let create = "CREATE TABLE s (a int);";
    assert!(!fires("MG16", &format!("{create} BEGIN; ROLLBACK; DROP TABLE s;")));
    assert!(!fires("MG16", &format!("{create} BEGIN; DROP TABLE s; ROLLBACK; DROP TABLE s;")));
    assert!(!fires(
        "MG16",
        &format!("{create} BEGIN; ALTER TABLE s RENAME TO u; ABORT; DROP TABLE s;")
    ));
    assert!(!fires("MG16", &format!("BEGIN; {create} COMMIT; BEGIN; ROLLBACK; DROP TABLE s;")));
    assert!(fires("MG16", &format!("BEGIN; {create} BEGIN; ROLLBACK; DROP TABLE s;")));
    assert!(fires("MG16", &format!("{create} ROLLBACK; DROP TABLE s;")));
    assert!(fires("MG16", &format!("{create} BEGIN; DROP TABLE s; COMMIT; DROP TABLE s;")));
}

#[test]
fn rollback_to_a_savepoint_undoes_at_most_its_transaction() {
    let start = "CREATE TABLE s (a int); BEGIN; CREATE TABLE u (a int); ROLLBACK TO p;";
    assert!(!fires("MG16", &format!("{start} DROP TABLE s;")));
    assert!(fires("MG16", &format!("{start} DROP TABLE u;")));
    assert!(!fires("MG16", &format!("{start} DROP TABLE s; ROLLBACK; DROP TABLE s;")));
    assert!(fires(
        "MG16",
        "CREATE TABLE s (a int); BEGIN; ALTER TABLE s RENAME TO x; ALTER TABLE x RENAME TO s; \
         ROLLBACK TO p; DROP TABLE s;"
    ));
}

#[test]
fn new_table_is_exempt_under_its_new_name() {
    let create = "CREATE TABLE public.s (a int);";
    assert!(!fires(
        "MG16",
        &format!("{create} ALTER TABLE public.s RENAME TO u; DROP TABLE public.u;")
    ));
    assert!(!fires(
        "MG05",
        &format!("{create} ALTER TABLE public.s SET SCHEMA old; ALTER TABLE old.s DROP COLUMN a;")
    ));
    assert!(!fires(
        "MG16",
        &format!("{create} ALTER SCHEMA public RENAME TO old; DROP TABLE old.s;")
    ));
    assert!(!fires(
        "MG16",
        &format!(
            "{create} ALTER TABLE public.s RENAME TO u; ALTER TABLE public.u SET SCHEMA old; \
             DROP TABLE old.u;"
        )
    ));
    assert!(fires(
        "MG16",
        &format!("{create} ALTER TABLE s RENAME TO u; DROP TABLE public.u;")
    ));
    assert!(fires(
        "MG16",
        &format!("BEGIN; {create} ALTER TABLE public.s RENAME TO u; ROLLBACK; DROP TABLE public.u;")
    ));
}

#[test]
fn column_named_drop_does_not_end_the_exemption() {
    assert!(!fires("MG16", "CREATE TEMP TABLE s (drop int); DROP TABLE s;"));
    assert!(!fires("MG16", "CREATE TABLE s (a int, drop int); DROP TABLE s;"));
}

#[test]
fn renames_are_flagged_except_of_constraints() {
    assert_eq!(
        only(RuleCode::Mg07, "ALTER TABLE t RENAME TO u;").message,
        "RENAME of a table breaks code that still refers to the old name"
    );
    assert_eq!(
        only(RuleCode::Mg07, "ALTER TABLE t RENAME COLUMN a TO b;").message,
        "RENAME of a column or constraint breaks code that still refers to the old name"
    );
    assert!(!fires("MG07", "ALTER TABLE t RENAME CONSTRAINT a TO b;"));
    assert!(!fires("MG07", "ALTER TABLE t DROP COLUMN a;"));
}

#[test]
fn truncate_cascade() {
    assert_eq!(
        only(RuleCode::Mg08, "TRUNCATE t CASCADE;").message,
        "TRUNCATE ... CASCADE also empties every table with a foreign key into the targets"
    );
    assert!(!fires("MG08", "TRUNCATE t;"));
}

// ---------------------------------------------------------------------------
// Column types
// ---------------------------------------------------------------------------

#[test]
fn prefer_text() {
    let sql = "CREATE TABLE s.t (a VARCHAR(255));";
    assert_eq!(
        only(RuleCode::Mg09, sql).message,
        "prefer text to char(n)/varchar(n); the length limit gives no storage benefit and \
         changing it later rewrites the table"
    );
    assert_eq!(fixed(RuleCode::Mg09, sql), "CREATE TABLE s.t (a text);");
    assert!(fires("MG09", "ALTER TABLE t ALTER COLUMN a TYPE character varying(10);"));
    assert!(fires("MG09", "ALTER TABLE t ALTER COLUMN a TYPE character \n varying(10);"));
    assert!(!fires("MG09", "CREATE TABLE s.t (a text);"));
}

#[test]
fn prefer_timestamptz() {
    let sql = "CREATE TABLE s.t (a timestamp(3));";
    assert_eq!(
        only(RuleCode::Mg10, sql).message,
        "prefer timestamptz to timestamp; timestamp without time zone ignores the session time \
         zone and is a frequent source of bugs"
    );
    assert_eq!(fixed(RuleCode::Mg10, sql), "CREATE TABLE s.t (a timestamptz(3));");
    assert!(!fires("MG10", "CREATE TABLE s.t (a timestamp(3) with time zone);"));
    assert!(!fires("MG10", "CREATE TABLE s.t (a timestamp without TIME ZONE);"));
    assert!(!fires("MG10", "CREATE TABLE s.t (a timestamptz);"));
    assert!(!fires("MG10", "CREATE TABLE s.t (a timestamp(3) without time  zone);"));
    assert!(!fires("MG10", "CREATE TABLE s.t (a timestamp(3) WITH TIME\nZONE);"));
    assert!(!fires("MG10", "CREATE TABLE s.t (a timestamp(3) with time zone[]);"));
    assert!(fires("MG10", "CREATE TABLE s.t (a timestamp);"));
}

#[test]
fn prefer_bigint_for_a_primary_key() {
    let sql = "CREATE TABLE s.t (id int PRIMARY KEY, n int);";
    assert_eq!(
        only(RuleCode::Mg11, sql).message,
        "prefer bigint for a primary key; a narrower integer can run out of values and is costly \
         to widen later"
    );
    assert_eq!(flagged_text(RuleCode::Mg11, sql), "int");
    assert!(fires("MG11", "CREATE TABLE s.t (id smallint, PRIMARY KEY (ID));"));
    assert!(!fires("MG11", "CREATE TABLE s.t (id int, CONSTRAINT id PRIMARY KEY (n), n bigint);"));
    assert!(!fires("MG11", "CREATE TABLE s.t (a int, b int, PRIMARY KEY (a, b));"));
    assert!(!fires("MG11", "CREATE TABLE s.t (id bigint PRIMARY KEY);"));
    assert!(!fires("MG11", "CREATE TABLE s.t (id serial PRIMARY KEY);"));
}

#[test]
fn type_preferences_come_before_key_types() {
    assert_eq!(
        codes("CREATE TABLE IF NOT EXISTS s.t (id int PRIMARY KEY, a timestamp, b char(3));"),
        ["MG10", "MG09", "MG11"]
    );
}

#[test]
fn prefer_identity() {
    let sql = "CREATE TABLE s.t (id BIGSERIAL PRIMARY KEY);";
    assert_eq!(
        only(RuleCode::Mg15, sql).message,
        "prefer GENERATED ... AS IDENTITY to serial; serial leaves a detached sequence with \
         awkward ownership and grants"
    );
    assert_eq!(flagged_text(RuleCode::Mg15, sql), "BIGSERIAL");
    assert!(!fires("MG15", "CREATE TABLE s.t (id bigint);"));
}

// ---------------------------------------------------------------------------
// Statements and identifiers
// ---------------------------------------------------------------------------

#[test]
fn statements_should_be_idempotent() {
    assert_eq!(
        only(RuleCode::Mg22, "CREATE TABLE s.t (a int);").message,
        "CREATE TABLE without IF [NOT] EXISTS is not idempotent; a re-run after a partial failure \
         will error"
    );
    assert_eq!(
        only(RuleCode::Mg22, "CREATE INDEX i ON t (a);").message,
        "CREATE INDEX without IF [NOT] EXISTS is not idempotent; a re-run after a partial failure \
         will error"
    );
    assert_eq!(
        only(RuleCode::Mg22, "DROP TABLE t;").message,
        "DROP without IF [NOT] EXISTS is not idempotent; a re-run after a partial failure will \
         error"
    );
    assert!(!fires("MG22", "DROP TABLE IF EXISTS t;"));
    assert!(!fires("MG22", "BEGIN; DROP TABLE t; COMMIT;"));
    assert!(!fires("MG22", "TRUNCATE t;"));
}

#[test]
fn tables_should_be_qualified() {
    let sql = "CREATE TABLE t (a int);";
    assert_eq!(
        only(RuleCode::Mg23, sql).message,
        "CREATE TABLE without a schema qualifier depends on search_path; qualify the name (e.g. \
         public.t)"
    );
    assert_eq!(flagged_text(RuleCode::Mg23, sql), "t");
    assert!(!fires("MG23", "CREATE TABLE s.t (a int);"));
    assert!(!fires("MG23", "CREATE TEMP TABLE t (a int);"));
}

#[test]
fn identifiers_are_limited_to_63_bytes() {
    let longest = "a".repeat(63);
    assert!(!fires("MG24", &format!("DROP TABLE {longest};")));
    assert_eq!(
        only(RuleCode::Mg24, &format!("DROP TABLE {longest}b;")).message,
        "identifier is 64 bytes; Postgres truncates names to 63 bytes, which can cause collisions"
    );
    assert!(!fires("MG24", &format!("DROP TABLE \"{longest}\";")));
    assert_eq!(
        only(RuleCode::Mg24, &format!("DROP TABLE \"{longest}\"\"b\";")).message,
        "identifier is 65 bytes; Postgres truncates names to 63 bytes, which can cause collisions"
    );
    assert_eq!(
        only(RuleCode::Mg24, &format!("DROP TABLE {};", "ж".repeat(32))).message,
        "identifier is 64 bytes; Postgres truncates names to 63 bytes, which can cause collisions"
    );
    assert!(!fires("MG24", &format!("DROP TABLE {};", "ж".repeat(31))));
}

#[test]
fn escaped_quotes_at_the_ends_of_a_name_count() {
    let letters = "a".repeat(63);
    let message =
        "identifier is 64 bytes; Postgres truncates names to 63 bytes, which can cause collisions";
    assert_eq!(only(RuleCode::Mg24, &format!("DROP TABLE \"\"\"{letters}\";")).message, message);
    assert_eq!(only(RuleCode::Mg24, &format!("DROP TABLE \"{letters}\"\"\";")).message, message);
    let shorter = "a".repeat(62);
    assert!(!fires("MG24", &format!("DROP TABLE \"\"\"{shorter}\";")));
}

// ---------------------------------------------------------------------------
// Rules as such
// ---------------------------------------------------------------------------

#[test]
fn rules_name_their_codes() {
    assert_eq!(IndexConcurrently.codes(), [RuleCode::Mg01]);
    assert_eq!(TypePreference.codes(), [RuleCode::Mg09, RuleCode::Mg10, RuleCode::Mg11]);
}

#[test]
fn a_rule_adds_to_what_is_reported() {
    let columns = no_history();
    let mut analyzer = Analyzer::new(&columns);
    let root = parse("CREATE INDEX i ON t (a); CREATE INDEX j ON t (b);");
    IndexConcurrently.run(&root, &mut analyzer);
    assert_eq!(analyzer.diagnostics.len(), 2);
    IndexConcurrently.run(&root, &mut analyzer);
    assert_eq!(analyzer.diagnostics.len(), 4);
}

#[test]
fn fixes_lie_inside_their_findings() {
    let sql = "CREATE INDEX i ON t (a); DROP INDEX i; ALTER TABLE t ADD FOREIGN KEY (a) \
               REFERENCES s (b); CREATE TABLE t (a timestamp, b varchar(3));";
    let found = lint(sql);
    let mut edits = 0;
    for diagnostic in &found {
        let range = diagnostic.range.unwrap();
        for edit in diagnostic.fixes.iter().flat_map(|fix| &fix.edits) {
            assert!(range.start <= edit.range.start && edit.range.end <= range.end);
            edits += 1;
        }
    }
    assert_eq!(edits, 5);
}

// ---------------------------------------------------------------------------
// Whole runs
// ---------------------------------------------------------------------------

const BREAKING_CHANGES: &[&str] = &[
    "ALTER TABLE t ADD COLUMN c int NOT NULL;",
    "ALTER TABLE t DROP COLUMN a;",
    "ALTER TABLE t ALTER COLUMN a TYPE text;",
    "ALTER TABLE t RENAME TO u;",
    "ALTER TABLE t RENAME COLUMN a TO b;",
    "TRUNCATE t CASCADE;",
    "DROP TABLE t;",
    "ALTER TABLE t ALTER COLUMN a DROP NOT NULL;",
    "DROP DATABASE d;",
];

const ADVISORY: &[&str] = &[
    "CREATE INDEX i ON t (a);",
    "DROP INDEX i;",
    "ALTER TABLE t ADD CONSTRAINT c CHECK (a > 0);",
    "ALTER TABLE t ADD COLUMN c timestamptz DEFAULT now();",
    "CREATE TABLE t (id serial PRIMARY KEY, a timestamp, b varchar(3));",
    "CREATE TABLE t (id int PRIMARY KEY);",
    "ALTER TABLE t ADD UNIQUE (a);",
    "ALTER TABLE t ALTER COLUMN a SET NOT NULL;",
    "BEGIN; BEGIN; CREATE INDEX CONCURRENTLY i ON t (a);",
];

/// The exit code of a run over files that make up a migration set.
fn exit_code(files: &[&str], breaking: bool, config: LintConfig) -> u8 {
    let args = LintArgs {
        paths: vec![],
        format: ReportFormat::Human,
        quiet: false,
        statistics: false,
        breaking,
    };
    let config = configure(&args, config);
    let roots: Vec<SyntaxNode> = files.iter().map(|sql| parse(sql)).collect();
    let columns = collect_migration_columns(&roots);
    let reports: Vec<FileReport> = roots
        .iter()
        .map(|root| FileReport {
            label: "a.sql".to_string(),
            label_json: "\"a.sql\"".to_string(),
            findings: analyze(root, &columns, &config)
                .into_iter()
                .map(|diagnostic| Reported {
                    diagnostic,
                    position: (1, 1),
                    code_json: String::new(),
                    message_json: String::new(),
                })
                .collect(),
        })
        .collect();
    run(&args, &reports).exit_code
}

fn plain_config() -> LintConfig {
    LintConfig { enabled: true, exclude: vec![], exclude_paths: vec![], rules: vec![] }
}

#[test]
fn breaking_changes_fail_a_breaking_run() {
    for sql in BREAKING_CHANGES {
        assert_eq!(exit_code(&[sql], true, plain_config()), EXIT_FINDINGS, "{sql}");
        assert_eq!(exit_code(&[ADVISORY[0], sql], true, plain_config()), EXIT_FINDINGS, "{sql}");
    }
}

#[test]
fn advisory_findings_do_not_fail_a_breaking_run() {
    for sql in ADVISORY {
        assert!(!lint(sql).is_empty(), "{sql}");
        assert_eq!(exit_code(&[sql], true, plain_config()), EXIT_OK, "{sql}");
        assert_eq!(exit_code(&[sql], false, plain_config()), EXIT_FINDINGS, "{sql}");
    }
}

#[test]
fn run_that_fails_with_breaking_fails_without() {
    for sql in BREAKING_CHANGES {
        assert_eq!(exit_code(&[sql], false, plain_config()), EXIT_FINDINGS, "{sql}");
    }
}

#[test]
fn configuration_cannot_hide_breaking_changes() {
    let hiding = || LintConfig {
        enabled: false,
        exclude: vec!["MG16".to_string()],
        exclude_paths: vec![],
        rules: vec![RuleEntry {
            code: "MG16".to_string(),
            setting: RuleSetting { enabled: Some(false), severity: Some(Severity::Hint) },
        }],
    };
    assert_eq!(exit_code(&["DROP TABLE t;"], true, hiding()), EXIT_FINDINGS);
    assert_eq!(exit_code(&["DROP TABLE t;"], false, hiding()), EXIT_OK);
}

#[test]
fn raised_severity_fails_a_breaking_run() {
    let raised = LintConfig {
        rules: vec![RuleEntry {
            code: "MG01".to_string(),
            setting: RuleSetting { enabled: None, severity: Some(Severity::Error) },
        }],
        ..plain_config()
    };
    assert_eq!(exit_code(&["CREATE INDEX i ON t (a);"], true, raised), EXIT_FINDINGS);
}

#[test]
fn provably_safe_changes_pass_a_breaking_run() {
    let files = [
        "CREATE TABLE public.t (id int, code varchar(50));",
        "ALTER TABLE public.t ALTER COLUMN id TYPE bigint;",
        "ALTER TABLE public.t RENAME CONSTRAINT a TO b;",
        "CREATE TABLE public.s (a int); ALTER TABLE public.s DROP COLUMN a; DROP TABLE public.s;",
        "ALTER TABLE public.t ADD COLUMN n int NOT NULL GENERATED ALWAYS AS IDENTITY;",
    ];
    assert_eq!(exit_code(&files, true, plain_config()), EXIT_OK);
}

#[test]
fn findings_are_coded_warnings_at_a_range() {
    for sql in BREAKING_CHANGES.iter().chain(ADVISORY) {
        let breaking = lint(sql)
            .iter()
            .filter(|d| {
                assert_eq!(d.severity, Severity::Warning, "{sql}");
                assert!(d.range.is_some(), "{sql}");
                BREAKING.contains(&d.code.unwrap())
            })
            .count();
        assert_eq!(breaking > 0, BREAKING_CHANGES.contains(sql), "{sql}");
    }
}

#[test]
fn history_of_joined_sets() {
    let first = "CREATE TABLE t (a int, b text);";
    let second = "ALTER TABLE t ADD COLUMN c int; ALTER TABLE t ALTER COLUMN a TYPE bigint;";
    let written = |files: &[&str]| -> Vec<String> {
        let roots = files.iter().map(|sql| parse(sql)).collect();
        collect_migration_columns(&roots).events.iter().map(|e| format!("{e:?}")).collect()
    };
    let joined = written(&[first, second]);
    assert_eq!(joined.len(), 4);
    assert_eq!(joined[..2], written(&[first]));
    assert_eq!(joined[2..], written(&[second]));
}

#[test]
fn added_constraint_is_flagged_for_one_reason() {
    assert_eq!(codes("ALTER TABLE t ADD UNIQUE (a);"), ["MG13"]);
    assert_eq!(codes("ALTER TABLE t ADD FOREIGN KEY (a) REFERENCES s (b);"), ["MG02"]);
}

#[test]
fn file_without_nesting_leaves_one_transaction_open() {
    assert_eq!(codes("BEGIN; COMMIT; BEGIN;"), ["MG20"]);
    let sql = "BEGIN; COMMIT; START TRANSACTION;";
    assert_eq!(flagged_text(RuleCode::Mg20, sql), "START TRANSACTION");
}
