//! Column types that will need migrating later.

use crate::diagnostic::{
    one_edit, replacement, warn, warning_at, with_fix, BuiltinLintPack, Finding, RuleCode,
};
use crate::history::EventView;
use crate::rule::{
    all_own, found_in_tree, lemma_found_own, visit, Analyzer, NodeRule, Outline, Rule,
};
use crate::syntax::{
    child_in_role, child_nodes, child_tokens, descendants, first_of_kind, ConstraintKind, NodeClass,
    Role, SyntaxNode, SyntaxToken, TokenKind,
};
use crate::text::{
    chars_of, in_row, lower, same_ignoring_case, same_text, texts, to_lower, words, words_of,
};
use crate::types::{base_type, base_words};
use vstd::prelude::*;

verus! {

pub const PREFER_TEXT: &'static str =
    "prefer text to char(n)/varchar(n); the length limit gives no storage benefit and \
     changing it later rewrites the table";

pub const PREFER_TIMESTAMPTZ: &'static str =
    "prefer timestamptz to timestamp; timestamp without time zone ignores the session \
     time zone and is a frequent source of bugs";

pub const PREFER_BIGINT: &'static str =
    "prefer bigint for a primary key; a narrower integer can run out of \
     values and is costly to widen later";

pub const PREFER_IDENTITY: &'static str =
    "prefer GENERATED ... AS IDENTITY to serial; serial leaves a detached \
     sequence with awkward ownership and grants";

/// The source text of a type.
pub open spec fn text_of_type(ty: SyntaxNode) -> Seq<char> {
    match ty.class {
        NodeClass::TypeName { text } => text@,
        _ => seq![],
    }
}

/// Whether a type is a character type with a length limit.
pub open spec fn is_limited_text(ty: SyntaxNode) -> bool {
    let base = base_words(text_of_type(ty));
    base == "char"@ || base == "character"@ || base == "varchar"@ || base == "character varying"@
}

/// Whether a type is `timestamp` without a time-zone qualifier.
pub open spec fn is_plain_timestamp(ty: SyntaxNode) -> bool {
    base_words(text_of_type(ty)) == "timestamp"@ && !in_row(
        words(lower(text_of_type(ty))),
        seq!["time"@, "zone"@],
    )
}

/// Whether a type is an integer narrower than `bigint`.
pub open spec fn is_narrow_integer(ty: SyntaxNode) -> bool {
    let base = base_words(text_of_type(ty));
    base == "int"@ || base == "integer"@ || base == "int4"@ || base == "smallint"@ || base
        == "int2"@
}

/// Whether a type is one of the `serial` pseudo-types.
pub open spec fn is_serial(ty: SyntaxNode) -> bool {
    let base = base_words(text_of_type(ty));
    base == "serial"@ || base == "serial4"@ || base == "bigserial"@ || base == "serial8"@ || base
        == "smallserial"@ || base == "serial2"@
}

/// What MG09 finds at a type.
pub open spec fn limited_text_findings(ty: SyntaxNode) -> Seq<Finding> {
    if is_limited_text(ty) {
        seq![
            with_fix(
                warning_at(RuleCode::Mg09, PREFER_TEXT@, ty.range),
                one_edit("Use text"@, ty.range, "text"@),
            ),
        ]
    } else {
        seq![]
    }
}

/// A finding with a fix that replaces the keyword `TIMESTAMP` of the type, so that any
/// precision is kept.
pub open spec fn use_timestamptz(finding: Finding, ty: SyntaxNode) -> Finding {
    match first_of_kind(child_tokens(ty), TokenKind::TimestampKw) {
        Some(keyword) => with_fix(
            finding,
            one_edit("Use timestamptz"@, keyword.range, "timestamptz"@),
        ),
        None => finding,
    }
}

/// What MG10 finds at a type.
pub open spec fn timestamp_findings(ty: SyntaxNode) -> Seq<Finding> {
    if is_plain_timestamp(ty) {
        seq![use_timestamptz(warning_at(RuleCode::Mg10, PREFER_TIMESTAMPTZ@, ty.range), ty)]
    } else {
        seq![]
    }
}

/// The type that a node gives to a column: that of a column definition, or the new
/// type of an `ALTER COLUMN … TYPE`.
pub open spec fn given_type(node: SyntaxNode) -> Option<SyntaxNode> {
    match node.class {
        NodeClass::ColumnDef { .. } => child_in_role(node, Role::Type),
        NodeClass::AlterTableAction { changes_type: true, .. } => child_in_role(node, Role::Type),
        _ => None,
    }
}

/// The columns named by the single-column primary keys among `nodes`.
pub open spec fn key_columns(nodes: Seq<SyntaxNode>) -> Seq<Seq<char>>
    decreases nodes.len(),
{
    if nodes.len() == 0 {
        seq![]
    } else {
        let earlier = key_columns(nodes.drop_last());
        match nodes.last().class {
            NodeClass::Constraint { constraint: ConstraintKind::PrimaryKey, columns, .. } => {
                if columns@.len() == 1 {
                    earlier.push(columns@[0]@)
                } else {
                    earlier
                }
            },
            _ => earlier,
        }
    }
}

/// Whether a column is the primary key: by its own definition, or because one of
/// `keys` names it, whatever the case.
pub open spec fn is_key_column(column: SyntaxNode, keys: Seq<Seq<char>>) -> bool {
    column.class matches NodeClass::ColumnDef { name, primary_key, .. } && (primary_key || (
    name matches Some(name) && exists|k: int|
        0 <= k < keys.len() && lower(#[trigger] keys[k]) == lower(name@)))
}

/// What MG11 finds at a column of a new table.
pub open spec fn key_type_finding(column: SyntaxNode, keys: Seq<Seq<char>>) -> Seq<Finding> {
    match child_in_role(column, Role::Type) {
        Some(ty) => if is_key_column(column, keys) && is_narrow_integer(ty) {
            seq![warning_at(RuleCode::Mg11, PREFER_BIGINT@, ty.range)]
        } else {
            seq![]
        },
        None => seq![],
    }
}

/// What MG11 finds at the columns among `nodes`.
pub open spec fn key_type_findings(nodes: Seq<SyntaxNode>, keys: Seq<Seq<char>>) -> Seq<Finding>
    decreases nodes.len(),
{
    if nodes.len() == 0 {
        seq![]
    } else {
        key_type_findings(nodes.drop_last(), keys) + key_type_finding(nodes.last(), keys)
    }
}

proof fn lemma_key_types_own(nodes: Seq<SyntaxNode>, keys: Seq<Seq<char>>, codes: Seq<RuleCode>)
    requires
        codes.contains(RuleCode::Mg11),
    ensures
        all_own(key_type_findings(nodes, keys), codes),
    decreases nodes.len(),
{
    if nodes.len() > 0 {
        lemma_key_types_own(nodes.drop_last(), keys, codes);
    }
}

fn type_base(ty: &SyntaxNode) -> (r: String)
    ensures
        r@ == base_words(text_of_type(*ty)),
{
    match &ty.class {
        NodeClass::TypeName { text } => base_type(text.as_str()),
        _ => {
            let empty = String::new();
            assert(empty@ =~= seq![]);
            base_type(empty.as_str())
        },
    }
}

/// MG09: flags `char(n)`, `character(n)`, `varchar(n)` and `character varying`.
fn check_char_varchar(ty: &SyntaxNode, analyzer: &mut Analyzer)
    ensures
        final(analyzer)@ == old(analyzer)@ + limited_text_findings(*ty),
        final(analyzer).columns@ == old(analyzer).columns@,
{
    let base = type_base(ty);
    let base = base.as_str();
    if same_text(base, "char") || same_text(base, "character") || same_text(base, "varchar")
        || same_text(base, "character varying") {
        analyzer.emit(
            warn(RuleCode::Mg09, PREFER_TEXT, ty.range).with_fix(
                replacement("Use text", ty.range, "text"),
            ),
        );
    }
}

/// Whether a type has a time-zone qualifier, with or without.
fn has_time_zone(words: &Vec<String>) -> (r: bool)
    ensures
        r == in_row(texts(words@), seq!["time"@, "zone"@]),
{
    let ghost all = texts(words@);
    let ghost run = seq!["time"@, "zone"@];
    if words.len() < 2 {
        return false;
    }
    let mut i: usize = 0;
    while i < words.len() - 1
        invariant
            i <= words.len() - 1,
            all == texts(words@),
            run == seq!["time"@, "zone"@],
            forall|k: int| 0 <= k < i ==> #[trigger] all.subrange(k, k + 2) != run,
        decreases words.len() - i,
    {
        let ghost here = all.subrange(i as int, i + 2);
        assert(here[0] == words@[i as int]@ && here[1] == words@[i + 1]@);
        if same_text(words[i].as_str(), "time") && same_text(words[i + 1].as_str(), "zone") {
            assert(here =~= run);
            return true;
        }
        assert(here != run) by {
            assert(run[0] == "time"@ && run[1] == "zone"@);
        }
        i += 1;
    }
    false
}

/// MG10: flags plain `timestamp`, without a time-zone qualifier.
fn check_timestamp(ty: &SyntaxNode, analyzer: &mut Analyzer)
    ensures
        final(analyzer)@ == old(analyzer)@ + timestamp_findings(*ty),
        final(analyzer).columns@ == old(analyzer).columns@,
{
    let text = match &ty.class {
        NodeClass::TypeName { text } => to_lower(text.as_str()),
        _ => String::new(),
    };
    assert(text@ =~= lower(text_of_type(*ty)));
    if !same_text(type_base(ty).as_str(), "timestamp") || has_time_zone(
        &words_of(&chars_of(text.as_str())),
    ) {
        return ;
    }
    let mut diag = warn(RuleCode::Mg10, PREFER_TIMESTAMPTZ, ty.range);
    if let Some(keyword) = timestamp_keyword(ty) {
        diag = diag.with_fix(replacement("Use timestamptz", keyword.range, "timestamptz"));
    }
    analyzer.emit(diag);
}

fn timestamp_keyword(ty: &SyntaxNode) -> (r: Option<&SyntaxToken>)
    ensures
        match r {
            Some(token) => first_of_kind(child_tokens(*ty), TokenKind::TimestampKw) == Some(
                *token,
            ),
            None => first_of_kind(child_tokens(*ty), TokenKind::TimestampKw) is None,
        },
{
    ty.first_token(TokenKind::TimestampKw)
}

/// Column names named by a single-column table-level `PRIMARY KEY`.
fn primary_key_columns(table: &SyntaxNode) -> (r: Vec<String>)
    ensures
        texts(r@) == key_columns(child_nodes(*table)),
{
    let nodes = table.child_nodes();
    let ghost all = child_nodes(*table);
    let mut names: Vec<String> = Vec::new();
    let mut i: usize = 0;
    assert(texts(names@) =~= key_columns(all.take(0)));
    while i < nodes.len()
        invariant
            i <= nodes.len(),
            all == nodes@.unref(),
            texts(names@) == key_columns(all.take(i as int)),
        decreases nodes.len() - i,
    {
        assert(all.take(i + 1).drop_last() =~= all.take(i as int));
        assert(all.take(i + 1).last() == *nodes@[i as int]);
        if let NodeClass::Constraint { constraint: ConstraintKind::PrimaryKey, columns, .. } =
            &nodes[i].class {
            if columns.len() == 1 {
                names.push(columns[0].clone());
            }
        }
        i += 1;
        assert(texts(names@) =~= key_columns(all.take(i as int)));
    }
    assert(all.take(i as int) =~= all);
    names
}

fn is_primary_key(column: &SyntaxNode, keys: &Vec<String>) -> (r: bool)
    ensures
        r == is_key_column(*column, texts(keys@)),
{
    if let NodeClass::ColumnDef { name, primary_key, .. } = &column.class {
        if *primary_key {
            return true;
        }
        if let Some(name) = name {
            assert(texts(keys@).len() == keys@.len());
            return is_named(name.as_str(), keys);
        }
    }
    false
}

/// Whether one of `keys` is `name`, whatever the case.
fn is_named(name: &str, keys: &Vec<String>) -> (r: bool)
    ensures
        r == exists|k: int|
            0 <= k < keys@.len() && lower(#[trigger] texts(keys@)[k]) == lower(
                name@,
            ),
{
    let ghost names = texts(keys@);
    let mut i: usize = 0;
    while i < keys.len()
        invariant
            i <= keys.len(),
            names == texts(keys@),
            forall|k: int| 0 <= k < i ==> lower(#[trigger] names[k]) != lower(name@),
        decreases keys.len() - i,
    {
        assert(names[i as int] == keys@[i as int]@);
        if same_ignoring_case(keys[i].as_str(), name) {
            return true;
        }
        i += 1;
    }
    false
}

fn is_narrow(ty: &SyntaxNode) -> (r: bool)
    ensures
        r == is_narrow_integer(*ty),
{
    let base = type_base(ty);
    let base = base.as_str();
    same_text(base, "int") || same_text(base, "integer") || same_text(base, "int4") || same_text(
        base,
        "smallint",
    ) || same_text(base, "int2")
}

/// MG11: flags the primary-key columns of a new table that are typed with a narrow
/// integer. The `serial` types are left to MG15.
fn check_key_types(table: &SyntaxNode, analyzer: &mut Analyzer)
    ensures
        final(analyzer)@ == old(analyzer)@ + key_type_findings(
            child_nodes(*table),
            key_columns(child_nodes(*table)),
        ),
        final(analyzer).columns@ == old(analyzer).columns@,
{
    let ghost before = analyzer@;
    let ghost columns = analyzer.columns@;
    let names = primary_key_columns(table);
    let ghost keys = key_columns(child_nodes(*table));
    let nodes = table.child_nodes();
    let ghost all = child_nodes(*table);
    let mut i: usize = 0;
    assert(before =~= before + key_type_findings(all.take(0), keys));
    while i < nodes.len()
        invariant
            i <= nodes.len(),
            all == nodes@.unref(),
            keys == texts(names@),
            analyzer@ == before + key_type_findings(all.take(i as int), keys),
            analyzer.columns@ == columns,
        decreases nodes.len() - i,
    {
        assert(all.take(i + 1).drop_last() =~= all.take(i as int));
        assert(all.take(i + 1).last() == *nodes@[i as int]);
        let column = nodes[i];
        if is_primary_key(column, &names) {
            if let Some(ty) = column.child_in_role(Role::Type) {
                if is_narrow(ty) {
                    analyzer.emit(warn(RuleCode::Mg11, PREFER_BIGINT, ty.range));
                }
            }
        }
        i += 1;
        assert(analyzer@ =~= before + key_type_findings(all.take(i as int), keys));
    }
    assert(all.take(i as int) =~= all);
}

/// MG09 and MG10: the types given to columns.
pub struct GivenTypes;

impl NodeRule for GivenTypes {
    open spec fn found_at(&self, root: SyntaxNode, columns: Seq<EventView>, i: int) -> Seq<
        Finding,
    > {
        let node = descendants(root)[i];
        match given_type(node) {
            Some(ty) => limited_text_findings(ty) + timestamp_findings(ty),
            None => seq![],
        }
    }

    fn inspect(&self, tree: &Outline, i: usize, analyzer: &mut Analyzer) {
        let node = tree.nodes[i];
        assert(*node == descendants(*tree.root)[i as int]);
        let given = match &node.class {
            NodeClass::ColumnDef { .. } => node.child_in_role(Role::Type),
            NodeClass::AlterTableAction { changes_type: true, .. } => node.child_in_role(
                Role::Type,
            ),
            _ => None,
        };
        if let Some(ty) = given {
            let ghost before = analyzer@;
            check_char_varchar(ty, analyzer);
            check_timestamp(ty, analyzer);
            assert(analyzer@ =~= before + (limited_text_findings(*ty) + timestamp_findings(*ty)));
        }
    }
}

/// MG11: the types of primary keys.
pub struct KeyTypes;

impl NodeRule for KeyTypes {
    open spec fn found_at(&self, root: SyntaxNode, columns: Seq<EventView>, i: int) -> Seq<
        Finding,
    > {
        let node = descendants(root)[i];
        if node.class is CreateTableStmt {
            key_type_findings(child_nodes(node), key_columns(child_nodes(node)))
        } else {
            seq![]
        }
    }

    fn inspect(&self, tree: &Outline, i: usize, analyzer: &mut Analyzer) {
        let node = tree.nodes[i];
        assert(*node == descendants(*tree.root)[i as int]);
        if let NodeClass::CreateTableStmt { .. } = &node.class {
            check_key_types(node, analyzer);
        }
    }
}

/// MG09, MG10 and MG11: prefer durable column types: `text` over `char(n)` and
/// `varchar(n)`, `timestamptz` over `timestamp`, and `bigint` over a narrower integer
/// for a primary key.
pub struct TypePreference;

impl Rule for TypePreference {
    open spec fn own_codes(&self) -> Seq<RuleCode> {
        seq![RuleCode::Mg09, RuleCode::Mg10, RuleCode::Mg11]
    }

    open spec fn findings(&self, root: SyntaxNode, columns: Seq<EventView>) -> Seq<Finding> {
        found_in_tree(GivenTypes, root, columns) + found_in_tree(KeyTypes, root, columns)
    }

    proof fn own_findings(&self, root: SyntaxNode, columns: Seq<EventView>) {
        let codes = self.own_codes();
        assert(codes[0] == RuleCode::Mg09 && codes[1] == RuleCode::Mg10 && codes[2]
            == RuleCode::Mg11);
        lemma_found_own(GivenTypes, root, columns, codes, descendants(root).len() as int);
        assert forall|i: int| all_own(
            #[trigger] KeyTypes.found_at(root, columns, i),
            codes,
        ) by {
            let nodes = child_nodes(descendants(root)[i]);
            lemma_key_types_own(nodes, key_columns(nodes), codes);
        }
        lemma_found_own(KeyTypes, root, columns, codes, descendants(root).len() as int);
    }

    fn codes(&self) -> &'static [RuleCode] {
        &[RuleCode::Mg09, RuleCode::Mg10, RuleCode::Mg11]
    }

    fn group(&self) -> BuiltinLintPack {
        BuiltinLintPack::Migration
    }

    fn run(&self, root: &SyntaxNode, analyzer: &mut Analyzer) {
        let ghost before = analyzer@;
        let ghost columns = analyzer.columns@;
        visit(&GivenTypes, root, analyzer);
        visit(&KeyTypes, root, analyzer);
        assert(analyzer@ =~= before + self.findings(*root, columns));
    }
}

/// MG15: `serial` and `bigserial` are legacy pseudo-types that create a detached
/// sequence with awkward ownership and permissions. Prefer a standard
/// `GENERATED { ALWAYS | BY DEFAULT } AS IDENTITY` column.
pub struct PreferIdentity;

impl NodeRule for PreferIdentity {
    open spec fn found_at(&self, root: SyntaxNode, columns: Seq<EventView>, i: int) -> Seq<
        Finding,
    > {
        let node = descendants(root)[i];
        if node.class is ColumnDef {
            match child_in_role(node, Role::Type) {
                Some(ty) => if is_serial(ty) {
                    seq![warning_at(RuleCode::Mg15, PREFER_IDENTITY@, ty.range)]
                } else {
                    seq![]
                },
                None => seq![],
            }
        } else {
            seq![]
        }
    }

    fn inspect(&self, tree: &Outline, i: usize, analyzer: &mut Analyzer) {
        let node = tree.nodes[i];
        assert(*node == descendants(*tree.root)[i as int]);
        if let NodeClass::ColumnDef { .. } = &node.class {
            if let Some(ty) = node.child_in_role(Role::Type) {
                let base = type_base(ty);
                let base = base.as_str();
                if same_text(base, "serial") || same_text(base, "serial4") || same_text(
                    base,
                    "bigserial",
                ) || same_text(base, "serial8") || same_text(base, "smallserial") || same_text(
                    base,
                    "serial2",
                ) {
                    analyzer.emit(warn(RuleCode::Mg15, PREFER_IDENTITY, ty.range));
                }
            }
        }
    }
}

impl Rule for PreferIdentity {
    open spec fn own_codes(&self) -> Seq<RuleCode> {
        seq![RuleCode::Mg15]
    }

    open spec fn findings(&self, root: SyntaxNode, columns: Seq<EventView>) -> Seq<Finding> {
        found_in_tree(*self, root, columns)
    }

    proof fn own_findings(&self, root: SyntaxNode, columns: Seq<EventView>) {
        assert(self.own_codes()[0] == RuleCode::Mg15);
        lemma_found_own(
            *self,
            root,
            columns,
            self.own_codes(),
            descendants(root).len() as int,
        );
    }

    fn codes(&self) -> &'static [RuleCode] {
        &[RuleCode::Mg15]
    }

    fn group(&self) -> BuiltinLintPack {
        BuiltinLintPack::Migration
    }

    fn run(&self, root: &SyntaxNode, analyzer: &mut Analyzer) {
        visit(self, root, analyzer)
    }
}

} // verus!
