//! Tables that a migration file creates itself. Such a table has no deployed
//! clients and no rows yet.

use crate::names::{
    may_be_same, name_after, name_change, table_key, NameChange, NameKey, TableKey,
};
use crate::rule::Outline;
use crate::syntax::{
    child_tokens, descendant_tokens, descendants, has_kind, plain_kinds, NodeClass, SyntaxNode,
    TableName, TokenKind,
};
use crate::text::in_row;
use crate::transaction::{
    event_of, is_rollback, is_rollback_to_savepoint, rolls_back, statement_event, to_savepoint,
    TxnEvent,
};
use vstd::prelude::*;

verus! {

/// A table that the file has created, as a mathematical value.
pub ghost struct NewTableView {
    /// The name that it goes by.
    pub key: TableKey,
    /// The index of the node since which it goes by that name.
    pub since: int,
    pub temporary: bool,
    /// Whether it is gone when its transaction is committed.
    pub until_commit: bool,
}

/// An open transaction, as a mathematical value: the index of the node that opened it, and the
/// tables that the file had created by then.
pub ghost struct BegunView {
    pub at: int,
    pub tables: Seq<NewTableView>,
}

/// What a file has done up to a node, as a mathematical value.
pub ghost struct ProgressView {
    pub tables: Seq<NewTableView>,
    pub begun: Option<BegunView>,
}

/// Whether a statement creates a temporary table with `ON COMMIT DROP`, which is gone with the
/// transaction.
pub open spec fn drops_on_commit(node: SyntaxNode) -> bool {
    &&& node.class matches NodeClass::CreateTableStmt { temporary, .. } && temporary
    &&& in_row(
        plain_kinds(descendant_tokens(node)),
        seq![TokenKind::CommitKw, TokenKind::DropKw],
    )
}

/// Whether a statement surely creates the table. `CREATE TABLE IF NOT EXISTS` may find a table
/// that is there already.
pub open spec fn creates(node: SyntaxNode, table: TableKey) -> bool {
    &&& node.class matches NodeClass::CreateTableStmt { table: Some(name), .. } && table_key(name)
        == table
    &&& !has_kind(child_tokens(node), TokenKind::IfKw)
}

/// The table that the `i`-th node creates. Outside a transaction, one with `ON COMMIT DROP` is
/// gone at once.
pub open spec fn new_table(node: SyntaxNode, i: int, in_transaction: bool) -> Seq<NewTableView> {
    match node.class {
        NodeClass::CreateTableStmt { table: Some(name), temporary } => {
            if !has_kind(child_tokens(node), TokenKind::IfKw) && (drops_on_commit(node)
                ==> in_transaction) {
                seq![
                    NewTableView {
                        key: table_key(name),
                        since: i,
                        temporary,
                        until_commit: drops_on_commit(node),
                    },
                ]
            } else {
                seq![]
            }
        },
        _ => seq![],
    }
}

/// Whether the table may be among `names`.
pub open spec fn may_name(names: Seq<TableName>, table: TableKey) -> bool {
    exists|k: int| 0 <= k < names.len() && may_be_same(table_key(#[trigger] names[k]), table)
}

/// Whether a statement is a `DROP TABLE` that may name the table.
pub open spec fn drops(node: SyntaxNode, table: TableKey) -> bool {
    node.class matches NodeClass::DropStmt { object: Some(TokenKind::TableKw), names, .. }
        && may_name(names@, table)
}

/// Whether a statement commits the open transaction.
pub open spec fn commits(node: SyntaxNode) -> bool {
    statement_event(node) == Some(TxnEvent::Close) && !rolls_back(node)
}

/// A table that the file has created, after the `i`-th node, if it is still there for sure. A
/// drop takes it away, and so does the commit for which it was made. A change of names may give
/// it another one. A rollback undoes what came after the opening of the transaction at `begun`,
/// or whatever came before if the file has opened none.
pub open spec fn table_after(
    node: SyntaxNode,
    i: int,
    begun: Option<int>,
    table: NewTableView,
) -> Option<NewTableView> {
    if rolls_back(node) {
        if begun matches Some(at) && table.since < at {
            Some(table)
        } else {
            None
        }
    } else if drops(node, table.key) || (commits(node) && table.until_commit) {
        None
    } else {
        match name_change(node) {
            Some(change) => match name_after(change, table.key) {
                Some(key) => Some(
                    if key == table.key {
                        table
                    } else {
                        NewTableView { key, since: i, ..table }
                    },
                ),
                None => None,
            },
            None => Some(table),
        }
    }
}

/// The tables that the file has created, after the `i`-th node.
pub open spec fn tables_after(
    node: SyntaxNode,
    i: int,
    begun: Option<int>,
    tables: Seq<NewTableView>,
) -> Seq<NewTableView>
    decreases tables.len(),
{
    if tables.len() == 0 {
        seq![]
    } else {
        let earlier = tables_after(node, i, begun, tables.drop_last());
        match table_after(node, i, begun, tables.last()) {
            Some(table) => earlier.push(table),
            None => earlier,
        }
    }
}

/// The index of the node that has opened the transaction that is open, if one is.
pub open spec fn begun_at(progress: ProgressView) -> Option<int> {
    match progress.begun {
        Some(begun) => Some(begun.at),
        None => None,
    }
}

/// What a file has done after its `i`-th node. A rollback of a whole transaction gives back
/// what there was when it was opened.
pub open spec fn step(progress: ProgressView, node: SyntaxNode, i: int) -> ProgressView {
    if rolls_back(node) && !to_savepoint(node) && progress.begun is Some {
        ProgressView { tables: progress.begun->0.tables, begun: None }
    } else {
        ProgressView {
            tables: tables_after(node, i, begun_at(progress), progress.tables) + new_table(
                node,
                i,
                progress.begun is Some,
            ),
            begun: match statement_event(node) {
                Some(TxnEvent::Open) => match progress.begun {
                    Some(begun) => Some(begun),
                    None => Some(BegunView { at: i, tables: progress.tables }),
                },
                Some(TxnEvent::Close) => if to_savepoint(node) {
                    progress.begun
                } else {
                    None
                },
                None => progress.begun,
            },
        }
    }
}

/// What a file has done before its `i`-th node.
pub open spec fn progress_before(nodes: Seq<SyntaxNode>, i: int) -> ProgressView
    decreases i,
{
    if i <= 0 {
        ProgressView { tables: seq![], begun: None }
    } else {
        step(progress_before(nodes, i - 1), nodes[i - 1], i - 1)
    }
}

/// Whether the table is one that the file has created before its `i`-th node.
pub open spec fn created_before(nodes: Seq<SyntaxNode>, i: int, table: TableKey) -> bool {
    exists|k: int|
        0 <= k < progress_before(nodes, i).tables.len() && (#[trigger] progress_before(
            nodes,
            i,
        ).tables[k]).key == table
}

/// Whether the table is a temporary one that the file has created before its `i`-th node.
pub open spec fn temporary_before(nodes: Seq<SyntaxNode>, i: int, table: TableKey) -> bool {
    exists|k: int|
        0 <= k < progress_before(nodes, i).tables.len() && (#[trigger] progress_before(
            nodes,
            i,
        ).tables[k]).key == table && progress_before(nodes, i).tables[k].temporary
}

/// A table that the file has created.
struct NewTable {
    key: NameKey,
    since: usize,
    temporary: bool,
    until_commit: bool,
}

impl View for NewTable {
    type V = NewTableView;

    closed spec fn view(&self) -> NewTableView {
        NewTableView {
            key: self.key@,
            since: self.since as int,
            temporary: self.temporary,
            until_commit: self.until_commit,
        }
    }
}

/// An open transaction.
struct Begun {
    at: usize,
    tables: Vec<NewTable>,
}

impl View for Begun {
    type V = BegunView;

    closed spec fn view(&self) -> BegunView {
        BegunView { at: self.at as int, tables: self.tables@.map_values(|t: NewTable| t@) }
    }
}

/// What a file has done up to a node.
struct Progress {
    tables: Vec<NewTable>,
    begun: Option<Begun>,
}

impl View for Progress {
    type V = ProgressView;

    closed spec fn view(&self) -> ProgressView {
        ProgressView {
            tables: self.tables@.map_values(|t: NewTable| t@),
            begun: match self.begun {
                Some(begun) => Some(begun@),
                None => None,
            },
        }
    }
}

impl NewTable {
    fn copy(&self) -> (r: NewTable)
        ensures
            r@ == self@,
    {
        NewTable {
            key: self.key.copy(),
            since: self.since,
            temporary: self.temporary,
            until_commit: self.until_commit,
        }
    }
}

fn copy_tables(tables: &Vec<NewTable>) -> (r: Vec<NewTable>)
    ensures
        r@.map_values(|t: NewTable| t@) == tables@.map_values(|t: NewTable| t@),
{
    let ghost all = tables@.map_values(|t: NewTable| t@);
    let mut out: Vec<NewTable> = Vec::new();
    let mut k: usize = 0;
    while k < tables.len()
        invariant
            k <= tables.len(),
            all == tables@.map_values(|t: NewTable| t@),
            out@.map_values(|t: NewTable| t@) =~= all.take(k as int),
        decreases tables.len() - k,
    {
        let ghost held = out@.map_values(|t: NewTable| t@);
        out.push(tables[k].copy());
        k += 1;
        assert(out@.map_values(|t: NewTable| t@) =~= held.push(all[k - 1]));
    }
    assert(all.take(k as int) =~= all);
    out
}

fn is_dropped_on_commit(node: &SyntaxNode) -> (r: bool)
    ensures
        r == drops_on_commit(*node),
{
    let run = vec![TokenKind::CommitKw, TokenKind::DropKw];
    assert(run@ =~= seq![TokenKind::CommitKw, TokenKind::DropKw]);
    matches!(&node.class, NodeClass::CreateTableStmt { temporary: true, .. }) && node.has_run(&run)
}

fn created_table(node: &SyntaxNode, i: usize, in_transaction: bool) -> (r: Option<NewTable>)
    ensures
        new_table(*node, i as int, in_transaction) == match r {
            Some(table) => seq![table@],
            None => seq![],
        },
{
    match &node.class {
        NodeClass::CreateTableStmt { table: Some(name), temporary } => {
            let until_commit = is_dropped_on_commit(node);
            if node.has_child_token(TokenKind::IfKw) || (until_commit && !in_transaction) {
                None
            } else {
                Some(
                    NewTable {
                        key: NameKey::of(name),
                        since: i,
                        temporary: *temporary,
                        until_commit,
                    },
                )
            }
        },
        _ => None,
    }
}

/// Whether the table may be among `names`.
fn is_named(names: &Vec<TableName>, table: &NameKey) -> (r: bool)
    ensures
        r == may_name(names@, table@),
{
    let mut i: usize = 0;
    while i < names.len()
        invariant
            i <= names.len(),
            forall|k: int|
                0 <= k < i ==> !may_be_same(table_key(#[trigger] names@[k]), table@),
        decreases names.len() - i,
    {
        if NameKey::of(&names[i]).may_be(table) {
            assert(may_be_same(table_key(names@[i as int]), table@));
            return true;
        }
        i += 1;
    }
    false
}

fn is_dropping(node: &SyntaxNode, table: &NameKey) -> (r: bool)
    ensures
        r == drops(*node, table@),
{
    match &node.class {
        NodeClass::DropStmt { object: Some(TokenKind::TableKw), names, .. } => is_named(
            names,
            table,
        ),
        _ => false,
    }
}

fn follow(node: &SyntaxNode, i: usize, begun: Option<usize>, table: NewTable) -> (r: Option<
    NewTable,
>)
    ensures
        table_after(
            *node,
            i as int,
            match begun {
                Some(at) => Some(at as int),
                None => None,
            },
            table@,
        ) == match r {
            Some(after) => Some(after@),
            None => None,
        },
{
    if is_rollback(node) {
        return match begun {
            Some(at) => if table.since < at {
                Some(table)
            } else {
                None
            },
            None => None,
        };
    }
    let commit = matches!(event_of(node), Some(TxnEvent::Close));
    if is_dropping(node, &table.key) || (commit && table.until_commit) {
        return None;
    }
    match NameChange::of(node) {
        Some(change) => match change.name_after(&table.key) {
            Some(key) => if key.same(&table.key) {
                Some(table)
            } else {
                Some(NewTable { key, since: i, ..table })
            },
            None => None,
        },
        None => Some(table),
    }
}

impl Progress {
    /// What the file has done after its `i`-th node.
    fn step(self, node: &SyntaxNode, i: usize) -> (r: Progress)
        ensures
            r@ == step(self@, *node, i as int),
    {
        let ghost before = self@;
        let rollback = is_rollback(node);
        let savepoint = is_rollback_to_savepoint(node);
        let opened_at = match &self.begun {
            Some(begun) => Some(begun.at),
            None => None,
        };
        let Progress { tables, begun } = self;
        if rollback && !savepoint {
            if let Some(begun) = begun {
                let r = Progress { tables: begun.tables, begun: None };
                assert(r@ == step(before, *node, i as int));
                return r;
            }
        }
        let event = event_of(node);
        let begun = match event {
            Some(TxnEvent::Open) => match begun {
                Some(begun) => Some(begun),
                None => Some(Begun { at: i, tables: copy_tables(&tables) }),
            },
            Some(TxnEvent::Close) => if savepoint {
                begun
            } else {
                None
            },
            None => begun,
        };
        let ghost all = tables@.map_values(|t: NewTable| t@);
        let ghost since = begun_at(before);
        let mut kept: Vec<NewTable> = Vec::new();
        assert(kept@.map_values(|t: NewTable| t@) =~= tables_after(
            *node,
            i as int,
            since,
            all.take(0),
        ));
        for table in iter: tables
            invariant
                all == iter.seq().map_values(|t: NewTable| t@),
                since == match opened_at {
                    Some(at) => Some(at as int),
                    None => None,
                },
                kept@.map_values(|t: NewTable| t@) == tables_after(
                    *node,
                    i as int,
                    since,
                    all.take(iter.index() as int),
                ),
        {
            let ghost n = iter.index() as int;
            let ghost held = kept@.map_values(|t: NewTable| t@);
            assert(all.take(n + 1).drop_last() =~= all.take(n));
            assert(all.take(n + 1).last() == table@);
            if let Some(after) = follow(node, i, opened_at, table) {
                kept.push(after);
                assert(kept@.map_values(|t: NewTable| t@) =~= held.push(after@));
            }
        }
        assert(all.take(all.len() as int) =~= all);
        let ghost held = kept@.map_values(|t: NewTable| t@);
        if let Some(table) = created_table(node, i, opened_at.is_some()) {
            kept.push(table);
            assert(kept@.map_values(|t: NewTable| t@) =~= held + seq![table@]);
        } else {
            assert(held =~= held + Seq::<NewTableView>::empty());
        }
        let r = Progress { tables: kept, begun };
        assert(r@ == step(before, *node, i as int));
        r
    }
}

/// What the file has done before its `i`-th node.
fn progress(tree: &Outline, i: usize) -> (r: Progress)
    requires
        tree.wf(),
        i <= tree.nodes.len(),
    ensures
        r@ == progress_before(descendants(*tree.root), i as int),
{
    let ghost nodes = descendants(*tree.root);
    let mut progress = Progress { tables: Vec::new(), begun: None };
    let mut k: usize = 0;
    assert(progress@.tables =~= seq![]);
    while k < i
        invariant
            k <= i <= tree.nodes.len(),
            nodes == tree.nodes@.unref(),
            progress@ == progress_before(nodes, k as int),
        decreases i - k,
    {
        assert(*tree.nodes@[k as int] == nodes[k as int]);
        progress = progress.step(tree.nodes[k], k);
        k += 1;
    }
    progress
}

/// Whether the table is one that the file has created before its `i`-th node.
pub fn is_created_before(tree: &Outline, i: usize, table: &TableName) -> (r: bool)
    requires
        tree.wf(),
        i <= tree.nodes.len(),
    ensures
        r == created_before(descendants(*tree.root), i as int, table_key(*table)),
{
    let key = NameKey::of(table);
    let reached = progress(tree, i);
    let ghost all = reached@.tables;
    let mut k: usize = 0;
    while k < reached.tables.len()
        invariant
            k <= reached.tables.len(),
            all == reached.tables@.map_values(|t: NewTable| t@),
            key@ == table_key(*table),
            all == progress_before(descendants(*tree.root), i as int).tables,
            forall|n: int| 0 <= n < k ==> (#[trigger] all[n]).key != key@,
        decreases reached.tables.len() - k,
    {
        assert(all[k as int] == reached.tables@[k as int]@);
        if reached.tables[k].key.same(&key) {
            return true;
        }
        k += 1;
    }
    false
}

/// Whether the table is a temporary one that the file has created before its `i`-th node.
pub fn is_temporary_before(tree: &Outline, i: usize, table: &TableName) -> (r: bool)
    requires
        tree.wf(),
        i <= tree.nodes.len(),
    ensures
        r == temporary_before(descendants(*tree.root), i as int, table_key(*table)),
{
    let key = NameKey::of(table);
    let reached = progress(tree, i);
    let ghost all = reached@.tables;
    let mut k: usize = 0;
    while k < reached.tables.len()
        invariant
            k <= reached.tables.len(),
            all == reached.tables@.map_values(|t: NewTable| t@),
            key@ == table_key(*table),
            all == progress_before(descendants(*tree.root), i as int).tables,
            forall|n: int|
                0 <= n < k ==> !((#[trigger] all[n]).key == key@ && all[n].temporary),
        decreases reached.tables.len() - k,
    {
        assert(all[k as int] == reached.tables@[k as int]@);
        if reached.tables[k].temporary && reached.tables[k].key.same(&key) {
            return true;
        }
        k += 1;
    }
    false
}

} // verus!
