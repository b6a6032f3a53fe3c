//! The type history of columns across a migration set.

use crate::names::{
    fold, folded, may_affect, may_be_same, name_change, table_key, NameChange, NameChangeView,
    NameKey, TableKey,
};
use crate::syntax::{
    child_in_role, child_nodes, child_tokens, descendants, has_kind, AlterActionKind, NodeClass,
    RenameTarget, Role, SyntaxNode, TableName, TokenKind,
};
use crate::transaction::{
    event_of, is_rollback, is_rollback_to_savepoint, rolls_back, statement_event, to_savepoint,
    TxnEvent,
};
use crate::types::{is_safe_widening, safe_widening};
use vstd::prelude::*;

verus! {

/// What a migration does to the type of a column, or to what a name stands for, as a
/// mathematical value.
pub ghost enum EventView {
    Declared { table: TableKey, column: Seq<char>, ty: Seq<char> },
    Retyped { table: TableKey, column: Seq<char>, ty: Seq<char> },
    ColumnRenamed { table: TableKey, from: Seq<char>, to: Seq<char> },
    NamesChanged { change: NameChangeView },
}

/// What a migration does to the type of a column, or to what a name stands for.
#[derive(Debug)]
pub enum ColumnEvent {
    /// `CREATE TABLE` or `ADD COLUMN` gives the column a type. The type is empty if it is
    /// not known.
    Declared { table: NameKey, column: String, ty: String },
    /// `ALTER COLUMN … TYPE` changes the type of the column.
    Retyped { table: NameKey, column: String, ty: String },
    /// `RENAME COLUMN`.
    ColumnRenamed { table: NameKey, from: String, to: String },
    /// Another table may go by a name.
    NamesChanged { change: NameChange },
}

impl View for ColumnEvent {
    type V = EventView;

    open spec fn view(&self) -> EventView {
        match self {
            ColumnEvent::Declared { table, column, ty } => EventView::Declared {
                table: table@,
                column: column@,
                ty: ty@,
            },
            ColumnEvent::Retyped { table, column, ty } => EventView::Retyped {
                table: table@,
                column: column@,
                ty: ty@,
            },
            ColumnEvent::ColumnRenamed { table, from, to } => EventView::ColumnRenamed {
                table: table@,
                from: from@,
                to: to@,
            },
            ColumnEvent::NamesChanged { change } => EventView::NamesChanged { change: change@ },
        }
    }
}

/// The column events of a migration set, in order.
#[derive(Debug)]
pub struct MigrationColumns {
    pub events: Vec<ColumnEvent>,
}

impl View for MigrationColumns {
    type V = Seq<EventView>;

    open spec fn view(&self) -> Seq<EventView> {
        self.events@.map_values(|e: ColumnEvent| e@)
    }
}

/// The text of the type that is a child of `node`, empty if there is none.
pub open spec fn type_text(node: SyntaxNode) -> Seq<char> {
    match child_in_role(node, Role::Type) {
        Some(ty) => match ty.class {
            NodeClass::TypeName { text } => text@,
            _ => seq![],
        },
        None => seq![],
    }
}

/// Whether a statement or action is conditional: with `IF NOT EXISTS`, the table or column may
/// have been there before, with other types.
pub open spec fn conditional(node: SyntaxNode) -> bool {
    has_kind(child_tokens(node), TokenKind::IfKw)
}

/// The declaration that a column definition makes, with its type if that is `known`.
pub open spec fn declaration(table: TableKey, node: SyntaxNode, known: bool) -> Seq<EventView> {
    match node.class {
        NodeClass::ColumnDef { name: Some(name), .. } => seq![
            EventView::Declared {
                table,
                column: fold(name@),
                ty: if known {
                    type_text(node)
                } else {
                    seq![]
                },
            },
        ],
        _ => seq![],
    }
}

/// The declarations that the column definitions among `nodes` make.
pub open spec fn declarations(table: TableKey, nodes: Seq<SyntaxNode>, known: bool) -> Seq<
    EventView,
>
    decreases nodes.len(),
{
    if nodes.len() == 0 {
        seq![]
    } else {
        declarations(table, nodes.drop_last(), known) + declaration(table, nodes.last(), known)
    }
}

/// The column events of one node, for the file itself if `own`. A temporary table is gone with
/// its session, so that its name stands for another table in any other file: for those it
/// declares nothing.
pub open spec fn node_events(node: SyntaxNode, own: bool) -> Seq<EventView> {
    match node.class {
        NodeClass::CreateTableStmt { table: Some(table), temporary } => if own || !temporary {
            declarations(table_key(table), child_nodes(node), !conditional(node))
        } else {
            seq![]
        },
        NodeClass::AlterTableAction { action, table: Some(table), column, changes_type } => {
            if action is AddColumn {
                match child_in_role(node, Role::Column) {
                    Some(added) => declaration(table_key(table), added, !conditional(node)),
                    None => seq![],
                }
            } else if changes_type {
                match column {
                    Some(column) => seq![
                        EventView::Retyped {
                            table: table_key(table),
                            column: fold(column@),
                            ty: type_text(node),
                        },
                    ],
                    None => seq![],
                }
            } else {
                seq![]
            }
        },
        NodeClass::AlterStmt {
            table: Some(table),
            rename: Some(RenameTarget::Column { from, to }),
            ..
        } => seq![
            EventView::ColumnRenamed {
                table: table_key(table),
                from: fold(from@),
                to: fold(to@),
            },
        ],
        _ => match name_change(node) {
            Some(change) => seq![EventView::NamesChanged { change }],
            None => seq![],
        },
    }
}

/// An event after a rollback that may have undone it: what a column is declared as is not
/// known any more.
pub open spec fn unsettled(event: EventView) -> EventView {
    match event {
        EventView::Declared { table, column, .. } => EventView::Declared {
            table,
            column,
            ty: seq![],
        },
        _ => event,
    }
}

/// Events after a rollback that may have undone all but the first `n`.
pub open spec fn unsettled_from(events: Seq<EventView>, n: int) -> Seq<EventView> {
    Seq::new(
        events.len(),
        |k: int|
            if k < n {
                events[k]
            } else {
                unsettled(events[k])
            },
    )
}

/// The column events of a file up to a node, and how many of them there were when the
/// transaction that is open was opened, if one is.
pub ghost struct FileHistory {
    pub events: Seq<EventView>,
    pub begun: Option<nat>,
}

/// The column events of the nodes of a file, in order, for the file itself if `own`. A rollback
/// leaves unknown the types that were declared after the opening of the transaction that it
/// undoes, or all of them if the file has opened none. Changes of types and of names count
/// even if they are undone: with them, less is proven.
pub open spec fn file_history(nodes: Seq<SyntaxNode>, own: bool) -> FileHistory
    decreases nodes.len(),
{
    if nodes.len() == 0 {
        FileHistory { events: seq![], begun: None }
    } else {
        let before = file_history(nodes.drop_last(), own);
        let node = nodes.last();
        if rolls_back(node) {
            FileHistory {
                events: unsettled_from(
                    before.events,
                    match before.begun {
                        Some(n) => n as int,
                        None => 0,
                    },
                ),
                begun: if to_savepoint(node) {
                    before.begun
                } else {
                    None
                },
            }
        } else {
            FileHistory {
                events: before.events + node_events(node, own),
                begun: match statement_event(node) {
                    Some(TxnEvent::Open) => match before.begun {
                        Some(n) => Some(n),
                        None => Some(before.events.len()),
                    },
                    Some(TxnEvent::Close) => None,
                    None => before.begun,
                },
            }
        }
    }
}

/// The column events of the nodes of a file, in order, for the file itself if `own`.
pub open spec fn file_events(nodes: Seq<SyntaxNode>, own: bool) -> Seq<EventView> {
    file_history(nodes, own).events
}

/// The column events of a sequence of migrations, in order.
pub open spec fn migration_events(roots: Seq<SyntaxNode>) -> Seq<EventView>
    decreases roots.len(),
{
    if roots.len() == 0 {
        seq![]
    } else {
        migration_events(roots.drop_last()) + file_events(descendants(roots.last()), false)
    }
}

/// Whether an event may bear on what the type of a column is.
pub open spec fn touches(event: EventView, table: TableKey, column: Seq<char>) -> bool {
    match event {
        EventView::Declared { table: t, column: c, .. } => may_be_same(t, table) && c == column,
        EventView::Retyped { table: t, column: c, .. } => may_be_same(t, table) && c == column,
        EventView::ColumnRenamed { table: t, from, to } => may_be_same(t, table) && (from == column
            || to == column),
        EventView::NamesChanged { change } => may_affect(change, table),
    }
}

/// The events that may bear on what the type of a column is, in order.
pub open spec fn column_history(
    events: Seq<EventView>,
    table: TableKey,
    column: Seq<char>,
) -> Seq<EventView>
    decreases events.len(),
{
    if events.len() == 0 {
        seq![]
    } else {
        let earlier = column_history(events.drop_last(), table, column);
        if touches(events.last(), table, column) {
            earlier.push(events.last())
        } else {
            earlier
        }
    }
}

/// Whether the history proves that giving a column the type `ty` is a safe
/// widening: the column is declared once, then changed once, to `ty`, both under exactly the
/// name `table`, nothing else may bear on its type, and the declared type widens to `ty`.
pub open spec fn proven_widening(
    events: Seq<EventView>,
    table: TableKey,
    column: Seq<char>,
    ty: Seq<char>,
) -> bool {
    let history = column_history(events, table, column);
    &&& history.len() == 2
    &&& history[0] matches EventView::Declared { table: t, ty: declared, .. } && t == table
        && safe_widening(declared, ty)
    &&& history[1] matches EventView::Retyped { table: t, ty: retyped, .. } && t == table && retyped
        == ty
}

/// The text of the type that is a child of `node`, empty if there is none.
pub fn type_text_of(node: &SyntaxNode) -> (r: String)
    ensures
        r@ == type_text(*node),
{
    if let Some(ty) = node.child_in_role(Role::Type) {
        if let NodeClass::TypeName { text } = &ty.class {
            return text.clone();
        }
    }
    String::new()
}

fn push_declaration(
    table: &TableName,
    node: &SyntaxNode,
    known: bool,
    out: &mut Vec<ColumnEvent>,
)
    ensures
        final(out)@.map_values(|e: ColumnEvent| e@) == old(out)@.map_values(|e: ColumnEvent| e@)
            + declaration(table_key(*table), *node, known),
{
    let ghost before = out@.map_values(|e: ColumnEvent| e@);
    if let NodeClass::ColumnDef { name: Some(name), .. } = &node.class {
        let ty = if known {
            type_text_of(node)
        } else {
            let unknown = String::new();
            assert(unknown@ =~= seq![]);
            unknown
        };
        out.push(
            ColumnEvent::Declared {
                table: NameKey::of(table),
                column: folded(name.as_str()),
                ty,
            },
        );
    }
    assert(out@.map_values(|e: ColumnEvent| e@) =~= before + declaration(
        table_key(*table),
        *node,
        known,
    ));
}

fn push_events(node: &SyntaxNode, own: bool, out: &mut Vec<ColumnEvent>)
    ensures
        final(out)@.map_values(|e: ColumnEvent| e@) == old(out)@.map_values(|e: ColumnEvent| e@)
            + node_events(*node, own),
{
    let ghost before = out@.map_values(|e: ColumnEvent| e@);
    match &node.class {
        NodeClass::CreateTableStmt { table: Some(table), temporary } if own || !*temporary => {
            let known = !node.has_child_token(TokenKind::IfKw);
            let nodes = node.child_nodes();
            let ghost all = child_nodes(*node);
            let mut i: usize = 0;
            assert(before =~= before + declarations(table_key(*table), all.take(0), known));
            while i < nodes.len()
                invariant
                    i <= nodes.len(),
                    all == nodes@.unref(),
                    out@.map_values(|e: ColumnEvent| e@) == before + declarations(
                        table_key(*table),
                        all.take(i as int),
                        known,
                    ),
                decreases nodes.len() - i,
            {
                assert(all.take(i + 1).drop_last() =~= all.take(i as int));
                push_declaration(table, nodes[i], known, out);
                i += 1;
                assert(out@.map_values(|e: ColumnEvent| e@) =~= before + declarations(
                    table_key(*table),
                    all.take(i as int),
                    known,
                ));
            }
            assert(all.take(i as int) =~= all);
        },
        NodeClass::AlterTableAction { action, table: Some(table), column, changes_type } => {
            if matches!(action, AlterActionKind::AddColumn) {
                if let Some(added) = node.child_in_role(Role::Column) {
                    push_declaration(table, added, !node.has_child_token(TokenKind::IfKw), out);
                }
            } else if *changes_type {
                if let Some(column) = column {
                    out.push(
                        ColumnEvent::Retyped {
                            table: NameKey::of(table),
                            column: folded(column.as_str()),
                            ty: type_text_of(node),
                        },
                    );
                }
            }
        },
        NodeClass::AlterStmt {
            table: Some(table),
            rename: Some(RenameTarget::Column { from, to }),
            ..
        } => {
            out.push(
                ColumnEvent::ColumnRenamed {
                    table: NameKey::of(table),
                    from: folded(from.as_str()),
                    to: folded(to.as_str()),
                },
            );
        },
        _ => {
            if let Some(change) = NameChange::of(node) {
                out.push(ColumnEvent::NamesChanged { change });
            }
        },
    }
    assert(out@.map_values(|e: ColumnEvent| e@) =~= before + node_events(*node, own));
}

/// The events after a rollback that may have undone all but the first `from`.
fn unsettle(events: Vec<ColumnEvent>, from: usize) -> (r: Vec<ColumnEvent>)
    ensures
        r@.map_values(|e: ColumnEvent| e@) == unsettled_from(
            events@.map_values(|e: ColumnEvent| e@),
            from as int,
        ),
{
    let ghost all = events@.map_values(|e: ColumnEvent| e@);
    let ghost wanted = unsettled_from(all, from as int);
    let mut out: Vec<ColumnEvent> = Vec::new();
    assert(out@.map_values(|e: ColumnEvent| e@) =~= wanted.take(0));
    for event in iter: events
        invariant
            all == iter.seq().map_values(|e: ColumnEvent| e@),
            wanted == unsettled_from(all, from as int),
            out.len() == iter.index(),
            out@.map_values(|e: ColumnEvent| e@) == wanted.take(iter.index() as int),
    {
        let ghost n = iter.index() as int;
        let ghost held = out@.map_values(|e: ColumnEvent| e@);
        assert(all[n] == event@);
        let event = if out.len() < from {
            event
        } else {
            match event {
                ColumnEvent::Declared { table, column, .. } => {
                    let ty = String::new();
                    assert(ty@ =~= seq![]);
                    ColumnEvent::Declared { table, column, ty }
                },
                other => other,
            }
        };
        assert(event@ == wanted[n]);
        out.push(event);
        assert(out@.map_values(|e: ColumnEvent| e@) =~= held.push(wanted[n]));
        assert(out@.map_values(|e: ColumnEvent| e@) =~= wanted.take(n + 1));
    }
    assert(wanted.take(wanted.len() as int) =~= wanted);
    out
}

/// The column events of a file, in order, for the file itself if `own`.
fn tree_events(root: &SyntaxNode, own: bool) -> (r: Vec<ColumnEvent>)
    ensures
        r@.map_values(|e: ColumnEvent| e@) == file_events(descendants(*root), own),
{
    let nodes = root.descendants();
    let ghost all = descendants(*root);
    let mut events: Vec<ColumnEvent> = Vec::new();
    let mut begun: Option<usize> = None;
    let mut i: usize = 0;
    assert(events@.map_values(|e: ColumnEvent| e@) =~= file_events(all.take(0), own));
    while i < nodes.len()
        invariant
            i <= nodes.len(),
            all == nodes@.unref(),
            events@.map_values(|e: ColumnEvent| e@) == file_history(
                all.take(i as int),
                own,
            ).events,
            file_history(all.take(i as int), own).begun == match begun {
                Some(n) => Some(n as nat),
                None => None,
            },
        decreases nodes.len() - i,
    {
        assert(all.take(i + 1).drop_last() =~= all.take(i as int));
        assert(all.take(i + 1).last() == *nodes@[i as int]);
        let node = nodes[i];
        if is_rollback(node) {
            let from: usize = match begun {
                Some(n) => n,
                None => 0,
            };
            events = unsettle(events, from);
            if !is_rollback_to_savepoint(node) {
                begun = None;
            }
        } else {
            match event_of(node) {
                Some(TxnEvent::Open) => {
                    if begun.is_none() {
                        begun = Some(events.len());
                    }
                },
                Some(TxnEvent::Close) => begun = None,
                None => {},
            }
            push_events(node, own, &mut events);
        }
        i += 1;
    }
    assert(all.take(i as int) =~= all);
    events
}

/// The column events of a file as they bear on the file itself.
pub fn collect_own_columns(root: &SyntaxNode) -> (r: MigrationColumns)
    ensures
        r@ == file_events(descendants(*root), true),
{
    MigrationColumns { events: tree_events(root, true) }
}

/// The column events of a migration set, whose files are given in order.
pub fn collect_migration_columns(roots: &Vec<SyntaxNode>) -> (r: MigrationColumns)
    ensures
        r@ == migration_events(roots@),
{
    let mut events: Vec<ColumnEvent> = Vec::new();
    let mut i: usize = 0;
    assert(events@.map_values(|e: ColumnEvent| e@) =~= migration_events(roots@.take(0)));
    while i < roots.len()
        invariant
            i <= roots.len(),
            events@.map_values(|e: ColumnEvent| e@) == migration_events(roots@.take(i as int)),
        decreases roots.len() - i,
    {
        assert(roots@.take(i + 1).drop_last() =~= roots@.take(i as int));
        let ghost before = events@.map_values(|e: ColumnEvent| e@);
        let mut added = tree_events(&roots[i], false);
        let ghost wanted = added@.map_values(|e: ColumnEvent| e@);
        events.append(&mut added);
        i += 1;
        assert(events@.map_values(|e: ColumnEvent| e@) =~= before + wanted);
    }
    assert(roots@.take(i as int) =~= roots@);
    MigrationColumns { events }
}

impl ColumnEvent {
    /// Whether this event may bear on what the type of a column is.
    fn bears_on(&self, table: &NameKey, column: &String) -> (r: bool)
        ensures
            r == touches(self@, table@, column@),
    {
        match self {
            ColumnEvent::Declared { table: t, column: c, .. } => t.may_be(table) && *c == *column,
            ColumnEvent::Retyped { table: t, column: c, .. } => t.may_be(table) && *c == *column,
            ColumnEvent::ColumnRenamed { table: t, from, to } => t.may_be(table) && (*from
                == *column || *to == *column),
            ColumnEvent::NamesChanged { change } => change.affects(table),
        }
    }
}

impl MigrationColumns {
    /// Whether the history proves that giving a column the type `ty` is a safe
    /// widening.
    pub fn proves_widening(&self, table: &TableName, column: &str, ty: &str) -> (r: bool)
        ensures
            r == proven_widening(self@, table_key(*table), fold(column@), ty@),
    {
        let key = NameKey::of(table);
        let name = folded(column);
        let ghost all = self@;
        let mut history: Vec<&ColumnEvent> = Vec::new();
        let ghost mut seen = Seq::new(history@.len(), |k: int| history@[k]@);
        assert(seen =~= column_history(all.take(0), key@, name@));
        let mut i: usize = 0;
        while i < self.events.len()
            invariant
                i <= self.events.len(),
                all == self@,
                seen == Seq::new(history@.len(), |k: int| history@[k]@),
                seen == column_history(all.take(i as int), key@, name@),
            decreases self.events.len() - i,
        {
            assert(all.take(i + 1).drop_last() =~= all.take(i as int));
            assert(all.take(i + 1).last() == self.events@[i as int]@);
            if self.events[i].bears_on(&key, &name) {
                history.push(&self.events[i]);
                proof {
                    seen = seen.push(self.events@[i as int]@);
                }
                assert(seen =~= Seq::new(history@.len(), |k: int| history@[k]@));
            }
            i += 1;
        }
        assert(all.take(i as int) =~= all);
        if history.len() != 2 {
            return false;
        }
        assert(seen[0] == history@[0]@ && seen[1] == history@[1]@);
        match (history[0], history[1]) {
            (
                ColumnEvent::Declared { table: a, ty: declared, .. },
                ColumnEvent::Retyped { table: b, ty: retyped, .. },
            ) => a.same(&key) && b.same(&key) && is_safe_widening(declared.as_str(), ty) && *retyped
                == ty.to_owned(),
            _ => false,
        }
    }
}

} // verus!
