//! What holds of the ways to look at a tree.

use crate::syntax::{
    child_in_role, child_nodes, child_tokens, descendant_tokens, descendants, first_in_role,
    first_keyword, first_of_kind, forest_nodes, forest_tokens, greatest_end, has_kind,
    last_token_end, nodes_of, plain_kinds, plays, token_end, Role, SyntaxElement,
    SyntaxNode, SyntaxToken, TokenKind,
};
use crate::text::in_row;
use vstd::prelude::*;

verus! {

/// A node with one more child has the nodes below that child besides, behind all others.
pub proof fn one_more_child_adds_its_nodes(
    node: SyntaxNode,
    more: SyntaxNode,
    child: SyntaxElement,
)
    requires
        more.children@ == node.children@.push(child),
    ensures
        descendants(more)[0] == more,
        descendants(more).skip(1) == descendants(node).skip(1) + match child {
            SyntaxElement::Node(inner) => descendants(inner),
            SyntaxElement::Token(_) => seq![],
        },
        child_nodes(more) == child_nodes(node) + match child {
            SyntaxElement::Node(inner) => seq![inner],
            SyntaxElement::Token(_) => seq![],
        },
{
    reveal_with_fuel(forest_nodes, 2);
    reveal_with_fuel(descendants, 2);
    assert(more.children@.drop_last() =~= node.children@);
    assert(more.children@.last() == child);
    assert(descendants(node).skip(1) =~= forest_nodes(node.children@));
    assert(descendants(more).skip(1) =~= forest_nodes(more.children@));
    if let SyntaxElement::Node(inner) = child {
        assert(forest_nodes(more.children@) == forest_nodes(node.children@) + descendants(inner));
    }
    assert(child_nodes(more) =~= child_nodes(node) + match child {
        SyntaxElement::Node(inner) => seq![inner],
        SyntaxElement::Token(_) => seq![],
    });
}

/// A node with one more child has the tokens of that child besides, behind all others.
pub proof fn one_more_child_adds_its_tokens(
    node: SyntaxNode,
    more: SyntaxNode,
    child: SyntaxElement,
)
    requires
        more.children@ == node.children@.push(child),
    ensures
        descendant_tokens(more) == descendant_tokens(node) + match child {
            SyntaxElement::Node(inner) => descendant_tokens(inner),
            SyntaxElement::Token(token) => seq![token],
        },
        child_tokens(more) == child_tokens(node) + match child {
            SyntaxElement::Node(_) => seq![],
            SyntaxElement::Token(token) => seq![token],
        },
{
    reveal_with_fuel(forest_tokens, 2);
    reveal_with_fuel(descendant_tokens, 2);
    assert(more.children@.drop_last() =~= node.children@);
    assert(more.children@.last() == child);
    match child {
        SyntaxElement::Node(inner) => {
            assert(forest_tokens(more.children@) == forest_tokens(node.children@)
                + descendant_tokens(inner));
        },
        SyntaxElement::Token(token) => {
            assert(forest_tokens(more.children@) == forest_tokens(node.children@) + seq![token]);
        },
    }
    assert(child_tokens(more) =~= child_tokens(node) + match child {
        SyntaxElement::Node(_) => seq![],
        SyntaxElement::Token(token) => seq![token],
    });
}

/// A node without children is alone in its tree and has no tokens.
pub proof fn node_without_children_is_alone(node: SyntaxNode)
    requires
        node.children@.len() == 0,
    ensures
        descendants(node) == seq![node],
        child_nodes(node).len() == 0,
        descendant_tokens(node).len() == 0,
        child_tokens(node).len() == 0,
{
    reveal_with_fuel(forest_nodes, 2);
    reveal_with_fuel(descendants, 2);
    reveal_with_fuel(forest_tokens, 2);
    reveal_with_fuel(descendant_tokens, 2);
    assert(descendants(node) =~= seq![node]);
}

proof fn lemma_child_nodes_are_children(elements: Seq<SyntaxElement>)
    ensures
        forall|n: SyntaxNode| #[trigger]
            nodes_of(elements).contains(n) <==> elements.contains(SyntaxElement::Node(n)),
    decreases elements.len(),
{
    if elements.len() > 0 {
        let earlier = elements.drop_last();
        lemma_child_nodes_are_children(earlier);
        assert forall|n: SyntaxNode| #[trigger]
            nodes_of(elements).contains(n) <==> elements.contains(SyntaxElement::Node(n)) by {
            if nodes_of(elements).contains(n) {
                let k = choose|k: int| 0 <= k < nodes_of(elements).len() && nodes_of(elements)[k]
                    == n;
                if k < nodes_of(earlier).len() {
                    assert(nodes_of(earlier)[k] == n);
                    assert(nodes_of(earlier).contains(n));
                    let m = choose|m: int|
                        0 <= m < earlier.len() && earlier[m] == SyntaxElement::Node(n);
                    assert(elements[m] == SyntaxElement::Node(n));
                } else {
                    assert(elements[elements.len() - 1] == SyntaxElement::Node(n));
                }
            }
            if elements.contains(SyntaxElement::Node(n)) {
                let m = choose|m: int|
                    0 <= m < elements.len() && elements[m] == SyntaxElement::Node(n);
                if m < earlier.len() {
                    assert(earlier[m] == SyntaxElement::Node(n));
                    assert(earlier.contains(SyntaxElement::Node(n)));
                    assert(nodes_of(earlier).contains(n));
                    let k = choose|k: int| 0 <= k < nodes_of(earlier).len() && nodes_of(earlier)[k]
                        == n;
                    assert(nodes_of(elements)[k] == n);
                } else {
                    assert(nodes_of(elements)[nodes_of(elements).len() - 1] == n);
                }
            }
        }
    }
}

/// The child nodes of a node are exactly the nodes among its children.
pub proof fn child_nodes_are_the_nodes_among_the_children(node: SyntaxNode, child: SyntaxNode)
    ensures
        child_nodes(node).contains(child) <==> node.children@.contains(SyntaxElement::Node(child)),
{
    lemma_child_nodes_are_children(node.children@);
}

proof fn lemma_first_in_role(nodes: Seq<SyntaxNode>, role: Role)
    ensures
        match first_in_role(nodes, role) {
            Some(found) => exists|k: int|
                0 <= k < nodes.len() && #[trigger] nodes[k] == found && (match role {
                    Role::Column => found.class is ColumnDef,
                    Role::Constraint => found.class is Constraint,
                    Role::Type => found.class is TypeName,
                    Role::Default => found.class is DefaultExpr,
                }) && forall|m: int|
                    0 <= m < k ==> !(match role {
                        Role::Column => (#[trigger] nodes[m]).class is ColumnDef,
                        Role::Constraint => nodes[m].class is Constraint,
                        Role::Type => nodes[m].class is TypeName,
                        Role::Default => nodes[m].class is DefaultExpr,
                    }),
            None => forall|m: int|
                0 <= m < nodes.len() ==> !(match role {
                    Role::Column => (#[trigger] nodes[m]).class is ColumnDef,
                    Role::Constraint => nodes[m].class is Constraint,
                    Role::Type => nodes[m].class is TypeName,
                    Role::Default => nodes[m].class is DefaultExpr,
                }),
        },
    decreases nodes.len(),
{
    if nodes.len() > 0 {
        lemma_first_in_role(nodes.skip(1), role);
        let rest = nodes.skip(1);
        assert(forall|m: int| 0 <= m < rest.len() ==> #[trigger] rest[m] == nodes[m + 1]);
        assert(forall|m: int| 1 <= m < nodes.len() ==> #[trigger] nodes[m] == rest[m - 1]);
        if first_in_role(nodes, role) is Some && nodes[0] != first_in_role(nodes, role)->0 {
            let found = first_in_role(nodes, role)->0;
            let k = choose|k: int|
                0 <= k < rest.len() && #[trigger] rest[k] == found && forall|m: int|
                    0 <= m < k ==> !(match role {
                        Role::Column => (#[trigger] rest[m]).class is ColumnDef,
                        Role::Constraint => rest[m].class is Constraint,
                        Role::Type => rest[m].class is TypeName,
                        Role::Default => rest[m].class is DefaultExpr,
                    });
            assert(nodes[k + 1] == found);
        }
    }
}

/// The child in a role is the first child node of the class that goes with the role, and there
/// is none only if no child node is of that class.
pub proof fn child_in_role_is_the_first_of_its_class(node: SyntaxNode, role: Role)
    ensures
        match child_in_role(node, role) {
            Some(found) => exists|k: int|
                0 <= k < child_nodes(node).len() && #[trigger] child_nodes(node)[k] == found && (
                match role {
                    Role::Column => found.class is ColumnDef,
                    Role::Constraint => found.class is Constraint,
                    Role::Type => found.class is TypeName,
                    Role::Default => found.class is DefaultExpr,
                }) && forall|m: int|
                    0 <= m < k ==> !(match role {
                        Role::Column => (#[trigger] child_nodes(node)[m]).class is ColumnDef,
                        Role::Constraint => child_nodes(node)[m].class is Constraint,
                        Role::Type => child_nodes(node)[m].class is TypeName,
                        Role::Default => child_nodes(node)[m].class is DefaultExpr,
                    }),
            None => forall|m: int|
                0 <= m < child_nodes(node).len() ==> !(match role {
                    Role::Column => (#[trigger] child_nodes(node)[m]).class is ColumnDef,
                    Role::Constraint => child_nodes(node)[m].class is Constraint,
                    Role::Type => child_nodes(node)[m].class is TypeName,
                    Role::Default => child_nodes(node)[m].class is DefaultExpr,
                }),
        },
{
    lemma_first_in_role(child_nodes(node), role);
}

/// A sequence of tokens has a kind exactly when one of them is of that kind, and its kinds that
/// are not trivia are those of its tokens but for white space and comments.
pub proof fn kinds_are_those_of_the_tokens(
    tokens: Seq<SyntaxToken>,
    token: SyntaxToken,
    kind: TokenKind,
)
    ensures
        has_kind(tokens.push(token), kind) <==> has_kind(tokens, kind) || token.kind == kind,
        !has_kind(seq![], kind),
        plain_kinds(seq![]).len() == 0,
        plain_kinds(tokens.push(token)) == if token.kind is Whitespace || token.kind is Comment {
            plain_kinds(tokens)
        } else {
            plain_kinds(tokens).push(token.kind)
        },
{
    let more = tokens.push(token);
    assert(more.drop_last() =~= tokens);
    if has_kind(more, kind) {
        let i = choose|i: int| 0 <= i < more.len() && (#[trigger] more[i]).kind == kind;
        if i < tokens.len() {
            assert(tokens[i].kind == kind);
        }
    }
    if has_kind(tokens, kind) {
        let i = choose|i: int| 0 <= i < tokens.len() && (#[trigger] tokens[i]).kind == kind;
        assert(more[i].kind == kind);
    }
    if token.kind == kind {
        assert(more[tokens.len() as int].kind == kind);
    }
}

/// A row stands in a sequence exactly when the sequence is made of what is before it,
/// the row, and what is behind it.
pub proof fn row_stands_between_two_parts<T>(items: Seq<T>, run: Seq<T>)
    ensures
        in_row(items, run) <==> exists|before: Seq<T>, behind: Seq<T>|
            items == #[trigger] (before + run + behind),
{
    if in_row(items, run) {
        let at = choose|at: int|
            0 <= at && at + run.len() <= items.len() && #[trigger] items.subrange(
                at,
                at + run.len(),
            ) == run;
        let before = items.take(at);
        let behind = items.skip((at + run.len()) as int);
        assert(items =~= before + items.subrange(at, at + run.len()) + behind);
        assert(items == before + run + behind);
    }
    if exists|before: Seq<T>, behind: Seq<T>|
        items == #[trigger] (before + run + behind) {
        let (before, behind) = choose|before: Seq<T>, behind: Seq<T>|
            items == #[trigger] (before + run + behind);
        let at = before.len() as int;
        assert(items.subrange(at, at + run.len()) =~= run);
    }
}

/// The first token of a kind in a sequence is of that kind and no earlier one is.
pub proof fn first_of_kind_comes_before_all_others(tokens: Seq<SyntaxToken>, kind: TokenKind)
    ensures
        match first_of_kind(tokens, kind) {
            Some(found) => exists|k: int|
                0 <= k < tokens.len() && #[trigger] tokens[k] == found && found.kind == kind
                    && forall|m: int| 0 <= m < k ==> (#[trigger] tokens[m]).kind != kind,
            None => forall|m: int| 0 <= m < tokens.len() ==> (#[trigger] tokens[m]).kind != kind,
        },
    decreases tokens.len(),
{
    if tokens.len() > 0 {
        first_of_kind_comes_before_all_others(tokens.skip(1), kind);
        let rest = tokens.skip(1);
        assert(forall|m: int| 0 <= m < rest.len() ==> #[trigger] rest[m] == tokens[m + 1]);
        assert(forall|m: int| 1 <= m < tokens.len() ==> #[trigger] tokens[m] == rest[m - 1]);
        if tokens[0].kind != kind && first_of_kind(tokens, kind) is Some {
            let found = first_of_kind(tokens, kind)->0;
            let k = choose|k: int|
                0 <= k < rest.len() && #[trigger] rest[k] == found && forall|m: int|
                    0 <= m < k ==> (#[trigger] rest[m]).kind != kind;
            assert(tokens[k + 1] == found);
        }
    }
}

/// Text is inserted at the end of the first child token of a kind.
pub proof fn token_end_is_that_of_the_first_of_its_kind(node: SyntaxNode, kind: TokenKind)
    ensures
        match token_end(node, kind) {
            Some(end) => exists|k: int|
                0 <= k < child_tokens(node).len() && (#[trigger] child_tokens(node)[k]).range.end
                    == end && child_tokens(node)[k].kind == kind && forall|m: int|
                    0 <= m < k ==> (#[trigger] child_tokens(node)[m]).kind != kind,
            None => forall|m: int|
                0 <= m < child_tokens(node).len() ==> (#[trigger] child_tokens(node)[m]).kind
                    != kind,
        },
{
    first_of_kind_comes_before_all_others(child_tokens(node), kind);
}

proof fn lemma_greatest_end(tokens: Seq<SyntaxToken>)
    ensures
        match greatest_end(tokens) {
            Some(end) => {
                &&& exists|k: int|
                    0 <= k < tokens.len() && (#[trigger] tokens[k]).range.end == end && !(
                    tokens[k].kind is Whitespace || tokens[k].kind is Comment)
                &&& forall|k: int|
                    0 <= k < tokens.len() && !((#[trigger] tokens[k]).kind is Whitespace
                        || tokens[k].kind is Comment) ==> tokens[k].range.end <= end
            },
            None => forall|k: int|
                0 <= k < tokens.len() ==> (#[trigger] tokens[k]).kind is Whitespace
                    || tokens[k].kind is Comment,
        },
    decreases tokens.len(),
{
    if tokens.len() > 0 {
        let earlier = tokens.drop_last();
        lemma_greatest_end(earlier);
        assert(forall|k: int| 0 <= k < earlier.len() ==> #[trigger] earlier[k] == tokens[k]);
        assert(tokens[tokens.len() - 1] == tokens.last());
        if let Some(end) = greatest_end(earlier) {
            let k = choose|k: int|
                0 <= k < earlier.len() && (#[trigger] earlier[k]).range.end == end && !(
                earlier[k].kind is Whitespace || earlier[k].kind is Comment);
            assert(tokens[k].range.end == end);
        }
        if !(tokens.last().kind is Whitespace || tokens.last().kind is Comment) {
            assert(tokens[tokens.len() - 1].range.end == tokens.last().range.end);
        }
        assert forall|k: int|
            0 <= k < tokens.len() && !((#[trigger] tokens[k]).kind is Whitespace || tokens[k].kind
                is Comment) implies greatest_end(tokens) is Some && tokens[k].range.end
            <= greatest_end(tokens)->0 by {
            if k < earlier.len() {
                assert(earlier[k] == tokens[k]);
            }
        }
    }
}

/// Text is appended at the greatest end of the tokens below a node that are neither white space
/// nor comments.
pub proof fn last_token_end_is_the_greatest(node: SyntaxNode)
    ensures
        match last_token_end(node) {
            Some(end) => {
                &&& exists|k: int|
                    0 <= k < descendant_tokens(node).len() && (#[trigger] descendant_tokens(
                        node,
                    )[k]).range.end == end && !(descendant_tokens(node)[k].kind is Whitespace
                        || descendant_tokens(node)[k].kind is Comment)
                &&& forall|k: int|
                    0 <= k < descendant_tokens(node).len() && !((#[trigger] descendant_tokens(
                        node,
                    )[k]).kind is Whitespace || descendant_tokens(node)[k].kind is Comment)
                        ==> descendant_tokens(node)[k].range.end <= end
            },
            None => forall|k: int|
                0 <= k < descendant_tokens(node).len() ==> (#[trigger] descendant_tokens(
                    node,
                )[k]).kind is Whitespace || descendant_tokens(node)[k].kind is Comment,
        },
{
    lemma_greatest_end(descendant_tokens(node));
}

proof fn lemma_first_keyword(tokens: Seq<SyntaxToken>)
    ensures
        match first_keyword(tokens) {
            Some(kind) => exists|k: int|
                0 <= k < tokens.len() && (#[trigger] tokens[k]).kind == kind && !(kind is Whitespace
                    || kind is Comment || kind is Ident || kind is QuotedIdent || kind is Other)
                    && forall|m: int|
                    0 <= m < k ==> (#[trigger] tokens[m]).kind is Whitespace || tokens[m].kind
                        is Comment || tokens[m].kind is Ident || tokens[m].kind is QuotedIdent
                        || tokens[m].kind is Other,
            None => forall|m: int|
                0 <= m < tokens.len() ==> (#[trigger] tokens[m]).kind is Whitespace
                    || tokens[m].kind is Comment || tokens[m].kind is Ident || tokens[m].kind
                    is QuotedIdent || tokens[m].kind is Other,
        },
    decreases tokens.len(),
{
    if tokens.len() > 0 {
        lemma_first_keyword(tokens.skip(1));
        let rest = tokens.skip(1);
        assert(forall|m: int| 0 <= m < rest.len() ==> #[trigger] rest[m] == tokens[m + 1]);
        assert(forall|m: int| 1 <= m < tokens.len() ==> #[trigger] tokens[m] == rest[m - 1]);
        if !tokens[0].kind.keyword() && first_keyword(tokens) is Some {
            let kind = first_keyword(tokens)->0;
            let k = choose|k: int|
                0 <= k < rest.len() && (#[trigger] rest[k]).kind == kind && forall|m: int|
                    0 <= m < k ==> (#[trigger] rest[m]).kind is Whitespace || rest[m].kind
                        is Comment || rest[m].kind is Ident || rest[m].kind is QuotedIdent
                        || rest[m].kind is Other;
            assert(tokens[k + 1].kind == kind);
        }
    }
}

/// The first keyword of a sequence of tokens is the kind of the first one that is neither
/// trivia nor an identifier nor punctuation.
pub proof fn first_keyword_comes_before_all_others(tokens: Seq<SyntaxToken>)
    ensures
        match first_keyword(tokens) {
            Some(kind) => exists|k: int|
                0 <= k < tokens.len() && (#[trigger] tokens[k]).kind == kind && !(kind is Whitespace
                    || kind is Comment || kind is Ident || kind is QuotedIdent || kind is Other)
                    && forall|m: int|
                    0 <= m < k ==> (#[trigger] tokens[m]).kind is Whitespace || tokens[m].kind
                        is Comment || tokens[m].kind is Ident || tokens[m].kind is QuotedIdent
                        || tokens[m].kind is Other,
            None => forall|m: int|
                0 <= m < tokens.len() ==> (#[trigger] tokens[m]).kind is Whitespace
                    || tokens[m].kind is Comment || tokens[m].kind is Ident || tokens[m].kind
                    is QuotedIdent || tokens[m].kind is Other,
        },
{
    lemma_first_keyword(tokens);
}

/// The first child node of a class that goes with a role is the child in that role.
pub proof fn lemma_child_in_role(node: SyntaxNode, role: Role, c: int)
    requires
        0 <= c < child_nodes(node).len(),
        plays(child_nodes(node)[c].class, role),
        forall|m: int| 0 <= m < c ==> !plays((#[trigger] child_nodes(node)[m]).class, role),
    ensures
        child_in_role(node, role) == Some(child_nodes(node)[c]),
{
    child_in_role_is_the_first_of_its_class(node, role);
    if child_in_role(node, role) is Some {
        let found = child_in_role(node, role)->0;
        let k = choose|k: int|
            0 <= k < child_nodes(node).len() && #[trigger] child_nodes(node)[k] == found && plays(
                found.class,
                role,
            ) && forall|m: int|
                0 <= m < k ==> !plays((#[trigger] child_nodes(node)[m]).class, role);
        assert(child_nodes(node)[k].class == found.class);
        assert(k == c);
    } else {
        assert(!plays(child_nodes(node)[c].class, role));
    }
}

/// Without a child node of the class that goes with a role there is no child in that role.
pub proof fn lemma_no_child_in_role(node: SyntaxNode, role: Role)
    ensures
        child_in_role(node, role) is None <==> forall|m: int|
            0 <= m < child_nodes(node).len() ==> !plays(
                (#[trigger] child_nodes(node)[m]).class,
                role,
            ),
{
    child_in_role_is_the_first_of_its_class(node, role);
    if child_in_role(node, role) is Some {
        let found = child_in_role(node, role)->0;
        let k = choose|k: int|
            0 <= k < child_nodes(node).len() && #[trigger] child_nodes(node)[k] == found && plays(
                found.class,
                role,
            );
        assert(plays(child_nodes(node)[k].class, role));
    }
}

} // verus!
