//! Chains of member accesses, `a.b.c`, and the trees that they parse to.

use super::ast::NodeView;
use super::errors::ParserErrorView;
use super::lexer::{
    is_name, lemma_lex_of_suffix, lemma_run_end_is, lex, prefixed, step, tokens_of, CharClass,
    Step, TokenView,
};
use super::parser::{
    continue_expression, infix_node, parse_expression, parse_tokens, rule_of, InfixFn, Parsed,
    INITIAL_PRECEDENCE,
};
use crate::compile;
use vstd::prelude::*;

verus! {

/// The tokens `.name` for each of `names`, in their order.
pub open spec fn accesses(names: Seq<Seq<char>>) -> Seq<TokenView>
    decreases names.len(),
{
    if names.len() == 0 {
        Seq::empty()
    } else {
        accesses(names.drop_last()) + seq![TokenView::Dot, TokenView::Identifier(names.last())]
    }
}

/// `receiver` with each of `names` accessed in turn: the access of the last
/// name is the root, and its receiver is the tree of all accesses before it.
pub open spec fn nested(receiver: NodeView, names: Seq<Seq<char>>) -> NodeView
    decreases names.len(),
{
    if names.len() == 0 {
        receiver
    } else {
        NodeView::InvocationExpression(
            Box::new(nested(receiver, names.drop_last())),
            Box::new(NodeView::Identifier(names.last())),
        )
    }
}

/// The tokens of the chain `names[0].names[1]. ... `, for at least one name.
pub open spec fn chain_tokens(names: Seq<Seq<char>>) -> Seq<TokenView> {
    seq![TokenView::Identifier(names[0])] + accesses(names.skip(1))
}

/// The left-nested tree of the chain `names[0].names[1]. ... `.
pub open spec fn chain_tree(names: Seq<Seq<char>>) -> NodeView {
    nested(NodeView::Identifier(names[0]), names.skip(1))
}

/// How many invocations are nested along the left spine of `node`.
pub open spec fn invocation_depth(node: NodeView) -> nat
    decreases node,
{
    match node {
        NodeView::InvocationExpression(left, _) => 1 + invocation_depth(*left),
        _ => 0,
    }
}

proof fn lemma_accesses_unfold_front(names: Seq<Seq<char>>)
    requires
        names.len() > 0,
    ensures
        accesses(names) == seq![TokenView::Dot, TokenView::Identifier(names[0])] + accesses(
            names.skip(1),
        ),
    decreases names.len(),
{
    if names.len() == 1 {
        assert(names.drop_last() =~= Seq::<Seq<char>>::empty());
        assert(names.skip(1) =~= Seq::<Seq<char>>::empty());
    } else {
        lemma_accesses_unfold_front(names.drop_last());
        assert(names.drop_last().skip(1) =~= names.skip(1).drop_last());
    }
}

proof fn lemma_nested_unfold_front(receiver: NodeView, names: Seq<Seq<char>>)
    requires
        names.len() > 0,
    ensures
        nested(receiver, names) == nested(
            NodeView::InvocationExpression(
                Box::new(receiver),
                Box::new(NodeView::Identifier(names[0])),
            ),
            names.skip(1),
        ),
    decreases names.len(),
{
    if names.len() == 1 {
        assert(nested(receiver, names.drop_last()) == receiver);
    } else {
        lemma_nested_unfold_front(receiver, names.drop_last());
        assert(names.drop_last().skip(1) =~= names.skip(1).drop_last());
    }
}

/// Each access adds one level to the left spine.
pub proof fn lemma_nested_depth(receiver: NodeView, names: Seq<Seq<char>>)
    ensures
        invocation_depth(nested(receiver, names)) == names.len() + invocation_depth(receiver),
    decreases names.len(),
{
    if names.len() > 0 {
        lemma_nested_depth(receiver, names.drop_last());
    }
}

/// After a receiver, a run of accesses `.a.b.c` is taken whole and nests to
/// the left.
pub proof fn lemma_accesses_nest_left(receiver: NodeView, names: Seq<Seq<char>>)
    ensures
        continue_expression(receiver, accesses(names), INITIAL_PRECEDENCE) == (Parsed {
            result: Ok(nested(receiver, names)),
            rest: Seq::empty(),
        }),
    decreases names.len(),
{
    if names.len() > 0 {
        let tokens = accesses(names);
        let later = accesses(names.skip(1));
        lemma_accesses_unfold_front(names);
        lemma_nested_unfold_front(receiver, names);
        assert(tokens.skip(1).skip(1) =~= later);
        // The right operand of the dot is the one name: the dot that may
        // follow binds no tighter than the dot itself.
        let right = parse_expression(tokens.skip(1), rule_of(TokenView::Dot).precedence);
        assert(right == (Parsed { result: Ok(NodeView::Identifier(names[0])), rest: later })) by {
            if names.len() > 1 {
                lemma_accesses_unfold_front(names.skip(1));
            }
        }
        let joined = NodeView::InvocationExpression(
            Box::new(receiver),
            Box::new(NodeView::Identifier(names[0])),
        );
        assert(infix_node(InfixFn::Dot, receiver, TokenView::Dot, tokens.skip(1)) == (Parsed {
            result: Ok(joined),
            rest: later,
        }));
        lemma_accesses_nest_left(joined, names.skip(1));
    }
}

/// A chain `a.b.c` of `n` names parses to the left-nested tree of its
/// accesses, `(a.b).c`: `n - 1` invocations deep, the last access at the
/// root.
pub proof fn lemma_chain_parses_left_nested(names: Seq<Seq<char>>)
    requires
        names.len() > 0,
    ensures
        parse_tokens(chain_tokens(names)) == Ok::<NodeView, ParserErrorView>(chain_tree(names)),
        invocation_depth(chain_tree(names)) == names.len() - 1,
        names.len() > 1 ==> chain_tree(names) == NodeView::InvocationExpression(
            Box::new(chain_tree(names.drop_last())),
            Box::new(NodeView::Identifier(names.last())),
        ),
{
    let tokens = chain_tokens(names);
    assert(tokens.skip(1) =~= accesses(names.skip(1)));
    lemma_accesses_nest_left(NodeView::Identifier(names[0]), names.skip(1));
    lemma_nested_depth(NodeView::Identifier(names[0]), names.skip(1));
    if names.len() > 1 {
        assert(names.skip(1).drop_last() =~= names.drop_last().skip(1));
    }
}

/// `names` written one after the other with a dot between them.
pub open spec fn dotted(names: Seq<Seq<char>>) -> Seq<char>
    decreases names.len(),
{
    if names.len() == 0 {
        Seq::empty()
    } else if names.len() == 1 {
        names[0]
    } else {
        names[0] + seq!['.'] + dotted(names.skip(1))
    }
}

/// The text of a chain of names has the tokens of the chain.
pub proof fn lemma_dotted_names_lex(names: Seq<Seq<char>>)
    requires
        names.len() > 0,
        forall|i: int| 0 <= i < names.len() ==> is_name(#[trigger] names[i]),
    ensures
        tokens_of(dotted(names)) == Ok::<Seq<TokenView>, ParserErrorView>(chain_tokens(names)),
    decreases names.len(),
{
    let s = dotted(names);
    let name = names[0];
    let n = name.len() as int;
    assert(s.subrange(0, n) =~= name);
    lemma_run_end_is(s, 1, n, CharClass::Name);
    if names.len() > 1 {
        let later = names.skip(1);
        assert(lex(s, n) == prefixed(seq![TokenView::Dot], lex(s, n + 1)));
        lemma_lex_of_suffix(s, n + 1);
        assert(s.subrange(n + 1, s.len() as int) =~= dotted(later));
        assert forall|i: int| 0 <= i < later.len() implies is_name(#[trigger] later[i]) by {}
        lemma_dotted_names_lex(later);
        lemma_accesses_unfold_front(later);
        assert(chain_tokens(names) =~= seq![TokenView::Identifier(name)] + (seq![TokenView::Dot]
            + chain_tokens(later)));
    }
}

/// The text `a.b.c` of a chain of names compiles to the left-nested tree of
/// its accesses, `(a.b).c`.
pub proof fn lemma_dotted_names_compile(names: Seq<Seq<char>>)
    requires
        names.len() > 0,
        forall|i: int| 0 <= i < names.len() ==> is_name(#[trigger] names[i]),
    ensures
        compile(dotted(names)) == Ok::<NodeView, ParserErrorView>(chain_tree(names)),
{
    lemma_dotted_names_lex(names);
    lemma_chain_parses_left_nested(names);
}

} // verus!
