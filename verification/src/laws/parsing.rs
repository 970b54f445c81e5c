//! What holds of every parse: theorems about the productions of
//! [`crate::grammar`], and so about the parse functions of [`crate::ast`].

use crate::grammar::{
    attr_assign, edge_continuation, edge_operator, edge_stmt, endpoint, graph, graph_body,
    identifier, is_strict_keyword, keyword_directed, lemma_stmt_consumes, stmt, stmt_list,
};
use crate::model::{
    hops_tokens, hops_wf, op_token, statement_tokens, statements_tokens, stmts_wf, valid_id,
    AttrAssign, EdgeChain, EdgeStmtOp, Endpoint, Failure, GraphModel, Hop, Statement,
};
use crate::text::{lowercase, Token, Tokens};
use vstd::prelude::*;

verus! {

/// An edge continuation that was read holds at least one hop, its endpoints
/// are identifiers, and its hops are the tokens consumed, in their order:
/// writing them out again and appending the tokens left gives back the input.
pub proof fn lemma_edge_continuation_faithful(ts: Tokens)
    ensures
        edge_continuation(ts) matches Ok((hops, rest)) ==> {
            &&& hops.len() > 0
            &&& hops_wf(hops)
            &&& hops_tokens(hops) + rest == ts
        },
    decreases ts.len(),
{
    if let Ok((op, after_op)) = edge_operator(ts) {
        if let Ok((to, after_hop)) = endpoint(after_op) {
            lemma_edge_continuation_faithful(after_hop);
            let (hops, rest) = edge_continuation(ts)->Ok_0;
            let more = hops.drop_first();
            assert(hops_tokens(more) + rest == after_hop) by {
                if let Ok((tail, _)) = edge_continuation(after_hop) {
                    assert(more == tail);
                } else {
                    assert(more == Seq::<Hop>::empty());
                }
            }
            assert(hops_wf(hops)) by {
                assert forall|i: int| 0 <= i < hops.len() implies (#[trigger] hops[i]).to.wf() by {
                    if i > 0 {
                        assert(hops[i] == more[i - 1]);
                    }
                }
            }
            let head = seq![ts[0], ts[1]];
            assert(hops_tokens(hops) == head + hops_tokens(more));
            assert(head + hops_tokens(more) + rest == head + (hops_tokens(more) + rest));
            assert(head + after_hop == ts);
        }
    }
}

/// An edge statement that was read holds identifiers only, and writing it out
/// again and appending the tokens left gives back the input.
pub proof fn lemma_edge_stmt_faithful(ts: Tokens)
    ensures
        edge_stmt(ts) matches Ok((chain, rest)) ==> {
            &&& chain.wf()
            &&& statement_tokens(Statement::Edge(chain)) + rest == ts
        },
{
    if let Ok((from, after_from)) = endpoint(ts) {
        lemma_edge_continuation_faithful(after_from);
        let (chain, rest) = edge_stmt(ts)->Ok_0;
        let head = seq![ts[0]];
        assert(hops_tokens(chain.hops) + rest == after_from);
        assert(head + hops_tokens(chain.hops) + rest == head + (hops_tokens(chain.hops) + rest));
        assert(head + after_from == ts);
    }
}

/// A statement that was read holds identifiers only, and writing it out again
/// and appending the tokens left gives back the input.
pub proof fn lemma_stmt_faithful(ts: Tokens)
    ensures
        stmt(ts) matches Ok((s, rest)) ==> s.wf() && statement_tokens(s) + rest == ts,
{
    if let Ok((a, rest)) = attr_assign(ts) {
        assert(statement_tokens(Statement::Assign(a)) + rest == ts);
    } else {
        lemma_edge_stmt_faithful(ts);
    }
}

/// A statement list that was read is not empty, holds identifiers only, and
/// keeps the statements in the order of the input: writing them out again and
/// appending the tokens left gives back the input.
pub proof fn lemma_stmt_list_faithful(ts: Tokens)
    ensures
        stmt_list(ts) matches Ok((stmts, rest)) ==> stmts_wf(stmts) && statements_tokens(stmts)
            + rest == ts,
    decreases ts.len(),
{
    if let Ok((first, after_first)) = stmt(ts) {
        lemma_stmt_consumes(ts);
        lemma_stmt_faithful(ts);
        lemma_stmt_list_faithful(after_first);
        let (stmts, rest) = stmt_list(ts)->Ok_0;
        let more = stmts.drop_first();
        assert(statements_tokens(more) + rest == after_first) by {
            if let Ok((tail, _)) = stmt_list(after_first) {
                assert(more == tail);
            } else {
                assert(more == Seq::<Statement>::empty());
            }
        }
        assert(stmts_wf(stmts)) by {
            assert forall|i: int| 0 <= i < stmts.len() implies (#[trigger] stmts[i]).wf() by {
                if i > 0 {
                    assert(stmts[i] == more[i - 1]);
                }
            }
        }
        assert(statements_tokens(stmts) + rest == ts);
    }
}

/// A graph body that was read is a well-formed statement list between
/// braces: `{`, the statements written out, `}`, and the tokens left give back
/// the input.
pub proof fn lemma_graph_body_faithful(ts: Tokens)
    ensures
        graph_body(ts) matches Ok((stmts, rest)) ==> {
            &&& stmts_wf(stmts)
            &&& seq!["{"@] + statements_tokens(stmts) + seq!["}"@] + rest == ts
        },
{
    if let Ok((stmts, rest)) = graph_body(ts) {
        let inner = ts.drop_first();
        lemma_stmt_list_faithful(inner);
        let after_inner = stmt_list(inner)->Ok_0.1;
        assert(after_inner == seq!["}"@] + rest);
        assert(statements_tokens(stmts) + seq!["}"@] + rest == statements_tokens(stmts) + (seq![
            "}"@,
        ] + rest));
        assert(seq!["{"@] + inner == ts);
        assert(seq!["{"@] + statements_tokens(stmts) + seq!["}"@] + rest == seq!["{"@] + (
        statements_tokens(stmts) + seq!["}"@] + rest));
    }
}

/// A graph that was read is well-formed, and nothing but the letter case of
/// its keywords is lost: `strict` was read if and only if the first token
/// spells it, the keyword after it decides the direction, and what follows
/// the keyword is the graph's body and the tokens left.
pub proof fn lemma_graph_faithful(ts: Tokens)
    ensures
        graph(ts) matches Ok((g, rest)) ==> {
            let keyword_at = if g.strict {
                1int
            } else {
                0int
            };
            &&& g.wf()
            &&& keyword_at < ts.len()
            &&& g.strict == is_strict_keyword(ts[0])
            &&& keyword_directed(lowercase(ts[keyword_at])) == Some(g.directed)
            &&& seq!["{"@] + statements_tokens(g.stmts) + seq!["}"@] + rest == ts.skip(
                keyword_at + 1,
            )
        },
{
    if let Ok((g, rest)) = graph(ts) {
        let keyword_at = if g.strict {
            1int
        } else {
            0int
        };
        assert(ts.skip(keyword_at).drop_first() == ts.skip(keyword_at + 1));
        assert(ts.skip(0) == ts);
        lemma_graph_body_faithful(ts.skip(keyword_at + 1));
    }
}

/// An edge continuation takes every hop that is there: where it stops, no
/// further edge continuation starts.
pub proof fn lemma_edge_continuation_maximal(ts: Tokens)
    ensures
        edge_continuation(ts) matches Ok((_, rest)) ==> edge_continuation(rest) is Err,
    decreases ts.len(),
{
    if let Ok((_, after_op)) = edge_operator(ts) {
        if let Ok((_, after_hop)) = endpoint(after_op) {
            lemma_edge_continuation_maximal(after_hop);
        }
    }
}

/// A statement fails exactly where no identifier stands at the front.
pub proof fn lemma_stmt_needs_identifier(ts: Tokens)
    ensures
        stmt(ts) is Err <==> identifier(ts) is Err,
{
}

/// A statement list takes every statement that is there: where it stops, no
/// statement starts, so the token at the front of what is left, if there is
/// one, is no identifier.
pub proof fn lemma_stmt_list_maximal(ts: Tokens)
    ensures
        stmt_list(ts) matches Ok((_, rest)) ==> {
            &&& stmt(rest) is Err
            &&& rest.len() > 0 ==> !valid_id(rest[0])
        },
    decreases ts.len(),
{
    if let Ok((_, after_first)) = stmt(ts) {
        lemma_stmt_consumes(ts);
        lemma_stmt_list_maximal(after_first);
    }
}

/// Where an identifier, `=` and an identifier stand at the front, the
/// statement read is that attribute assignment, whatever follows. `=` is no
/// edge operator, so the edge production alone would stop before it.
pub proof fn lemma_assignment_first(left: Token, right: Token, rest: Tokens)
    requires
        valid_id(left),
        valid_id(right),
    ensures
        stmt(seq![left, "="@, right] + rest) == Ok::<_, Failure>(
            (Statement::Assign(AttrAssign { left, right }), rest),
        ),
        edge_operator(seq!["="@, right] + rest) is Err,
        edge_stmt(seq![left, "="@, right] + rest) == Ok::<_, Failure>(
            (EdgeChain { from: Endpoint::Node(left), hops: Seq::empty() }, seq!["="@, right] + rest),
        ),
{
    let ts = seq![left, "="@, right] + rest;
    assert(ts.drop_first() == seq!["="@, right] + rest);
    assert(ts.drop_first().drop_first() == seq![right] + rest);
    assert((seq![right] + rest).drop_first() == rest);
    reveal_strlit("=");
    reveal_strlit("--");
    reveal_strlit("->");
    assert("="@.len() != "--"@.len());
    assert("="@.len() != "->"@.len());
}

/// Whether the four symbols of the grammar are no identifiers. This holds as
/// soon as `=`, `-`, `>` and `}` are not alphanumeric; the library knows the
/// character classes by name only and so cannot prove it.
pub open spec fn symbols_are_no_identifiers() -> bool {
    !valid_id("="@) && !valid_id("--"@) && !valid_id("->"@) && !valid_id("}"@)
}

/// Whether a statement can end before `rest`: nothing is left, or the token
/// at the front is neither `=` nor an edge operator.
pub open spec fn ends_statement(rest: Tokens) -> bool {
    rest.len() == 0 || (rest[0] != "="@ && rest[0] != "--"@ && rest[0] != "->"@)
}

/// Whether a statement list can end before `rest`: a statement can end
/// there, and the token at the front, if there is one, is no identifier.
pub open spec fn ends_stmt_list(rest: Tokens) -> bool {
    ends_statement(rest) && (rest.len() > 0 ==> !valid_id(rest[0]))
}

/// The texts of the operators and of `=` differ from one another.
proof fn lemma_symbols_differ()
    ensures
        "="@ != "--"@,
        "="@ != "->"@,
        "--"@ != "->"@,
        "}"@ != "="@,
        "}"@ != "--"@,
        "}"@ != "->"@,
        "{"@ != "}"@,
{
    reveal_strlit("=");
    reveal_strlit("--");
    reveal_strlit("->");
    reveal_strlit("}");
    reveal_strlit("{");
    assert("="@.len() != "--"@.len());
    assert("="@.len() != "->"@.len());
    assert("}"@.len() != "--"@.len());
    assert("}"@.len() != "->"@.len());
    assert("--"@[1] != "->"@[1]);
    assert("}"@[0] != "="@[0]);
    assert("{"@[0] != "}"@[0]);
}

/// Hops that are written out are read back as they were, where no further
/// hop follows them.
pub proof fn lemma_hops_round_trip(hops: Seq<Hop>, rest: Tokens)
    requires
        hops.len() > 0,
        hops_wf(hops),
        edge_continuation(rest) is Err,
    ensures
        edge_continuation(hops_tokens(hops) + rest) == Ok::<_, Failure>((hops, rest)),
    decreases hops.len(),
{
    lemma_symbols_differ();
    let first = hops[0];
    let more = hops.drop_first();
    let ts = hops_tokens(hops) + rest;
    let name = match first.to {
        Endpoint::Node(name) => name,
    };
    let after_hop = hops_tokens(more) + rest;
    assert(ts == seq![op_token(first.op), name] + after_hop);
    assert(ts.drop_first().drop_first() == after_hop);
    assert(first.to.wf());
    assert(edge_operator(ts) == Ok::<_, Failure>((first.op, ts.drop_first())));
    assert(endpoint(ts.drop_first()) == Ok::<_, Failure>((first.to, after_hop)));
    if more.len() == 0 {
        assert(after_hop == rest);
        assert(hops == seq![first]);
    } else {
        assert(hops_wf(more)) by {
            assert forall|i: int| 0 <= i < more.len() implies (#[trigger] more[i]).to.wf() by {
                assert(more[i] == hops[i + 1]);
            }
        }
        lemma_hops_round_trip(more, rest);
        assert(hops == seq![first] + more);
    }
}

/// A statement that is written out is read back as it was, where a statement
/// can end before what follows.
pub proof fn lemma_stmt_round_trip(s: Statement, rest: Tokens)
    requires
        s.wf(),
        ends_statement(rest),
    ensures
        stmt(statement_tokens(s) + rest) == Ok::<_, Failure>((s, rest)),
{
    lemma_symbols_differ();
    match s {
        Statement::Assign(a) => {
            lemma_assignment_first(a.left, a.right, rest);
        },
        Statement::Edge(chain) => {
            let name = match chain.from {
                Endpoint::Node(name) => name,
            };
            let ts = statement_tokens(s) + rest;
            let after_from = hops_tokens(chain.hops) + rest;
            assert(ts == seq![name] + after_from);
            assert(ts.drop_first() == after_from);
            assert(edge_continuation(rest) is Err);
            if chain.hops.len() == 0 {
                assert(after_from == rest);
                assert(chain.hops == Seq::<Hop>::empty());
            } else {
                lemma_hops_round_trip(chain.hops, rest);
                assert(after_from[0] == op_token(chain.hops[0].op));
            }
            assert(attr_assign(ts) is Err);
        },
    }
}

/// A statement list that is written out is read back as it was, where a
/// statement list can end before what follows: the parser loses nothing and
/// adds nothing.
pub proof fn lemma_stmt_list_round_trip(stmts: Seq<Statement>, rest: Tokens)
    requires
        symbols_are_no_identifiers(),
        stmts_wf(stmts),
        ends_stmt_list(rest),
    ensures
        stmt_list(statements_tokens(stmts) + rest) == Ok::<_, Failure>((stmts, rest)),
    decreases stmts.len(),
{
    let first = stmts[0];
    let more = stmts.drop_first();
    let ts = statements_tokens(stmts) + rest;
    let after_first = statements_tokens(more) + rest;
    assert(first.wf());
    assert(ts == statement_tokens(first) + after_first);
    if more.len() == 0 {
        assert(after_first == rest);
        lemma_stmt_round_trip(first, after_first);
        assert(stmts == seq![first]);
    } else {
        assert(stmts_wf(more)) by {
            assert forall|i: int| 0 <= i < more.len() implies (#[trigger] more[i]).wf() by {
                assert(more[i] == stmts[i + 1]);
            }
        }
        assert(more[0] == stmts[1]);
        assert(more[0].wf());
        assert(valid_id(after_first[0])) by {
            let next = statement_tokens(more[0]);
            assert(next.len() > 0 && valid_id(next[0]));
            assert(after_first[0] == next[0]);
        }
        lemma_stmt_round_trip(first, after_first);
        lemma_stmt_list_round_trip(more, rest);
        assert(stmts == seq![first] + more);
    }
}

/// A graph that is written out is read back as it was: after a keyword that
/// spells `graph` or `digraph`, with a token that spells `strict` before it or
/// not, the body between braces yields the graph with exactly these flags and
/// statements, and what follows the closing brace is left.
pub proof fn lemma_graph_round_trip(
    strict_token: Option<Token>,
    keyword: Token,
    g: GraphModel,
    rest: Tokens,
)
    requires
        symbols_are_no_identifiers(),
        g.wf(),
        g.strict == strict_token.is_some(),
        strict_token matches Some(t) ==> is_strict_keyword(t),
        strict_token is None ==> !is_strict_keyword(keyword),
        keyword_directed(lowercase(keyword)) == Some(g.directed),
    ensures
        graph(
            (match strict_token {
                Some(t) => seq![t, keyword],
                None => seq![keyword],
            }) + seq!["{"@] + statements_tokens(g.stmts) + seq!["}"@] + rest,
        ) == Ok::<_, Failure>((g, rest)),
{
    lemma_symbols_differ();
    let header = match strict_token {
        Some(t) => seq![t, keyword],
        None => seq![keyword],
    };
    let closing = seq!["}"@] + rest;
    let inner = statements_tokens(g.stmts) + closing;
    let body = seq!["{"@] + inner;
    let ts = header + seq!["{"@] + statements_tokens(g.stmts) + seq!["}"@] + rest;
    assert(ts == header + body);
    lemma_stmt_list_round_trip(g.stmts, closing);
    assert(body.drop_first() == inner);
    assert(closing.drop_first() == rest);
    assert(graph_body(body) == Ok::<_, Failure>((g.stmts, rest)));
    match strict_token {
        Some(t) => {
            assert(ts.drop_first().drop_first() == body);
        },
        None => {
            assert(ts.drop_first() == body);
        },
    }
}

/// The smallest graph: a keyword that spells `graph`, and between braces one
/// undirected edge from `a` to `b`. It is read as a graph that is neither
/// strict nor directed and holds that one edge statement, with one hop and
/// nothing after it.
pub proof fn lemma_minimal_graph(keyword: Token, a: Token, b: Token)
    requires
        symbols_are_no_identifiers(),
        lowercase(keyword) == "graph"@,
        valid_id(a),
        valid_id(b),
    ensures
        graph(seq![keyword, "{"@, a, "--"@, b, "}"@]) == Ok::<_, Failure>(
            (
                GraphModel {
                    strict: false,
                    directed: false,
                    stmts: seq![
                        Statement::Edge(
                            EdgeChain {
                                from: Endpoint::Node(a),
                                hops: seq![Hop { op: EdgeStmtOp::Undirected, to: Endpoint::Node(b) }],
                            },
                        ),
                    ],
                },
                Tokens::empty(),
            ),
        ),
{
    let hops = seq![Hop { op: EdgeStmtOp::Undirected, to: Endpoint::Node(b) }];
    let edge = Statement::Edge(EdgeChain { from: Endpoint::Node(a), hops });
    let g = GraphModel { strict: false, directed: false, stmts: seq![edge] };
    assert("graph"@ != "strict"@) by {
        reveal_strlit("graph");
        reveal_strlit("strict");
        assert("graph"@.len() != "strict"@.len());
    }
    assert(hops_tokens(hops) == seq!["--"@, b]) by {
        assert(hops.drop_first() == Seq::<Hop>::empty());
        assert(hops_tokens(hops.drop_first()) == Tokens::empty());
    }
    assert(statements_tokens(g.stmts) == seq![a, "--"@, b]) by {
        assert(g.stmts.drop_first() == Seq::<Statement>::empty());
        assert(statements_tokens(g.stmts.drop_first()) == Tokens::empty());
        assert(statement_tokens(edge) == seq![a, "--"@, b]);
    }
    lemma_graph_round_trip(None, keyword, g, Seq::empty());
    assert(seq![keyword] + seq!["{"@] + statements_tokens(g.stmts) + seq!["}"@] + Tokens::empty()
        == seq![keyword, "{"@, a, "--"@, b, "}"@]);
}

/// The first token counts by its lowercase form alone: another spelling of it
/// gives the same parse.
pub proof fn lemma_first_keyword_folds_case(ts: Tokens, respelled: Token)
    requires
        ts.len() > 0,
        lowercase(respelled) == lowercase(ts[0]),
    ensures
        graph(ts.update(0, respelled)) == graph(ts),
{
    let us = ts.update(0, respelled);
    assert(us.drop_first() == ts.drop_first());
}

/// After `strict`, the second token counts by its lowercase form alone:
/// another spelling of it gives the same parse.
pub proof fn lemma_second_keyword_folds_case(ts: Tokens, respelled: Token)
    requires
        ts.len() > 1,
        is_strict_keyword(ts[0]),
        lowercase(respelled) == lowercase(ts[1]),
    ensures
        graph(ts.update(1, respelled)) == graph(ts),
{
    let us = ts.update(1, respelled);
    assert(us.drop_first().drop_first() == ts.drop_first().drop_first());
}

} // verus!
