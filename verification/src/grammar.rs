//! The grammar as mathematics: one function per production, from the tokens
//! that are left to the node read and the tokens left after it, or a failure.

use crate::model::{
    valid_id, AttrAssign, EdgeChain, EdgeStmtOp, Endpoint, Failure, GraphModel, Hop, Statement,
};
use crate::text::{lowercase, Token, Tokens};
use vstd::prelude::*;

verus! {

/// What a production yields: a node and the tokens after it, or a failure.
pub type Parsed<T> = Result<(T, Tokens), Failure>;

/// An identifier: the first token, if it is one.
pub open spec fn identifier(ts: Tokens) -> Parsed<Token> {
    if ts.len() == 0 {
        Err(Failure::EmptyInput)
    } else if !valid_id(ts[0]) {
        Err(Failure::InvalidIdentifier)
    } else {
        Ok((ts[0], ts.drop_first()))
    }
}

/// An attribute assignment: an identifier, `=`, an identifier.
pub open spec fn attr_assign(ts: Tokens) -> Parsed<AttrAssign> {
    match identifier(ts) {
        Err(e) => Err(e),
        Ok((left, after_left)) => if after_left.len() == 0 || after_left[0] != "="@ {
            Err(Failure::ExpectedEquals)
        } else {
            match identifier(after_left.drop_first()) {
                Err(e) => Err(e),
                Ok((right, rest)) => Ok((AttrAssign { left, right }, rest)),
            }
        },
    }
}

/// An edge endpoint: an identifier, read as a node.
pub open spec fn endpoint(ts: Tokens) -> Parsed<Endpoint> {
    match identifier(ts) {
        Err(e) => Err(e),
        Ok((name, rest)) => Ok((Endpoint::Node(name), rest)),
    }
}

/// An edge operator: `--` or `->`.
pub open spec fn edge_operator(ts: Tokens) -> Parsed<EdgeStmtOp> {
    if ts.len() > 0 && ts[0] == "--"@ {
        Ok((EdgeStmtOp::Undirected, ts.drop_first()))
    } else if ts.len() > 0 && ts[0] == "->"@ {
        Ok((EdgeStmtOp::Directed, ts.drop_first()))
    } else {
        Err(Failure::ExpectedEdgeOperator)
    }
}

/// An edge continuation: an operator and an endpoint, then as many more such
/// pairs as follow. It fails only if the first pair is not there; a later pair
/// that fails to parse ends the chain before it.
pub open spec fn edge_continuation(ts: Tokens) -> Parsed<Seq<Hop>>
    decreases ts.len(),
{
    match edge_operator(ts) {
        Err(e) => Err(e),
        Ok((op, after_op)) => match endpoint(after_op) {
            Err(e) => Err(e),
            Ok((to, after_hop)) => match edge_continuation(after_hop) {
                Ok((more, rest)) => Ok((seq![Hop { op, to }] + more, rest)),
                Err(_) => Ok((seq![Hop { op, to }], after_hop)),
            },
        },
    }
}

/// An edge statement: an endpoint, then an edge continuation if one follows.
pub open spec fn edge_stmt(ts: Tokens) -> Parsed<EdgeChain> {
    match endpoint(ts) {
        Err(e) => Err(e),
        Ok((from, after_from)) => match edge_continuation(after_from) {
            Ok((hops, rest)) => Ok((EdgeChain { from, hops }, rest)),
            Err(_) => Ok((EdgeChain { from, hops: Seq::empty() }, after_from)),
        },
    }
}

/// A statement: an attribute assignment if the tokens start with one, else an
/// edge statement. If neither is there, the failure carries `ts`.
pub open spec fn stmt(ts: Tokens) -> Parsed<Statement> {
    match attr_assign(ts) {
        Ok((a, rest)) => Ok((Statement::Assign(a), rest)),
        Err(_) => match edge_stmt(ts) {
            Ok((e, rest)) => Ok((Statement::Edge(e), rest)),
            Err(_) => Err(Failure::ExpectedStatement(ts)),
        },
    }
}

/// A statement list: one statement, then as many more as follow. It fails
/// only if the first statement is not there.
pub open spec fn stmt_list(ts: Tokens) -> Parsed<Seq<Statement>>
    decreases ts.len(),
    via stmt_list_decreases
{
    match stmt(ts) {
        Err(e) => Err(e),
        Ok((first, after_first)) => match stmt_list(after_first) {
            Ok((more, rest)) => Ok((seq![first] + more, rest)),
            Err(_) => Ok((seq![first], after_first)),
        },
    }
}

#[via_fn]
proof fn stmt_list_decreases(ts: Tokens) {
    lemma_stmt_consumes(ts);
}

/// A successful edge continuation leaves fewer tokens than it was given.
pub proof fn lemma_edge_continuation_consumes(ts: Tokens)
    ensures
        edge_continuation(ts) matches Ok((_, rest)) ==> rest.len() < ts.len(),
    decreases ts.len(),
{
    if let Ok((_, after_op)) = edge_operator(ts) {
        if let Ok((_, after_hop)) = endpoint(after_op) {
            lemma_edge_continuation_consumes(after_hop);
        }
    }
}

/// A successful statement leaves fewer tokens than it was given.
pub proof fn lemma_stmt_consumes(ts: Tokens)
    ensures
        stmt(ts) matches Ok((_, rest)) ==> rest.len() < ts.len(),
{
    if let Ok((_, after_from)) = endpoint(ts) {
        lemma_edge_continuation_consumes(after_from);
    }
}

/// Whether `t` spells the keyword `strict`, in any letter case.
pub open spec fn is_strict_keyword(t: Token) -> bool {
    lowercase(t) == "strict"@
}

/// Which kind of graph a lowercase keyword opens: `graph` an undirected one,
/// `digraph` a directed one, any other text none.
pub open spec fn keyword_directed(lowered: Token) -> Option<bool> {
    if lowered == "graph"@ {
        Some(false)
    } else if lowered == "digraph"@ {
        Some(true)
    } else {
        None
    }
}

/// A graph body: `{`, a statement list and `}`.
pub open spec fn graph_body(ts: Tokens) -> Parsed<Seq<Statement>> {
    if ts.len() == 0 {
        Err(Failure::EmptyInput)
    } else if ts[0] != "{"@ {
        Err(Failure::ExpectedOpenBrace)
    } else if ts.len() == 1 {
        Err(Failure::EmptyInput)
    } else {
        match stmt_list(ts.drop_first()) {
            Err(e) => Err(e),
            Ok((stmts, after)) => if after.len() == 0 {
                Err(Failure::EmptyInput)
            } else if after[0] != "}"@ {
                Err(Failure::ExpectedCloseBrace)
            } else {
                Ok((stmts, after.drop_first()))
            },
        }
    }
}

/// A graph: an optional `strict`, then `graph` or `digraph`, then a graph
/// body. The three keywords are matched by their lowercase form.
pub open spec fn graph(ts: Tokens) -> Parsed<GraphModel> {
    let strict = ts.len() > 0 && is_strict_keyword(ts[0]);
    let after_strict = if strict {
        ts.drop_first()
    } else {
        ts
    };
    if after_strict.len() == 0 {
        Err(Failure::EmptyInput)
    } else {
        match keyword_directed(lowercase(after_strict[0])) {
            None => Err(Failure::ExpectedGraphKeyword),
            Some(directed) => match graph_body(after_strict.drop_first()) {
                Err(e) => Err(e),
                Ok((stmts, rest)) => Ok((GraphModel { strict, directed, stmts }, rest)),
            },
        }
    }
}

} // verus!
