//! The syntax tree as mathematics: what each node of [`crate::ast`] stands
//! for, with chains flattened into sequences.

use crate::text::{alphabetic, alphanumeric, lowercase, Token, Tokens};
use vstd::prelude::*;

verus! {

/// Whether `s` is one of the words that no identifier may spell.
pub open spec fn is_reserved(s: Token) -> bool {
    s == "node"@ || s == "edge"@ || s == "graph"@ || s == "digraph"@ || s == "subgraph"@ || s
        == "strict"@
}

/// Whether every character of `t` is alphanumeric and the first one is
/// alphabetic. The empty token has no first character.
pub open spec fn has_id_shape(t: Token) -> bool {
    &&& t.len() > 0
    &&& alphabetic(t[0])
    &&& forall|i: int| 0 <= i < t.len() ==> alphanumeric(#[trigger] t[i])
}

/// Whether `t` is an identifier: it has the shape of one, and its lowercase
/// form is no reserved word.
pub open spec fn valid_id(t: Token) -> bool {
    has_id_shape(t) && !is_reserved(lowercase(t))
}

/// The operator between two endpoints of an edge.
#[derive(Clone, Copy, Debug, PartialEq, Eq)]
pub enum EdgeStmtOp {
    /// `->`
    Directed,
    /// `--`
    Undirected,
}

/// One end of an edge.
pub enum Endpoint {
    /// A node, named by an identifier.
    Node(Token),
}

/// One step of an edge chain: an operator and the endpoint it leads to.
pub struct Hop {
    pub op: EdgeStmtOp,
    pub to: Endpoint,
}

/// An edge statement: where it starts, and the hops from there, in order.
/// Without hops it names a single node.
pub struct EdgeChain {
    pub from: Endpoint,
    pub hops: Seq<Hop>,
}

/// An attribute assignment `left = right`.
pub struct AttrAssign {
    pub left: Token,
    pub right: Token,
}

/// A statement of a graph body.
pub enum Statement {
    Assign(AttrAssign),
    Edge(EdgeChain),
}

/// A whole graph: its two flags and its statements, in order.
pub struct GraphModel {
    pub strict: bool,
    pub directed: bool,
    pub stmts: Seq<Statement>,
}

/// Why a production rejected its input.
pub enum Failure {
    /// A token was needed and none was left.
    EmptyInput,
    /// The token at the front is no identifier.
    InvalidIdentifier,
    /// `=` was needed.
    ExpectedEquals,
    /// `--` or `->` was needed.
    ExpectedEdgeOperator,
    /// `graph` or `digraph` was needed.
    ExpectedGraphKeyword,
    /// `{` was needed.
    ExpectedOpenBrace,
    /// `}` was needed.
    ExpectedCloseBrace,
    /// No statement starts here; the tokens that were left are attached.
    ExpectedStatement(Tokens),
}

impl Endpoint {
    /// Whether the endpoint names its node by an identifier.
    pub open spec fn wf(self) -> bool {
        match self {
            Endpoint::Node(name) => valid_id(name),
        }
    }
}

/// Whether every hop leads to a well-formed endpoint.
pub open spec fn hops_wf(hops: Seq<Hop>) -> bool {
    forall|i: int| 0 <= i < hops.len() ==> (#[trigger] hops[i]).to.wf()
}

impl EdgeChain {
    /// Whether every endpoint of the chain is well-formed.
    pub open spec fn wf(self) -> bool {
        self.from.wf() && hops_wf(self.hops)
    }
}

impl AttrAssign {
    /// Whether both sides are identifiers.
    pub open spec fn wf(self) -> bool {
        valid_id(self.left) && valid_id(self.right)
    }
}

impl Statement {
    /// Whether the statement holds identifiers only.
    pub open spec fn wf(self) -> bool {
        match self {
            Statement::Assign(a) => a.wf(),
            Statement::Edge(e) => e.wf(),
        }
    }
}

/// Whether `stmts` can be a statement list: it is not empty and each of its
/// statements is well-formed.
pub open spec fn stmts_wf(stmts: Seq<Statement>) -> bool {
    &&& stmts.len() > 0
    &&& forall|i: int| 0 <= i < stmts.len() ==> (#[trigger] stmts[i]).wf()
}

impl GraphModel {
    /// Whether the graph's statements form a statement list.
    pub open spec fn wf(self) -> bool {
        stmts_wf(self.stmts)
    }
}

/// The token that stands for an operator.
pub open spec fn op_token(op: EdgeStmtOp) -> Token {
    match op {
        EdgeStmtOp::Undirected => "--"@,
        EdgeStmtOp::Directed => "->"@,
    }
}

/// The tokens that an endpoint is written with.
pub open spec fn endpoint_tokens(e: Endpoint) -> Tokens {
    match e {
        Endpoint::Node(name) => seq![name],
    }
}

/// The tokens that a run of hops is written with.
pub open spec fn hops_tokens(hops: Seq<Hop>) -> Tokens
    decreases hops.len(),
{
    if hops.len() == 0 {
        Seq::empty()
    } else {
        seq![op_token(hops[0].op)] + endpoint_tokens(hops[0].to) + hops_tokens(hops.drop_first())
    }
}

/// The tokens that a statement is written with.
pub open spec fn statement_tokens(s: Statement) -> Tokens {
    match s {
        Statement::Assign(a) => seq![a.left, "="@, a.right],
        Statement::Edge(e) => endpoint_tokens(e.from) + hops_tokens(e.hops),
    }
}

/// The tokens that a run of statements is written with.
pub open spec fn statements_tokens(stmts: Seq<Statement>) -> Tokens
    decreases stmts.len(),
{
    if stmts.len() == 0 {
        Seq::empty()
    } else {
        statement_tokens(stmts[0]) + statements_tokens(stmts.drop_first())
    }
}

} // verus!
