//! The syntax tree and the recursive-descent parser that builds it.
//!
//! Every parse function takes the tokens that are left and returns the node
//! it read with a fresh copy of the tokens after it, or the reason why it
//! read nothing. Its contract says that this is exactly what the production
//! of the same name in [`crate::grammar`] yields.

use crate::grammar;
use crate::laws;
use crate::model;
use crate::model::{AttrAssign, EdgeChain, Endpoint, Failure, GraphModel, Hop, Statement};
use crate::text::{suffix, token_is, Token, Tokens};
use vstd::prelude::*;

pub use crate::model::EdgeStmtOp;

verus! {

/// A validated name.
#[derive(Debug, PartialEq)]
pub struct ID {
    pub name: String,
}

/// An attribute assignment `id_left = id_right`.
#[derive(Debug, PartialEq)]
pub struct IDEqStmt {
    pub id_left: ID,
    pub id_right: ID,
}

/// One end of an edge.
#[derive(Debug, PartialEq)]
pub enum EdgeStmtEdge {
    NodeID(ID),
}

/// An operator, the endpoint it leads to, and the rest of the chain.
#[derive(Debug, PartialEq)]
pub struct EdgeStmtRHS {
    pub edge_op: EdgeStmtOp,
    pub edge_egdge: EdgeStmtEdge,
    pub edge_rhs: Option<Box<EdgeStmtRHS>>,
}

/// An endpoint and the chain that starts from it, if any.
#[derive(Debug, PartialEq)]
pub struct EdgeStmt {
    pub edge_edge: EdgeStmtEdge,
    pub edge_rhs: Option<Box<EdgeStmtRHS>>,
}

/// A statement of a graph body.
#[derive(Debug, PartialEq)]
pub enum Stmt {
    IDEqStmt(IDEqStmt),
    EdgeStmt(EdgeStmt),
}

/// A statement and the statements after it.
#[derive(Debug, PartialEq)]
pub struct StmtList {
    pub stmt: Stmt,
    pub stmt_list: Option<Box<StmtList>>,
}

/// A whole graph.
#[derive(Debug, PartialEq)]
pub struct Graph {
    pub strict: bool,
    pub is_digraph: bool,
    pub stmt_list: StmtList,
}

/// Why a parse function rejected its input.
#[derive(Debug, PartialEq, Eq)]
pub enum ParseError {
    /// A token was needed and none was left.
    EmptyInput,
    /// The token at the front is no identifier.
    InvalidIdentifier,
    /// `=` was needed.
    ExpectedEquals,
    /// `--` or `->` was needed.
    ExpectedEdgeOperator,
    /// `graph` or `digraph` was needed.
    ExpectedGraphKeyword,
    /// `{` was needed.
    ExpectedOpenBrace,
    /// `}` was needed.
    ExpectedCloseBrace,
    /// No statement starts here; the tokens that were left are attached.
    ExpectedStatement(Vec<String>),
}

impl View for EdgeStmtOp {
    type V = EdgeStmtOp;

    open spec fn view(&self) -> EdgeStmtOp {
        *self
    }
}

impl View for ID {
    type V = Token;

    open spec fn view(&self) -> Token {
        self.name@
    }
}

impl View for IDEqStmt {
    type V = AttrAssign;

    open spec fn view(&self) -> AttrAssign {
        AttrAssign { left: self.id_left@, right: self.id_right@ }
    }
}

impl View for EdgeStmtEdge {
    type V = Endpoint;

    open spec fn view(&self) -> Endpoint {
        match self {
            EdgeStmtEdge::NodeID(id) => Endpoint::Node(id@),
        }
    }
}

impl View for EdgeStmtRHS {
    type V = Seq<Hop>;

    /// The chain as a sequence: this hop first, then the hops of the tail.
    open spec fn view(&self) -> Seq<Hop>
        decreases self,
    {
        let first = seq![Hop { op: self.edge_op, to: self.edge_egdge@ }];
        match self.edge_rhs {
            Some(tail) => first + (*tail).view(),
            None => first,
        }
    }
}

impl View for EdgeStmt {
    type V = EdgeChain;

    open spec fn view(&self) -> EdgeChain {
        EdgeChain {
            from: self.edge_edge@,
            hops: match self.edge_rhs {
                Some(chain) => (*chain).view(),
                None => Seq::empty(),
            },
        }
    }
}

impl View for Stmt {
    type V = Statement;

    open spec fn view(&self) -> Statement {
        match self {
            Stmt::IDEqStmt(s) => Statement::Assign(s@),
            Stmt::EdgeStmt(s) => Statement::Edge(s@),
        }
    }
}

impl View for StmtList {
    type V = Seq<Statement>;

    /// The list as a sequence: this statement first, then those of the tail.
    open spec fn view(&self) -> Seq<Statement>
        decreases self,
    {
        let first = seq![self.stmt@];
        match self.stmt_list {
            Some(tail) => first + (*tail).view(),
            None => first,
        }
    }
}

impl View for Graph {
    type V = GraphModel;

    open spec fn view(&self) -> GraphModel {
        GraphModel { strict: self.strict, directed: self.is_digraph, stmts: self.stmt_list@ }
    }
}

impl View for ParseError {
    type V = Failure;

    open spec fn view(&self) -> Failure {
        match self {
            ParseError::EmptyInput => Failure::EmptyInput,
            ParseError::InvalidIdentifier => Failure::InvalidIdentifier,
            ParseError::ExpectedEquals => Failure::ExpectedEquals,
            ParseError::ExpectedEdgeOperator => Failure::ExpectedEdgeOperator,
            ParseError::ExpectedGraphKeyword => Failure::ExpectedGraphKeyword,
            ParseError::ExpectedOpenBrace => Failure::ExpectedOpenBrace,
            ParseError::ExpectedCloseBrace => Failure::ExpectedCloseBrace,
            ParseError::ExpectedStatement(left) => Failure::ExpectedStatement(left.deep_view()),
        }
    }
}

impl ID {
    /// Whether the name is an identifier.
    pub open spec fn wf(&self) -> bool {
        model::valid_id(self@)
    }
}

impl IDEqStmt {
    /// Whether both sides are identifiers.
    pub open spec fn wf(&self) -> bool {
        self@.wf()
    }
}

impl EdgeStmtEdge {
    /// Whether the endpoint names its node by an identifier.
    pub open spec fn wf(&self) -> bool {
        self@.wf()
    }
}

impl EdgeStmtRHS {
    /// Whether every endpoint of the chain is well-formed.
    pub open spec fn wf(&self) -> bool {
        model::hops_wf(self@)
    }
}

impl EdgeStmt {
    /// Whether every endpoint of the statement is well-formed.
    pub open spec fn wf(&self) -> bool {
        self@.wf()
    }
}

impl Stmt {
    /// Whether the statement holds identifiers only.
    pub open spec fn wf(&self) -> bool {
        self@.wf()
    }
}

impl StmtList {
    /// Whether every statement of the list is well-formed.
    pub open spec fn wf(&self) -> bool {
        model::stmts_wf(self@)
    }
}

impl Graph {
    /// Whether every statement of the graph is well-formed.
    pub open spec fn wf(&self) -> bool {
        self@.wf()
    }
}

/// What a parse function returned, as the grammar states it.
pub open spec fn outcome<T: View>(r: Result<(T, Vec<String>), ParseError>) -> grammar::Parsed<T::V> {
    match r {
        Ok((node, rest)) => Ok((node@, rest.deep_view())),
        Err(e) => Err(e@),
    }
}

/// Whether `lowered` is one of the reserved words. The caller passes the
/// lowercase form of the token in question.
pub fn is_reserved_word(lowered: &String) -> (reserved: bool)
    ensures
        reserved == model::is_reserved(lowered@),
{
    token_is(lowered, "node") || token_is(lowered, "edge") || token_is(lowered, "graph")
        || token_is(lowered, "digraph") || token_is(lowered, "subgraph") || token_is(
        lowered,
        "strict",
    )
}

/// Whether every character of `token` is alphanumeric and the first one is
/// alphabetic.
pub fn has_id_shape(token: &String) -> (ok: bool)
    ensures
        ok == model::has_id_shape(token@),
{
    let mut first = true;
    for c in it: token.as_str().chars()
        invariant
            it.seq() == token@,
            first == (it.index() == 0),
            it.index() > 0 ==> model::has_id_shape(token@.take(it.index())),
    {
        if !c.is_alphanumeric() {
            return false;
        }
        if first && !c.is_alphabetic() {
            return false;
        }
        first = false;
    }
    assert(token@.take(token@.len() as int) == token@);
    !first
}

/// Whether `token` can be an identifier.
pub fn valid_as_id(token: &String) -> (valid: bool)
    ensures
        valid == model::valid_id(token@),
{
    let lowered = token.as_str().to_lowercase();
    !is_reserved_word(&lowered) && has_id_shape(token)
}

/// Reads an identifier.
pub fn parse_id(tokens: &Vec<String>) -> (r: Result<(ID, Vec<String>), ParseError>)
    ensures
        outcome(r) == grammar::identifier(tokens.deep_view()),
        r matches Ok((node, _)) ==> node.wf(),
{
    if tokens.len() == 0 {
        return Err(ParseError::EmptyInput);
    }
    if !valid_as_id(&tokens[0]) {
        return Err(ParseError::InvalidIdentifier);
    }
    Ok((ID { name: tokens[0].clone() }, suffix(tokens, 1)))
}

/// Reads an attribute assignment: an identifier, `=`, an identifier.
pub fn parse_id_eq_stmt(tokens: &Vec<String>) -> (r: Result<(IDEqStmt, Vec<String>), ParseError>)
    ensures
        outcome(r) == grammar::attr_assign(tokens.deep_view()),
        r matches Ok((node, _)) ==> node.wf(),
{
    let (id_left, rest) = match parse_id(tokens) {
        Ok(read) => read,
        Err(e) => {
            return Err(e);
        },
    };
    if rest.len() == 0 || !token_is(&rest[0], "=") {
        return Err(ParseError::ExpectedEquals);
    }
    let after_equals = suffix(&rest, 1);
    match parse_id(&after_equals) {
        Ok((id_right, rest)) => Ok((IDEqStmt { id_left, id_right }, rest)),
        Err(e) => Err(e),
    }
}

/// Reads an edge endpoint: an identifier, taken as a node.
pub fn parse_edge_stmt_edge(tokens: &Vec<String>) -> (r: Result<
    (EdgeStmtEdge, Vec<String>),
    ParseError,
>)
    ensures
        outcome(r) == grammar::endpoint(tokens.deep_view()),
        r matches Ok((node, _)) ==> node.wf(),
{
    match parse_id(tokens) {
        Ok((id, rest)) => Ok((EdgeStmtEdge::NodeID(id), rest)),
        Err(e) => Err(e),
    }
}

/// Reads an edge operator: `--` or `->`.
pub fn parse_edge_stmt_op(tokens: &Vec<String>) -> (r: Result<
    (EdgeStmtOp, Vec<String>),
    ParseError,
>)
    ensures
        outcome(r) == grammar::edge_operator(tokens.deep_view()),
{
    if tokens.len() == 0 {
        return Err(ParseError::ExpectedEdgeOperator);
    }
    if token_is(&tokens[0], "--") {
        Ok((EdgeStmtOp::Undirected, suffix(tokens, 1)))
    } else if token_is(&tokens[0], "->") {
        Ok((EdgeStmtOp::Directed, suffix(tokens, 1)))
    } else {
        Err(ParseError::ExpectedEdgeOperator)
    }
}

/// Reads an edge continuation: an operator and an endpoint, then as many
/// more such pairs as follow.
pub fn parse_edge_stmt_rhs(tokens: &Vec<String>) -> (r: Result<
    (EdgeStmtRHS, Vec<String>),
    ParseError,
>)
    ensures
        outcome(r) == grammar::edge_continuation(tokens.deep_view()),
        r matches Ok((node, _)) ==> node.wf(),
    decreases tokens.len(),
{
    proof {
        laws::parsing::lemma_edge_continuation_faithful(tokens.deep_view());
    }
    let (edge_op, rest) = match parse_edge_stmt_op(tokens) {
        Ok(read) => read,
        Err(e) => {
            return Err(e);
        },
    };
    let (edge_edge, rest) = match parse_edge_stmt_edge(&rest) {
        Ok(read) => read,
        Err(e) => {
            return Err(e);
        },
    };
    assert(rest.deep_view().len() < tokens.deep_view().len());
    match parse_edge_stmt_rhs(&rest) {
        Ok((edge_rhs, rest)) => Ok(
            (EdgeStmtRHS { edge_op, edge_egdge: edge_edge, edge_rhs: Some(Box::new(edge_rhs)) }, rest),
        ),
        Err(_) => Ok((EdgeStmtRHS { edge_op, edge_egdge: edge_edge, edge_rhs: None }, rest)),
    }
}

/// Reads an edge statement: an endpoint, then an edge continuation if one
/// follows.
pub fn parse_edge_stmt(tokens: &Vec<String>) -> (r: Result<(EdgeStmt, Vec<String>), ParseError>)
    ensures
        outcome(r) == grammar::edge_stmt(tokens.deep_view()),
        r matches Ok((node, _)) ==> node.wf(),
{
    proof {
        laws::parsing::lemma_edge_stmt_faithful(tokens.deep_view());
    }
    let (edge_edge, rest) = match parse_edge_stmt_edge(tokens) {
        Ok(read) => read,
        Err(e) => {
            return Err(e);
        },
    };
    match parse_edge_stmt_rhs(&rest) {
        Ok((edge_rhs, rest)) => Ok((EdgeStmt { edge_edge, edge_rhs: Some(Box::new(edge_rhs)) }, rest)),
        Err(_) => Ok((EdgeStmt { edge_edge, edge_rhs: None }, rest)),
    }
}

/// Reads a statement: an attribute assignment if the tokens start with one,
/// else an edge statement.
pub fn parse_stmt(tokens: &Vec<String>) -> (r: Result<(Stmt, Vec<String>), ParseError>)
    ensures
        outcome(r) == grammar::stmt(tokens.deep_view()),
        r matches Ok((node, _)) ==> node.wf(),
{
    proof {
        laws::parsing::lemma_stmt_faithful(tokens.deep_view());
    }
    if let Ok((id_eq_stmt, rest)) = parse_id_eq_stmt(tokens) {
        return Ok((Stmt::IDEqStmt(id_eq_stmt), rest));
    }
    if let Ok((edge_stmt, rest)) = parse_edge_stmt(tokens) {
        return Ok((Stmt::EdgeStmt(edge_stmt), rest));
    }
    assert(tokens.deep_view().skip(0) == tokens.deep_view());
    Err(ParseError::ExpectedStatement(suffix(tokens, 0)))
}

/// Reads a statement list: one statement, then as many more as follow.
pub fn parse_stmt_list(tokens: &Vec<String>) -> (r: Result<(StmtList, Vec<String>), ParseError>)
    ensures
        outcome(r) == grammar::stmt_list(tokens.deep_view()),
        r matches Ok((node, _)) ==> node.wf(),
    decreases tokens.len(),
{
    proof {
        laws::parsing::lemma_stmt_list_faithful(tokens.deep_view());
    }
    let (stmt, rest) = match parse_stmt(tokens) {
        Ok(read) => read,
        Err(e) => {
            return Err(e);
        },
    };
    proof {
        grammar::lemma_stmt_consumes(tokens.deep_view());
        assert(rest.deep_view().len() < tokens.deep_view().len());
    }
    match parse_stmt_list(&rest) {
        Ok((stmt_list, rest)) => Ok((StmtList { stmt, stmt_list: Some(Box::new(stmt_list)) }, rest)),
        Err(_) => Ok((StmtList { stmt, stmt_list: None }, rest)),
    }
}

/// Which kind of graph a keyword opens: `Some(false)` for `graph`,
/// `Some(true)` for `digraph`, `None` for any other text. The caller passes
/// the lowercase form of the token in question.
pub fn graph_keyword(lowered: &String) -> (directed: Option<bool>)
    ensures
        directed == grammar::keyword_directed(lowered@),
{
    if token_is(lowered, "graph") {
        Some(false)
    } else if token_is(lowered, "digraph") {
        Some(true)
    } else {
        None
    }
}

/// Reads a graph body: `{`, a statement list and `}`.
pub fn parse_graph_body(tokens: &Vec<String>) -> (r: Result<(StmtList, Vec<String>), ParseError>)
    ensures
        outcome(r) == grammar::graph_body(tokens.deep_view()),
        r matches Ok((node, _)) ==> node.wf(),
{
    proof {
        laws::parsing::lemma_graph_body_faithful(tokens.deep_view());
    }
    if tokens.len() == 0 {
        return Err(ParseError::EmptyInput);
    }
    if !token_is(&tokens[0], "{") {
        return Err(ParseError::ExpectedOpenBrace);
    }
    if tokens.len() == 1 {
        return Err(ParseError::EmptyInput);
    }
    let (stmt_list, rest) = match parse_stmt_list(&suffix(tokens, 1)) {
        Ok(read) => read,
        Err(e) => {
            return Err(e);
        },
    };
    if rest.len() == 0 {
        return Err(ParseError::EmptyInput);
    }
    if !token_is(&rest[0], "}") {
        return Err(ParseError::ExpectedCloseBrace);
    }
    Ok((stmt_list, suffix(&rest, 1)))
}

/// Reads a graph: an optional `strict`, then `graph` or `digraph`, then a
/// graph body. The keywords are matched by their lowercase form.
pub fn parse_graph(tokens: &Vec<String>) -> (r: Result<(Graph, Vec<String>), ParseError>)
    ensures
        outcome(r) == grammar::graph(tokens.deep_view()),
        r matches Ok((node, _)) ==> node.wf(),
{
    proof {
        laws::parsing::lemma_graph_faithful(tokens.deep_view());
    }
    let strict = tokens.len() > 0 && token_is(&tokens[0].as_str().to_lowercase(), "strict");
    let keyword_at: usize = if strict {
        1
    } else {
        0
    };
    assert(tokens.deep_view().skip(keyword_at as int) == if strict {
        tokens.deep_view().drop_first()
    } else {
        tokens.deep_view()
    });
    if keyword_at >= tokens.len() {
        return Err(ParseError::EmptyInput);
    }
    let is_digraph = match graph_keyword(&tokens[keyword_at].as_str().to_lowercase()) {
        Some(directed) => directed,
        None => {
            return Err(ParseError::ExpectedGraphKeyword);
        },
    };
    assert(tokens.deep_view().skip(keyword_at + 1) == tokens.deep_view().skip(
        keyword_at as int,
    ).drop_first());
    match parse_graph_body(&suffix(tokens, keyword_at + 1)) {
        Ok((stmt_list, rest)) => Ok((Graph { strict, is_digraph, stmt_list }, rest)),
        Err(e) => Err(e),
    }
}

} // verus!
