use nndot::ast::{
    graph_keyword, has_id_shape, is_reserved_word, parse_edge_stmt, parse_edge_stmt_edge,
    parse_edge_stmt_op, parse_edge_stmt_rhs, parse_graph, parse_graph_body, parse_id,
    parse_id_eq_stmt, parse_stmt, parse_stmt_list, valid_as_id, EdgeStmt, EdgeStmtEdge, EdgeStmtOp, EdgeStmtRHS, Graph, IDEqStmt,
    ParseError, Stmt, StmtList, ID,
};
use nndot::text::token_is;
use nndot::tokenize::tokenize;

fn strings(texts: &[&str]) -> Vec<String> {
    texts.iter().map(|t| t.to_string()).collect()
}

fn node(name: &str) -> EdgeStmtEdge {
    EdgeStmtEdge::NodeID(ID { name: name.to_string() })
}

fn chain(hops: &[(EdgeStmtOp, &str)]) -> Option<Box<EdgeStmtRHS>> {
    match hops.split_first() {
        None => None,
        Some(((op, name), rest)) => Some(Box::new(EdgeStmtRHS {
            edge_op: *op,
            edge_egdge: node(name),
            edge_rhs: chain(rest),
        })),
    }
}

fn edge(from: &str, hops: &[(EdgeStmtOp, &str)]) -> Stmt {
    Stmt::EdgeStmt(EdgeStmt { edge_edge: node(from), edge_rhs: chain(hops) })
}

fn assign(left: &str, right: &str) -> Stmt {
    Stmt::IDEqStmt(IDEqStmt {
        id_left: ID { name: left.to_string() },
        id_right: ID { name: right.to_string() },
    })
}

fn list(mut stmts: Vec<Stmt>) -> StmtList {
    let mut tail: Option<Box<StmtList>> = None;
    while let Some(stmt) = stmts.pop() {
        tail = Some(Box::new(StmtList { stmt, stmt_list: tail }));
    }
    *tail.unwrap()
}

#[test]
fn minimal_graph() {
    let tokens = tokenize("graph { a -- b }".to_string());
    let (graph, rest) = parse_graph(&tokens).unwrap();
    assert_eq!(
        graph,
        Graph {
            strict: false,
            is_digraph: false,
            stmt_list: list(vec![edge("a", &[(EdgeStmtOp::Undirected, "b")])]),
        }
    );
    assert_eq!(graph.stmt_list.stmt_list, None);
    assert_eq!(rest, Vec::<String>::new());
}

#[test]
fn chain_nests_to_the_right_in_input_order() {
    let tokens = tokenize("a -- b -- c".to_string());
    let (stmt, rest) = parse_edge_stmt(&tokens).unwrap();
    assert_eq!(stmt.edge_edge, node("a"));
    let first = stmt.edge_rhs.unwrap();
    assert_eq!(first.edge_op, EdgeStmtOp::Undirected);
    assert_eq!(first.edge_egdge, node("b"));
    let second = first.edge_rhs.unwrap();
    assert_eq!(second.edge_op, EdgeStmtOp::Undirected);
    assert_eq!(second.edge_egdge, node("c"));
    assert_eq!(second.edge_rhs, None);
    assert_eq!(rest, Vec::<String>::new());
}

#[test]
fn chain_keeps_each_operator() {
    let tokens = tokenize("a -> b -- c -> d x".to_string());
    let (stmt, rest) = parse_stmt(&tokens).unwrap();
    assert_eq!(
        stmt,
        edge(
            "a",
            &[
                (EdgeStmtOp::Directed, "b"),
                (EdgeStmtOp::Undirected, "c"),
                (EdgeStmtOp::Directed, "d"),
            ]
        )
    );
    assert_eq!(rest, strings(&["x"]));
}

#[test]
fn chain_stops_before_an_operator_without_endpoint() {
    let tokens = strings(&["a", "--", "b", "--"]);
    let (stmt, rest) = parse_edge_stmt(&tokens).unwrap();
    assert_eq!(Stmt::EdgeStmt(stmt), edge("a", &[(EdgeStmtOp::Undirected, "b")]));
    assert_eq!(rest, strings(&["--"]));

    let tokens = strings(&["a", "--", "b", "->", "node", "c"]);
    let (stmt, rest) = parse_edge_stmt(&tokens).unwrap();
    assert_eq!(Stmt::EdgeStmt(stmt), edge("a", &[(EdgeStmtOp::Undirected, "b")]));
    assert_eq!(rest, strings(&["->", "node", "c"]));
}

#[test]
fn single_endpoint_is_an_edge_statement() {
    let tokens = strings(&["a"]);
    let (stmt, rest) = parse_edge_stmt(&tokens).unwrap();
    assert_eq!(stmt, EdgeStmt { edge_edge: node("a"), edge_rhs: None });
    assert_eq!(rest, Vec::<String>::new());

    let tokens = strings(&["a", "--", "1"]);
    let (stmt, rest) = parse_edge_stmt(&tokens).unwrap();
    assert_eq!(stmt, EdgeStmt { edge_edge: node("a"), edge_rhs: None });
    assert_eq!(rest, strings(&["--", "1"]));
}

#[test]
fn continuation_needs_its_first_hop() {
    assert_eq!(
        parse_edge_stmt_rhs(&strings(&["a", "--", "b"])),
        Err(ParseError::ExpectedEdgeOperator)
    );
    assert_eq!(parse_edge_stmt_rhs(&strings(&["--"])), Err(ParseError::EmptyInput));
    assert_eq!(parse_edge_stmt_rhs(&strings(&["->", "}"])), Err(ParseError::InvalidIdentifier));
    assert_eq!(parse_edge_stmt_rhs(&strings(&[])), Err(ParseError::ExpectedEdgeOperator));
}

#[test]
fn keywords_match_in_any_letter_case() {
    let upper = parse_graph(&tokenize("STRICT DIGRAPH { a -> b }".to_string())).unwrap();
    let lower = parse_graph(&tokenize("strict digraph { a -> b }".to_string())).unwrap();
    assert_eq!(upper, lower);
    assert_eq!(
        lower.0,
        Graph {
            strict: true,
            is_digraph: true,
            stmt_list: list(vec![edge("a", &[(EdgeStmtOp::Directed, "b")])]),
        }
    );
    assert_eq!(lower.1, Vec::<String>::new());

    let mixed = parse_graph(&tokenize("StRiCt GrApH { a -> b }".to_string())).unwrap();
    assert!(mixed.0.strict);
    assert!(!mixed.0.is_digraph);
    assert_eq!(mixed.0.stmt_list, lower.0.stmt_list);
}

#[test]
fn graph_without_strict() {
    let (graph, _) = parse_graph(&tokenize("Digraph { a }".to_string())).unwrap();
    assert!(!graph.strict);
    assert!(graph.is_digraph);
}

#[test]
fn identifiers_keep_their_letter_case() {
    let (id, _) = parse_id(&strings(&["Abc"])).unwrap();
    assert_eq!(id.name, "Abc");
    assert_ne!(id, ID { name: "abc".to_string() });
}

#[test]
fn reserved_words_are_no_identifiers() {
    assert_eq!(parse_id(&strings(&["node"])), Err(ParseError::InvalidIdentifier));
    assert_eq!(parse_id(&strings(&["Node"])), Err(ParseError::InvalidIdentifier));
    for word in ["node", "edge", "graph", "digraph", "subgraph", "strict"] {
        assert!(!valid_as_id(&word.to_string()));
        assert!(!valid_as_id(&word.to_uppercase()));
        assert_eq!(parse_id(&strings(&[word, "x"])), Err(ParseError::InvalidIdentifier));
    }
    assert!(!valid_as_id(&"SubGraph".to_string()));
    assert!(valid_as_id(&"nodes".to_string()));
    assert!(valid_as_id(&"graph1".to_string()));
}

#[test]
fn reserved_word_check_wants_the_lowercase_form() {
    for word in ["node", "edge", "graph", "digraph", "subgraph", "strict"] {
        assert!(is_reserved_word(&word.to_string()));
    }
    assert!(!is_reserved_word(&"Node".to_string()));
    assert!(!is_reserved_word(&"nodes".to_string()));
    assert!(!is_reserved_word(&String::new()));
}

#[test]
fn graph_keyword_wants_the_lowercase_form() {
    assert_eq!(graph_keyword(&"graph".to_string()), Some(false));
    assert_eq!(graph_keyword(&"digraph".to_string()), Some(true));
    assert_eq!(graph_keyword(&"Graph".to_string()), None);
    assert_eq!(graph_keyword(&"strict".to_string()), None);
    assert_eq!(graph_keyword(&String::new()), None);
}

#[test]
fn token_is_compares_whole_texts() {
    assert!(token_is(&"--".to_string(), "--"));
    assert!(!token_is(&"--".to_string(), "->"));
    assert!(!token_is(&"-".to_string(), "--"));
    assert!(token_is(&String::new(), ""));
}

#[test]
fn identifier_shape() {
    assert!(has_id_shape(&"a".to_string()));
    assert!(has_id_shape(&"a1".to_string()));
    assert!(has_id_shape(&"Zz9".to_string()));
    assert!(has_id_shape(&"é京2".to_string()));
    assert!(has_id_shape(&"node".to_string()));
    assert!(!has_id_shape(&String::new()));
    assert!(!has_id_shape(&"1".to_string()));
    assert!(!has_id_shape(&"1a".to_string()));
    assert!(!has_id_shape(&"a_b".to_string()));
    assert!(!has_id_shape(&"a-b".to_string()));
    assert!(!has_id_shape(&"a b".to_string()));
    assert!(!has_id_shape(&"\"a\"".to_string()));
    assert!(!has_id_shape(&"{".to_string()));
    assert!(!has_id_shape(&"}".to_string()));
    assert!(!has_id_shape(&"=".to_string()));
    assert!(!has_id_shape(&"--".to_string()));
    assert!(!has_id_shape(&";".to_string()));
    assert!(!has_id_shape(&"ab;".to_string()));
}

#[test]
fn valid_identifiers() {
    assert!(valid_as_id(&"a".to_string()));
    assert!(valid_as_id(&"x86".to_string()));
    assert!(valid_as_id(&"Éa".to_string()));
    assert!(!valid_as_id(&String::new()));
    assert!(!valid_as_id(&"9lives".to_string()));
    assert!(!valid_as_id(&"a.b".to_string()));
}

#[test]
fn identifier_errors() {
    assert_eq!(parse_id(&strings(&[])), Err(ParseError::EmptyInput));
    assert_eq!(parse_id(&strings(&["1", "b"])), Err(ParseError::InvalidIdentifier));
    assert_eq!(parse_id(&strings(&["", "b"])), Err(ParseError::InvalidIdentifier));
    assert_eq!(parse_edge_stmt_edge(&strings(&[])), Err(ParseError::EmptyInput));
    assert_eq!(parse_edge_stmt_edge(&strings(&["{"])), Err(ParseError::InvalidIdentifier));
}

#[test]
fn assignment_errors() {
    assert_eq!(parse_id_eq_stmt(&strings(&[])), Err(ParseError::EmptyInput));
    assert_eq!(parse_id_eq_stmt(&strings(&["=", "b"])), Err(ParseError::InvalidIdentifier));
    assert_eq!(parse_id_eq_stmt(&strings(&["a"])), Err(ParseError::ExpectedEquals));
    assert_eq!(parse_id_eq_stmt(&strings(&["a", "b"])), Err(ParseError::ExpectedEquals));
    assert_eq!(parse_id_eq_stmt(&strings(&["a", "--", "b"])), Err(ParseError::ExpectedEquals));
    assert_eq!(parse_id_eq_stmt(&strings(&["a", "="])), Err(ParseError::EmptyInput));
    assert_eq!(parse_id_eq_stmt(&strings(&["a", "=", "2"])), Err(ParseError::InvalidIdentifier));
    assert_eq!(
        parse_id_eq_stmt(&strings(&["a", "=", "graph"])),
        Err(ParseError::InvalidIdentifier)
    );
}

#[test]
fn operator_errors() {
    assert_eq!(parse_edge_stmt_op(&strings(&[])), Err(ParseError::ExpectedEdgeOperator));
    assert_eq!(parse_edge_stmt_op(&strings(&["a"])), Err(ParseError::ExpectedEdgeOperator));
    assert_eq!(parse_edge_stmt_op(&strings(&["="])), Err(ParseError::ExpectedEdgeOperator));
    assert_eq!(parse_edge_stmt_op(&strings(&["-"])), Err(ParseError::ExpectedEdgeOperator));
    assert_eq!(parse_edge_stmt_op(&strings(&["<-"])), Err(ParseError::ExpectedEdgeOperator));
}

#[test]
fn operators() {
    assert_eq!(
        parse_edge_stmt_op(&strings(&["--", "b"])),
        Ok((EdgeStmtOp::Undirected, strings(&["b"])))
    );
    assert_eq!(
        parse_edge_stmt_op(&strings(&["->", "--"])),
        Ok((EdgeStmtOp::Directed, strings(&["--"])))
    );
}

#[test]
fn statement_error_carries_the_tokens_left() {
    assert_eq!(parse_stmt(&strings(&[])), Err(ParseError::ExpectedStatement(strings(&[]))));
    assert_eq!(
        parse_stmt(&strings(&["}", "a"])),
        Err(ParseError::ExpectedStatement(strings(&["}", "a"])))
    );
    assert_eq!(
        parse_stmt_list(&strings(&["=", "a"])),
        Err(ParseError::ExpectedStatement(strings(&["=", "a"])))
    );
    assert_eq!(
        parse_graph(&strings(&["graph", "{", "}", "x"])),
        Err(ParseError::ExpectedStatement(strings(&["}", "x"])))
    );
    assert_eq!(
        parse_graph(&strings(&["graph", "{", "node", "--", "a", "}"])),
        Err(ParseError::ExpectedStatement(strings(&["node", "--", "a", "}"])))
    );
}

#[test]
fn graph_errors() {
    assert_eq!(parse_graph(&strings(&[])), Err(ParseError::EmptyInput));
    assert_eq!(parse_graph(&strings(&["strict"])), Err(ParseError::EmptyInput));
    assert_eq!(parse_graph(&strings(&["graph"])), Err(ParseError::EmptyInput));
    assert_eq!(parse_graph(&strings(&["strict", "digraph"])), Err(ParseError::EmptyInput));
    assert_eq!(parse_graph(&strings(&["graph", "{"])), Err(ParseError::EmptyInput));
    assert_eq!(parse_graph(&strings(&["graph", "{", "a"])), Err(ParseError::EmptyInput));
    assert_eq!(parse_graph(&strings(&["graph", "{", "a", "--", "b"])), Err(ParseError::EmptyInput));
    assert_eq!(parse_graph(&strings(&["a", "{"])), Err(ParseError::ExpectedGraphKeyword));
    assert_eq!(parse_graph(&strings(&["{", "a", "}"])), Err(ParseError::ExpectedGraphKeyword));
    assert_eq!(
        parse_graph(&strings(&["strict", "strict", "graph"])),
        Err(ParseError::ExpectedGraphKeyword)
    );
    assert_eq!(
        parse_graph(&strings(&["graph", "strict", "{"])),
        Err(ParseError::ExpectedOpenBrace)
    );
    assert_eq!(parse_graph(&strings(&["graph", "a", "{"])), Err(ParseError::ExpectedOpenBrace));
    assert_eq!(parse_graph(&strings(&["digraph", "}"])), Err(ParseError::ExpectedOpenBrace));
    assert_eq!(
        parse_graph(&strings(&["graph", "{", "a", "--"])),
        Err(ParseError::ExpectedCloseBrace)
    );
    assert_eq!(
        parse_graph(&strings(&["graph", "{", "a", "=", "b", "{"])),
        Err(ParseError::ExpectedCloseBrace)
    );
}

#[test]
fn semicolon_is_not_part_of_the_grammar() {
    let tokens = tokenize("a -- b; c -- d".to_string());
    let (stmts, rest) = parse_stmt_list(&tokens).unwrap();
    assert_eq!(stmts, list(vec![edge("a", &[(EdgeStmtOp::Undirected, "b")])]));
    assert_eq!(rest, strings(&[";", "c", "--", "d"]));
    assert_eq!(
        parse_graph(&tokenize("graph { a -- b; }".to_string())),
        Err(ParseError::ExpectedCloseBrace)
    );
}

#[test]
fn statement_list_is_greedy_and_stops_at_the_brace() {
    let tokens = tokenize("a -- b\nc -- d\n}".to_string());
    let (stmts, rest) = parse_stmt_list(&tokens).unwrap();
    assert_eq!(
        stmts,
        list(vec![
            edge("a", &[(EdgeStmtOp::Undirected, "b")]),
            edge("c", &[(EdgeStmtOp::Undirected, "d")]),
        ])
    );
    assert_eq!(rest, strings(&["}"]));
    assert!(parse_stmt(&rest).is_err());
}

#[test]
fn statement_list_takes_every_statement() {
    let tokens = strings(&["a", "b", "c", "=", "d", "e", "->", "f", "g", "=", "1", "h"]);
    let (stmts, rest) = parse_stmt_list(&tokens).unwrap();
    assert_eq!(
        stmts,
        list(vec![
            edge("a", &[]),
            edge("b", &[]),
            assign("c", "d"),
            edge("e", &[(EdgeStmtOp::Directed, "f")]),
            edge("g", &[]),
        ])
    );
    assert_eq!(rest, strings(&["=", "1", "h"]));
    assert!(parse_stmt(&rest).is_err());
}

#[test]
fn assignment_wins_over_edge_statement() {
    let tokens = tokenize("a = b".to_string());
    let (stmt, rest) = parse_stmt(&tokens).unwrap();
    assert_eq!(stmt, assign("a", "b"));
    assert_eq!(rest, Vec::<String>::new());

    let (alone, left) = parse_edge_stmt(&tokens).unwrap();
    assert_eq!(alone, EdgeStmt { edge_edge: node("a"), edge_rhs: None });
    assert_eq!(left, strings(&["=", "b"]));
    assert!(parse_edge_stmt_op(&left).is_err());
}

#[test]
fn assignment_with_a_bad_right_side_is_read_as_a_node() {
    let tokens = strings(&["a", "=", "}"]);
    let (stmt, rest) = parse_stmt(&tokens).unwrap();
    assert_eq!(stmt, edge("a", &[]));
    assert_eq!(rest, strings(&["=", "}"]));
}

#[test]
fn comments_do_not_change_the_parse() {
    let with_comment = tokenize("graph { // comment\n a -- b }".to_string());
    let without = tokenize("graph { a -- b }".to_string());
    assert_eq!(with_comment, without);
    assert_eq!(with_comment, strings(&["graph", "{", "a", "--", "b", "}"]));
    assert_eq!(parse_graph(&with_comment), parse_graph(&without));
    assert!(parse_graph(&with_comment).is_ok());

    let block = tokenize("graph /* one\n two */ { a /* three */ -- b }".to_string());
    assert_eq!(parse_graph(&block), parse_graph(&without));
}

#[test]
fn tokens_after_the_graph_are_handed_back() {
    let tokens = tokenize("digraph { a -> b } trailing }".to_string());
    let (graph, rest) = parse_graph(&tokens).unwrap();
    assert!(graph.is_digraph);
    assert_eq!(rest, strings(&["trailing", "}"]));
}

#[test]
fn input_is_left_as_it_was_and_the_rest_is_its_end() {
    let tokens = tokenize("a -- b -- c d = e }".to_string());
    let copy = tokens.clone();
    let (_, rest) = parse_stmt_list(&tokens).unwrap();
    assert_eq!(tokens, copy);
    assert_eq!(rest, strings(&["}"]));
    assert_eq!(rest[..], tokens[tokens.len() - rest.len()..]);
    let (_, rest) = parse_stmt(&tokens).unwrap();
    assert_eq!(rest, strings(&["d", "=", "e", "}"]));
    assert_eq!(rest[..], tokens[tokens.len() - rest.len()..]);
}

#[test]
fn whole_graph_with_assignments_and_chains() {
    let source = "strict graph {\n  rankdir = LR // layout\n  a -- b -- c\n  /* lone node */ d\n}";
    let (graph, rest) = parse_graph(&tokenize(source.to_string())).unwrap();
    assert_eq!(
        graph,
        Graph {
            strict: true,
            is_digraph: false,
            stmt_list: list(vec![
                assign("rankdir", "LR"),
                edge("a", &[(EdgeStmtOp::Undirected, "b"), (EdgeStmtOp::Undirected, "c")]),
                edge("d", &[]),
            ]),
        }
    );
    assert_eq!(rest, Vec::<String>::new());
}

fn written(stmt: &Stmt) -> Vec<String> {
    let mut out = Vec::new();
    match stmt {
        Stmt::IDEqStmt(a) => {
            out.push(a.id_left.name.clone());
            out.push("=".to_string());
            out.push(a.id_right.name.clone());
        }
        Stmt::EdgeStmt(e) => {
            let EdgeStmtEdge::NodeID(from) = &e.edge_edge;
            out.push(from.name.clone());
            let mut hop = &e.edge_rhs;
            while let Some(rhs) = hop {
                out.push(
                    match rhs.edge_op {
                        EdgeStmtOp::Undirected => "--",
                        EdgeStmtOp::Directed => "->",
                    }
                    .to_string(),
                );
                let EdgeStmtEdge::NodeID(to) = &rhs.edge_egdge;
                out.push(to.name.clone());
                hop = &rhs.edge_rhs;
            }
        }
    }
    out
}

fn written_list(list: &StmtList) -> Vec<String> {
    let mut out = Vec::new();
    let mut at = Some(list);
    while let Some(node) = at {
        out.extend(written(&node.stmt));
        at = node.stmt_list.as_deref();
    }
    out
}

#[test]
fn what_was_read_and_what_is_left_make_up_the_input() {
    let tokens = strings(&[
        "a", "--", "b", "->", "c", "d", "=", "e", "f", "g", "->", "h", "--", "=", "i", "}",
    ]);
    let (stmt, rest) = parse_stmt(&tokens).unwrap();
    let mut again = written(&stmt);
    again.extend(rest);
    assert_eq!(again, tokens);

    let (stmts, rest) = parse_stmt_list(&tokens).unwrap();
    assert_eq!(rest, strings(&["--", "=", "i", "}"]));
    let mut again = written_list(&stmts);
    again.extend(rest);
    assert_eq!(again, tokens);

    let source = strings(&["Strict", "DiGraph", "{", "a", "->", "b", "c", "=", "d", "}", "x"]);
    let (graph, rest) = parse_graph(&source).unwrap();
    let mut again = strings(&["{"]);
    again.extend(written_list(&graph.stmt_list));
    again.push("}".to_string());
    again.extend(rest);
    assert_eq!(again[..], source[2..]);
}

#[test]
fn continuation_takes_every_hop() {
    let tokens = strings(&["--", "a", "->", "b", "--", "c", "--", "graph", "->", "d"]);
    let (rhs, rest) = parse_edge_stmt_rhs(&tokens).unwrap();
    assert_eq!(
        Some(Box::new(rhs)),
        chain(&[
            (EdgeStmtOp::Undirected, "a"),
            (EdgeStmtOp::Directed, "b"),
            (EdgeStmtOp::Undirected, "c"),
        ])
    );
    assert_eq!(rest, strings(&["--", "graph", "->", "d"]));
    assert!(parse_edge_stmt_rhs(&rest).is_err());
}

#[test]
fn statement_fails_exactly_where_no_identifier_stands() {
    for tokens in [
        strings(&[]),
        strings(&["a"]),
        strings(&["a", "="]),
        strings(&["a", "=", "b"]),
        strings(&["a", "--"]),
        strings(&["="]),
        strings(&["--", "a"]),
        strings(&["}"]),
        strings(&["edge", "=", "b"]),
        strings(&["7", "--", "b"]),
        strings(&["\"a\"", "--", "b"]),
    ] {
        assert_eq!(parse_stmt(&tokens).is_err(), parse_id(&tokens).is_err());
        assert_eq!(parse_stmt_list(&tokens).is_err(), parse_id(&tokens).is_err());
    }
}

#[test]
fn graph_body_between_braces() {
    let (stmts, rest) = parse_graph_body(&strings(&["{", "a", "--", "b", "}", "}"])).unwrap();
    assert_eq!(stmts, list(vec![edge("a", &[(EdgeStmtOp::Undirected, "b")])]));
    assert_eq!(rest, strings(&["}"]));
    assert_eq!(parse_graph_body(&strings(&[])), Err(ParseError::EmptyInput));
    assert_eq!(parse_graph_body(&strings(&["{"])), Err(ParseError::EmptyInput));
    assert_eq!(parse_graph_body(&strings(&["a"])), Err(ParseError::ExpectedOpenBrace));
    assert_eq!(
        parse_graph_body(&strings(&["{", "}"])),
        Err(ParseError::ExpectedStatement(strings(&["}"])))
    );
    assert_eq!(parse_graph_body(&strings(&["{", "a"])), Err(ParseError::EmptyInput));
    assert_eq!(parse_graph_body(&strings(&["{", "a", "{"])), Err(ParseError::ExpectedCloseBrace));
}

#[test]
fn grammar_symbols_are_no_identifiers() {
    for symbol in ["=", "--", "->", "{", "}", ";", "//", "/*", "*/"] {
        assert!(!valid_as_id(&symbol.to_string()));
    }
}

#[test]
fn written_graph_is_read_back() {
    let stmts = vec![
        edge("a", &[(EdgeStmtOp::Directed, "b"), (EdgeStmtOp::Undirected, "c")]),
        assign("d", "e"),
        edge("f", &[]),
        edge("g", &[(EdgeStmtOp::Undirected, "h")]),
        edge("i", &[]),
        assign("j", "k"),
    ];
    let mut tokens = strings(&["sTrIcT", "DIGRAPH", "{"]);
    for stmt in &stmts {
        tokens.extend(written(stmt));
    }
    tokens.extend(strings(&["}", "left", "over"]));
    let (graph, rest) = parse_graph(&tokens).unwrap();
    assert_eq!(graph, Graph { strict: true, is_digraph: true, stmt_list: list(stmts) });
    assert_eq!(rest, strings(&["left", "over"]));
}
