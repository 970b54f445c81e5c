use nndot::tokenize::{raw_tokenize_dot, remove_comments, tokenize};

fn strings(texts: &[&str]) -> Vec<String> {
    texts.iter().map(|t| t.to_string()).collect()
}

#[test]
fn test_raw_tokenize_dot() {
    let dot_str = r#"graph {
    a -- b;
    b -- c;
    a -- c;
    d -- c;
    e -- c;
    e -- a;
}"#;
    let tokens = raw_tokenize_dot(dot_str.to_string());
    assert_eq!(
        tokens,
        strings(&[
            "graph", "{", "\n", "a", "--", "b", ";", "\n", "b", "--", "c", ";", "\n", "a", "--",
            "c", ";", "\n", "d", "--", "c", ";", "\n", "e", "--", "c", ";", "\n", "e", "--", "a",
            ";", "\n", "}"
        ])
    );
}

#[test]
fn test_remove_comments() {
    let dot_str = r#"graph {
    // This is a comment
    a -- b;
    /* This is a comment */
    b -- c;
    a -- c;
    /* // This is a comment */
    d -- c;
    // "This is a comment"
    e -- c;
    // /* This is a comment */
    e -- a;
    /* "This is a comment" */
}"#;
    let tokens = tokenize(dot_str.to_string());
    let tokens = remove_comments(tokens);
    assert_eq!(
        tokens,
        strings(&[
            "graph", "{", "a", "--", "b", ";", "b", "--", "c", ";", "a", "--", "c", ";", "d", "--",
            "c", ";", "e", "--", "c", ";", "e", "--", "a", ";", "}"
        ])
    );
}
