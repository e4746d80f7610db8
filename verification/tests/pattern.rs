use lang_profile::meta_var::MetaVariable;
use lang_profile::pattern::{normalize_tree, Pattern, PatternError};
use lang_profile::syntax::{SyntaxNode, SyntaxTree};

const PROGRAM: u16 = 10;
const STATEMENT: u16 = 11;
const BINARY: u16 = 12;
const IDENT: u16 = 1;
const PLUS: u16 = 2;
const COMMENT: u16 = 3;
const PAREN: u16 = 13;

fn node(kind: u16, start: usize, end: usize, depth: u32) -> SyntaxNode {
    SyntaxNode { kind, start, end, depth, error: false, missing: false }
}

fn tree(nodes: Vec<SyntaxNode>) -> SyntaxTree {
    SyntaxTree::from_nodes(nodes).unwrap()
}

/// `$A + $A` as a grammar with statements parses it.
fn sum() -> SyntaxTree {
    tree(vec![
        node(PROGRAM, 0, 7, 0),
        node(STATEMENT, 0, 7, 1),
        node(BINARY, 0, 7, 2),
        node(IDENT, 0, 2, 3),
        node(PLUS, 3, 4, 3),
        node(IDENT, 5, 7, 3),
    ])
}

fn captures(pattern: &Pattern) -> Vec<(usize, String)> {
    let mut out = Vec::new();
    for i in 0..pattern.tree().len() {
        match pattern.capture(i).unwrap() {
            MetaVariable::NotCapture => {}
            other => out.push((i, format!("{:?}", other))),
        }
    }
    out
}

fn ok(outcome: Result<Pattern, PatternError>) -> Pattern {
    match outcome {
        Ok(pattern) => pattern,
        Err(e) => panic!("no pattern: {:?}", e),
    }
}

fn err(outcome: Result<Pattern, PatternError>) -> PatternError {
    match outcome {
        Ok(pattern) => panic!("a pattern with roots {:?}", pattern.root_nodes()),
        Err(e) => e,
    }
}

#[test]
fn wrapper_is_peeled_off_an_expression() {
    let pattern = ok(normalize_tree("toy", sum(), "$A + $A", '$', &vec![], &vec![STATEMENT]));
    assert_eq!(pattern.root_nodes(), &vec![2]);
    assert_eq!(pattern.language(), "toy");
    assert_eq!(pattern.tree().len(), 6);
    assert_eq!(
        captures(&pattern),
        vec![(3, "Named(\"A\")".to_string()), (5, "Named(\"A\")".to_string())]
    );
    assert_eq!(pattern.capture(6), None);
}

#[test]
fn same_name_twice_is_the_same_capture() {
    let pattern = ok(normalize_tree("toy", sum(), "$A + $A", '$', &vec![], &vec![STATEMENT]));
    assert_eq!(pattern.capture(3), Some(&MetaVariable::Named("A".to_string())));
    assert_eq!(pattern.capture(3), pattern.capture(5));
    assert_eq!(pattern.capture(4), Some(&MetaVariable::NotCapture));
    assert_eq!(pattern.capture(2), Some(&MetaVariable::NotCapture));
}

#[test]
fn without_a_rule_two_candidates_tie() {
    let outcome = normalize_tree("toy", sum(), "$A + $A", '$', &vec![], &vec![]);
    assert_eq!(err(outcome), PatternError::AmbiguousPattern);
}

#[test]
fn earlier_wrapper_kind_is_preferred() {
    let wrapped = || {
        tree(vec![
            node(PROGRAM, 0, 3, 0),
            node(STATEMENT, 0, 3, 1),
            node(PAREN, 0, 3, 2),
            node(IDENT, 0, 3, 3),
        ])
    };
    let all = vec![PAREN, STATEMENT, IDENT];
    assert_eq!(ok(normalize_tree("toy", wrapped(), "abc", '$', &vec![], &all)).root_nodes(), &vec![2]);
    let all = vec![STATEMENT, IDENT, PAREN];
    assert_eq!(ok(normalize_tree("toy", wrapped(), "abc", '$', &vec![], &all)).root_nodes(), &vec![1]);
    let two = vec![STATEMENT, PAREN];
    assert_eq!(ok(normalize_tree("toy", wrapped(), "abc", '$', &vec![], &two)).root_nodes(), &vec![3]);
    let one = vec![STATEMENT];
    assert_eq!(err(normalize_tree("toy", wrapped(), "abc", '$', &vec![], &one)), PatternError::AmbiguousPattern);
}

#[test]
fn first_entry_of_a_kind_gives_its_rank() {
    let wrapped = || {
        tree(vec![node(PROGRAM, 0, 3, 0), node(STATEMENT, 0, 3, 1), node(PAREN, 0, 3, 2)])
    };
    let order = vec![PAREN, STATEMENT, PAREN];
    assert_eq!(ok(normalize_tree("toy", wrapped(), "abc", '$', &vec![], &order)).root_nodes(), &vec![2]);
}

#[test]
fn two_candidates_of_one_kind_tie() {
    let nested = || {
        tree(vec![
            node(PROGRAM, 0, 3, 0),
            node(PAREN, 0, 3, 1),
            node(PAREN, 0, 3, 2),
            node(IDENT, 0, 3, 3),
            node(PLUS, 3, 3, 3),
        ])
    };
    assert_eq!(err(normalize_tree("toy", nested(), "abc", '$', &vec![], &vec![])), PatternError::AmbiguousPattern);
    assert_eq!(err(normalize_tree("toy", nested(), "abc", '$', &vec![], &vec![PAREN])), PatternError::AmbiguousPattern);
}

#[test]
fn single_candidate_needs_no_rule() {
    let single = tree(vec![
        node(PROGRAM, 0, 5, 0),
        node(BINARY, 0, 5, 1),
        node(IDENT, 0, 1, 2),
        node(PLUS, 2, 3, 2),
        node(IDENT, 4, 5, 2),
    ]);
    let pattern = ok(normalize_tree("toy", single, "a + b", '$', &vec![], &vec![]));
    assert_eq!(pattern.root_nodes(), &vec![1]);
    assert_eq!(captures(&pattern), vec![]);
}

#[test]
fn siblings_at_top_level_stay_a_sequence() {
    let two = tree(vec![
        node(PROGRAM, 0, 4, 0),
        node(STATEMENT, 0, 2, 1),
        node(IDENT, 0, 1, 2),
        node(PLUS, 1, 2, 2),
        node(STATEMENT, 3, 4, 1),
        node(IDENT, 3, 4, 2),
    ]);
    let pattern = ok(normalize_tree("toy", two, "a; b", '$', &vec![], &vec![STATEMENT]));
    assert_eq!(pattern.root_nodes(), &vec![1, 4]);
}

#[test]
fn trivia_is_skipped_when_the_node_is_sought() {
    let commented = || {
        tree(vec![
            node(PROGRAM, 0, 9, 0),
            node(COMMENT, 0, 5, 1),
            node(STATEMENT, 6, 9, 1),
            node(IDENT, 6, 9, 2),
        ])
    };
    let with = ok(normalize_tree("toy", commented(), "// $a\nfoo", '$', &vec![COMMENT], &vec![STATEMENT]));
    assert_eq!(with.root_nodes(), &vec![3]);
    let without = ok(normalize_tree("toy", commented(), "// hi\nfoo", '$', &vec![], &vec![STATEMENT]));
    assert_eq!(without.root_nodes(), &vec![1, 2]);
}

#[test]
fn tokens_in_trivia_are_not_read() {
    let commented = || {
        tree(vec![
            node(PROGRAM, 0, 6, 0),
            node(COMMENT, 0, 2, 1),
            node(IDENT, 0, 2, 2),
            node(IDENT, 3, 6, 1),
        ])
    };
    let skipped = ok(normalize_tree("toy", commented(), "$$ $AB", '$', &vec![COMMENT], &vec![]));
    assert_eq!(skipped.root_nodes(), &vec![3]);
    assert_eq!(captures(&skipped), vec![(3, "Named(\"AB\")".to_string())]);
    let read = err(normalize_tree("toy", commented(), "$$ $AB", '$', &vec![], &vec![]));
    assert_eq!(read, PatternError::InvalidMetaVariableSyntax { token: "$$".to_string(), offset: 0 });
}

#[test]
fn only_leaves_are_read() {
    let pattern = ok(normalize_tree(
        "toy",
        tree(vec![node(PROGRAM, 0, 4, 0), node(BINARY, 0, 4, 1), node(IDENT, 0, 2, 2), node(IDENT, 2, 4, 2)]),
        "$A$B",
        '$',
        &vec![],
        &vec![],
    ));
    assert_eq!(
        captures(&pattern),
        vec![(2, "Named(\"A\")".to_string()), (3, "Named(\"B\")".to_string())]
    );
}

#[test]
fn multi_and_wildcard_captures_are_tagged() {
    let call = tree(vec![
        node(PROGRAM, 0, 12, 0),
        node(BINARY, 0, 12, 1),
        node(IDENT, 0, 2, 2),
        node(IDENT, 3, 10, 2),
        node(IDENT, 11, 12, 2),
    ]);
    let pattern = ok(normalize_tree("toy", call, "$_ $$$ARGS x", '$', &vec![], &vec![]));
    assert_eq!(pattern.capture(2), Some(&MetaVariable::Wildcard));
    assert_eq!(pattern.capture(3), Some(&MetaVariable::NamedMulti("ARGS".to_string())));
    assert_eq!(pattern.capture(4), Some(&MetaVariable::NotCapture));
}

#[test]
fn fragment_without_sigils_has_no_captures() {
    let pattern = ok(normalize_tree("toy", sum(), "ab + cd", '$', &vec![], &vec![STATEMENT]));
    assert_eq!(captures(&pattern), vec![]);
    assert_eq!(pattern.root_nodes(), &vec![2]);
}

#[test]
fn another_sigil_reads_the_same_tree_otherwise() {
    let pattern = ok(normalize_tree("toy", sum(), "#A + $A", '#', &vec![], &vec![STATEMENT]));
    assert_eq!(captures(&pattern), vec![(3, "Named(\"A\")".to_string())]);
}

#[test]
fn broken_node_fails_the_parse_at_its_start() {
    let mut nodes = vec![
        node(PROGRAM, 0, 7, 0),
        node(STATEMENT, 0, 7, 1),
        node(IDENT, 0, 2, 2),
        node(PLUS, 3, 4, 2),
        node(IDENT, 5, 7, 2),
    ];
    nodes[3].error = true;
    nodes[4].missing = true;
    let outcome = normalize_tree("toy", tree(nodes.clone()), "$$ + $A", '$', &vec![], &vec![]);
    assert_eq!(err(outcome), PatternError::PatternParse { offset: 3 });
    nodes[3].error = false;
    let outcome = normalize_tree("toy", tree(nodes), "$$ + $A", '$', &vec![], &vec![]);
    assert_eq!(err(outcome), PatternError::PatternParse { offset: 5 });
}

#[test]
fn fragment_without_nodes_stands_for_the_root() {
    let pattern = ok(normalize_tree("toy", tree(vec![node(PROGRAM, 0, 0, 0)]), "", '$', &vec![], &vec![]));
    assert_eq!(pattern.root_nodes(), &vec![0]);
    assert_eq!(captures(&pattern), vec![]);
    let only_trivia = tree(vec![node(PROGRAM, 2, 7, 0), node(COMMENT, 2, 7, 1)]);
    let pattern = ok(normalize_tree("toy", only_trivia, "  // $$", '$', &vec![COMMENT], &vec![]));
    assert_eq!(pattern.root_nodes(), &vec![0]);
    assert_eq!(captures(&pattern), vec![]);
}

#[test]
fn lone_root_is_read_as_a_token() {
    let pattern = ok(normalize_tree("toy", tree(vec![node(PROGRAM, 0, 2, 0)]), "$A", '$', &vec![], &vec![]));
    assert_eq!(pattern.root_nodes(), &vec![0]);
    assert_eq!(captures(&pattern), vec![(0, "Named(\"A\")".to_string())]);
    let outcome = normalize_tree("toy", tree(vec![node(PROGRAM, 0, 2, 0)]), "$$", '$', &vec![], &vec![]);
    assert_eq!(err(outcome), PatternError::InvalidMetaVariableSyntax { token: "$$".to_string(), offset: 0 });
}

#[test]
fn parse_failure_for_a_broken_parse_or_a_tree_that_does_not_fit() {
    let sound = || tree(vec![node(PROGRAM, 0, 3, 0), node(IDENT, 0, 3, 1)]);
    assert!(normalize_tree("toy", sound(), "abc", '$', &vec![], &vec![]).is_ok());
    assert_eq!(
        err(normalize_tree("toy", sound(), "", '$', &vec![], &vec![])),
        PatternError::PatternParse { offset: 0 }
    );
    let mut nodes = vec![node(PROGRAM, 0, 3, 0), node(IDENT, 1, 3, 1)];
    nodes[1].missing = true;
    assert_eq!(
        err(normalize_tree("toy", tree(nodes), "abc", '$', &vec![], &vec![])),
        PatternError::PatternParse { offset: 1 }
    );
}

#[test]
fn ambiguity_is_found_before_tokens_are_read() {
    let outcome = normalize_tree("toy", sum(), "$$ + $A", '$', &vec![], &vec![]);
    assert_eq!(err(outcome), PatternError::AmbiguousPattern);
}

#[test]
fn first_bad_token_is_reported_with_its_offset() {
    let outcome = normalize_tree("toy", sum(), "$A + $$", '$', &vec![], &vec![STATEMENT]);
    assert_eq!(
        err(outcome),
        PatternError::InvalidMetaVariableSyntax { token: "$$".to_string(), offset: 5 }
    );
    let outcome = normalize_tree("toy", sum(), "$1 + $$", '$', &vec![], &vec![STATEMENT]);
    assert_eq!(
        err(outcome),
        PatternError::InvalidMetaVariableSyntax { token: "$1".to_string(), offset: 0 }
    );
}

#[test]
fn token_that_does_not_fit_the_text_fails_the_parse() {
    let outcome = normalize_tree("toy", sum(), "$A +", '$', &vec![], &vec![STATEMENT]);
    assert_eq!(err(outcome), PatternError::PatternParse { offset: 5 });
    let outcome = normalize_tree("toy", sum(), "a\u{e9}+ $A ", '$', &vec![], &vec![STATEMENT]);
    assert_eq!(err(outcome), PatternError::PatternParse { offset: 0 });
    let pattern = ok(normalize_tree("toy", sum(), "\u{e9} + $A\u{e9}", '$', &vec![], &vec![STATEMENT]));
    assert_eq!(captures(&pattern), vec![(5, "Named(\"A\")".to_string())]);
}

#[test]
fn same_input_gives_the_same_pattern() {
    let first = ok(normalize_tree("toy", sum(), "$A + $B", '$', &vec![], &vec![STATEMENT]));
    let second = ok(normalize_tree("toy", sum(), "$A + $B", '$', &vec![], &vec![STATEMENT]));
    assert_eq!(first.root_nodes(), second.root_nodes());
    assert_eq!(first.tree().nodes(), second.tree().nodes());
    assert_eq!(captures(&first), captures(&second));
    assert_eq!(first.language(), second.language());
}
