use clue_core::ast::{CodeBlock, ContinueMode, MatchBranch, Options, Token};
use clue_core::compiler::Compiler;

fn options() -> Options {
    Options {
        debug_instrumentation: false,
        raw_global_assignment: false,
        continue_strategy: ContinueMode::Native,
    }
}

fn lit(s: &str) -> Token {
    Token::Literal(s.to_string())
}

fn block(statements: Vec<Token>) -> CodeBlock {
    CodeBlock { start_line: 1, end_line: 1, statements }
}

fn compile(tokens: Vec<Token>) -> Result<String, String> {
    Compiler::new(options(), "main.clue".to_string()).compile_tokens(0, tokens)
}

#[test]
fn loop_token_inside_identifier_chain_is_rejected() {
    let r = compile(vec![Token::Identifier {
        parts: vec![lit("a"), Token::WhileLoop {
            condition: vec![lit("true")],
            body: block(vec![]),
            line: 1,
        }],
        line: 1,
    }]);
    assert_eq!(r, Err("Unexpected token found".to_string()));
}

#[test]
fn optional_index_without_bracket_expression_is_rejected() {
    let r = compile(vec![Token::Identifier {
        parts: vec![lit("a"), Token::OptionalIndex],
        line: 1,
    }]);
    assert_eq!(r, Err("Unexpected token found".to_string()));
}

#[test]
fn default_branch_not_last_is_rejected_never_reordered() {
    let r = compile(vec![Token::MatchBlock {
        subject_name: "v".to_string(),
        subject_value: vec![lit("x")],
        branches: vec![
            MatchBranch {
                match_values: vec![],
                pre_statements: vec![],
                extra_guard: None,
                body: block(vec![Token::Break]),
            },
            MatchBranch {
                match_values: vec![vec![lit("1")]],
                pre_statements: vec![],
                extra_guard: None,
                body: block(vec![Token::Break]),
            },
        ],
        line: 1,
    }]);
    assert_eq!(r, Err("Unexpected token found".to_string()));
}

#[test]
fn match_without_branches_is_rejected() {
    let r = compile(vec![Token::MatchBlock {
        subject_name: "v".to_string(),
        subject_value: vec![lit("x")],
        branches: vec![],
        line: 1,
    }]);
    assert_eq!(r, Err("Unexpected token found".to_string()));
}

#[test]
fn statement_only_token_in_expression_position_is_rejected() {
    let r = compile(vec![Token::Declaration {
        local: true,
        names: vec!["a".to_string()],
        values: vec![vec![Token::Break]],
        line: 1,
    }]);
    assert_eq!(r, Err("Unexpected token found".to_string()));
}

#[test]
fn expression_only_token_in_statement_position_is_rejected() {
    let r = compile(vec![Token::Lambda { parameters: vec![], body: block(vec![]) }]);
    assert_eq!(r, Err("Unexpected token found".to_string()));
}

#[test]
fn bad_else_branch_is_rejected() {
    let r = compile(vec![Token::Conditional {
        condition: vec![lit("c")],
        body: block(vec![]),
        else_branch: Some(Box::new(Token::Break)),
    }]);
    assert_eq!(r, Err("Unexpected token found".to_string()));
}

#[test]
fn violation_deep_inside_a_branch_body_is_found() {
    let r = compile(vec![Token::MatchBlock {
        subject_name: "v".to_string(),
        subject_value: vec![lit("x")],
        branches: vec![MatchBranch {
            match_values: vec![vec![lit("1")]],
            pre_statements: vec![],
            extra_guard: None,
            body: block(vec![Token::Identifier {
                parts: vec![Token::Continue],
                line: 1,
            }]),
        }],
        line: 1,
    }]);
    assert_eq!(r, Err("Unexpected token found".to_string()));
}
