use clue_core::ast::{
    ArgDefault, AssignOp, CodeBlock, ContinueMode, Expression, FunctionArg, MatchBranch,
    MetaField, Options, TableField, Token,
};
use clue_core::compiler::{compile_tokens, Compiler};

fn options() -> Options {
    Options {
        debug_instrumentation: false,
        raw_global_assignment: false,
        continue_strategy: ContinueMode::Native,
    }
}

fn lit(s: &str) -> Token {
    Token::Literal(s.to_string())
}

fn block(statements: Vec<Token>) -> CodeBlock {
    CodeBlock { start_line: 1, end_line: 1, statements }
}

fn compile_with(opts: Options, tokens: Vec<Token>) -> String {
    Compiler::new(opts, "main.clue".to_string()).compile_tokens(0, tokens).unwrap()
}

fn compile(tokens: Vec<Token>) -> String {
    compile_with(options(), tokens)
}

#[test]
fn local_declaration() {
    let out = compile(vec![Token::Declaration {
        local: true,
        names: vec!["a".to_string()],
        values: vec![vec![lit("1")]],
        line: 1,
    }]);
    assert_eq!(out, "local a = 1;");
}

#[test]
fn multi_declaration_without_values() {
    let out = compile(vec![Token::Declaration {
        local: true,
        names: vec!["a".to_string(), "b".to_string()],
        values: vec![],
        line: 1,
    }]);
    assert_eq!(out, "local a, b;");
}

#[test]
fn compound_add_assignment() {
    let out = compile(vec![Token::CompoundAssign {
        operator: AssignOp::Add,
        targets: vec![vec![lit("x")]],
        values: vec![vec![lit("2")]],
        line: 1,
    }]);
    assert_eq!(out, "x = x + 2;");
}

#[test]
fn plain_assignment_keeps_values_bare() {
    let out = compile(vec![Token::CompoundAssign {
        operator: AssignOp::Define,
        targets: vec![vec![lit("x")], vec![lit("y")]],
        values: vec![vec![lit("1")], vec![lit("2")]],
        line: 1,
    }]);
    assert_eq!(out, "x, y = 1, 2;");
}

#[test]
fn compound_concat_assignment() {
    let out = compile(vec![Token::CompoundAssign {
        operator: AssignOp::Concat,
        targets: vec![vec![lit("s")]],
        values: vec![vec![lit("\"x\"")]],
        line: 1,
    }]);
    assert_eq!(out, "s = s .. \"x\";");
}

#[test]
fn match_literal_branch_and_default() {
    let out = compile(vec![Token::MatchBlock {
        subject_name: "v".to_string(),
        subject_value: vec![lit("x")],
        branches: vec![
            MatchBranch {
                match_values: vec![vec![lit("1")]],
                pre_statements: vec![],
                extra_guard: None,
                body: block(vec![Token::Return(Some(vec![vec![lit("A")]]))]),
            },
            MatchBranch {
                match_values: vec![],
                pre_statements: vec![],
                extra_guard: None,
                body: block(vec![Token::Return(Some(vec![vec![lit("B")]]))]),
            },
        ],
        line: 1,
    }]);
    assert_eq!(out, "local v = x;\nif (v == 1) then\n\treturn A;\nelse\n\treturn B;\nend");
}

#[test]
fn match_guard_only_branch() {
    let out = compile(vec![Token::MatchBlock {
        subject_name: "v".to_string(),
        subject_value: vec![lit("x")],
        branches: vec![
            MatchBranch {
                match_values: vec![],
                pre_statements: vec![],
                extra_guard: Some(vec![lit("g")]),
                body: block(vec![Token::Return(Some(vec![vec![lit("A")]]))]),
            },
            MatchBranch {
                match_values: vec![],
                pre_statements: vec![],
                extra_guard: None,
                body: block(vec![Token::Return(Some(vec![vec![lit("B")]]))]),
            },
        ],
        line: 1,
    }]);
    assert_eq!(out, "local v = x;\nif g then\n\treturn A;\nelse\n\treturn B;\nend");
}

#[test]
fn match_extra_guard_joins_equality_tests() {
    let out = compile(vec![Token::MatchBlock {
        subject_name: "v".to_string(),
        subject_value: vec![lit("x")],
        branches: vec![MatchBranch {
            match_values: vec![vec![lit("1")], vec![lit("2")]],
            pre_statements: vec![],
            extra_guard: Some(vec![lit("g")]),
            body: block(vec![Token::Break]),
        }],
        line: 1,
    }]);
    assert_eq!(
        out,
        "local v = x;\nif ((v == 1) or (v == 2)) and g then\n\tbreak;\nend"
    );
}

#[test]
fn optional_chain_single_marker() {
    let out = compile(vec![Token::Identifier {
        parts: vec![lit("a"), Token::OptionalField, lit("b")],
        line: 1,
    }]);
    assert_eq!(out, "(a and a.b);");
}

#[test]
fn optional_chain_accumulates_every_marker() {
    let out = compile(vec![Token::Identifier {
        parts: vec![
            lit("a"),
            Token::OptionalField,
            lit("b"),
            Token::OptionalField,
            lit("c"),
        ],
        line: 1,
    }]);
    assert_eq!(out, "(a and a.b and a.b.c);");
}

#[test]
fn optional_bracket_index() {
    let out = compile(vec![Token::Identifier {
        parts: vec![lit("a"), Token::OptionalIndex, Token::Grouped(vec![lit("i")])],
        line: 1,
    }]);
    assert_eq!(out, "(a and a[(i)]);");
}

#[test]
fn optional_method_marker() {
    let out = compile(vec![Token::Identifier {
        parts: vec![
            lit("a"),
            Token::OptionalMethod,
            lit("f"),
            Token::Call(vec![]),
        ],
        line: 1,
    }]);
    assert_eq!(out, "(a and a:f());");
}

#[test]
fn plain_chain_stays_unparenthesized() {
    let out = compile(vec![Token::Identifier {
        parts: vec![lit("a"), lit("."), lit("b")],
        line: 1,
    }]);
    assert_eq!(out, "a.b;");
}

#[test]
fn continue_under_label_strategy() {
    let mut opts = options();
    opts.continue_strategy = ContinueMode::Label;
    let out = compile_with(opts, vec![Token::Continue]);
    assert_eq!(out, "goto continue;");
}

#[test]
fn continue_under_native_strategy() {
    let out = compile(vec![Token::Continue]);
    assert_eq!(out, "continue;");
}

#[test]
fn empty_block_still_opens_and_closes() {
    let out = compile(vec![Token::Block(CodeBlock {
        start_line: 1,
        end_line: 1,
        statements: vec![],
    })]);
    assert_eq!(out, "do\n\t\nend");
}

#[test]
fn same_input_compiles_byte_identically() {
    let make = || {
        vec![Token::MatchBlock {
            subject_name: "v".to_string(),
            subject_value: vec![lit("x")],
            branches: vec![
                MatchBranch {
                    match_values: vec![vec![lit("1")]],
                    pre_statements: vec![Token::Break],
                    extra_guard: None,
                    body: block(vec![Token::Continue]),
                },
                MatchBranch {
                    match_values: vec![],
                    pre_statements: vec![],
                    extra_guard: None,
                    body: block(vec![Token::Break]),
                },
            ],
            line: 7,
        }]
    };
    assert_eq!(compile(make()), compile(make()));
}

#[test]
fn raw_global_assignment_lowers_to_rawset() {
    let mut opts = options();
    opts.raw_global_assignment = true;
    let out = compile_with(opts, vec![Token::Declaration {
        local: false,
        names: vec!["a".to_string(), "b".to_string()],
        values: vec![vec![lit("1")]],
        line: 1,
    }]);
    assert_eq!(out, "rawset(_G, \"a\", 1);\nrawset(_G, \"b\", nil);");
}

#[test]
fn local_declaration_ignores_raw_global_option() {
    let mut opts = options();
    opts.raw_global_assignment = true;
    let out = compile_with(opts, vec![Token::Declaration {
        local: true,
        names: vec!["a".to_string()],
        values: vec![vec![lit("1")]],
        line: 1,
    }]);
    assert_eq!(out, "local a = 1;");
}

#[test]
fn debug_mode_marks_lines() {
    let mut opts = options();
    opts.debug_instrumentation = true;
    let out = compile_with(opts, vec![Token::Declaration {
        local: true,
        names: vec!["a".to_string()],
        values: vec![vec![lit("1")]],
        line: 5,
    }]);
    assert_eq!(out, "_clueline = 5;\nlocal a = 1; --5");
}

#[test]
fn debug_mode_renders_multi_digit_lines() {
    let mut opts = options();
    opts.debug_instrumentation = true;
    let out = compile_with(opts, vec![Token::Declaration {
        local: true,
        names: vec!["a".to_string()],
        values: vec![vec![lit("1")]],
        line: 1203,
    }]);
    assert_eq!(out, "_clueline = 1203;\nlocal a = 1; --1203");
}

#[test]
fn while_loop() {
    let out = compile(vec![Token::WhileLoop {
        condition: vec![lit("true")],
        body: block(vec![Token::Break]),
        line: 1,
    }]);
    assert_eq!(out, "while true do\n\tbreak;\nend");
}

#[test]
fn repeat_loop_tests_condition_after_body() {
    let out = compile(vec![Token::RepeatLoop {
        condition: vec![lit("done")],
        body: block(vec![Token::Break]),
        line: 1,
    }]);
    assert_eq!(out, "repeat \n\tbreak;\nuntil done");
}

#[test]
fn numeric_for_loop() {
    let out = compile(vec![Token::NumericForLoop {
        iterator: "i".to_string(),
        start: vec![lit("1")],
        stop: vec![lit("10")],
        step: vec![lit("1")],
        body: block(vec![Token::Break]),
        line: 1,
    }]);
    assert_eq!(out, "for i = 1, 10, 1 do\n\tbreak;\nend");
}

#[test]
fn generic_for_loop() {
    let out = compile(vec![Token::GenericForLoop {
        iterators: vec!["k".to_string(), "v".to_string()],
        iterable: vec![lit("pairs(t)")],
        body: block(vec![Token::Break]),
        line: 1,
    }]);
    assert_eq!(out, "for k, v in pairs(t) do\n\tbreak;\nend");
}

#[test]
fn conditional_with_else_block() {
    let out = compile(vec![Token::Conditional {
        condition: vec![lit("c")],
        body: block(vec![Token::Break]),
        else_branch: Some(Box::new(Token::Block(block(vec![Token::Continue])))),
    }]);
    assert_eq!(out, "if c then\n\tbreak;\nelse\n\tcontinue;\nend");
}

#[test]
fn conditional_chain_folds_into_elseif() {
    let out = compile(vec![Token::Conditional {
        condition: vec![lit("a")],
        body: block(vec![Token::Break]),
        else_branch: Some(Box::new(Token::Conditional {
            condition: vec![lit("b")],
            body: block(vec![Token::Continue]),
            else_branch: None,
        })),
    }]);
    assert_eq!(out, "if a then\n\tbreak;\nelseif b then\n\tcontinue;\nend");
}

#[test]
fn table_literal_fields() {
    let out = compile(vec![Token::Declaration {
        local: true,
        names: vec!["t".to_string()],
        values: vec![vec![Token::TableLiteral {
            fields: vec![TableField { key: Some(vec![lit("a")]), value: vec![lit("1")], line: 1 }],
            metamethods: vec![],
            explicit_metatable: None,
        }]],
        line: 1,
    }]);
    assert_eq!(out, "local t = {\n\ta = 1\n};");
}

#[test]
fn table_literal_with_metamethods() {
    let out = compile(vec![Token::Declaration {
        local: true,
        names: vec!["t".to_string()],
        values: vec![vec![Token::TableLiteral {
            fields: vec![],
            metamethods: vec![MetaField { name: "__add".to_string(), value: vec![lit("f")], line: 1 }],
            explicit_metatable: None,
        }]],
        line: 1,
    }]);
    assert_eq!(out, "local t = setmetatable({}, {\n\t__add = f\n});");
}

#[test]
fn table_literal_with_explicit_metatable() {
    let out = compile(vec![Token::Declaration {
        local: true,
        names: vec!["t".to_string()],
        values: vec![vec![Token::TableLiteral {
            fields: vec![],
            metamethods: vec![],
            explicit_metatable: Some(vec![lit("mt")]),
        }]],
        line: 1,
    }]);
    assert_eq!(out, "local t = setmetatable({}, mt);");
}

#[test]
fn lambda_with_parameter_default() {
    let out = compile(vec![Token::Declaration {
        local: true,
        names: vec!["f".to_string()],
        values: vec![vec![Token::Lambda {
            parameters: vec![FunctionArg {
                name: "x".to_string(),
                default: Some(ArgDefault { value: vec![lit("1")], line: 1 }),
            }],
            body: block(vec![Token::Return(None)]),
        }]],
        line: 1,
    }]);
    assert_eq!(
        out,
        "local f = function(x)\n\tif x == nil then\n\t\tx = 1\n\tend\n\treturn;\nend;"
    );
}

#[test]
fn function_declaration() {
    let out = compile(vec![Token::FunctionDecl {
        local: true,
        name: vec![lit("f")],
        parameters: vec![],
        body: block(vec![Token::Return(None)]),
    }]);
    assert_eq!(out, "local function f()\n\treturn;\nend");
}

#[test]
fn try_catch_lowers_to_pcall() {
    let out = compile(vec![Token::TryCatch {
        protected_body: block(vec![Token::Break]),
        error_name: Some("err".to_string()),
        recovery_body: Some(block(vec![Token::Continue])),
    }]);
    assert_eq!(
        out,
        "local _check, err = pcall(function()\n\tbreak;\nend)\nif not _check then\n\tcontinue;\nend"
    );
}

#[test]
fn try_without_recovery_is_a_bare_pcall() {
    let out = compile(vec![Token::TryCatch {
        protected_body: block(vec![Token::Break]),
        error_name: None,
        recovery_body: None,
    }]);
    assert_eq!(out, "pcall(function()\n\tbreak;\nend)");
}

#[test]
fn separator_only_between_statements() {
    let out = compile(vec![Token::Break, Token::Break]);
    assert_eq!(out, "break;\nbreak;");
}

#[test]
fn debug_mode_wraps_function_bodies_in_protected_call() {
    let mut opts = options();
    opts.debug_instrumentation = true;
    let out = compile_with(opts, vec![Token::Declaration {
        local: true,
        names: vec!["f".to_string()],
        values: vec![vec![Token::Lambda {
            parameters: vec![],
            body: block(vec![]),
        }]],
        line: 1,
    }]);
    assert!(out.contains("local _result = {xpcall(function()"));
    assert!(out.contains("_errored_file = \"main.clue\""));
    assert!(out.contains("_clue_error(err)"));
    assert!(out.contains("return (unpack or table.unpack)(_result)"));
}

#[test]
fn free_function_compiles_like_the_method() {
    let tokens = || vec![Token::Declaration {
        local: true,
        names: vec!["a".to_string()],
        values: vec![vec![lit("1")]],
        line: 1,
    }];
    let from_free = compile_tokens(options(), "main.clue", 0, tokens()).unwrap();
    let from_method = compile(tokens());
    assert_eq!(from_free, from_method);
    assert_eq!(from_free, "local a = 1;");
}

#[test]
fn nested_scope_indents_one_deeper() {
    let out = compile(vec![Token::Block(block(vec![Token::Block(block(vec![Token::Break]))]))]);
    assert_eq!(out, "do\n\tdo\n\t\tbreak;\n\tend\nend");
}

#[test]
fn call_arguments_join_with_commas() {
    let out = compile(vec![Token::Identifier {
        parts: vec![lit("f"), Token::Call(vec![vec![lit("1")], vec![lit("2")]])],
        line: 1,
    }]);
    assert_eq!(out, "f(1, 2);");
}

#[test]
fn starting_scope_indents_the_first_statement() {
    let out = Compiler::new(options(), "main.clue".to_string())
        .compile_tokens(2, vec![Token::Break])
        .unwrap();
    assert_eq!(out, "\t\tbreak;");
}

#[test]
fn debug_mode_brackets_loops_with_line_markers() {
    let mut opts = options();
    opts.debug_instrumentation = true;
    let out = compile_with(opts, vec![Token::WhileLoop {
        condition: vec![lit("true")],
        body: block(vec![Token::Break]),
        line: 3,
    }]);
    assert_eq!(
        out,
        "_clueline = 3;\nwhile true do\n\t_clueline = 1;\n\t--1->1\n\tbreak;\n_clueline = 3;\nend"
    );
}

#[test]
fn debug_mode_defers_table_field_comments_by_one_field() {
    let mut opts = options();
    opts.debug_instrumentation = true;
    let out = compile_with(opts, vec![Token::Declaration {
        local: true,
        names: vec!["t".to_string()],
        values: vec![vec![Token::TableLiteral {
            fields: vec![
                TableField { key: Some(vec![lit("a")]), value: vec![lit("1")], line: 1 },
                TableField { key: Some(vec![lit("b")]), value: vec![lit("2")], line: 2 },
            ],
            metamethods: vec![],
            explicit_metatable: None,
        }]],
        line: 7,
    }]);
    assert_eq!(
        out,
        "_clueline = 7;\nlocal t = {\n\ta = 1,  --1\n\tb = 2 --2\n}; --7"
    );
}
