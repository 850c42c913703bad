//! The executable generator: a single pass of mutually recursive emitters
//! over the intermediate representation, each proved to produce exactly the
//! text that [`crate::model`] defines.

use vstd::prelude::*;
use vstd::string::StringExecFns;

use crate::ast::{AssignOp, CodeBlock, Expression, FunctionArg, FunctionArgs, MatchBranch, MetaField, Options, TableField, Token};
use crate::ast::ContinueMode;
use crate::digits::decimal;
use crate::model::{
    arg_names_text, block_text, chain_text, closer_lines, comment_text, err_text,
    expr_text, expr_tok_text, exprs_texts, func_code_text, func_wrap_text, guards_text,
    ident_text, ident_walk, indent, join_texts, line_marker_text,
    match_branches_text, names_text, or_items_text, or_items_trim, rawset_list_text, sep, stmt_tok_text,
    stmts_tail, stmts_text, wf_args, wf_branches_from, wf_expr_tok, wf_expr_toks, wf_exprs,
    wf_fields, wf_ident_toks, wf_metas, wf_stmt_tok, wf_stmt_toks, Ctx,
};
use crate::model::{alter_values_text, branch_guard_text, branch_piece_text, default_clause_text, defaults_text, exprs_join_text, lemma_exprs_texts_index, lemma_exprs_texts_len, lemma_guards_text_nonempty, lemma_guards_text_push, field_item_text, fields_text, meta_item_text, metas_text, op_text, suffix_from, wf_branch};
use crate::weight::{
    args_weight, block_weight, branch_weight, branches_weight, exprs_weight, fields_weight,
    lemma_args_weight_split, lemma_branches_weight_split, lemma_exprs_weight_split,
    lemma_fields_weight_split, lemma_metas_weight_split, lemma_toks_weight_split, metas_weight,
    tok_weight, toks_weight,
};

verus! {

/// Compiles an intermediate representation into Lua source text, driven by
/// an immutable configuration and the name of the unit being compiled.
pub struct Compiler {
    options: Options,
    filename: String,
}

impl View for Compiler {
    type V = Ctx;

    closed spec fn view(&self) -> Ctx {
        Ctx { opts: self.options, fname: self.filename@ }
    }
}

impl Compiler {
    /// Creates a generator for one compilation unit.
    pub fn new(options: Options, filename: String) -> (c: Self)
        ensures
            c@ == (Ctx { opts: options, fname: filename@ }),
    {
        Compiler { options, filename }
    }

    /// One tab per open scope.
    fn indentate(&self, scope: usize) -> (r: String)
        ensures
            r@ == indent(scope as nat),
    {
        let mut r = String::new();
        let mut i: usize = 0;
        while i < scope
            invariant
                i <= scope,
                r@ == indent(i as nat),
            decreases scope - i,
        {
            r.append("\t");
            i = i + 1;
        }
        r
    }

    /// The separator placed after a statement when another one follows.
    fn indentate_if(&self, more: bool, scope: usize) -> (r: String)
        ensures
            r@ == sep(more, scope as nat),
    {
        if more {
            let mut r: String = "\n".to_owned();
            let tabs = self.indentate(scope);
            r.append(tabs.as_str());
            r
        } else {
            String::new()
        }
    }

    /// The trailing line comment of a statement under debug instrumentation.
    fn compile_debug_comment(&self, line: usize) -> (r: String)
        ensures
            r@ == comment_text(self@, line as nat),
    {
        if self.options.debug_instrumentation {
            let mut r: String = " --".to_owned();
            let d = decimal(line);
            r.append(d.as_str());
            r
        } else {
            String::new()
        }
    }

    /// The current-line marker placed before a statement under debug
    /// instrumentation.
    fn compile_debug_line(&self, line: usize, scope: usize) -> (r: String)
        ensures
            r@ == line_marker_text(self@, line as nat, scope as nat),
    {
        if self.options.debug_instrumentation {
            let mut r: String = "_clueline = ".to_owned();
            let d = decimal(line);
            r.append(d.as_str());
            r.append(";");
            r.append("\n");
            let tabs = self.indentate(scope);
            r.append(tabs.as_str());
            proof {
                assert(r@ =~= line_marker_text(self@, line as nat, scope as nat));
            }
            r
        } else {
            String::new()
        }
    }

    /// Plain names joined with `", "`.
    fn compile_identifiers(&self, names: &Vec<String>) -> (r: String)
        ensures
            r@ == names_text(names@),
    {
        let mut r = String::new();
        let n = names.len();
        let mut i: usize = 0;
        proof {
            assert(names@.subrange(0, n as int) =~= names@);
        }
        while i < n
            invariant
                i <= n,
                n == names@.len(),
                names_text(names@) == r@ + names_text(names@.subrange(i as int, n as int)),
            decreases n - i,
        {
            proof {
                let suffix = names@.subrange(i as int, n as int);
                assert(suffix[0] == names@[i as int]);
                assert(suffix.subrange(1, suffix.len() as int) =~= names@.subrange(
                    i as int + 1,
                    n as int,
                ));
            }
            r.append(names[i].as_str());
            if i + 1 < n {
                r.append(", ");
            }
            i = i + 1;
        }
        r
    }

    /// Expressions rendered and joined with `", "`.
    #[verifier::rlimit(100)]
    fn compile_expressions(&self, scope: usize, values: &Vec<Expression>) -> (r: Result<
        String,
        String,
    >)
        requires
            scope + exprs_weight(values@) <= usize::MAX,
        ensures
            match r {
                Result::Ok(s) => wf_exprs(values@) && s@ == exprs_join_text(
                    self@,
                    scope as nat,
                    values@,
                ),
                Result::Err(e) => !wf_exprs(values@) && e@ == err_text(),
            },
        decreases exprs_weight(values@), 4int,
    {
        let ghost c = self@;
        let mut r = String::new();
        let n = values.len();
        let mut i: usize = 0;
        proof {
            assert(values@.subrange(0, n as int) =~= values@);
        }
        while i < n
            invariant
                i <= n,
                n == values@.len(),
                c == self@,
                scope + exprs_weight(values@.subrange(i as int, n as int)) <= usize::MAX,
                exprs_weight(values@.subrange(i as int, n as int)) <= exprs_weight(values@),
                wf_exprs(values@) == wf_exprs(values@.subrange(i as int, n as int)),
                exprs_join_text(c, scope as nat, values@) == r@ + exprs_join_text(
                    c,
                    scope as nat,
                    values@.subrange(i as int, n as int),
                ),
            decreases n - i,
        {
            proof {
                lemma_exprs_weight_split(values@, i as int);
                let suffix = values@.subrange(i as int, n as int);
                assert(suffix[0] == values@[i as int]);
                assert(suffix.subrange(1, suffix.len() as int) =~= values@.subrange(
                    i as int + 1,
                    n as int,
                ));
            }
            let piece = self.compile_expression(scope, &values[i])?;
            r.append(piece.as_str());
            if i + 1 < n {
                r.append(", ");
            }
            i = i + 1;
        }
        Ok(r)
    }

    /// Lowers an identifier chain, turning each optional-access marker into
    /// a short-circuit guard over the prefix accumulated so far.
    #[verifier::rlimit(100)]
    fn compile_identifier(&self, scope: usize, parts: &Expression) -> (r: Result<String, String>)
        requires
            scope + toks_weight(parts@) <= usize::MAX,
        ensures
            match r {
                Result::Ok(s) => wf_ident_toks(parts@) && s@ == ident_text(
                    self@,
                    scope as nat,
                    parts@,
                ),
                Result::Err(e) => !wf_ident_toks(parts@) && e@ == err_text(),
            },
        decreases toks_weight(parts@), 0int,
    {
        let ghost c = self@;
        let mut guards = String::new();
        let mut chain = String::new();
        let ghost mut gs: Seq<Seq<char>> = Seq::empty();
        let n = parts.len();
        let mut i: usize = 0;
        proof {
            assert(parts@.subrange(0, n as int) =~= parts@);
        }
        while i < n
            invariant
                i <= n,
                n == parts@.len(),
                c == self@,
                scope + toks_weight(parts@.subrange(i as int, n as int)) <= usize::MAX,
                toks_weight(parts@.subrange(i as int, n as int)) <= toks_weight(parts@),
                wf_ident_toks(parts@) == wf_ident_toks(parts@.subrange(i as int, n as int)),
                ident_walk(c, scope as nat, parts@, Seq::<Seq<char>>::empty(), Seq::<char>::empty())
                    == ident_walk(
                    c,
                    scope as nat,
                    parts@.subrange(i as int, n as int),
                    gs,
                    chain@,
                ),
                guards@ == guards_text(gs),
            decreases n - i,
        {
            proof {
                lemma_toks_weight_split(parts@, i as int);
                let suffix = parts@.subrange(i as int, n as int);
                assert(suffix[0] == parts@[i as int]);
                assert(suffix.subrange(1, suffix.len() as int) =~= parts@.subrange(
                    i as int + 1,
                    n as int,
                ));
            }
            let t = &parts[i];
            match t {
                Token::Literal(s) => {
                    chain.append(s.as_str());
                    i = i + 1;
                },
                Token::OptionalField => {
                    proof {
                        lemma_guards_text_push(gs, chain@);
                        gs = gs.push(chain@);
                    }
                    guards.append(chain.as_str());
                    guards.append(" and ");
                    chain.append(".");
                    i = i + 1;
                },
                Token::OptionalMethod => {
                    proof {
                        lemma_guards_text_push(gs, chain@);
                        gs = gs.push(chain@);
                    }
                    guards.append(chain.as_str());
                    guards.append(" and ");
                    chain.append(":");
                    i = i + 1;
                },
                Token::OptionalIndex => {
                    if i + 1 < n {
                        match &parts[i + 1] {
                            Token::Grouped(e) => {
                                proof {
                                    lemma_toks_weight_split(parts@, i as int + 1);
                                    assert(parts@.subrange(i as int, n as int)[1] == parts@[i as int
                                        + 1]);
                                    assert(parts@.subrange(i as int, n as int).subrange(
                                        2,
                                        (n - i) as int,
                                    ) =~= parts@.subrange(i as int + 2, n as int));
                                }
                                let et = self.compile_expression(scope, e)?;
                                proof {
                                    lemma_guards_text_push(gs, chain@);
                                    gs = gs.push(chain@);
                                }
                                guards.append(chain.as_str());
                                guards.append(" and ");
                                chain.append("[(");
                                chain.append(et.as_str());
                                chain.append(")]");
                                i = i + 2;
                            },
                            _ => {
                                return Err("Unexpected token found".to_owned());
                            },
                        }
                    } else {
                        return Err("Unexpected token found".to_owned());
                    }
                },
                Token::Call(args) => {
                    let at = self.compile_expressions(scope, args)?;
                    chain.append("(");
                    chain.append(at.as_str());
                    chain.append(")");
                    i = i + 1;
                },
                Token::Grouped(e) => {
                    let et = self.compile_expression(scope, e)?;
                    chain.append("(");
                    chain.append(et.as_str());
                    chain.append(")");
                    i = i + 1;
                },
                _ => {
                    return Err("Unexpected token found".to_owned());
                },
            }
        }
        proof {
            assert(parts@.subrange(n as int, n as int).len() == 0);
            assert(ident_walk(
                c,
                scope as nat,
                parts@,
                Seq::<Seq<char>>::empty(),
                Seq::<char>::empty(),
            ) == (gs, chain@));
        }
        if guards.as_str().is_empty() {
            proof {
                if gs.len() > 0 {
                    lemma_guards_text_nonempty(gs);
                }
                assert(gs.len() == 0);
                assert(chain@ == ident_text(c, scope as nat, parts@));
            }
            Ok(chain)
        } else {
            proof {
                if gs.len() == 0 {
                    assert(guards_text(gs).len() == 0);
                }
                assert(gs.len() > 0);
            }
            let mut out: String = "(".to_owned();
            out.append(guards.as_str());
            out.append(chain.as_str());
            out.append(")");
            proof {
                assert(out@ =~= ident_text(c, scope as nat, parts@));
            }
            Ok(out)
        }
    }

    /// Renders one field of a table constructor, with the deferred line
    /// comment of its predecessor.
    #[verifier::rlimit(100)]
    fn compile_table_field(&self, scope: usize, f: &TableField, prevline: usize) -> (r: Result<
        String,
        String,
    >)
        requires
            scope + (match f.key {
                Option::Some(k) => toks_weight(k@),
                Option::None => 0nat,
            }) + toks_weight(f.value@) <= usize::MAX,
        ensures
            match r {
                Result::Ok(s) => (match f.key {
                    Option::Some(k) => wf_expr_toks(k@),
                    Option::None => true,
                }) && wf_expr_toks(f.value@) && s@ == field_item_text(
                    self@,
                    scope as nat,
                    *f,
                    prevline as nat,
                ),
                Result::Err(e) => !((match f.key {
                    Option::Some(k) => wf_expr_toks(k@),
                    Option::None => true,
                }) && wf_expr_toks(f.value@)) && e@ == err_text(),
            },
        decreases (match f.key {
            Option::Some(k) => toks_weight(k@),
            Option::None => 0nat,
        }) + toks_weight(f.value@) + 1, 0int,
    {
        let ghost c = self@;
        let vt = self.compile_expression(scope, &f.value)?;
        let mut out = String::new();
        if prevline != 0 {
            let lead = self.compile_debug_comment(prevline);
            out.append(lead.as_str());
        }
        out.append("\n");
        let pre = self.indentate(scope);
        out.append(pre.as_str());
        match &f.key {
            Option::Some(k) => {
                let kt = self.compile_expression(scope, k)?;
                out.append(kt.as_str());
                out.append(" = ");
                out.append(vt.as_str());
            },
            Option::None => {
                out.append(vt.as_str());
            },
        }
        proof {
            assert(out@ =~= field_item_text(c, scope as nat, *f, prevline as nat));
        }
        Ok(out)
    }

    /// Renders one metamethod entry of a table constructor.
    #[verifier::rlimit(100)]
    fn compile_meta_item(&self, scope: usize, m: &MetaField, prevline: usize) -> (r: Result<
        String,
        String,
    >)
        requires
            scope + toks_weight(m.value@) <= usize::MAX,
        ensures
            match r {
                Result::Ok(s) => wf_expr_toks(m.value@) && s@ == meta_item_text(
                    self@,
                    scope as nat,
                    *m,
                    prevline as nat,
                ),
                Result::Err(e) => !wf_expr_toks(m.value@) && e@ == err_text(),
            },
        decreases toks_weight(m.value@) + 1, 0int,
    {
        let ghost c = self@;
        let vt = self.compile_expression(scope, &m.value)?;
        let mut out = String::new();
        if prevline != 0 {
            let lead = self.compile_debug_comment(prevline);
            out.append(lead.as_str());
        }
        out.append("\n");
        let pre = self.indentate(scope);
        out.append(pre.as_str());
        out.append(m.name.as_str());
        out.append(" = ");
        out.append(vt.as_str());
        proof {
            assert(out@ =~= meta_item_text(c, scope as nat, *m, prevline as nat));
        }
        Ok(out)
    }

    /// Lowers a table constructor: one field per line at the inner
    /// indentation, wrapped in a metatable-construction call when
    /// metamethods or an explicit metatable are present.
    #[verifier::rlimit(100)]
    fn compile_table(
        &self,
        scope: usize,
        fields: &Vec<TableField>,
        metamethods: &Vec<MetaField>,
        explicit_metatable: &Option<Expression>,
    ) -> (r: Result<String, String>)
        requires
            scope + 1 + fields_weight(fields@) + metas_weight(metamethods@) + (match *explicit_metatable {
                Option::Some(mt) => toks_weight(mt@),
                Option::None => 0nat,
            }) <= usize::MAX,
        ensures
            match r {
                Result::Ok(s) => wf_expr_tok(
                    Token::TableLiteral {
                        fields: *fields,
                        metamethods: *metamethods,
                        explicit_metatable: *explicit_metatable,
                    },
                ) && s@ == expr_tok_text(
                    self@,
                    scope as nat,
                    Token::TableLiteral {
                        fields: *fields,
                        metamethods: *metamethods,
                        explicit_metatable: *explicit_metatable,
                    },
                ),
                Result::Err(e) => !wf_expr_tok(
                    Token::TableLiteral {
                        fields: *fields,
                        metamethods: *metamethods,
                        explicit_metatable: *explicit_metatable,
                    },
                ) && e@ == err_text(),
            },
        decreases 1 + fields_weight(fields@) + metas_weight(metamethods@) + (match *explicit_metatable {
            Option::Some(mt) => toks_weight(mt@),
            Option::None => 0nat,
        }), 1int,
    {
        let ghost c = self@;
        reveal(expr_tok_text);
        let inner = scope + 1;
        let mt_text: Option<String> = match explicit_metatable {
            Option::Some(mt) => Option::Some(self.compile_expression(scope, mt)?),
            Option::None => Option::None,
        };
        let pre1 = self.indentate(inner);
        let pre2 = self.indentate(scope);
        let mut values = String::new();
        let fnum = fields.len();
        if fnum > 0 {
            let mut prevline: usize = 0;
            let mut i: usize = 0;
            proof {
                assert(fields@.subrange(0, fnum as int) =~= fields@);
            }
            while i < fnum
                invariant
                    i <= fnum,
                    fnum == fields@.len(),
                    c == self@,
                    inner == scope + 1,
                    pre1@ == indent(inner as nat),
                    scope + 1 + fields_weight(fields@.subrange(i as int, fnum as int))
                        <= usize::MAX,
                    fields_weight(fields@.subrange(i as int, fnum as int)) <= fields_weight(
                        fields@,
                    ),
                    wf_fields(fields@) == wf_fields(fields@.subrange(i as int, fnum as int)),
                    i > 0 ==> prevline == fields@[i as int - 1].line,
                    i == 0 ==> prevline == 0,
                    fields_text(c, inner as nat, fields@, 0) == values@ + fields_text(
                        c,
                        inner as nat,
                        fields@.subrange(i as int, fnum as int),
                        prevline as nat,
                    ),
                decreases fnum - i,
            {
                proof {
                    lemma_fields_weight_split(fields@, i as int);
                    let suffix = fields@.subrange(i as int, fnum as int);
                    assert(suffix[0] == fields@[i as int]);
                    assert(suffix.subrange(1, suffix.len() as int) =~= fields@.subrange(
                        i as int + 1,
                        fnum as int,
                    ));
                }
                let f = &fields[i];
                let piece = self.compile_table_field(inner, f, prevline)?;
                values.append(piece.as_str());
                if i + 1 < fnum {
                    values.append(", ");
                }
                prevline = f.line;
                i = i + 1;
            }
            let lastc = self.compile_debug_comment(prevline);
            values.append(lastc.as_str());
            values.append("\n");
        }
        let mnum = metamethods.len();
        if mnum == 0 {
            match &mt_text {
                Option::Some(mts) => {
                    let mut out: String = "setmetatable({".to_owned();
                    out.append(values.as_str());
                    out.append(pre2.as_str());
                    out.append("}, ");
                    out.append(mts.as_str());
                    out.append(")");
                    proof {
                        reveal(expr_tok_text);
                        assert(out@ =~= expr_tok_text(
                            c,
                            scope as nat,
                            Token::TableLiteral {
                                fields: *fields,
                                metamethods: *metamethods,
                                explicit_metatable: *explicit_metatable,
                            },
                        ));
                    }
                    Ok(out)
                },
                Option::None => {
                    let mut out: String = "{".to_owned();
                    out.append(values.as_str());
                    out.append(pre2.as_str());
                    out.append("}");
                    proof {
                        reveal(expr_tok_text);
                        assert(out@ =~= expr_tok_text(
                            c,
                            scope as nat,
                            Token::TableLiteral {
                                fields: *fields,
                                metamethods: *metamethods,
                                explicit_metatable: *explicit_metatable,
                            },
                        ));
                    }
                    Ok(out)
                },
            }
        } else {
            let mut metas = String::new();
            let mut prevline: usize = 0;
            let mut i: usize = 0;
            proof {
                assert(metamethods@.subrange(0, mnum as int) =~= metamethods@);
            }
            while i < mnum
                invariant
                    i <= mnum,
                    mnum == metamethods@.len(),
                    c == self@,
                    inner == scope + 1,
                    pre1@ == indent(inner as nat),
                    scope + 1 + metas_weight(metamethods@.subrange(i as int, mnum as int))
                        <= usize::MAX,
                    metas_weight(metamethods@.subrange(i as int, mnum as int)) <= metas_weight(
                        metamethods@,
                    ),
                    wf_metas(metamethods@) == wf_metas(
                        metamethods@.subrange(i as int, mnum as int),
                    ),
                    i > 0 ==> prevline == metamethods@[i as int - 1].line,
                    i == 0 ==> prevline == 0,
                    metas_text(c, inner as nat, metamethods@, 0) == metas@ + metas_text(
                        c,
                        inner as nat,
                        metamethods@.subrange(i as int, mnum as int),
                        prevline as nat,
                    ),
                decreases mnum - i,
            {
                proof {
                    lemma_metas_weight_split(metamethods@, i as int);
                    let suffix = metamethods@.subrange(i as int, mnum as int);
                    assert(suffix[0] == metamethods@[i as int]);
                    assert(suffix.subrange(1, suffix.len() as int) =~= metamethods@.subrange(
                        i as int + 1,
                        mnum as int,
                    ));
                }
                let m = &metamethods[i];
                let piece = self.compile_meta_item(inner, m, prevline)?;
                metas.append(piece.as_str());
                if i + 1 < mnum {
                    metas.append(", ");
                }
                prevline = m.line;
                i = i + 1;
            }
            let lastc = self.compile_debug_comment(prevline);
            let mut out: String = "setmetatable({".to_owned();
            out.append(values.as_str());
            out.append(pre2.as_str());
            out.append("}, {");
            out.append(metas.as_str());
            out.append(lastc.as_str());
            out.append("\n");
            out.append(pre2.as_str());
            out.append("})");
            proof {
                reveal(expr_tok_text);
                assert(out@ =~= expr_tok_text(
                    c,
                    scope as nat,
                    Token::TableLiteral {
                        fields: *fields,
                        metamethods: *metamethods,
                        explicit_metatable: *explicit_metatable,
                    },
                ));
            }
            Ok(out)
        }
    }

    /// Folds an expression into text by rendering each token in order.
    #[verifier::rlimit(100)]
    fn compile_expression(&self, scope: usize, expr: &Expression) -> (r: Result<String, String>)
        requires
            scope + toks_weight(expr@) <= usize::MAX,
        ensures
            match r {
                Result::Ok(s) => wf_expr_toks(expr@) && s@ == expr_text(
                    self@,
                    scope as nat,
                    expr@,
                ),
                Result::Err(e) => !wf_expr_toks(expr@) && e@ == err_text(),
            },
        decreases toks_weight(expr@), 3int,
    {
        let ghost c = self@;
        let mut result = String::new();
        let n = expr.len();
        let mut i: usize = 0;
        proof {
            assert(expr@.subrange(0, n as int) =~= expr@);
        }
        while i < n
            invariant
                i <= n,
                n == expr@.len(),
                c == self@,
                scope + toks_weight(expr@.subrange(i as int, n as int)) <= usize::MAX,
                toks_weight(expr@.subrange(i as int, n as int)) <= toks_weight(expr@),
                wf_expr_toks(expr@) == wf_expr_toks(expr@.subrange(i as int, n as int)),
                expr_text(c, scope as nat, expr@) == result@ + expr_text(
                    c,
                    scope as nat,
                    expr@.subrange(i as int, n as int),
                ),
            decreases n - i,
        {
            proof {
                lemma_toks_weight_split(expr@, i as int);
                let suffix = expr@.subrange(i as int, n as int);
                assert(suffix[0] == expr@[i as int]);
                assert(suffix.subrange(1, suffix.len() as int) =~= expr@.subrange(
                    i as int + 1,
                    n as int,
                ));
            }
            let piece = self.compile_expr_tok(scope, &expr[i])?;
            result.append(piece.as_str());
            proof {
                reveal(expr_text);
                let suffix = expr@.subrange(i as int, n as int);
                assert(expr_text(c, scope as nat, suffix) == expr_tok_text(
                    c,
                    scope as nat,
                    suffix[0],
                ) + expr_text(c, scope as nat, suffix.subrange(1, suffix.len() as int)));
                assert(expr_text(c, scope as nat, expr@.subrange(i as int, n as int))
                    == expr_tok_text(c, scope as nat, expr@[i as int]) + expr_text(
                    c,
                    scope as nat,
                    expr@.subrange(i as int + 1, n as int),
                ));
                assert(expr_text(c, scope as nat, expr@) =~= result@ + expr_text(
                    c,
                    scope as nat,
                    expr@.subrange(i as int + 1, n as int),
                ));
            }
            i = i + 1;
        }
        Ok(result)
    }

    /// Renders one token standing in expression position.
    #[verifier::rlimit(100)]
    fn compile_expr_tok(&self, scope: usize, t: &Token) -> (r: Result<String, String>)
        requires
            scope + tok_weight(*t) <= usize::MAX,
        ensures
            match r {
                Result::Ok(s) => wf_expr_tok(*t) && s@ == expr_tok_text(self@, scope as nat, *t),
                Result::Err(e) => !wf_expr_tok(*t) && e@ == err_text(),
            },
        decreases tok_weight(*t), 2int,
    {
        let ghost c = self@;
        reveal(expr_tok_text);
        match t {
            Token::Literal(s) => {
                proof {
                    assert(*t == Token::Literal(*s));
                }
                Ok(s.clone())
            },
            Token::TableLiteral { fields, metamethods, explicit_metatable } => {
                proof {
                    assert(*t == Token::TableLiteral {
                        fields: *fields,
                        metamethods: *metamethods,
                        explicit_metatable: *explicit_metatable,
                    });
                }
                self.compile_table(scope, fields, metamethods, explicit_metatable)
            },
            Token::Lambda { parameters, body } => {
                proof {
                    assert(*t == Token::Lambda { parameters: *parameters, body: *body });
                }
                let pair = self.compile_function(scope, parameters, body)?;
                let mut out: String = "function(".to_owned();
                out.append(pair.1.as_str());
                out.append(")");
                out.append(pair.0.as_str());
                out.append("end");
                proof {
                    assert(out@ =~= expr_tok_text(c, scope as nat, *t));
                }
                Ok(out)
            },
            Token::Identifier { parts, line } => {
                proof {
                    assert(*t == Token::Identifier { parts: *parts, line: *line });
                }
                self.compile_identifier(scope, parts)
            },
            Token::Call(args) => {
                proof {
                    assert(*t == Token::Call(*args));
                }
                let piece = self.compile_expressions(scope, args)?;
                let mut out: String = "(".to_owned();
                out.append(piece.as_str());
                out.append(")");
                proof {
                    assert(out@ =~= expr_tok_text(c, scope as nat, *t));
                }
                Ok(out)
            },
            Token::Grouped(e) => {
                proof {
                    assert(*t == Token::Grouped(*e));
                }
                let piece = self.compile_expression(scope, e)?;
                let mut out: String = "(".to_owned();
                out.append(piece.as_str());
                out.append(")");
                proof {
                    assert(out@ =~= expr_tok_text(c, scope as nat, *t));
                }
                Ok(out)
            },
            _ => Err("Unexpected token found".to_owned()),
        }
    }

    /// Compiles a parameter list and a function body: the body comes first,
    /// so that default-value conditionals can be prepended to it, and under
    /// debug instrumentation the whole body is wrapped in a protected call
    /// that attributes a runtime fault to this compilation unit.
    #[verifier::rlimit(100)]
    fn compile_function(&self, scope: usize, args: &FunctionArgs, code: &CodeBlock) -> (r: Result<
        (String, String),
        String,
    >)
        requires
            scope + 2 + args_weight(args@) + block_weight(*code) <= usize::MAX,
        ensures
            match r {
                Result::Ok(p) => wf_args(args@) && wf_stmt_toks(code.statements@) && p.0@
                    == func_code_text(
                    self@,
                    scope as nat,
                    Token::Lambda { parameters: *args, body: *code },
                ) && p.1@ == arg_names_text(args@),
                Result::Err(e) => !(wf_args(args@) && wf_stmt_toks(code.statements@)) && e@
                    == err_text(),
            },
        decreases 2 + args_weight(args@) + block_weight(*code), 0int,
    {
        let ghost c = self@;
        let dbg: usize = if self.options.debug_instrumentation {
            1
        } else {
            0
        };
        let mut codes = self.compile_code_block(scope + dbg, "", code)?;
        proof {
            reveal_strlit("");
            assert(""@ =~= Seq::<char>::empty());
        }
        let ghost base = codes@;
        let mut argst = String::new();
        let n = args.len();
        let mut i: usize = 0;
        proof {
            assert(args@.subrange(0, n as int) =~= args@);
            assert(args@.subrange(0, 0) =~= Seq::<FunctionArg>::empty());
        }
        while i < n
            invariant
                i <= n,
                n == args@.len(),
                c == self@,
                scope + 2 + args_weight(args@.subrange(i as int, n as int)) <= usize::MAX,
                args_weight(args@.subrange(i as int, n as int)) <= args_weight(args@),
                wf_args(args@) == wf_args(args@.subrange(i as int, n as int)),
                arg_names_text(args@) == argst@ + arg_names_text(
                    args@.subrange(i as int, n as int),
                ),
                codes@ == defaults_text(c, scope as nat, args@.subrange(0, i as int)) + base,
            decreases n - i,
        {
            proof {
                lemma_args_weight_split(args@, i as int);
                let suffix = args@.subrange(i as int, n as int);
                assert(suffix[0] == args@[i as int]);
                assert(suffix.subrange(1, suffix.len() as int) =~= args@.subrange(
                    i as int + 1,
                    n as int,
                ));
                let pfx = args@.subrange(0, i as int + 1);
                assert(pfx[pfx.len() - 1] == args@[i as int]);
                assert(pfx.subrange(0, pfx.len() - 1) =~= args@.subrange(0, i as int));
            }
            let a = &args[i];
            argst.append(a.name.as_str());
            if i + 1 < n {
                argst.append(", ");
            }
            match &a.default {
                Option::Some(d) => {
                    let def = self.compile_expression(scope + 2, &d.value)?;
                    let pre = self.indentate(scope + 1);
                    let marker = self.compile_debug_line(d.line, scope + 2);
                    let cmt = self.compile_debug_comment(d.line);
                    let mut clause: String = "\n".to_owned();
                    clause.append(pre.as_str());
                    clause.append("if ");
                    clause.append(a.name.as_str());
                    clause.append(" == nil then\n");
                    clause.append(pre.as_str());
                    clause.append("\t");
                    clause.append(marker.as_str());
                    clause.append(a.name.as_str());
                    clause.append(" = ");
                    clause.append(def.as_str());
                    clause.append(cmt.as_str());
                    clause.append("\n");
                    clause.append(pre.as_str());
                    clause.append("end");
                    proof {
                        assert(clause@ =~= default_clause_text(
                            c,
                            scope as nat,
                            args@[i as int],
                        ));
                    }
                    clause.append(codes.as_str());
                    codes = clause;
                    proof {
                        assert(codes@ =~= defaults_text(
                            c,
                            scope as nat,
                            args@.subrange(0, i as int + 1),
                        ) + base);
                    }
                },
                Option::None => {
                    proof {
                        assert(default_clause_text(c, scope as nat, args@[i as int])
                            =~= Seq::<char>::empty());
                        assert(defaults_text(c, scope as nat, args@.subrange(0, i as int + 1))
                            == default_clause_text(c, scope as nat, args@[i as int])
                            + defaults_text(c, scope as nat, args@.subrange(0, i as int)));
                        assert(codes@ =~= defaults_text(
                            c,
                            scope as nat,
                            args@.subrange(0, i as int + 1),
                        ) + base);
                    }
                },
            }
            i = i + 1;
        }
        proof {
            assert(args@.subrange(0, n as int) =~= args@);
        }
        if self.options.debug_instrumentation {
            let pre = self.indentate(scope);
            let mut w: String = "\n".to_owned();
            w.append(pre.as_str());
            w.append("\tlocal _result = {xpcall(function(");
            w.append(argst.as_str());
            w.append(")");
            w.append(codes.as_str());
            w.append("end, function(err)\n");
            w.append(pre.as_str());
            w.append("\t\t_errored_file = \"");
            w.append(self.filename.as_str());
            w.append("\"\n");
            w.append(pre.as_str());
            w.append("\t\t_clue_error(err)\n");
            w.append(pre.as_str());
            w.append("\tend");
            if !argst.as_str().is_empty() {
                w.append(", ");
                w.append(argst.as_str());
            }
            w.append(")}\n");
            w.append(pre.as_str());
            w.append("\tlocal _ok = table.remove(_result, 1)\n");
            w.append(pre.as_str());
            w.append("\tif _errored then\n");
            w.append(pre.as_str());
            w.append("\t\tlocal err, caller = _errored, debug.getinfo(2, \"f\").func\n");
            w.append(pre.as_str());
            w.append("\t\tif caller == pcall or caller == xpcall then _errored = nil end\n");
            w.append(pre.as_str());
            w.append("\t\terror(err)\n");
            w.append(pre.as_str());
            w.append("\tend\n");
            w.append(pre.as_str());
            w.append("\treturn (unpack or table.unpack)(_result)\n");
            w.append(pre.as_str());
            proof {
                assert(w@ =~= func_wrap_text(c, scope as nat, argst@, codes@));
                assert(w@ =~= func_code_text(
                    c,
                    scope as nat,
                    Token::Lambda { parameters: *args, body: *code },
                ));
            }
            Ok((w, argst))
        } else {
            proof {
                assert(codes@ =~= func_code_text(
                    c,
                    scope as nat,
                    Token::Lambda { parameters: *args, body: *code },
                ));
            }
            Ok((codes, argst))
        }
    }

    /// Compiles a code block: its statements one scope deeper, between the
    /// given opening text and the closing re-indentation; under debug
    /// instrumentation, bracketed by the line marker and the start/end
    /// comment pair.
    #[verifier::rlimit(100)]
    fn compile_code_block(&self, scope: usize, start: &str, block: &CodeBlock) -> (r: Result<
        String,
        String,
    >)
        requires
            scope + block_weight(*block) <= usize::MAX,
        ensures
            match r {
                Result::Ok(s) => wf_stmt_toks(block.statements@) && s@ == block_text(
                    self@,
                    scope as nat,
                    start@,
                    *block,
                ),
                Result::Err(e) => !wf_stmt_toks(block.statements@) && e@ == err_text(),
            },
        decreases block_weight(*block), 0int,
    {
        let ghost c = self@;
        let code = self.compile_statements(scope + 1, &block.statements)?;
        let pre = self.indentate(scope);
        let mut r: String = start.to_owned();
        if self.options.debug_instrumentation {
            r.append("\n");
            r.append(pre.as_str());
            r.append("\t");
            let marker = self.compile_debug_line(block.start_line, scope + 1);
            r.append(marker.as_str());
            r.append("--");
            let ds = decimal(block.start_line);
            r.append(ds.as_str());
            r.append("->");
            let de = decimal(block.end_line);
            r.append(de.as_str());
            r.append("\n");
            r.append(code.as_str());
            r.append("\n");
            r.append(pre.as_str());
        } else {
            r.append("\n");
            r.append(code.as_str());
            r.append("\n");
            r.append(pre.as_str());
        }
        proof {
            assert(r@ =~= block_text(c, scope as nat, start@, *block));
        }
        Ok(r)
    }

    /// Emits one raw-global-set call per name, the rendered values (already
    /// validated) matched to names by position and names beyond the values
    /// bound to a null literal.
    #[verifier::rlimit(100)]
    fn compile_rawset_list(
        &self,
        scope: usize,
        names: &Vec<String>,
        vtexts: &Vec<String>,
        values: Ghost<Seq<Expression>>,
        cmt: &String,
        tail: &String,
    ) -> (r: String)
        requires
            vtexts@.len() == values@.len(),
            forall|q: int|
                0 <= q < values@.len() ==> (#[trigger] vtexts@[q])@ == expr_text(
                    self@,
                    scope as nat,
                    values@[q]@,
                ),
        ensures
            r@ == rawset_list_text(
                scope as nat,
                names@,
                exprs_texts(self@, scope as nat, values@),
                cmt@,
                tail@,
            ),
    {
        let ghost c = self@;
        reveal(stmt_tok_text);
        let ghost vals = exprs_texts(c, scope as nat, values@);
        proof {
            lemma_exprs_texts_len(c, scope as nat, values@);
            assert(names@.subrange(0, names@.len() as int) =~= names@);
            assert(suffix_from(vals, 0) =~= vals);
        }
        let pre = self.indentate(scope);
        let mut out = String::new();
        let nn = names.len();
        let mut k: usize = 0;
        while k < nn
            invariant
                k <= nn,
                nn == names@.len(),
                c == self@,
                vals == exprs_texts(c, scope as nat, values@),
                vals.len() == values@.len(),
                vtexts@.len() == values@.len(),
                forall|q: int|
                    0 <= q < values@.len() ==> (#[trigger] vtexts@[q])@ == expr_text(
                        c,
                        scope as nat,
                        values@[q]@,
                    ),
                pre@ == indent(scope as nat),
                rawset_list_text(scope as nat, names@, vals, cmt@, tail@) == out@
                    + rawset_list_text(
                    scope as nat,
                    names@.subrange(k as int, nn as int),
                    suffix_from(vals, k as int),
                    cmt@,
                    tail@,
                ),
            decreases nn - k,
        {
            proof {
                let nsuffix = names@.subrange(k as int, nn as int);
                assert(nsuffix[0] == names@[k as int]);
                assert(nsuffix.subrange(1, nsuffix.len() as int) =~= names@.subrange(
                    k as int + 1,
                    nn as int,
                ));
                if k < vals.len() {
                    lemma_exprs_texts_index(c, scope as nat, values@, k as int);
                    assert(suffix_from(vals, k as int)[0] == vals[k as int]);
                    assert(suffix_from(vals, k as int).subrange(
                        1,
                        vals.len() - k as int,
                    ) =~= suffix_from(vals, k as int + 1));
                } else {
                    assert(suffix_from(vals, k as int).len() == 0);
                    assert(suffix_from(vals, k as int) =~= suffix_from(vals, k as int + 1));
                }
            }
            let ghost o0 = out@;
            out.append("rawset(_G, \"");
            out.append(names[k].as_str());
            out.append("\", ");
            if k < vtexts.len() {
                out.append(vtexts[k].as_str());
            } else {
                out.append("nil");
            }
            out.append(");");
            out.append(cmt.as_str());
            if k + 1 < nn {
                out.append("\n");
                out.append(pre.as_str());
            } else {
                out.append(tail.as_str());
            }
            proof {
                let value: Seq<char> = if k < vals.len() {
                    vals[k as int]
                } else {
                    "nil"@
                };
                let endsep: Seq<char> = if k + 1 < nn {
                    "\n"@ + indent(scope as nat)
                } else {
                    tail@
                };
                assert(out@ =~= o0 + ("rawset(_G, \""@ + names@[k as int]@ + "\", "@ + value
                    + ");"@ + cmt@ + endsep));
            }
            k = k + 1;
        }
        out
    }

    /// Lowers one declaration statement: a raw-global-set call per name when
    /// the raw-global option applies, a plain (optionally `local`)
    /// multi-assignment otherwise.
    #[verifier::rlimit(100)]
    fn compile_declaration(
        &self,
        scope: usize,
        local: bool,
        names: &Vec<String>,
        values: &Vec<Expression>,
        line: usize,
        more: bool,
    ) -> (r: Result<String, String>)
        requires
            scope + 1 + exprs_weight(values@) <= usize::MAX,
        ensures
            match r {
                Result::Ok(s) => wf_exprs(values@) && s@ == stmt_tok_text(
                    self@,
                    scope as nat,
                    Token::Declaration { local, names: *names, values: *values, line },
                    more,
                ),
                Result::Err(e) => !wf_exprs(values@) && e@ == err_text(),
            },
        decreases 1 + exprs_weight(values@), 0int,
    {
        let ghost c = self@;
        reveal(stmt_tok_text);
        let marker = self.compile_debug_line(line, scope);
        let cmt = self.compile_debug_comment(line);
        let tail = self.indentate_if(more, scope);
        if !local && self.options.raw_global_assignment {
            let mut vtexts: Vec<String> = Vec::new();
            let vn = values.len();
            let mut j: usize = 0;
            proof {
                assert(values@.subrange(0, vn as int) =~= values@);
            }
            while j < vn
                invariant
                    j <= vn,
                    vn == values@.len(),
                    c == self@,
                    scope + exprs_weight(values@.subrange(j as int, vn as int)) <= usize::MAX,
                    exprs_weight(values@.subrange(j as int, vn as int)) <= exprs_weight(values@),
                    wf_exprs(values@) == wf_exprs(values@.subrange(j as int, vn as int)),
                    vtexts@.len() == j,
                    forall|k: int|
                        0 <= k < j ==> (#[trigger] vtexts@[k])@ == expr_text(
                            c,
                            scope as nat,
                            values@[k]@,
                        ),
                decreases vn - j,
            {
                proof {
                    lemma_exprs_weight_split(values@, j as int);
                    let suffix = values@.subrange(j as int, vn as int);
                    assert(suffix[0] == values@[j as int]);
                    assert(suffix.subrange(1, suffix.len() as int) =~= values@.subrange(
                        j as int + 1,
                        vn as int,
                    ));
                }
                let vt = self.compile_expression(scope, &values[j])?;
                vtexts.push(vt);
                j = j + 1;
            }
            let rs = self.compile_rawset_list(scope, names, &vtexts, Ghost(values@), &cmt, &tail);
            let mut out = marker;
            out.append(rs.as_str());
            proof {
                reveal(stmt_tok_text);
                assert(out@ =~= stmt_tok_text(
                    c,
                    scope as nat,
                    Token::Declaration { local, names: *names, values: *values, line },
                    more,
                ));
            }
            Ok(out)
        } else {
            let mut out = marker;
            if local {
                out.append("local ");
            }
            let ids = self.compile_identifiers(names);
            if values.len() == 0 {
                out.append(ids.as_str());
                out.append(";");
                out.append(cmt.as_str());
                out.append(tail.as_str());
            } else {
                let vt = self.compile_expressions(scope, values)?;
                out.append(ids.as_str());
                out.append(" = ");
                out.append(vt.as_str());
                out.append(";");
                out.append(cmt.as_str());
                out.append(tail.as_str());
            }
            proof {
                reveal(stmt_tok_text);
                assert(out@ =~= stmt_tok_text(
                    c,
                    scope as nat,
                    Token::Declaration { local, names: *names, values: *values, line },
                    more,
                ));
            }
            Ok(out)
        }
    }

    /// Lowers one compound assignment: each `op=` form expands to the
    /// explicit binary expression over its target.
    #[verifier::rlimit(100)]
    fn compile_alter(
        &self,
        scope: usize,
        operator: AssignOp,
        targets: &Vec<Expression>,
        values: &Vec<Expression>,
        line: usize,
        more: bool,
    ) -> (r: Result<String, String>)
        requires
            scope + 1 + exprs_weight(targets@) + exprs_weight(values@) <= usize::MAX,
        ensures
            match r {
                Result::Ok(s) => wf_exprs(targets@) && wf_exprs(values@) && s@ == stmt_tok_text(
                    self@,
                    scope as nat,
                    Token::CompoundAssign { operator, targets: *targets, values: *values, line },
                    more,
                ),
                Result::Err(e) => !(wf_exprs(targets@) && wf_exprs(values@)) && e@ == err_text(),
            },
        decreases 1 + exprs_weight(targets@) + exprs_weight(values@), 0int,
    {
        let ghost c = self@;
        reveal(stmt_tok_text);
        let mut ttexts: Vec<String> = Vec::new();
        let tn = targets.len();
        let mut j: usize = 0;
        proof {
            assert(targets@.subrange(0, tn as int) =~= targets@);
        }
        while j < tn
            invariant
                j <= tn,
                tn == targets@.len(),
                c == self@,
                scope + exprs_weight(targets@.subrange(j as int, tn as int)) <= usize::MAX,
                exprs_weight(targets@.subrange(j as int, tn as int)) <= exprs_weight(targets@),
                wf_exprs(targets@) == wf_exprs(targets@.subrange(j as int, tn as int)),
                ttexts@.len() == j,
                forall|k: int|
                    0 <= k < j ==> (#[trigger] ttexts@[k])@ == expr_text(
                        c,
                        scope as nat,
                        targets@[k]@,
                    ),
            decreases tn - j,
        {
            proof {
                lemma_exprs_weight_split(targets@, j as int);
                let suffix = targets@.subrange(j as int, tn as int);
                assert(suffix[0] == targets@[j as int]);
                assert(suffix.subrange(1, suffix.len() as int) =~= targets@.subrange(
                    j as int + 1,
                    tn as int,
                ));
            }
            let tt = self.compile_expression(scope, &targets[j])?;
            ttexts.push(tt);
            j = j + 1;
        }
        let ghost tgts = exprs_texts(c, scope as nat, targets@);
        proof {
            lemma_exprs_texts_len(c, scope as nat, targets@);
            assert(suffix_from(tgts, 0) =~= tgts);
            assert(values@.subrange(0, values@.len() as int) =~= values@);
        }
        let mut vpart = String::new();
        let vn = values.len();
        let mut i: usize = 0;
        while i < vn
            invariant
                i <= vn,
                vn == values@.len(),
                c == self@,
                tgts == exprs_texts(c, scope as nat, targets@),
                tgts.len() == targets@.len(),
                ttexts@.len() == targets@.len(),
                forall|q: int|
                    0 <= q < targets@.len() ==> (#[trigger] ttexts@[q])@ == expr_text(
                        c,
                        scope as nat,
                        targets@[q]@,
                    ),
                scope + exprs_weight(values@.subrange(i as int, vn as int)) <= usize::MAX,
                exprs_weight(values@.subrange(i as int, vn as int)) <= exprs_weight(values@),
                wf_exprs(values@) == wf_exprs(values@.subrange(i as int, vn as int)),
                alter_values_text(operator, tgts, exprs_texts(c, scope as nat, values@)) == vpart@
                    + alter_values_text(
                    operator,
                    suffix_from(tgts, i as int),
                    exprs_texts(c, scope as nat, values@.subrange(i as int, vn as int)),
                ),
            decreases vn - i,
        {
            proof {
                lemma_exprs_weight_split(values@, i as int);
                let suffix = values@.subrange(i as int, vn as int);
                assert(suffix[0] == values@[i as int]);
                assert(suffix.subrange(1, suffix.len() as int) =~= values@.subrange(
                    i as int + 1,
                    vn as int,
                ));
                lemma_exprs_texts_len(c, scope as nat, suffix);
                lemma_exprs_texts_len(c, scope as nat, values@.subrange(i as int + 1, vn as int));
                let vts = exprs_texts(c, scope as nat, suffix);
                assert(vts[0] == expr_text(c, scope as nat, values@[i as int]@));
                assert(vts.subrange(1, vts.len() as int) =~= exprs_texts(
                    c,
                    scope as nat,
                    values@.subrange(i as int + 1, vn as int),
                ));
                if i < tgts.len() {
                    lemma_exprs_texts_index(c, scope as nat, targets@, i as int);
                    assert(suffix_from(tgts, i as int)[0] == tgts[i as int]);
                    assert(suffix_from(tgts, i as int).subrange(
                        1,
                        tgts.len() - i as int,
                    ) =~= suffix_from(tgts, i as int + 1));
                } else {
                    assert(suffix_from(tgts, i as int).len() == 0);
                    assert(suffix_from(tgts, i as int) =~= suffix_from(tgts, i as int + 1));
                }
            }
            let vt = self.compile_expression(scope, &values[i])?;
            let is_define = match operator {
                AssignOp::Define => true,
                _ => false,
            };
            if !is_define {
                if i < ttexts.len() {
                    vpart.append(ttexts[i].as_str());
                } else {
                    vpart.append("nil");
                }
                vpart.append(op_fragment(operator));
            }
            vpart.append(vt.as_str());
            if i + 1 < vn {
                vpart.append(", ");
            }
            i = i + 1;
        }
        let marker = self.compile_debug_line(line, scope);
        let cmt = self.compile_debug_comment(line);
        let tail = self.indentate_if(more, scope);
        let mut tjoin = String::new();
        let mut q: usize = 0;
        proof {
            assert(tgts.subrange(0, tgts.len() as int) =~= tgts);
        }
        while q < tn
            invariant
                q <= tn,
                tn == targets@.len(),
                c == self@,
                tgts == exprs_texts(c, scope as nat, targets@),
                tgts.len() == targets@.len(),
                ttexts@.len() == targets@.len(),
                forall|w: int|
                    0 <= w < targets@.len() ==> (#[trigger] ttexts@[w])@ == expr_text(
                        c,
                        scope as nat,
                        targets@[w]@,
                    ),
                join_texts(tgts, ", "@) == tjoin@ + join_texts(
                    tgts.subrange(q as int, tn as int),
                    ", "@,
                ),
            decreases tn - q,
        {
            proof {
                lemma_exprs_texts_index(c, scope as nat, targets@, q as int);
                let suffix = tgts.subrange(q as int, tn as int);
                assert(suffix[0] == tgts[q as int]);
                assert(suffix.subrange(1, suffix.len() as int) =~= tgts.subrange(
                    q as int + 1,
                    tn as int,
                ));
            }
            tjoin.append(ttexts[q].as_str());
            if q + 1 < tn {
                tjoin.append(", ");
            }
            q = q + 1;
        }
        let mut out = marker;
        out.append(tjoin.as_str());
        out.append(" = ");
        out.append(vpart.as_str());
        out.append(";");
        out.append(cmt.as_str());
        out.append(tail.as_str());
        proof {
            assert(out@ =~= stmt_tok_text(
                c,
                scope as nat,
                Token::CompoundAssign { operator, targets: *targets, values: *values, line },
                more,
            ));
        }
        Ok(out)
    }

    /// Lowers an error-handling block to a protected call, with an optional
    /// recovery block guarded by the call's success flag.
    #[verifier::rlimit(100)]
    fn compile_try_catch(
        &self,
        scope: usize,
        protected_body: &CodeBlock,
        error_name: &Option<String>,
        recovery_body: &Option<CodeBlock>,
        more: bool,
    ) -> (r: Result<String, String>)
        requires
            scope + 1 + block_weight(*protected_body) + (match *recovery_body {
                Option::Some(rb) => block_weight(rb),
                Option::None => 0nat,
            }) <= usize::MAX,
        ensures
            match r {
                Result::Ok(s) => wf_stmt_toks(protected_body.statements@) && (match *recovery_body {
                    Option::Some(rb) => wf_stmt_toks(rb.statements@),
                    Option::None => true,
                }) && s@ == stmt_tok_text(
                    self@,
                    scope as nat,
                    Token::TryCatch {
                        protected_body: *protected_body,
                        error_name: *error_name,
                        recovery_body: *recovery_body,
                    },
                    more,
                ),
                Result::Err(e) => !(wf_stmt_toks(protected_body.statements@) && (match *recovery_body {
                    Option::Some(rb) => wf_stmt_toks(rb.statements@),
                    Option::None => true,
                })) && e@ == err_text(),
            },
        decreases 1 + block_weight(*protected_body) + (match *recovery_body {
            Option::Some(rb) => block_weight(rb),
            Option::None => 0nat,
        }), 0int,
    {
        let ghost c = self@;
        reveal(stmt_tok_text);
        let tail = self.indentate_if(more, scope);
        let tt = self.compile_code_block(scope, "function()", protected_body)?;
        match recovery_body {
            Option::Some(catch) => {
                let ct = self.compile_code_block(scope, "if not _check then", catch)?;
                let pre = self.indentate(scope);
                let mut out: String = match error_name {
                    Option::Some(e) => {
                        let mut o: String = "local _check, ".to_owned();
                        o.append(e.as_str());
                        o.append(" = pcall(");
                        o
                    },
                    Option::None => "local _check = pcall(".to_owned(),
                };
                out.append(tt.as_str());
                out.append("end)\n");
                out.append(pre.as_str());
                out.append(ct.as_str());
                out.append("end");
                out.append(tail.as_str());
                proof {
                    assert(out@ =~= stmt_tok_text(
                        c,
                        scope as nat,
                        Token::TryCatch {
                            protected_body: *protected_body,
                            error_name: *error_name,
                            recovery_body: *recovery_body,
                        },
                        more,
                    ));
                }
                Ok(out)
            },
            Option::None => {
                let mut out: String = "pcall(".to_owned();
                out.append(tt.as_str());
                out.append("end)");
                out.append(tail.as_str());
                proof {
                    assert(out@ =~= stmt_tok_text(
                        c,
                        scope as nat,
                        Token::TryCatch {
                            protected_body: *protected_body,
                            error_name: *error_name,
                            recovery_body: *recovery_body,
                        },
                        more,
                    ));
                }
                Ok(out)
            },
        }
    }

    /// Renders the equality tests of one match branch, `(name == value) `
    /// each, joined with `"or "`; also the same list without the trailing
    /// space, ready to be parenthesized before an extra guard.
    #[verifier::rlimit(100)]
    fn compile_or_items(&self, scope: usize, name: &String, conds: &Vec<Expression>) -> (r: Result<
        (String, String),
        String,
    >)
        requires
            scope + exprs_weight(conds@) <= usize::MAX,
        ensures
            match r {
                Result::Ok(p) => wf_exprs(conds@) && p.0@ == or_items_text(
                    self@,
                    scope as nat,
                    name@,
                    conds@,
                ) && p.1@ == or_items_trim(self@, scope as nat, name@, conds@),
                Result::Err(e) => !wf_exprs(conds@) && e@ == err_text(),
            },
        decreases exprs_weight(conds@), 4int,
    {
        let ghost c = self@;
        let mut ors = String::new();
        let mut trim = String::new();
        let mn = conds.len();
        let mut j: usize = 0;
        proof {
            assert(conds@.subrange(0, mn as int) =~= conds@);
        }
        while j < mn
            invariant
                j <= mn,
                mn == conds@.len(),
                c == self@,
                scope + exprs_weight(conds@.subrange(j as int, mn as int)) <= usize::MAX,
                exprs_weight(conds@.subrange(j as int, mn as int)) <= exprs_weight(conds@),
                wf_exprs(conds@) == wf_exprs(conds@.subrange(j as int, mn as int)),
                or_items_text(c, scope as nat, name@, conds@) == ors@ + or_items_text(
                    c,
                    scope as nat,
                    name@,
                    conds@.subrange(j as int, mn as int),
                ),
                or_items_trim(c, scope as nat, name@, conds@) == trim@ + or_items_trim(
                    c,
                    scope as nat,
                    name@,
                    conds@.subrange(j as int, mn as int),
                ),
            decreases mn - j,
        {
            proof {
                lemma_exprs_weight_split(conds@, j as int);
                let msuffix = conds@.subrange(j as int, mn as int);
                assert(msuffix[0] == conds@[j as int]);
                assert(msuffix.subrange(1, msuffix.len() as int) =~= conds@.subrange(
                    j as int + 1,
                    mn as int,
                ));
            }
            let ghost o0 = ors@;
            let ghost t0 = trim@;
            let et = self.compile_expression(scope, &conds[j])?;
            ors.append("(");
            ors.append(name.as_str());
            ors.append(" == ");
            ors.append(et.as_str());
            ors.append(") ");
            trim.append("(");
            trim.append(name.as_str());
            trim.append(" == ");
            trim.append(et.as_str());
            if j + 1 < mn {
                ors.append("or ");
                trim.append(") ");
                trim.append("or ");
            } else {
                trim.append(")");
            }
            proof {
                let base = "("@ + name@ + " == "@ + expr_text(
                    c,
                    scope as nat,
                    conds@[j as int]@,
                );
                if j + 1 < mn {
                    assert(ors@ =~= o0 + (base + ") "@ + "or "@));
                    assert(trim@ =~= t0 + (base + ") "@ + "or "@));
                } else {
                    assert(ors@ =~= o0 + (base + ") "@));
                    assert(trim@ =~= t0 + (base + ")"@));
                }
            }
            j = j + 1;
        }
        Ok((ors, trim))
    }

    /// Builds one match branch's guard: the OR of its equality tests, with
    /// the extra guard ANDed in when present.
    #[verifier::rlimit(100)]
    fn compile_branch_guard(&self, scope: usize, name: &String, b: &MatchBranch) -> (r: Result<
        String,
        String,
    >)
        requires
            scope + branch_weight(*b) <= usize::MAX,
        ensures
            match r {
                Result::Ok(s) => wf_exprs(b.match_values@) && (match b.extra_guard {
                    Option::Some(g) => wf_expr_toks(g@),
                    Option::None => true,
                }) && s@ == branch_guard_text(self@, scope as nat, name@, *b),
                Result::Err(e) => !(wf_exprs(b.match_values@) && (match b.extra_guard {
                    Option::Some(g) => wf_expr_toks(g@),
                    Option::None => true,
                })) && e@ == err_text(),
            },
        decreases branch_weight(*b), 0int,
    {
        let ghost c = self@;
        let empty = b.match_values.len() == 0;
        let pair = self.compile_or_items(scope, name, &b.match_values)?;
        let mut guard: String = "if ".to_owned();
        match &b.extra_guard {
            Option::Some(g) => {
                let gt = self.compile_expression(scope, g)?;
                if empty {
                    guard.append(gt.as_str());
                    guard.append(" ");
                } else {
                    guard.append("(");
                    guard.append(pair.1.as_str());
                    guard.append(") and ");
                    guard.append(gt.as_str());
                    guard.append(" ");
                }
            },
            Option::None => {
                guard.append(pair.0.as_str());
            },
        }
        guard.append("then");
        Ok(guard)
    }

    /// Lowers one match branch standing at position `i` of the chain: its
    /// guard from the OR of its equality tests and the optional extra
    /// guard, its unconditional pre-statements, and its body block.
    #[verifier::rlimit(100)]
    fn compile_match_branch(
        &self,
        scope: usize,
        name: &String,
        b: &MatchBranch,
        i: usize,
        last: usize,
    ) -> (r: Result<String, String>)
        requires
            scope + i + branch_weight(*b) <= usize::MAX,
        ensures
            match r {
                Result::Ok(s) => wf_branch(*b) && s@ == branch_piece_text(
                    self@,
                    scope as nat,
                    name@,
                    *b,
                    i as nat,
                    last as nat,
                ),
                Result::Err(e) => !wf_branch(*b) && e@ == err_text(),
            },
        decreases branch_weight(*b), 1int,
    {
        let ghost c = self@;
        let empty = b.match_values.len() == 0;
        let default = empty && b.extra_guard.is_none();
        let guard = self.compile_branch_guard(scope, name, b)?;
        let ending: &str = if i >= last {
            "end"
        } else {
            "else"
        };
        let pre = self.indentate(scope + i);
        let internal: Option<String> = if b.pre_statements.len() == 0 {
            Option::None
        } else {
            Option::Some(self.compile_statements(scope + i, &b.pre_statements)?)
        };
        let mut out = String::new();
        if i == 0 {
            let cb = self.compile_code_block(scope, guard.as_str(), &b.body)?;
            match &internal {
                Option::Some(ic) => {
                    out.append(ic.as_str());
                    out.append("\n");
                    out.append(pre.as_str());
                    out.append(cb.as_str());
                    out.append(ending);
                },
                Option::None => {
                    out.append(cb.as_str());
                    out.append(ending);
                },
            }
            proof {
                assert(out@ =~= branch_piece_text(
                    c,
                    scope as nat,
                    name@,
                    *b,
                    i as nat,
                    last as nat,
                )) by {
                    reveal(branch_piece_text);
                    assert(out@ =~= branch_piece_text(
                        c,
                        scope as nat,
                        name@,
                        *b,
                        i as nat,
                        last as nat,
                    ));
                };
            }
        } else if default {
            proof {
                reveal_strlit("");
                assert(""@ =~= Seq::<char>::empty());
            }
            let cb = self.compile_code_block(scope + i - 1, "", &b.body)?;
            out.append(cb.as_str());
            out.append(ending);
            proof {
                assert(out@ =~= branch_piece_text(
                    c,
                    scope as nat,
                    name@,
                    *b,
                    i as nat,
                    last as nat,
                )) by {
                    reveal(branch_piece_text);
                    assert(out@ =~= branch_piece_text(
                        c,
                        scope as nat,
                        name@,
                        *b,
                        i as nat,
                        last as nat,
                    ));
                };
            }
        } else {
            let cb = self.compile_code_block(scope + i, guard.as_str(), &b.body)?;
            match &internal {
                Option::Some(ic) => {
                    out.append("\n");
                    out.append(ic.as_str());
                    out.append("\n");
                    out.append(pre.as_str());
                    out.append(cb.as_str());
                    out.append(ending);
                },
                Option::None => {
                    out.append("\n");
                    out.append(pre.as_str());
                    out.append(cb.as_str());
                    out.append(ending);
                },
            }
            if i >= last {
                out.append("\n");
                let pr2 = self.indentate(scope + i - 1);
                out.append(pr2.as_str());
                out.append("end");
            }
            proof {
                assert(out@ =~= branch_piece_text(
                    c,
                    scope as nat,
                    name@,
                    *b,
                    i as nat,
                    last as nat,
                )) by {
                    reveal(branch_piece_text);
                    assert(out@ =~= branch_piece_text(
                        c,
                        scope as nat,
                        name@,
                        *b,
                        i as nat,
                        last as nat,
                    ));
                };
            }
        }
        proof {
            assert(wf_branch(*b)) by {
                assert(wf_branch(*b));
            };
        }
        Ok(out)
    }

    /// Lowers a match block: the subject evaluated once into a synthetic
    /// local, each branch as one level of a nested conditional chain, and
    /// the accumulated closing keywords flushed at the end. A catch-all
    /// default branch anywhere but last is rejected, never reordered.
    #[verifier::rlimit(100)]
    fn compile_match_block(
        &self,
        scope: usize,
        name: &String,
        value: &Expression,
        branches: &Vec<MatchBranch>,
        line: usize,
        more: bool,
    ) -> (r: Result<String, String>)
        requires
            scope + 1 + toks_weight(value@) + branches_weight(branches@) <= usize::MAX,
        ensures
            match r {
                Result::Ok(s) => wf_expr_toks(value@) && branches@.len() >= 1
                    && wf_branches_from(branches@) && s@ == stmt_tok_text(
                    self@,
                    scope as nat,
                    Token::MatchBlock {
                        subject_name: *name,
                        subject_value: *value,
                        branches: *branches,
                        line,
                    },
                    more,
                ),
                Result::Err(e) => !(wf_expr_toks(value@) && branches@.len() >= 1
                    && wf_branches_from(branches@)) && e@ == err_text(),
            },
        decreases 1 + toks_weight(value@) + branches_weight(branches@), 0int,
    {
        let ghost c = self@;
        reveal(stmt_tok_text);
        if branches.len() == 0 {
            return Err("Unexpected token found".to_owned());
        }
        let vt = self.compile_expression(scope, value)?;
        let marker = self.compile_debug_line(line, scope);
        let cmt = self.compile_debug_comment(line);
        let bn = branches.len();
        let last = bn - 1;
        let mut chain = self.indentate(scope);
        let ghost lead = indent(scope as nat);
        let mut i: usize = 0;
        proof {
            assert(branches@.subrange(0, bn as int) =~= branches@);
        }
        while i < bn
            invariant
                i <= bn,
                bn == branches@.len(),
                bn >= 1,
                last == bn - 1,
                c == self@,
                scope + 1 + branches_weight(branches@) <= usize::MAX,
                i + branches_weight(branches@.subrange(i as int, bn as int)) <= branches_weight(
                    branches@,
                ),
                wf_branches_from(branches@) == wf_branches_from(
                    branches@.subrange(i as int, bn as int),
                ),
                lead + match_branches_text(c, scope as nat, name@, branches@, 0, last as nat)
                    == chain@ + match_branches_text(
                    c,
                    scope as nat,
                    name@,
                    branches@.subrange(i as int, bn as int),
                    i as nat,
                    last as nat,
                ),
            decreases bn - i,
        {
            proof {
                lemma_branches_weight_split(branches@, i as int);
                let suffix = branches@.subrange(i as int, bn as int);
                assert(suffix[0] == branches@[i as int]);
                assert(suffix.subrange(1, suffix.len() as int) =~= branches@.subrange(
                    i as int + 1,
                    bn as int,
                ));
                assert(branch_weight(branches@[i as int]) >= 1);
            }
            let b = &branches[i];
            let empty = b.match_values.len() == 0;
            let default = empty && b.extra_guard.is_none();
            if default && i < last {
                return Err("Unexpected token found".to_owned());
            }
            let piece = self.compile_match_branch(scope, name, b, i, last)?;
            chain.append(piece.as_str());
            i = i + 1;
        }
        if last > 1 {
            chain.append("\n");
            let ghost closers = closer_lines(scope as nat, (last - 2) as nat);
            let ghost chain1 = chain@;
            let mut k: usize = last - 2;
            while k >= 1
                invariant
                    k <= last - 2,
                    last == branches@.len() - 1,
                    last > 1,
                    c == self@,
                    scope + 1 + branches_weight(branches@) <= usize::MAX,
                    branches_weight(branches@) >= last,
                    chain@ + closer_lines(scope as nat, k as nat) == chain1 + closers,
                decreases k,
            {
                let pk = self.indentate(scope + k);
                chain.append(pk.as_str());
                chain.append("end\n");
                k = k - 1;
            }
            let p0 = self.indentate(scope);
            chain.append(p0.as_str());
            chain.append("end");
            proof {
                assert(chain@ =~= chain1 + closers);
            }
        }
        let tail = self.indentate_if(more, scope);
        let mut out = marker;
        out.append("local ");
        out.append(name.as_str());
        out.append(" = ");
        out.append(vt.as_str());
        out.append(";");
        out.append(cmt.as_str());
        out.append("\n");
        out.append(chain.as_str());
        out.append(tail.as_str());
        proof {
            assert(out@ =~= stmt_tok_text(
                c,
                scope as nat,
                Token::MatchBlock {
                    subject_name: *name,
                    subject_value: *value,
                    branches: *branches,
                    line,
                },
                more,
            ));
        }
        Ok(out)
    }

    /// Folds an `if`/`elseif`/`else` chain; the final closing keyword is
    /// appended once by the statement emitter.
    #[verifier::rlimit(100)]
    fn compile_elseif_chain(
        &self,
        scope: usize,
        condition: &Expression,
        code: &CodeBlock,
        next: &Option<Box<Token>>,
    ) -> (r: Result<String, String>)
        requires
            scope + 1 + toks_weight(condition@) + block_weight(*code) + (match *next {
                Option::Some(t) => tok_weight(*t),
                Option::None => 0nat,
            }) <= usize::MAX,
        ensures
            match r {
                Result::Ok(s) => wf_stmt_tok(
                    Token::Conditional {
                        condition: *condition,
                        body: *code,
                        else_branch: *next,
                    },
                ) && s@ == chain_text(
                    self@,
                    scope as nat,
                    Token::Conditional {
                        condition: *condition,
                        body: *code,
                        else_branch: *next,
                    },
                ),
                Result::Err(e) => !wf_stmt_tok(
                    Token::Conditional {
                        condition: *condition,
                        body: *code,
                        else_branch: *next,
                    },
                ) && e@ == err_text(),
            },
        decreases 1 + toks_weight(condition@) + block_weight(*code) + (match *next {
            Option::Some(t) => tok_weight(*t),
            Option::None => 0nat,
        }), 0int,
    {
        let ghost c = self@;
        let ct = self.compile_expression(scope, condition)?;
        let cb = self.compile_code_block(scope, "then", code)?;
        let mut out: String = "if ".to_owned();
        out.append(ct.as_str());
        out.append(" ");
        out.append(cb.as_str());
        match next {
            Option::Some(boxed) => {
                proof {
                    assert(*next == Option::Some(*boxed));
                }
                match &**boxed {
                    Token::Conditional { condition: c2, body: b2, else_branch: n2 } => {
                        proof {
                            assert(**boxed == Token::Conditional {
                                condition: *c2,
                                body: *b2,
                                else_branch: *n2,
                            });
                        }
                        let nt = self.compile_elseif_chain(scope, c2, b2, n2)?;
                        out.append("else");
                        out.append(nt.as_str());
                    },
                    Token::Block(b) => {
                        proof {
                            assert(**boxed == Token::Block(*b));
                            assert(wf_stmt_tok(**boxed) == wf_stmt_toks(b.statements@));
                            reveal_strlit("");
                            assert(""@ =~= Seq::<char>::empty());
                        }
                        let bt = self.compile_code_block(scope, "", b)?;
                        out.append("else");
                        out.append(bt.as_str());
                    },
                    _ => {
                        return Err("Unexpected token found".to_owned());
                    },
                }
            },
            Option::None => {},
        }
        proof {
            let tok = Token::Conditional {
                condition: *condition,
                body: *code,
                else_branch: *next,
            };
            match next {
                Option::Some(nb) => {
                    match &**nb {
                        Token::Block(bb) => {
                            assert(wf_stmt_tok(**nb) == wf_stmt_toks(bb.statements@));
                        },
                        _ => {},
                    }
                },
                Option::None => {},
            }
            assert(wf_stmt_tok(tok));
            assert(out@ =~= chain_text(c, scope as nat, tok));
        }
        Ok(out)
    }

    /// One pass over a statement list: emits the leading indentation, then
    /// each statement's lowering in order.
    #[verifier::rlimit(100)]
    fn compile_statements(&self, scope: usize, toks: &Vec<Token>) -> (r: Result<String, String>)
        requires
            scope + toks_weight(toks@) <= usize::MAX,
        ensures
            match r {
                Result::Ok(s) => wf_stmt_toks(toks@) && s@ == stmts_text(
                    self@,
                    scope as nat,
                    toks@,
                ),
                Result::Err(e) => !wf_stmt_toks(toks@) && e@ == err_text(),
            },
        decreases toks_weight(toks@), 3int,
    {
        let ghost c = self@;
        let mut result = self.indentate(scope);
        let n = toks.len();
        let mut i: usize = 0;
        proof {
            assert(toks@.subrange(0, n as int) =~= toks@);
        }
        while i < n
            invariant
                i <= n,
                n == toks@.len(),
                c == self@,
                scope + toks_weight(toks@.subrange(i as int, n as int)) <= usize::MAX,
                toks_weight(toks@.subrange(i as int, n as int)) <= toks_weight(toks@),
                wf_stmt_toks(toks@) == wf_stmt_toks(toks@.subrange(i as int, n as int)),
                stmts_text(c, scope as nat, toks@) == result@ + stmts_tail(
                    c,
                    scope as nat,
                    toks@.subrange(i as int, n as int),
                ),
            decreases n - i,
        {
            proof {
                lemma_toks_weight_split(toks@, i as int);
                let suffix = toks@.subrange(i as int, n as int);
                assert(suffix[0] == toks@[i as int]);
                assert(suffix.subrange(1, suffix.len() as int) =~= toks@.subrange(
                    i as int + 1,
                    n as int,
                ));
            }
            let more = i + 1 < n;
            let piece = self.compile_stmt_tok(scope, &toks[i], more)?;
            result.append(piece.as_str());
            proof {
                reveal(stmts_text);
                reveal(stmts_tail);
                let suffix = toks@.subrange(i as int, n as int);
                assert(stmts_tail(c, scope as nat, suffix) == stmt_tok_text(
                    c,
                    scope as nat,
                    suffix[0],
                    suffix.len() > 1,
                ) + stmts_tail(c, scope as nat, suffix.subrange(1, suffix.len() as int)));
                assert(more == (suffix.len() > 1));
                assert(stmts_tail(c, scope as nat, toks@.subrange(i as int, n as int))
                    == stmt_tok_text(c, scope as nat, toks@[i as int], more) + stmts_tail(
                    c,
                    scope as nat,
                    toks@.subrange(i as int + 1, n as int),
                ));
                assert(stmts_text(c, scope as nat, toks@) =~= result@ + stmts_tail(
                    c,
                    scope as nat,
                    toks@.subrange(i as int + 1, n as int),
                ));
            }
            i = i + 1;
        }
        Ok(result)
    }

    /// Dispatches one token standing in statement position to its lowering.
    /// `more` says whether another statement follows, which drives the
    /// trailing separator.
    #[verifier::rlimit(100)]
    fn compile_stmt_tok(&self, scope: usize, t: &Token, more: bool) -> (r: Result<String, String>)
        requires
            scope + tok_weight(*t) <= usize::MAX,
        ensures
            match r {
                Result::Ok(s) => wf_stmt_tok(*t) && s@ == stmt_tok_text(
                    self@,
                    scope as nat,
                    *t,
                    more,
                ),
                Result::Err(e) => !wf_stmt_tok(*t) && e@ == err_text(),
            },
        decreases tok_weight(*t), 2int,
    {
        let ghost c = self@;
        reveal(stmt_tok_text);
        match t {
            Token::Literal(s) => {
                proof {
                    assert(*t == Token::Literal(*s));
                }
                Ok(s.clone())
            },
            Token::Declaration { local, names, values, line } => {
                proof {
                    assert(*t == Token::Declaration {
                        local: *local,
                        names: *names,
                        values: *values,
                        line: *line,
                    });
                }
                self.compile_declaration(scope, *local, names, values, *line, more)
            },
            Token::CompoundAssign { operator, targets, values, line } => {
                proof {
                    assert(*t == Token::CompoundAssign {
                        operator: *operator,
                        targets: *targets,
                        values: *values,
                        line: *line,
                    });
                }
                self.compile_alter(scope, *operator, targets, values, *line, more)
            },
            Token::FunctionDecl { local, name, parameters, body } => {
                proof {
                    assert(*t == Token::FunctionDecl {
                        local: *local,
                        name: *name,
                        parameters: *parameters,
                        body: *body,
                    });
                }
                let nt = self.compile_expression(scope, name)?;
                let pair = self.compile_function(scope, parameters, body)?;
                let tail = self.indentate_if(more, scope);
                let mut out = String::new();
                if *local {
                    out.append("local ");
                }
                out.append("function ");
                out.append(nt.as_str());
                out.append("(");
                out.append(pair.1.as_str());
                out.append(")");
                out.append(pair.0.as_str());
                out.append("end");
                out.append(tail.as_str());
                proof {
                    assert(func_code_text(
                        c,
                        scope as nat,
                        Token::Lambda { parameters: *parameters, body: *body },
                    ) == func_code_text(c, scope as nat, *t));
                    assert(out@ =~= stmt_tok_text(c, scope as nat, *t, more));
                }
                Ok(out)
            },
            Token::Conditional { condition, body, else_branch } => {
                proof {
                    assert(*t == Token::Conditional {
                        condition: *condition,
                        body: *body,
                        else_branch: *else_branch,
                    });
                }
                let piece = self.compile_elseif_chain(scope, condition, body, else_branch)?;
                let tail = self.indentate_if(more, scope);
                let mut out = piece;
                out.append("end");
                out.append(tail.as_str());
                proof {
                    assert(out@ =~= stmt_tok_text(c, scope as nat, *t, more));
                }
                Ok(out)
            },
            Token::MatchBlock { subject_name, subject_value, branches, line } => {
                proof {
                    assert(*t == Token::MatchBlock {
                        subject_name: *subject_name,
                        subject_value: *subject_value,
                        branches: *branches,
                        line: *line,
                    });
                }
                self.compile_match_block(scope, subject_name, subject_value, branches, *line, more)
            },
            Token::WhileLoop { condition, body, line } => {
                proof {
                    assert(*t == Token::WhileLoop {
                        condition: *condition,
                        body: *body,
                        line: *line,
                    });
                }
                let ct = self.compile_expression(scope, condition)?;
                let marker = self.compile_debug_line(*line, scope);
                let cb = self.compile_code_block(scope, "do", body)?;
                let tail = self.indentate_if(more, scope);
                let mut out = marker.clone();
                out.append("while ");
                out.append(ct.as_str());
                out.append(" ");
                out.append(cb.as_str());
                out.append(marker.as_str());
                out.append("end");
                out.append(tail.as_str());
                proof {
                    assert(out@ =~= stmt_tok_text(c, scope as nat, *t, more));
                }
                Ok(out)
            },
            Token::RepeatLoop { condition, body, line } => {
                proof {
                    assert(*t == Token::RepeatLoop {
                        condition: *condition,
                        body: *body,
                        line: *line,
                    });
                    reveal_strlit("");
                    assert(""@ =~= Seq::<char>::empty());
                }
                let ct = self.compile_expression(scope, condition)?;
                let marker = self.compile_debug_line(*line, scope);
                let cb = self.compile_code_block(scope, "", body)?;
                let tail = self.indentate_if(more, scope);
                let mut out: String = "repeat ".to_owned();
                out.append(cb.as_str());
                out.append(marker.as_str());
                out.append("until ");
                out.append(ct.as_str());
                out.append(tail.as_str());
                proof {
                    assert(out@ =~= stmt_tok_text(c, scope as nat, *t, more));
                }
                Ok(out)
            },
            Token::NumericForLoop { iterator, start, stop, step, body, line } => {
                proof {
                    assert(*t == Token::NumericForLoop {
                        iterator: *iterator,
                        start: *start,
                        stop: *stop,
                        step: *step,
                        body: *body,
                        line: *line,
                    });
                }
                let st = self.compile_expression(scope, start)?;
                let sp = self.compile_expression(scope, stop)?;
                let al = self.compile_expression(scope, step)?;
                let marker = self.compile_debug_line(*line, scope);
                let cb = self.compile_code_block(scope, "do", body)?;
                let tail = self.indentate_if(more, scope);
                let mut out = marker.clone();
                out.append("for ");
                out.append(iterator.as_str());
                out.append(" = ");
                out.append(st.as_str());
                out.append(", ");
                out.append(sp.as_str());
                out.append(", ");
                out.append(al.as_str());
                out.append(" ");
                out.append(cb.as_str());
                out.append(marker.as_str());
                out.append("end");
                out.append(tail.as_str());
                proof {
                    assert(out@ =~= stmt_tok_text(c, scope as nat, *t, more));
                }
                Ok(out)
            },
            Token::GenericForLoop { iterators, iterable, body, line } => {
                proof {
                    assert(*t == Token::GenericForLoop {
                        iterators: *iterators,
                        iterable: *iterable,
                        body: *body,
                        line: *line,
                    });
                }
                let et = self.compile_expression(scope, iterable)?;
                let its = self.compile_identifiers(iterators);
                let marker = self.compile_debug_line(*line, scope);
                let cb = self.compile_code_block(scope, "do", body)?;
                let tail = self.indentate_if(more, scope);
                let mut out = marker.clone();
                out.append("for ");
                out.append(its.as_str());
                out.append(" in ");
                out.append(et.as_str());
                out.append(" ");
                out.append(cb.as_str());
                out.append(marker.as_str());
                out.append("end");
                out.append(tail.as_str());
                proof {
                    assert(out@ =~= stmt_tok_text(c, scope as nat, *t, more));
                }
                Ok(out)
            },
            Token::TryCatch { protected_body, error_name, recovery_body } => {
                proof {
                    assert(*t == Token::TryCatch {
                        protected_body: *protected_body,
                        error_name: *error_name,
                        recovery_body: *recovery_body,
                    });
                }
                self.compile_try_catch(scope, protected_body, error_name, recovery_body, more)
            },
            Token::Identifier { parts, line } => {
                proof {
                    assert(*t == Token::Identifier { parts: *parts, line: *line });
                }
                let it = self.compile_identifier(scope, parts)?;
                let marker = self.compile_debug_line(*line, scope);
                let cmt = self.compile_debug_comment(*line);
                let tail = self.indentate_if(more, scope);
                let mut out = marker;
                out.append(it.as_str());
                out.append(";");
                out.append(cmt.as_str());
                out.append(tail.as_str());
                proof {
                    assert(out@ =~= stmt_tok_text(c, scope as nat, *t, more));
                }
                Ok(out)
            },
            Token::Grouped(e) => {
                proof {
                    assert(*t == Token::Grouped(*e));
                }
                let et = self.compile_expression(scope, e)?;
                let mut out: String = "(".to_owned();
                out.append(et.as_str());
                out.append(")");
                proof {
                    assert(out@ =~= stmt_tok_text(c, scope as nat, *t, more));
                }
                Ok(out)
            },
            Token::Block(b) => {
                proof {
                    assert(*t == Token::Block(*b));
                }
                let cb = self.compile_code_block(scope, "do", b)?;
                let tail = self.indentate_if(more, scope);
                let mut out = cb;
                out.append("end");
                out.append(tail.as_str());
                proof {
                    assert(out@ =~= stmt_tok_text(c, scope as nat, *t, more));
                }
                Ok(out)
            },
            Token::Return(exprs) => {
                proof {
                    assert(*t == Token::Return(*exprs));
                }
                match exprs {
                    Option::Some(es) => {
                        let et = self.compile_expressions(scope, es)?;
                        let mut out: String = "return ".to_owned();
                        out.append(et.as_str());
                        out.append(";");
                        proof {
                            assert(out@ =~= stmt_tok_text(c, scope as nat, *t, more));
                        }
                        Ok(out)
                    },
                    Option::None => {
                        let out: String = "return;".to_owned();
                        Ok(out)
                    },
                }
            },
            Token::Continue => {
                let tail = self.indentate_if(more, scope);
                let mut out: String = match self.options.continue_strategy {
                    ContinueMode::Label => "goto continue".to_owned(),
                    ContinueMode::Native => "continue".to_owned(),
                };
                out.append(";");
                out.append(tail.as_str());
                proof {
                    assert(out@ =~= stmt_tok_text(c, scope as nat, *t, more));
                }
                Ok(out)
            },
            Token::Break => {
                let tail = self.indentate_if(more, scope);
                let mut out: String = "break;".to_owned();
                out.append(tail.as_str());
                proof {
                    assert(out@ =~= stmt_tok_text(c, scope as nat, *t, more));
                }
                Ok(out)
            },
            _ => Err("Unexpected token found".to_owned()),
        }
    }

    /// Compiles a statement-level token sequence into Lua source text, or
    /// reports the invariant violation when a token variant occurs in a
    /// position where it cannot legally appear.
    ///
    /// The precondition is a pure machine limit: the starting scope plus
    /// the structural weight of the input bounds every indentation counter
    /// the recursion can reach, and must fit in a machine word.
    pub fn compile_tokens(&self, scope: usize, ctokens: Expression) -> (r: Result<String, String>)
        requires
            scope + toks_weight(ctokens@) <= usize::MAX,
        ensures
            match r {
                Result::Ok(s) => wf_stmt_toks(ctokens@) && s@ == stmts_text(
                    self@,
                    scope as nat,
                    ctokens@,
                ),
                Result::Err(e) => !wf_stmt_toks(ctokens@) && e@ == err_text(),
            },
    {
        self.compile_statements(scope, &ctokens)
    }
}

/// The explicit binary-operator fragment a compound assignment expands to.
fn op_fragment(operator: AssignOp) -> (r: &'static str)
    ensures
        r@ == op_text(operator),
{
    let r: &'static str = match operator {
        AssignOp::Define => "",
        AssignOp::DefineAnd => " and ",
        AssignOp::DefineOr => " or ",
        AssignOp::Add => " + ",
        AssignOp::Sub => " - ",
        AssignOp::Mul => " * ",
        AssignOp::Div => " / ",
        AssignOp::Pow => " ^ ",
        AssignOp::Concat => " .. ",
        AssignOp::Mod => " % ",
    };
    proof {
        reveal_strlit("");
        assert(""@ =~= Seq::<char>::empty());
    }
    r
}

/// Compiles a statement-level token sequence with the given configuration
/// and unit name, without keeping a [`Compiler`] around.
pub fn compile_tokens(options: Options, filename: &str, scope: usize, ctokens: Expression) -> (r:
    Result<String, String>)
    requires
        scope + toks_weight(ctokens@) <= usize::MAX,
    ensures
        match r {
            Result::Ok(s) => wf_stmt_toks(ctokens@) && s@ == stmts_text(
                Ctx { opts: options, fname: filename@ },
                scope as nat,
                ctokens@,
            ),
            Result::Err(e) => !wf_stmt_toks(ctokens@) && e@ == err_text(),
        },
{
    let compiler = Compiler::new(options, filename.to_owned());
    compiler.compile_tokens(scope, ctokens)
}

} // verus!
