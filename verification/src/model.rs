//! The mathematical definition of the emitted text.
//!
//! Every spec function here is the ground truth that the executable
//! generator in [`crate::compiler`] is proved against: for a well-formed
//! input the generator returns exactly the character sequence that these
//! functions describe, and for an ill-formed one it reports the invariant
//! violation that the `wf_*` predicates pin down.

use vstd::prelude::*;

use crate::ast::{
    ArgDefault, AssignOp, CodeBlock, ContinueMode, Expression, FunctionArg, MatchBranch,
    MetaField, Options, TableField, Token,
};

verus! {

/// Everything the emission depends on besides the input tree: the
/// configuration and the name of the unit being compiled.
pub ghost struct Ctx {
    pub opts: Options,
    pub fname: Seq<char>,
}

/// The single error message: the generator met a token variant that cannot
/// legally occur in the syntactic position it was found in.
pub open spec fn err_text() -> Seq<char> {
    "Unexpected token found"@
}

/// `scope` tab characters.
pub open spec fn indent(scope: nat) -> Seq<char>
    decreases scope,
{
    if scope == 0 {
        Seq::<char>::empty()
    } else {
        indent((scope - 1) as nat) + "\t"@
    }
}

/// The separator between two statements: a newline and re-indentation, but
/// only when another statement follows.
pub open spec fn sep(more: bool, scope: nat) -> Seq<char> {
    if more {
        "\n"@ + indent(scope)
    } else {
        Seq::<char>::empty()
    }
}

/// The decimal digit character for `d < 10`.
pub open spec fn digit(d: nat) -> char {
    if d == 0 {
        '0'
    } else if d == 1 {
        '1'
    } else if d == 2 {
        '2'
    } else if d == 3 {
        '3'
    } else if d == 4 {
        '4'
    } else if d == 5 {
        '5'
    } else if d == 6 {
        '6'
    } else if d == 7 {
        '7'
    } else if d == 8 {
        '8'
    } else {
        '9'
    }
}

/// The usual decimal rendering of `n`, most significant digit first, no
/// leading zeroes (except for `n == 0` itself).
pub open spec fn dec_text(n: nat) -> Seq<char>
    decreases n,
{
    if n < 10 {
        seq![digit(n)]
    } else {
        dec_text(n / 10) + seq![digit(n % 10)]
    }
}

/// The trailing source-line comment ` --N`, emitted only under debug
/// instrumentation.
pub open spec fn comment_text(c: Ctx, line: nat) -> Seq<char> {
    if c.opts.debug_instrumentation {
        " --"@ + dec_text(line)
    } else {
        Seq::<char>::empty()
    }
}

/// The per-statement line marker: an assignment to the process-wide
/// current-line variable of the target runtime, followed by re-indentation.
/// Empty unless debug instrumentation is on.
pub open spec fn line_marker_text(c: Ctx, line: nat, scope: nat) -> Seq<char> {
    if c.opts.debug_instrumentation {
        "_clueline = "@ + dec_text(line) + ";"@ + "\n"@ + indent(scope)
    } else {
        Seq::<char>::empty()
    }
}

/// Plain names joined with `", "`.
pub open spec fn names_text(names: Seq<String>) -> Seq<char>
    decreases names.len(),
{
    if names.len() == 0 {
        Seq::<char>::empty()
    } else if names.len() == 1 {
        names[0]@
    } else {
        names[0]@ + ", "@ + names_text(names.subrange(1, names.len() as int))
    }
}

/// Already-rendered fragments joined with the given separator.
pub open spec fn join_texts(ts: Seq<Seq<char>>, separator: Seq<char>) -> Seq<char>
    decreases ts.len(),
{
    if ts.len() == 0 {
        Seq::<char>::empty()
    } else if ts.len() == 1 {
        ts[0]
    } else {
        ts[0] + separator + join_texts(ts.subrange(1, ts.len() as int), separator)
    }
}

// ---------------------------------------------------------------------------
// Well-formedness: which token variants are legal in which position.
// ---------------------------------------------------------------------------

/// A branch with no match values and no extra guard is the catch-all
/// default.
pub open spec fn is_default_branch(b: MatchBranch) -> bool {
    b.match_values@.len() == 0 && b.extra_guard is None
}

/// Every expression of the list is well-formed.
pub open spec fn wf_exprs(es: Seq<Expression>) -> bool
    decreases es,
{
    if es.len() == 0 {
        true
    } else {
        wf_expr_toks(es[0]@) && wf_exprs(es.subrange(1, es.len() as int))
    }
}

/// Every token of an expression is legal in expression position.
pub open spec fn wf_expr_toks(e: Seq<Token>) -> bool
    decreases e,
{
    if e.len() == 0 {
        true
    } else {
        wf_expr_tok(e[0]) && wf_expr_toks(e.subrange(1, e.len() as int))
    }
}

/// Default values of a parameter list are well-formed expressions.
pub open spec fn wf_args(args: Seq<FunctionArg>) -> bool
    decreases args,
{
    if args.len() == 0 {
        true
    } else {
        (match args[0].default {
            Option::Some(d) => wf_expr_toks(d.value@),
            Option::None => true,
        }) && wf_args(args.subrange(1, args.len() as int))
    }
}

/// Table fields hold well-formed key and value expressions.
pub open spec fn wf_fields(fs: Seq<TableField>) -> bool
    decreases fs,
{
    if fs.len() == 0 {
        true
    } else {
        (match fs[0].key {
            Option::Some(k) => wf_expr_toks(k@),
            Option::None => true,
        }) && wf_expr_toks(fs[0].value@) && wf_fields(fs.subrange(1, fs.len() as int))
    }
}

/// Metamethod entries hold well-formed value expressions.
pub open spec fn wf_metas(ms: Seq<MetaField>) -> bool
    decreases ms,
{
    if ms.len() == 0 {
        true
    } else {
        wf_expr_toks(ms[0].value@) && wf_metas(ms.subrange(1, ms.len() as int))
    }
}

/// An identifier chain: literals, grouped expressions, call argument lists
/// and optional-access markers, where an optional bracket-index marker must
/// be followed by the grouped bracket expression it consumes.
pub open spec fn wf_ident_toks(parts: Seq<Token>) -> bool
    decreases parts,
{
    if parts.len() == 0 {
        true
    } else {
        match parts[0] {
            Token::Literal(_) => wf_ident_toks(parts.subrange(1, parts.len() as int)),
            Token::OptionalField => wf_ident_toks(parts.subrange(1, parts.len() as int)),
            Token::OptionalMethod => wf_ident_toks(parts.subrange(1, parts.len() as int)),
            Token::OptionalIndex => parts.len() >= 2 && (match parts[1] {
                Token::Grouped(e) => wf_expr_toks(e@) && wf_ident_toks(
                    parts.subrange(2, parts.len() as int),
                ),
                _ => false,
            }),
            Token::Call(args) => wf_exprs(args@) && wf_ident_toks(
                parts.subrange(1, parts.len() as int),
            ),
            Token::Grouped(e) => wf_expr_toks(e@) && wf_ident_toks(
                parts.subrange(1, parts.len() as int),
            ),
            _ => false,
        }
    }
}

/// One token in expression position.
pub open spec fn wf_expr_tok(t: Token) -> bool
    decreases t,
{
    match t {
        Token::Literal(_) => true,
        Token::TableLiteral { fields, metamethods, explicit_metatable } => wf_fields(fields@)
            && wf_metas(metamethods@) && (match explicit_metatable {
            Option::Some(mt) => wf_expr_toks(mt@),
            Option::None => true,
        }),
        Token::Lambda { parameters, body } => wf_args(parameters@) && wf_stmt_toks(
            body.statements@,
        ),
        Token::Identifier { parts, line: _ } => wf_ident_toks(parts@),
        Token::Call(args) => wf_exprs(args@),
        Token::Grouped(e) => wf_expr_toks(e@),
        _ => false,
    }
}

/// Branches of a match block, all but the last of which must not be the
/// catch-all default. The branch list must not be empty.
pub open spec fn wf_branches_from(bs: Seq<MatchBranch>) -> bool
    decreases bs,
{
    if bs.len() == 0 {
        true
    } else {
        wf_branch(bs[0]) && (bs.len() > 1 ==> !is_default_branch(bs[0])) && wf_branches_from(
            bs.subrange(1, bs.len() as int),
        )
    }
}

/// The parts of one match branch are well-formed.
pub open spec fn wf_branch(b: MatchBranch) -> bool
    decreases b,
{
    wf_exprs(b.match_values@) && wf_stmt_toks(b.pre_statements@) && (match b.extra_guard {
        Option::Some(g) => wf_expr_toks(g@),
        Option::None => true,
    }) && wf_stmt_toks(b.body.statements@)
}

/// A match block needs at least one branch, and only its last branch may be
/// the catch-all default.
pub open spec fn wf_branches(bs: Seq<MatchBranch>) -> bool {
    bs.len() >= 1 && wf_branches_from(bs)
}

/// Every token of a statement list is legal in statement position.
pub open spec fn wf_stmt_toks(toks: Seq<Token>) -> bool
    decreases toks,
{
    if toks.len() == 0 {
        true
    } else {
        wf_stmt_tok(toks[0]) && wf_stmt_toks(toks.subrange(1, toks.len() as int))
    }
}

/// One token in statement position.
pub open spec fn wf_stmt_tok(t: Token) -> bool
    decreases t,
{
    match t {
        Token::Literal(_) => true,
        Token::Declaration { local: _, names: _, values, line: _ } => wf_exprs(values@),
        Token::CompoundAssign { operator: _, targets, values, line: _ } => wf_exprs(targets@)
            && wf_exprs(values@),
        Token::FunctionDecl { local: _, name, parameters, body } => wf_expr_toks(name@)
            && wf_args(parameters@) && wf_stmt_toks(body.statements@),
        Token::Conditional { condition, body, else_branch } => wf_expr_toks(condition@)
            && wf_stmt_toks(body.statements@) && (match else_branch {
            Option::Some(next) => match *next {
                Token::Conditional { .. } => wf_stmt_tok(*next),
                Token::Block(_) => wf_stmt_tok(*next),
                _ => false,
            },
            Option::None => true,
        }),
        Token::MatchBlock { subject_name: _, subject_value, branches, line: _ } => wf_expr_toks(
            subject_value@,
        ) && branches@.len() >= 1 && wf_branches_from(branches@),
        Token::WhileLoop { condition, body, line: _ } => wf_expr_toks(condition@) && wf_stmt_toks(
            body.statements@,
        ),
        Token::RepeatLoop { condition, body, line: _ } => wf_expr_toks(condition@) && wf_stmt_toks(
            body.statements@,
        ),
        Token::NumericForLoop { iterator: _, start, stop, step, body, line: _ } => wf_expr_toks(
            start@,
        ) && wf_expr_toks(stop@) && wf_expr_toks(step@) && wf_stmt_toks(body.statements@),
        Token::GenericForLoop { iterators: _, iterable, body, line: _ } => wf_expr_toks(iterable@)
            && wf_stmt_toks(body.statements@),
        Token::TryCatch { protected_body, error_name: _, recovery_body } => wf_stmt_toks(
            protected_body.statements@,
        ) && (match recovery_body {
            Option::Some(r) => wf_stmt_toks(r.statements@),
            Option::None => true,
        }),
        Token::Identifier { parts, line: _ } => wf_ident_toks(parts@),
        Token::Grouped(e) => wf_expr_toks(e@),
        Token::Block(b) => wf_stmt_toks(b.statements@),
        Token::Return(exprs) => match exprs {
            Option::Some(es) => wf_exprs(es@),
            Option::None => true,
        },
        Token::Continue => true,
        Token::Break => true,
        _ => false,
    }
}

// ---------------------------------------------------------------------------
// The emitted text.
//
// These functions are total: on an ill-formed input (one the `wf_*`
// predicates reject) they return an unspecified fragment that the generator
// never produces, since it reports the violation instead. The functions in
// one mutual-recursion cycle share a two-part lexicographic measure: the
// piece of the tree they walk, and a tie-breaker for same-token helpers.
// ---------------------------------------------------------------------------

/// The guard prefixes accumulated while walking an identifier chain, each
/// followed by the short-circuit conjunction.
pub open spec fn guards_text(gs: Seq<Seq<char>>) -> Seq<char>
    decreases gs.len(),
{
    if gs.len() == 0 {
        Seq::<char>::empty()
    } else {
        gs[0] + " and "@ + guards_text(gs.subrange(1, gs.len() as int))
    }
}

/// Walks an identifier chain left to right, separating plain chain segments
/// from optional-access markers. `guards` collects, per marker met so far,
/// the accumulated prefix expression; `chain` is the plain concatenation of
/// the chain segments met so far.
pub open spec fn ident_walk(
    c: Ctx,
    scope: nat,
    parts: Seq<Token>,
    guards: Seq<Seq<char>>,
    chain: Seq<char>,
) -> (Seq<Seq<char>>, Seq<char>)
    decreases parts, 0int,
{
    if parts.len() == 0 {
        (guards, chain)
    } else {
        let rest = parts.subrange(1, parts.len() as int);
        match parts[0] {
            Token::Literal(s) => ident_walk(c, scope, rest, guards, chain + s@),
            Token::OptionalField => ident_walk(c, scope, rest, guards.push(chain), chain + "."@),
            Token::OptionalMethod => ident_walk(c, scope, rest, guards.push(chain), chain + ":"@),
            Token::OptionalIndex => if parts.len() >= 2 {
                match parts[1] {
                    Token::Grouped(e) => ident_walk(
                        c,
                        scope,
                        parts.subrange(2, parts.len() as int),
                        guards.push(chain),
                        chain + "[("@ + expr_text(c, scope, e@) + ")]"@,
                    ),
                    _ => (guards, chain),
                }
            } else {
                (guards, chain)
            },
            Token::Call(args) => ident_walk(
                c,
                scope,
                rest,
                guards,
                chain + "("@ + exprs_join_text(c, scope, args@) + ")"@,
            ),
            Token::Grouped(e) => ident_walk(
                c,
                scope,
                rest,
                guards,
                chain + "("@ + expr_text(c, scope, e@) + ")"@,
            ),
            _ => (guards, chain),
        }
    }
}

/// Each expression of the list, rendered.
pub open spec fn exprs_texts(c: Ctx, scope: nat, es: Seq<Expression>) -> Seq<Seq<char>>
    decreases es, 0int,
{
    if es.len() == 0 {
        Seq::<Seq<char>>::empty()
    } else {
        seq![expr_text(c, scope, es[0]@)] + exprs_texts(c, scope, es.subrange(1, es.len() as int))
    }
}

/// Expressions rendered and joined with `", "`.
pub open spec fn exprs_join_text(c: Ctx, scope: nat, es: Seq<Expression>) -> Seq<char>
    decreases es, 0int,
{
    if es.len() == 0 {
        Seq::<char>::empty()
    } else if es.len() == 1 {
        expr_text(c, scope, es[0]@)
    } else {
        expr_text(c, scope, es[0]@) + ", "@ + exprs_join_text(
            c,
            scope,
            es.subrange(1, es.len() as int),
        )
    }
}

/// An expression: each token rendered and concatenated in order.
pub open spec fn expr_text(c: Ctx, scope: nat, e: Seq<Token>) -> Seq<char>
    decreases e, 0int,
{
    if e.len() == 0 {
        Seq::<char>::empty()
    } else {
        expr_tok_text(c, scope, e[0]) + expr_text(c, scope, e.subrange(1, e.len() as int))
    }
}

/// The names of a parameter list joined with `", "`.
pub open spec fn arg_names_text(args: Seq<FunctionArg>) -> Seq<char>
    decreases args.len(),
{
    if args.len() == 0 {
        Seq::<char>::empty()
    } else if args.len() == 1 {
        args[0].name@
    } else {
        args[0].name@ + ", "@ + arg_names_text(args.subrange(1, args.len() as int))
    }
}

/// The conditional injected for one defaulted parameter: test the parameter
/// for absence at the body's opening indentation and assign the default
/// inside.
pub open spec fn default_clause_text(c: Ctx, scope: nat, a: FunctionArg) -> Seq<char>
    decreases a, 0int,
{
    match a.default {
        Option::Some(d) => "\n"@ + indent(scope + 1) + "if "@ + a.name@ + " == nil then\n"@
            + indent(scope + 1) + "\t"@ + line_marker_text(c, d.line as nat, scope + 2) + a.name@
            + " = "@ + expr_text(c, scope + 2, d.value@) + comment_text(c, d.line as nat) + "\n"@
            + indent(scope + 1) + "end"@,
        Option::None => Seq::<char>::empty(),
    }
}

/// The default-value conditionals of a parameter list. Parameters are
/// visited left to right and each clause is prepended to what was built
/// before, so the last parameter's clause comes first in the emitted text.
pub open spec fn defaults_text(c: Ctx, scope: nat, args: Seq<FunctionArg>) -> Seq<char>
    decreases args, 0int,
{
    if args.len() == 0 {
        Seq::<char>::empty()
    } else {
        default_clause_text(c, scope, args[args.len() - 1]) + defaults_text(
            c,
            scope,
            args.subrange(0, args.len() as int - 1),
        )
    }
}

/// The protected-call idiom wrapped around a function body under debug
/// instrumentation: forward the parameters into an inner closure, record the
/// failing unit's name for the external error reporter, re-raise trapped
/// errors (without double-reporting one already unwinding through a nested
/// protected call), and forward all residual results.
pub open spec fn func_wrap_text(c: Ctx, scope: nat, args: Seq<char>, code: Seq<char>) -> Seq<char> {
    let pre = indent(scope);
    "\n"@ + pre + "\tlocal _result = {xpcall(function("@ + args + ")"@ + code
        + "end, function(err)\n"@ + pre + "\t\t_errored_file = \""@ + c.fname + "\"\n"@ + pre
        + "\t\t_clue_error(err)\n"@ + pre + "\tend"@ + (if args.len() == 0 {
        Seq::<char>::empty()
    } else {
        ", "@ + args
    }) + ")}\n"@ + pre + "\tlocal _ok = table.remove(_result, 1)\n"@ + pre
        + "\tif _errored then\n"@ + pre
        + "\t\tlocal err, caller = _errored, debug.getinfo(2, \"f\").func\n"@ + pre
        + "\t\tif caller == pcall or caller == xpcall then _errored = nil end\n"@ + pre
        + "\t\terror(err)\n"@ + pre + "\tend\n"@ + pre + "\treturn (unpack or table.unpack)(_result)\n"@
        + pre
}

/// The body text of a function or lambda token: the compiled block behind
/// the injected default-value conditionals, wrapped in the protected-call
/// idiom under debug instrumentation. Returns an empty fragment for any
/// other token variant.
pub open spec fn func_code_text(c: Ctx, scope: nat, t: Token) -> Seq<char>
    decreases t, 0int,
{
    let dbg: nat = if c.opts.debug_instrumentation {
        1
    } else {
        0
    };
    match t {
        Token::Lambda { parameters, body } => {
            let inner = defaults_text(c, scope, parameters@) + block_text(
                c,
                scope + dbg,
                Seq::<char>::empty(),
                body,
            );
            if c.opts.debug_instrumentation {
                func_wrap_text(c, scope, arg_names_text(parameters@), inner)
            } else {
                inner
            }
        },
        Token::FunctionDecl { local: _, name: _, parameters, body } => {
            let inner = defaults_text(c, scope, parameters@) + block_text(
                c,
                scope + dbg,
                Seq::<char>::empty(),
                body,
            );
            if c.opts.debug_instrumentation {
                func_wrap_text(c, scope, arg_names_text(parameters@), inner)
            } else {
                inner
            }
        },
        _ => Seq::<char>::empty(),
    }
}

/// A code block: its statements at one deeper indentation between the given
/// opening text and the re-indentation that the caller's closing keyword
/// lands on; under debug instrumentation, bracketed by the line marker and
/// the start/end comment pair.
pub open spec fn block_text(c: Ctx, scope: nat, start: Seq<char>, b: CodeBlock) -> Seq<char>
    decreases b, 0int,
{
    let code = stmts_text(c, scope + 1, b.statements@);
    if c.opts.debug_instrumentation {
        start + "\n"@ + indent(scope) + "\t"@ + line_marker_text(c, b.start_line as nat, scope + 1)
            + "--"@ + dec_text(b.start_line as nat) + "->"@ + dec_text(b.end_line as nat) + "\n"@
            + code + "\n"@ + indent(scope)
    } else {
        start + "\n"@ + code + "\n"@ + indent(scope)
    }
}

/// An `if`/`elseif`/`else` chain, folded recursively; the final closing
/// keyword is appended once by the statement emitter, not here.
pub open spec fn chain_text(c: Ctx, scope: nat, t: Token) -> Seq<char>
    decreases t, 0int,
{
    match t {
        Token::Conditional { condition, body, else_branch } => "if "@ + expr_text(
            c,
            scope,
            condition@,
        ) + " "@ + block_text(c, scope, "then"@, body) + (match else_branch {
            Option::Some(next) => "else"@ + (match *next {
                Token::Conditional { .. } => chain_text(c, scope, *next),
                Token::Block(b) => block_text(c, scope, Seq::<char>::empty(), b),
                _ => Seq::<char>::empty(),
            }),
            Option::None => Seq::<char>::empty(),
        }),
        _ => Seq::<char>::empty(),
    }
}

/// The equality tests of one match branch, `(name == value) ` each, joined
/// with `"or "`.
pub open spec fn or_items_text(c: Ctx, scope: nat, name: Seq<char>, conds: Seq<Expression>) -> Seq<
    char,
>
    decreases conds, 0int,
{
    if conds.len() == 0 {
        Seq::<char>::empty()
    } else {
        let item = "("@ + name + " == "@ + expr_text(c, scope, conds[0]@) + ") "@;
        if conds.len() == 1 {
            item
        } else {
            item + "or "@ + or_items_text(c, scope, name, conds.subrange(1, conds.len() as int))
        }
    }
}

/// The equality tests of one match branch without the trailing space of
/// [`or_items_text`], as they stand when an extra guard is parenthesized
/// around them.
pub open spec fn or_items_trim(c: Ctx, scope: nat, name: Seq<char>, conds: Seq<Expression>) -> Seq<
    char,
>
    decreases conds, 1int,
{
    if conds.len() == 0 {
        Seq::<char>::empty()
    } else if conds.len() == 1 {
        "("@ + name + " == "@ + expr_text(c, scope, conds[0]@) + ")"@
    } else {
        "("@ + name + " == "@ + expr_text(c, scope, conds[0]@) + ") "@ + "or "@ + or_items_trim(
            c,
            scope,
            name,
            conds.subrange(1, conds.len() as int),
        )
    }
}

/// The guard of one match branch: the OR of its equality tests, with an
/// extra guard ANDed in when present (replacing the OR-list entirely for a
/// guard-only branch).
pub open spec fn branch_guard_text(c: Ctx, scope: nat, name: Seq<char>, b: MatchBranch) -> Seq<char>
    decreases b, 0int,
{
    "if "@ + (match b.extra_guard {
        Option::Some(g) => {
            let extra = expr_text(c, scope, g@);
            if b.match_values@.len() == 0 {
                extra + " "@
            } else {
                "("@ + or_items_trim(c, scope, name, b.match_values@) + ") and "@ + extra + " "@
            }
        },
        Option::None => or_items_text(c, scope, name, b.match_values@),
    }) + "then"@
}

/// The accumulated closing keywords flushed after the last match branch:
/// one per nesting level from `scope + k` down to `scope`.
pub open spec fn closer_lines(scope: nat, k: nat) -> Seq<char>
    decreases k,
{
    if k == 0 {
        indent(scope) + "end"@
    } else {
        indent(scope + k) + "end\n"@ + closer_lines(scope, (k - 1) as nat)
    }
}

/// The lowering of one match branch standing at absolute position `i` of a
/// chain whose last position is `last`: the first branch opens the chain,
/// each later non-default branch nests one level deeper inside the previous
/// branch's `else`, and the default branch lowers to a bare trailing `else`
/// block.
pub open spec fn branch_piece_text(
    c: Ctx,
    scope: nat,
    name: Seq<char>,
    b: MatchBranch,
    i: nat,
    last: nat,
) -> Seq<char>
    decreases b, 2int,
{
    let guard = branch_guard_text(c, scope, name, b);
    let ending: Seq<char> = if i >= last {
        "end"@
    } else {
        "else"@
    };
    if i == 0 {
        if b.pre_statements@.len() > 0 {
            stmts_text(c, scope + i, b.pre_statements@) + "\n"@ + indent(scope + i) + block_text(
                c,
                scope,
                guard,
                b.body,
            ) + ending
        } else {
            block_text(c, scope, guard, b.body) + ending
        }
    } else if is_default_branch(b) {
        block_text(c, (scope + i - 1) as nat, Seq::<char>::empty(), b.body) + ending
    } else if b.pre_statements@.len() > 0 {
        if i >= last {
            "\n"@ + stmts_text(c, scope + i, b.pre_statements@) + "\n"@ + indent(scope + i)
                + block_text(c, scope + i, guard, b.body) + ending + "\n"@ + indent(
                (scope + i - 1) as nat,
            ) + "end"@
        } else {
            "\n"@ + stmts_text(c, scope + i, b.pre_statements@) + "\n"@ + indent(scope + i)
                + block_text(c, scope + i, guard, b.body) + ending
        }
    } else {
        if i >= last {
            "\n"@ + indent(scope + i) + block_text(c, scope + i, guard, b.body) + ending + "\n"@
                + indent((scope + i - 1) as nat) + "end"@
        } else {
            "\n"@ + indent(scope + i) + block_text(c, scope + i, guard, b.body) + ending
        }
    }
}

/// The branches of a match block from absolute position `i` on.
pub open spec fn match_branches_text(
    c: Ctx,
    scope: nat,
    name: Seq<char>,
    bs: Seq<MatchBranch>,
    i: nat,
    last: nat,
) -> Seq<char>
    decreases bs, 2int,
{
    if bs.len() == 0 {
        Seq::<char>::empty()
    } else {
        branch_piece_text(c, scope, name, bs[0], i, last) + match_branches_text(
            c,
            scope,
            name,
            bs.subrange(1, bs.len() as int),
            i + 1,
            last,
        )
    }
}

/// The raw-global-set lowering of a non-local declaration: one
/// `rawset(_G, ...)` call per name, separated by re-indentation, the last
/// one followed by the statement separator.
pub open spec fn rawset_list_text(
    scope: nat,
    names: Seq<String>,
    vals: Seq<Seq<char>>,
    comment: Seq<char>,
    tail: Seq<char>,
) -> Seq<char>
    decreases names.len(),
{
    if names.len() == 0 {
        Seq::<char>::empty()
    } else {
        let value: Seq<char> = if vals.len() > 0 {
            vals[0]
        } else {
            "nil"@
        };
        let rest_vals: Seq<Seq<char>> = if vals.len() > 0 {
            vals.subrange(1, vals.len() as int)
        } else {
            vals
        };
        "rawset(_G, \""@ + names[0]@ + "\", "@ + value + ");"@ + comment + (if names.len() > 1 {
            "\n"@ + indent(scope)
        } else {
            tail
        }) + rawset_list_text(scope, names.subrange(1, names.len() as int), rest_vals, comment, tail)
    }
}

/// The explicit binary-operator text a compound assignment expands to.
pub open spec fn op_text(op: AssignOp) -> Seq<char> {
    match op {
        AssignOp::Define => Seq::<char>::empty(),
        AssignOp::DefineAnd => " and "@,
        AssignOp::DefineOr => " or "@,
        AssignOp::Add => " + "@,
        AssignOp::Sub => " - "@,
        AssignOp::Mul => " * "@,
        AssignOp::Div => " / "@,
        AssignOp::Pow => " ^ "@,
        AssignOp::Concat => " .. "@,
        AssignOp::Mod => " % "@,
    }
}

/// The right-hand sides of a compound assignment, joined with `", "`: each
/// value is prefixed with its target and the expanded operator, a plain
/// assignment with nothing, and a value without a target with a null
/// literal in the target's place.
pub open spec fn alter_values_text(
    op: AssignOp,
    targets: Seq<Seq<char>>,
    vals: Seq<Seq<char>>,
) -> Seq<char>
    decreases vals.len(),
{
    if vals.len() == 0 {
        Seq::<char>::empty()
    } else {
        let target: Seq<char> = if targets.len() > 0 {
            targets[0]
        } else {
            "nil"@
        };
        let rest_targets: Seq<Seq<char>> = if targets.len() > 0 {
            targets.subrange(1, targets.len() as int)
        } else {
            targets
        };
        let prefix: Seq<char> = if op is Define {
            Seq::<char>::empty()
        } else {
            target + op_text(op)
        };
        prefix + vals[0] + (if vals.len() > 1 {
            ", "@
        } else {
            Seq::<char>::empty()
        }) + alter_values_text(op, rest_targets, vals.subrange(1, vals.len() as int))
    }
}

/// One token in expression position, rendered.
pub open spec fn expr_tok_text(c: Ctx, scope: nat, t: Token) -> Seq<char>
    decreases t, 1int,
{
    match t {
        Token::Literal(s) => s@,
        Token::TableLiteral { fields, metamethods, explicit_metatable } => {
            let inner = scope + 1;
            let values: Seq<char> = if fields@.len() == 0 {
                Seq::<char>::empty()
            } else {
                fields_text(c, inner, fields@, 0) + comment_text(
                    c,
                    fields@.last().line as nat,
                ) + "\n"@
            };
            let outer_pre = indent(scope);
            if metamethods@.len() == 0 {
                match explicit_metatable {
                    Option::Some(mt) => "setmetatable({"@ + values + outer_pre + "}, "@
                        + expr_text(c, scope, mt@) + ")"@,
                    Option::None => "{"@ + values + outer_pre + "}"@,
                }
            } else {
                let metas = metas_text(c, inner, metamethods@, 0) + comment_text(
                    c,
                    metamethods@.last().line as nat,
                );
                "setmetatable({"@ + values + outer_pre + "}, {"@ + metas + "\n"@ + outer_pre
                    + "})"@
            }
        },
        Token::Lambda { parameters, body: _ } => "function("@ + arg_names_text(parameters@) + ")"@
            + func_code_text(c, scope, t) + "end"@,
        Token::Identifier { parts, line: _ } => ident_text(c, scope, parts@),
        Token::Call(args) => "("@ + exprs_join_text(c, scope, args@) + ")"@,
        Token::Grouped(e) => "("@ + expr_text(c, scope, e@) + ")"@,
        _ => Seq::<char>::empty(),
    }
}

/// The lowering of a whole identifier chain: the plain concatenation when
/// no optional marker was seen, otherwise the accumulated guards conjoined
/// before the chain, parenthesized.
pub open spec fn ident_text(c: Ctx, scope: nat, parts: Seq<Token>) -> Seq<char>
    decreases parts, 1int,
{
    let walked = ident_walk(c, scope, parts, Seq::<Seq<char>>::empty(), Seq::<char>::empty());
    if walked.0.len() == 0 {
        walked.1
    } else {
        "("@ + guards_text(walked.0) + walked.1 + ")"@
    }
}

/// One field of a table constructor, on its own line at the inner
/// indentation: `key = value` when keyed, the bare value otherwise. Under
/// debug instrumentation it leads with the trailing line comment of the
/// field *before* it (`prev`, with `0` meaning none yet).
pub open spec fn field_item_text(c: Ctx, scope: nat, f: TableField, prev: nat) -> Seq<char>
    decreases f, 0int,
{
    let lead: Seq<char> = if prev != 0 {
        comment_text(c, prev)
    } else {
        Seq::<char>::empty()
    };
    let value = expr_text(c, scope, f.value@);
    lead + "\n"@ + indent(scope) + (match f.key {
        Option::Some(k) => expr_text(c, scope, k@) + " = "@ + value,
        Option::None => value,
    })
}

/// The fields of a table constructor joined with `", "`, each carrying the
/// deferred line comment of its predecessor; the comment for the last field
/// is appended by the caller.
pub open spec fn fields_text(c: Ctx, scope: nat, fs: Seq<TableField>, prev: nat) -> Seq<char>
    decreases fs, 1int,
{
    if fs.len() == 0 {
        Seq::<char>::empty()
    } else {
        field_item_text(c, scope, fs[0], prev) + (if fs.len() > 1 {
            ", "@
        } else {
            Seq::<char>::empty()
        }) + fields_text(c, scope, fs.subrange(1, fs.len() as int), fs[0].line as nat)
    }
}

/// One metamethod entry of a table constructor, with the same deferred
/// line-comment scheme as [`field_item_text`].
pub open spec fn meta_item_text(c: Ctx, scope: nat, m: MetaField, prev: nat) -> Seq<char>
    decreases m, 0int,
{
    let lead: Seq<char> = if prev != 0 {
        comment_text(c, prev)
    } else {
        Seq::<char>::empty()
    };
    lead + "\n"@ + indent(scope) + m.name@ + " = "@ + expr_text(c, scope, m.value@)
}

/// The metamethod entries of a table constructor joined with `", "`.
pub open spec fn metas_text(c: Ctx, scope: nat, ms: Seq<MetaField>, prev: nat) -> Seq<char>
    decreases ms, 1int,
{
    if ms.len() == 0 {
        Seq::<char>::empty()
    } else {
        meta_item_text(c, scope, ms[0], prev) + (if ms.len() > 1 {
            ", "@
        } else {
            Seq::<char>::empty()
        }) + metas_text(c, scope, ms.subrange(1, ms.len() as int), ms[0].line as nat)
    }
}

/// A statement list after its leading indentation: each token's lowering,
/// with the separator logic driven by whether another statement follows.
pub open spec fn stmts_tail(c: Ctx, scope: nat, toks: Seq<Token>) -> Seq<char>
    decreases toks, 0int,
{
    if toks.len() == 0 {
        Seq::<char>::empty()
    } else {
        stmt_tok_text(c, scope, toks[0], toks.len() > 1) + stmts_tail(
            c,
            scope,
            toks.subrange(1, toks.len() as int),
        )
    }
}

/// A whole statement list as the public entry point emits it: the opening
/// indentation followed by the statements.
pub open spec fn stmts_text(c: Ctx, scope: nat, toks: Seq<Token>) -> Seq<char>
    decreases toks, 1int,
{
    indent(scope) + stmts_tail(c, scope, toks)
}

/// One token in statement position, rendered. `more` says whether another
/// statement follows in the same list, which drives the trailing separator.
pub open spec fn stmt_tok_text(c: Ctx, scope: nat, t: Token, more: bool) -> Seq<char>
    decreases t, 1int,
{
    match t {
        Token::Literal(s) => s@,
        Token::Declaration { local, names, values, line } => {
            let marker = line_marker_text(c, line as nat, scope);
            let comment = comment_text(c, line as nat);
            if !local && c.opts.raw_global_assignment {
                marker + rawset_list_text(
                    scope,
                    names@,
                    exprs_texts(c, scope, values@),
                    comment,
                    sep(more, scope),
                )
            } else {
                let prefix: Seq<char> = if local {
                    "local "@
                } else {
                    Seq::<char>::empty()
                };
                if values@.len() == 0 {
                    marker + prefix + names_text(names@) + ";"@ + comment + sep(more, scope)
                } else {
                    marker + prefix + names_text(names@) + " = "@ + exprs_join_text(
                        c,
                        scope,
                        values@,
                    ) + ";"@ + comment + sep(more, scope)
                }
            }
        },
        Token::CompoundAssign { operator, targets, values, line } => {
            let target_texts = exprs_texts(c, scope, targets@);
            let value_part = alter_values_text(operator, target_texts, exprs_texts(c, scope, values@));
            line_marker_text(c, line as nat, scope) + join_texts(target_texts, ", "@) + " = "@
                + value_part + ";"@ + comment_text(c, line as nat) + sep(more, scope)
        },
        Token::FunctionDecl { local, name, parameters, body: _ } => {
            let prefix: Seq<char> = if local {
                "local "@
            } else {
                Seq::<char>::empty()
            };
            prefix + "function "@ + expr_text(c, scope, name@) + "("@ + arg_names_text(parameters@)
                + ")"@ + func_code_text(c, scope, t) + "end"@ + sep(more, scope)
        },
        Token::Conditional { .. } => chain_text(c, scope, t) + "end"@ + sep(more, scope),
        Token::MatchBlock { subject_name, subject_value, branches, line } => {
            let last: nat = (branches@.len() - 1) as nat;
            let chain = indent(scope) + match_branches_text(
                c,
                scope,
                subject_name@,
                branches@,
                0,
                last,
            ) + (if last > 1 {
                "\n"@ + closer_lines(scope, (last - 2) as nat)
            } else {
                Seq::<char>::empty()
            });
            line_marker_text(c, line as nat, scope) + "local "@ + subject_name@ + " = "@
                + expr_text(c, scope, subject_value@) + ";"@ + comment_text(c, line as nat) + "\n"@
                + chain + sep(more, scope)
        },
        Token::WhileLoop { condition, body, line } => {
            let marker = line_marker_text(c, line as nat, scope);
            marker + "while "@ + expr_text(c, scope, condition@) + " "@ + block_text(
                c,
                scope,
                "do"@,
                body,
            ) + marker + "end"@ + sep(more, scope)
        },
        Token::RepeatLoop { condition, body, line } => "repeat "@ + block_text(
            c,
            scope,
            Seq::<char>::empty(),
            body,
        ) + line_marker_text(c, line as nat, scope) + "until "@ + expr_text(c, scope, condition@)
            + sep(more, scope),
        Token::NumericForLoop { iterator, start, stop, step, body, line } => {
            let marker = line_marker_text(c, line as nat, scope);
            marker + "for "@ + iterator@ + " = "@ + expr_text(c, scope, start@) + ", "@
                + expr_text(c, scope, stop@) + ", "@ + expr_text(c, scope, step@) + " "@
                + block_text(c, scope, "do"@, body) + marker + "end"@ + sep(more, scope)
        },
        Token::GenericForLoop { iterators, iterable, body, line } => {
            let marker = line_marker_text(c, line as nat, scope);
            marker + "for "@ + names_text(iterators@) + " in "@ + expr_text(c, scope, iterable@)
                + " "@ + block_text(c, scope, "do"@, body) + marker + "end"@ + sep(more, scope)
        },
        Token::TryCatch { protected_body, error_name, recovery_body } => {
            let tail = sep(more, scope);
            let protected = block_text(c, scope, "function()"@, protected_body);
            match recovery_body {
                Option::Some(r) => {
                    let catch = block_text(c, scope, "if not _check then"@, r);
                    match error_name {
                        Option::Some(e) => "local _check, "@ + e@ + " = pcall("@ + protected
                            + "end)\n"@ + indent(scope) + catch + "end"@ + tail,
                        Option::None => "local _check = pcall("@ + protected + "end)\n"@
                            + indent(scope) + catch + "end"@ + tail,
                    }
                },
                Option::None => "pcall("@ + protected + "end)"@ + tail,
            }
        },
        Token::Identifier { parts, line } => line_marker_text(c, line as nat, scope)
            + ident_text(c, scope, parts@) + ";"@ + comment_text(c, line as nat) + sep(
            more,
            scope,
        ),
        Token::Grouped(e) => "("@ + expr_text(c, scope, e@) + ")"@,
        Token::Block(b) => block_text(c, scope, "do"@, b) + "end"@ + sep(more, scope),
        Token::Return(exprs) => match exprs {
            Option::Some(es) => "return "@ + exprs_join_text(c, scope, es@) + ";"@,
            Option::None => "return;"@,
        },
        Token::Continue => (match c.opts.continue_strategy {
            ContinueMode::Label => "goto continue"@,
            ContinueMode::Native => "continue"@,
        }) + ";"@ + sep(more, scope),
        Token::Break => "break;"@ + sep(more, scope),
        _ => Seq::<char>::empty(),
    }
}

/// The rendered-expression list is as long as the expression list.
pub proof fn lemma_exprs_texts_len(c: Ctx, scope: nat, es: Seq<Expression>)
    ensures
        exprs_texts(c, scope, es).len() == es.len(),
    decreases es,
{
    if es.len() > 0 {
        lemma_exprs_texts_len(c, scope, es.subrange(1, es.len() as int));
    }
}

/// Each entry of the rendered-expression list is its expression's text.
pub proof fn lemma_exprs_texts_index(c: Ctx, scope: nat, es: Seq<Expression>, i: int)
    requires
        0 <= i < es.len(),
    ensures
        exprs_texts(c, scope, es).len() == es.len(),
        exprs_texts(c, scope, es)[i] == expr_text(c, scope, es[i]@),
    decreases es,
{
    lemma_exprs_texts_len(c, scope, es);
    if i > 0 {
        lemma_exprs_texts_index(c, scope, es.subrange(1, es.len() as int), i - 1);
    }
}

/// The suffix of `s` from `i` on, empty once `i` passes the end.
pub open spec fn suffix_from<A>(s: Seq<A>, i: int) -> Seq<A> {
    if 0 <= i <= s.len() {
        s.subrange(i, s.len() as int)
    } else {
        Seq::<A>::empty()
    }
}

/// Appending one guard extends the rendered guard prefix at its end.
pub proof fn lemma_guards_text_push(gs: Seq<Seq<char>>, x: Seq<char>)
    ensures
        guards_text(gs.push(x)) == guards_text(gs) + x + " and "@,
    decreases gs.len(),
{
    if gs.len() == 0 {
        assert(gs.push(x)[0] == x);
        assert(gs.push(x).subrange(1, 1) =~= Seq::<Seq<char>>::empty());
        assert(gs.push(x).len() == 1);
        assert(guards_text(gs.push(x)) == gs.push(x)[0] + " and "@ + guards_text(
            gs.push(x).subrange(1, 1),
        ));
        assert(guards_text(Seq::<Seq<char>>::empty()) == Seq::<char>::empty());
        assert(guards_text(gs) == Seq::<char>::empty());
        assert(guards_text(gs.push(x)) =~= guards_text(gs) + x + " and "@);
    } else {
        assert(gs.push(x)[0] == gs[0]);
        assert(gs.push(x).subrange(1, gs.len() as int + 1) =~= gs.subrange(
            1,
            gs.len() as int,
        ).push(x));
        lemma_guards_text_push(gs.subrange(1, gs.len() as int), x);
        assert(guards_text(gs.push(x)) == gs[0] + " and "@ + guards_text(
            gs.push(x).subrange(1, gs.len() as int + 1),
        ));
        assert(guards_text(gs.push(x).subrange(1, gs.len() as int + 1)) == guards_text(
            gs.subrange(1, gs.len() as int).push(x),
        ));
        assert(guards_text(gs) == gs[0] + " and "@ + guards_text(gs.subrange(1, gs.len() as int)));
        assert(guards_text(gs.push(x)) =~= guards_text(gs) + x + " and "@);
    }
}

/// A non-empty guard list renders to non-empty text.
pub proof fn lemma_guards_text_nonempty(gs: Seq<Seq<char>>)
    requires
        gs.len() > 0,
    ensures
        guards_text(gs).len() > 0,
{
    reveal_strlit(" and ");
}

} // verus!
