//! A structural measure of the input tree.
//!
//! The generator threads an indentation counter through its recursion and
//! increments it as it descends; the increments along any path are bounded
//! by this measure, so a single machine-limit precondition —
//! `scope + weight ≤ usize::MAX` — rules out arithmetic overflow for the
//! whole compilation.

use vstd::prelude::*;

use crate::ast::{Expression, FunctionArg, MatchBranch, MetaField, TableField, Token};
use crate::ast::CodeBlock;

verus! {

/// Measure of a statement or expression token list.
pub open spec fn toks_weight(ts: Seq<Token>) -> nat
    decreases ts,
{
    if ts.len() == 0 {
        0
    } else {
        tok_weight(ts[0]) + toks_weight(ts.subrange(1, ts.len() as int))
    }
}

/// Measure of a list of expressions.
pub open spec fn exprs_weight(es: Seq<Expression>) -> nat
    decreases es,
{
    if es.len() == 0 {
        0
    } else {
        toks_weight(es[0]@) + exprs_weight(es.subrange(1, es.len() as int))
    }
}

/// Measure of a parameter list: only the default values matter, since only
/// they are compiled.
pub open spec fn args_weight(args: Seq<FunctionArg>) -> nat
    decreases args,
{
    if args.len() == 0 {
        0
    } else {
        (match args[0].default {
            Option::Some(d) => toks_weight(d.value@),
            Option::None => 0,
        }) + args_weight(args.subrange(1, args.len() as int))
    }
}

/// Measure of a code block: one for the scope it opens, plus its
/// statements.
pub open spec fn block_weight(b: CodeBlock) -> nat
    decreases b,
{
    1 + toks_weight(b.statements@)
}

/// Measure of the fields of a table constructor.
pub open spec fn fields_weight(fs: Seq<TableField>) -> nat
    decreases fs,
{
    if fs.len() == 0 {
        0
    } else {
        (match fs[0].key {
            Option::Some(k) => toks_weight(k@),
            Option::None => 0,
        }) + toks_weight(fs[0].value@) + fields_weight(fs.subrange(1, fs.len() as int))
    }
}

/// Measure of the metamethod entries of a table constructor.
pub open spec fn metas_weight(ms: Seq<MetaField>) -> nat
    decreases ms,
{
    if ms.len() == 0 {
        0
    } else {
        toks_weight(ms[0].value@) + metas_weight(ms.subrange(1, ms.len() as int))
    }
}

/// Measure of one match branch; at least one, so that a branch's position
/// in the chain — which the emitter adds to the indentation — is bounded by
/// the weight of the branches before it.
pub open spec fn branch_weight(b: MatchBranch) -> nat
    decreases b,
{
    1 + exprs_weight(b.match_values@) + toks_weight(b.pre_statements@) + (match b.extra_guard {
        Option::Some(g) => toks_weight(g@),
        Option::None => 0,
    }) + block_weight(b.body)
}

/// Measure of a branch list.
pub open spec fn branches_weight(bs: Seq<MatchBranch>) -> nat
    decreases bs,
{
    if bs.len() == 0 {
        0
    } else {
        branch_weight(bs[0]) + branches_weight(bs.subrange(1, bs.len() as int))
    }
}

/// Measure of one token.
pub open spec fn tok_weight(t: Token) -> nat
    decreases t,
{
    match t {
        Token::Literal(_) => 1,
        Token::OptionalField => 1,
        Token::OptionalMethod => 1,
        Token::OptionalIndex => 1,
        Token::Declaration { local: _, names: _, values, line: _ } => 1 + exprs_weight(values@),
        Token::CompoundAssign { operator: _, targets, values, line: _ } => 1 + exprs_weight(
            targets@,
        ) + exprs_weight(values@),
        Token::FunctionDecl { local: _, name, parameters, body } => 3 + toks_weight(name@)
            + args_weight(parameters@) + block_weight(body),
        Token::Conditional { condition, body, else_branch } => 1 + toks_weight(condition@)
            + block_weight(body) + (match else_branch {
            Option::Some(next) => tok_weight(*next),
            Option::None => 0,
        }),
        Token::MatchBlock { subject_name: _, subject_value, branches, line: _ } => 1 + toks_weight(
            subject_value@,
        ) + branches_weight(branches@),
        Token::WhileLoop { condition, body, line: _ } => 1 + toks_weight(condition@)
            + block_weight(body),
        Token::RepeatLoop { condition, body, line: _ } => 1 + toks_weight(condition@)
            + block_weight(body),
        Token::NumericForLoop { iterator: _, start, stop, step, body, line: _ } => 1 + toks_weight(
            start@,
        ) + toks_weight(stop@) + toks_weight(step@) + block_weight(body),
        Token::GenericForLoop { iterators: _, iterable, body, line: _ } => 1 + toks_weight(
            iterable@,
        ) + block_weight(body),
        Token::TryCatch { protected_body, error_name: _, recovery_body } => 1 + block_weight(
            protected_body,
        ) + (match recovery_body {
            Option::Some(r) => block_weight(r),
            Option::None => 0,
        }),
        Token::Identifier { parts, line: _ } => 1 + toks_weight(parts@),
        Token::TableLiteral { fields, metamethods, explicit_metatable } => 1 + fields_weight(
            fields@,
        ) + metas_weight(metamethods@) + (match explicit_metatable {
            Option::Some(mt) => toks_weight(mt@),
            Option::None => 0,
        }),
        Token::Lambda { parameters, body } => 3 + args_weight(parameters@) + block_weight(body),
        Token::Call(args) => 1 + exprs_weight(args@),
        Token::Grouped(e) => 1 + toks_weight(e@),
        Token::Block(b) => 1 + block_weight(b),
        Token::Return(exprs) => 1 + (match exprs {
            Option::Some(es) => exprs_weight(es@),
            Option::None => 0,
        }),
        Token::Continue => 1,
        Token::Break => 1,
    }
}

/// Splits the measure of a token-list suffix at its first element.
pub proof fn lemma_toks_weight_split(ts: Seq<Token>, i: int)
    requires
        0 <= i < ts.len(),
    ensures
        toks_weight(ts.subrange(i, ts.len() as int)) == tok_weight(ts[i]) + toks_weight(
            ts.subrange(i + 1, ts.len() as int),
        ),
{
    let suffix = ts.subrange(i, ts.len() as int);
    assert(suffix[0] == ts[i]);
    assert(suffix.subrange(1, suffix.len() as int) =~= ts.subrange(i + 1, ts.len() as int));
}

/// Splits the measure of an expression-list suffix at its first element.
pub proof fn lemma_exprs_weight_split(es: Seq<Expression>, i: int)
    requires
        0 <= i < es.len(),
    ensures
        exprs_weight(es.subrange(i, es.len() as int)) == toks_weight(es[i]@) + exprs_weight(
            es.subrange(i + 1, es.len() as int),
        ),
{
    let suffix = es.subrange(i, es.len() as int);
    assert(suffix[0] == es[i]);
    assert(suffix.subrange(1, suffix.len() as int) =~= es.subrange(i + 1, es.len() as int));
}

/// Splits the measure of a parameter-list suffix at its first element.
pub proof fn lemma_args_weight_split(args: Seq<FunctionArg>, i: int)
    requires
        0 <= i < args.len(),
    ensures
        args_weight(args.subrange(i, args.len() as int)) == (match args[i].default {
            Option::Some(d) => toks_weight(d.value@),
            Option::None => 0nat,
        }) + args_weight(args.subrange(i + 1, args.len() as int)),
{
    let suffix = args.subrange(i, args.len() as int);
    assert(suffix[0] == args[i]);
    assert(suffix.subrange(1, suffix.len() as int) =~= args.subrange(i + 1, args.len() as int));
}

/// Splits the measure of a field-list suffix at its first element.
pub proof fn lemma_fields_weight_split(fs: Seq<TableField>, i: int)
    requires
        0 <= i < fs.len(),
    ensures
        fields_weight(fs.subrange(i, fs.len() as int)) == (match fs[i].key {
            Option::Some(k) => toks_weight(k@),
            Option::None => 0nat,
        }) + toks_weight(fs[i].value@) + fields_weight(fs.subrange(i + 1, fs.len() as int)),
{
    let suffix = fs.subrange(i, fs.len() as int);
    assert(suffix[0] == fs[i]);
    assert(suffix.subrange(1, suffix.len() as int) =~= fs.subrange(i + 1, fs.len() as int));
}

/// Splits the measure of a metamethod-list suffix at its first element.
pub proof fn lemma_metas_weight_split(ms: Seq<MetaField>, i: int)
    requires
        0 <= i < ms.len(),
    ensures
        metas_weight(ms.subrange(i, ms.len() as int)) == toks_weight(ms[i].value@) + metas_weight(
            ms.subrange(i + 1, ms.len() as int),
        ),
{
    let suffix = ms.subrange(i, ms.len() as int);
    assert(suffix[0] == ms[i]);
    assert(suffix.subrange(1, suffix.len() as int) =~= ms.subrange(i + 1, ms.len() as int));
}

/// Splits the measure of a branch-list suffix at its first element.
pub proof fn lemma_branches_weight_split(bs: Seq<MatchBranch>, i: int)
    requires
        0 <= i < bs.len(),
    ensures
        branches_weight(bs.subrange(i, bs.len() as int)) == branch_weight(bs[i]) + branches_weight(
            bs.subrange(i + 1, bs.len() as int),
        ),
{
    let suffix = bs.subrange(i, bs.len() as int);
    assert(suffix[0] == bs[i]);
    assert(suffix.subrange(1, suffix.len() as int) =~= bs.subrange(i + 1, bs.len() as int));
}

} // verus!
