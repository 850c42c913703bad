//! General properties of the emission, stated and proved once for all
//! inputs.

use vstd::prelude::*;

use crate::ast::{CodeBlock, MatchBranch, Token};
use crate::model::{
    block_text, guards_text, ident_text, ident_walk, indent, is_default_branch, stmts_tail,
    stmts_text, wf_branches, wf_branches_from, wf_ident_toks, wf_stmt_tok, Ctx,
};

verus! {

/// Compiling the same token sequence twice, under the same configuration,
/// unit name and starting scope, yields byte-identical output: the emitted
/// text is a function of the input and the configuration alone, with no
/// hidden state.
pub proof fn lemma_output_deterministic(
    c: Ctx,
    scope: nat,
    toks: Seq<Token>,
    r1: Seq<char>,
    r2: Seq<char>,
)
    requires
        r1 == stmts_text(c, scope, toks),
        r2 == stmts_text(c, scope, toks),
    ensures
        r1 == r2,
{
}

/// The indentation text is one tab per open scope.
pub proof fn lemma_indent_len(scope: nat)
    ensures
        indent(scope).len() == scope,
    decreases scope,
{
    reveal_strlit("\t");
    if scope > 0 {
        lemma_indent_len((scope - 1) as nat);
    }
}

/// One half of the indentation balance of emitted blocks: every code block
/// ends with a newline and exactly `scope` tabs, so the closing keyword the
/// caller appends right after it stands at the same depth as the block's
/// opening text.
pub proof fn lemma_block_closes_at_own_depth(c: Ctx, scope: nat, start: Seq<char>, b: CodeBlock)
    ensures
        exists|mid: Seq<char>|
            block_text(c, scope, start, b) == start + "\n"@ + mid + "\n"@ + indent(scope),
        indent(scope).len() == scope,
{
    lemma_indent_len(scope);
    let code = stmts_text(c, scope + 1, b.statements@);
    if c.opts.debug_instrumentation {
        let mid = indent(scope) + "\t"@ + crate::model::line_marker_text(
            c,
            b.start_line as nat,
            scope + 1,
        ) + "--"@ + crate::model::dec_text(b.start_line as nat) + "->"@ + crate::model::dec_text(
            b.end_line as nat,
        ) + "\n"@ + code;
        assert(block_text(c, scope, start, b) =~= start + "\n"@ + mid + "\n"@ + indent(scope));
    } else {
        let mid = code;
        assert(block_text(c, scope, start, b) =~= start + "\n"@ + mid + "\n"@ + indent(scope));
    }
}

/// The other half of the indentation balance: the statements of a block are
/// emitted one scope deeper than the block itself, behind `scope + 1` tabs,
/// so nesting depth in the output mirrors nesting depth of the input.
pub proof fn lemma_block_body_one_deeper(c: Ctx, scope: nat, toks: Seq<Token>)
    ensures
        exists|tail: Seq<char>| stmts_text(c, scope, toks) == indent(scope) + tail,
        indent(scope).len() == scope,
{
    lemma_indent_len(scope);
    let tail = stmts_tail(c, scope, toks);
    assert(stmts_text(c, scope, toks) == indent(scope) + tail);
}

/// Helper for [`lemma_misplaced_default_rejected`]: a branch list with a
/// catch-all default anywhere but last fails the branch well-formedness
/// walk.
proof fn lemma_misplaced_default_from(bs: Seq<MatchBranch>, i: int)
    requires
        0 <= i < bs.len() - 1,
        is_default_branch(bs[i]),
    ensures
        !wf_branches_from(bs),
    decreases i,
{
    if i == 0 {
        assert(bs.len() > 1);
    } else {
        let rest = bs.subrange(1, bs.len() as int);
        assert(rest[i - 1] == bs[i]);
        lemma_misplaced_default_from(rest, i - 1);
    }
}

/// A match block whose catch-all default branch (no match values, no extra
/// guard) is not positioned last is ill-formed: the generator reports the
/// invariant violation instead of emitting anything — it never reorders
/// branches to compensate.
pub proof fn lemma_misplaced_default_rejected(
    subject_name: String,
    subject_value: Vec<Token>,
    branches: Vec<MatchBranch>,
    line: usize,
    i: int,
)
    requires
        0 <= i < branches@.len() - 1,
        is_default_branch(branches@[i]),
    ensures
        !wf_branches(branches@),
        !wf_stmt_tok(
            Token::MatchBlock { subject_name, subject_value, branches, line },
        ),
{
    lemma_misplaced_default_from(branches@, i);
}

/// How many optional-access markers an identifier chain holds.
pub open spec fn optional_marker_count(parts: Seq<Token>) -> nat
    decreases parts,
{
    if parts.len() == 0 {
        0
    } else {
        (match parts[0] {
            Token::OptionalField => 1nat,
            Token::OptionalMethod => 1nat,
            Token::OptionalIndex => 1nat,
            _ => 0nat,
        }) + optional_marker_count(parts.subrange(1, parts.len() as int))
    }
}

/// Helper for [`lemma_optional_guard_count`], generalized over the walk's
/// accumulators.
proof fn lemma_walk_guard_count(
    c: Ctx,
    scope: nat,
    parts: Seq<Token>,
    guards: Seq<Seq<char>>,
    chain: Seq<char>,
)
    requires
        wf_ident_toks(parts),
    ensures
        ident_walk(c, scope, parts, guards, chain).0.len() == guards.len()
            + optional_marker_count(parts),
    decreases parts.len(),
{
    if parts.len() > 0 {
        let rest = parts.subrange(1, parts.len() as int);
        match parts[0] {
            Token::OptionalIndex => {
                let rest2 = parts.subrange(2, parts.len() as int);
                assert(rest.subrange(1, rest.len() as int) =~= rest2);
                assert(rest[0] == parts[1]);
                match parts[1] {
                    Token::Grouped(e) => {
                        let chain2 = chain + "[("@ + crate::model::expr_text(c, scope, e@)
                            + ")]"@;
                        lemma_walk_guard_count(c, scope, rest2, guards.push(chain), chain2);
                        assert(optional_marker_count(rest) == optional_marker_count(rest2));
                    },
                    _ => {},
                }
            },
            Token::Literal(s) => {
                lemma_walk_guard_count(c, scope, rest, guards, chain + s@);
            },
            Token::OptionalField => {
                lemma_walk_guard_count(c, scope, rest, guards.push(chain), chain + "."@);
            },
            Token::OptionalMethod => {
                lemma_walk_guard_count(c, scope, rest, guards.push(chain), chain + ":"@);
            },
            Token::Call(args) => {
                lemma_walk_guard_count(
                    c,
                    scope,
                    rest,
                    guards,
                    chain + "("@ + crate::model::exprs_join_text(c, scope, args@) + ")"@,
                );
            },
            Token::Grouped(e) => {
                lemma_walk_guard_count(
                    c,
                    scope,
                    rest,
                    guards,
                    chain + "("@ + crate::model::expr_text(c, scope, e@) + ")"@,
                );
            },
            _ => {},
        }
    }
}

/// An identifier chain with `n` optional-access markers lowers to exactly
/// `n` conjoined short-circuit guard clauses: one guard is accumulated per
/// marker, not just for the first.
pub proof fn lemma_optional_guard_count(c: Ctx, scope: nat, parts: Seq<Token>)
    requires
        wf_ident_toks(parts),
    ensures
        ident_walk(c, scope, parts, Seq::<Seq<char>>::empty(), Seq::<char>::empty()).0.len()
            == optional_marker_count(parts),
{
    lemma_walk_guard_count(c, scope, parts, Seq::<Seq<char>>::empty(), Seq::<char>::empty());
}

/// The lowered chain is parenthesized exactly when a guard was added: with
/// no optional marker it is the plain concatenation of its segments, and
/// with markers it is the guard conjunction followed by the full chain,
/// wrapped in parentheses.
pub proof fn lemma_optional_chain_shape(c: Ctx, scope: nat, parts: Seq<Token>)
    requires
        wf_ident_toks(parts),
    ensures
        ({
            let walked = ident_walk(
                c,
                scope,
                parts,
                Seq::<Seq<char>>::empty(),
                Seq::<char>::empty(),
            );
            &&& (optional_marker_count(parts) == 0 ==> ident_text(c, scope, parts) == walked.1)
            &&& (optional_marker_count(parts) > 0 ==> ident_text(c, scope, parts) == "("@
                + guards_text(walked.0) + walked.1 + ")"@)
        }),
{
    lemma_optional_guard_count(c, scope, parts);
}

} // verus!
