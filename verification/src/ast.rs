//! The intermediate representation that the generator consumes.
//!
//! The parser has already resolved operator precedence into flat token
//! sequences and optional-chaining sugar into explicit marker tokens, so an
//! [`Expression`] is simply an ordered sequence of [`Token`]s whose
//! concatenation order is significant.

use vstd::prelude::*;

verus! {

/// How a `continue` statement is lowered: with the target runtime's native
/// keyword, or as a jump to a label named `continue`.
#[derive(Clone, Copy)]
pub enum ContinueMode {
    Native,
    Label,
}

/// Immutable configuration, borrowed for the whole compilation.
#[derive(Clone, Copy)]
pub struct Options {
    /// Interleave every emitted statement with debug bookkeeping that maps a
    /// runtime error back to a source line.
    pub debug_instrumentation: bool,
    /// Lower non-local declarations to explicit raw-global-set calls, which
    /// bypass any metamethods installed on the global table.
    pub raw_global_assignment: bool,
    /// Chosen lowering for loop-continuation statements.
    pub continue_strategy: ContinueMode,
}

/// Compound-assignment operators. `Define` is a plain assignment;
/// `DefineAnd` and `DefineOr` lower to `target and value` / `target or
/// value`; the rest expand `op=` into the explicit binary expression
/// `target op value`.
#[derive(Clone, Copy)]
pub enum AssignOp {
    Define,
    DefineAnd,
    DefineOr,
    Add,
    Sub,
    Mul,
    Div,
    Pow,
    Concat,
    Mod,
}

/// An ordered sequence of tokens; a statement list or a value expression,
/// depending on context.
pub type Expression = Vec<Token>;

/// A lexical scope: its recorded start and end source lines plus the
/// statement sequence it owns. The sequence may be empty; the scope still
/// emits its opening and closing text.
pub struct CodeBlock {
    pub start_line: usize,
    pub end_line: usize,
    pub statements: Expression,
}

/// The default value of a function parameter, with the source line it came
/// from.
pub struct ArgDefault {
    pub value: Expression,
    pub line: usize,
}

/// One function parameter: its name and, optionally, a default value that is
/// assigned when the parameter arrives absent.
pub struct FunctionArg {
    pub name: String,
    pub default: Option<ArgDefault>,
}

/// The ordered parameter list of a function or lambda.
pub type FunctionArgs = Vec<FunctionArg>;

/// One entry of a table constructor: `key = value` when keyed, a bare value
/// otherwise.
pub struct TableField {
    pub key: Option<Expression>,
    pub value: Expression,
    pub line: usize,
}

/// One metamethod entry of a table constructor.
pub struct MetaField {
    pub name: String,
    pub value: Expression,
    pub line: usize,
}

/// One branch of a match block: the values the subject is compared against,
/// statements that run once control reaches the branch's position in the
/// chain, an optional extra boolean guard, and the branch body. A branch
/// with no values and no guard is the catch-all default.
pub struct MatchBranch {
    pub match_values: Vec<Expression>,
    pub pre_statements: Expression,
    pub extra_guard: Option<Expression>,
    pub body: CodeBlock,
}

/// One tagged element of the intermediate representation. One set of
/// variants is legal at statement level, one at expression level, and a few
/// (literals, identifiers, grouped expressions) are accepted in both
/// contexts; the generator rejects a variant found in a position where it
/// cannot legally occur.
pub enum Token {
    /// A raw target-syntax fragment, copied through verbatim.
    Literal(String),
    /// Optional field access marker `?.` inside an identifier chain.
    OptionalField,
    /// Optional method-call-colon marker `?::` inside an identifier chain.
    OptionalMethod,
    /// Optional bracket-index marker `?[` inside an identifier chain; the
    /// bracket expression follows as the next token, a [`Token::Grouped`].
    OptionalIndex,
    /// Binds names to values. The two lists need not be of equal length;
    /// names without a value lower to a null literal.
    Declaration { local: bool, names: Vec<String>, values: Vec<Expression>, line: usize },
    /// Assignment, plain or compound.
    CompoundAssign {
        operator: AssignOp,
        targets: Vec<Expression>,
        values: Vec<Expression>,
        line: usize,
    },
    /// A named function declaration.
    FunctionDecl { local: bool, name: Expression, parameters: FunctionArgs, body: CodeBlock },
    /// An `if` statement. `else_branch` is either another `Conditional`
    /// (an `elseif`) or a bare [`Token::Block`] (the final `else`),
    /// recursively.
    Conditional { condition: Expression, body: CodeBlock, else_branch: Option<Box<Token>> },
    /// Pattern-match-style branching, lowered to a nested conditional chain
    /// over a synthetic local holding the subject value.
    MatchBlock {
        subject_name: String,
        subject_value: Expression,
        branches: Vec<MatchBranch>,
        line: usize,
    },
    WhileLoop { condition: Expression, body: CodeBlock, line: usize },
    /// A loop that runs its body before testing the condition.
    RepeatLoop { condition: Expression, body: CodeBlock, line: usize },
    NumericForLoop {
        iterator: String,
        start: Expression,
        stop: Expression,
        step: Expression,
        body: CodeBlock,
        line: usize,
    },
    GenericForLoop { iterators: Vec<String>, iterable: Expression, body: CodeBlock, line: usize },
    /// An error-handling block, lowered to a protected-call idiom.
    TryCatch {
        protected_body: CodeBlock,
        error_name: Option<String>,
        recovery_body: Option<CodeBlock>,
    },
    /// A chain of literals, calls, and bracket or optional-access markers.
    Identifier { parts: Expression, line: usize },
    TableLiteral {
        fields: Vec<TableField>,
        metamethods: Vec<MetaField>,
        explicit_metatable: Option<Expression>,
    },
    /// An anonymous function literal.
    Lambda { parameters: FunctionArgs, body: CodeBlock },
    /// A parenthesized, comma-joined call argument list.
    Call(Vec<Expression>),
    /// A parenthesized sub-expression.
    Grouped(Expression),
    /// A bare block statement.
    Block(CodeBlock),
    Return(Option<Vec<Expression>>),
    Continue,
    Break,
}

} // verus!
