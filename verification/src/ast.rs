//! The syntax tree and the recursive-descent parser that builds one tree per
//! function from its token list. What tree each production reads from which
//! tokens is stated by the `parses_...` relations, and every parser function
//! is proved to return a tree related to exactly the tokens it consumed.
//!
//! Two normalizations happen while parsing: `a > b` and `a >= b` become
//! `Lt` / `Le` nodes with the operands swapped, so the tree never carries a
//! `Gt` or `Ge` node, and unary `-E` becomes `Sub(0, E)`.

use vstd::prelude::*;

use crate::error::{invalid_token_exit, CompileError};
use crate::tokenizer::{
    BracesKind, OperationKind, ParenthesesKind, ProgramText, Token, TokenKind, TokenList,
};

verus! {

/// A primary expression: a decimal literal, or a local variable carried as
/// its byte offset from the frame base.
#[derive(Debug, PartialEq, Eq, Structural, Clone, Copy)]
pub enum PrimaryNodeKind {
    Number(i32),
    LocalVariable(usize),
}

/// What a tree node is, with the payloads that identify an operation or a
/// primary expression.
#[derive(Debug, PartialEq, Eq, Structural, Clone, Copy)]
pub enum ASTNodeKind {
    Operation(OperationKind),
    Primary(PrimaryNodeKind),
    Assign,
    Return,
    If,
    IfElse,
    While,
    For,
    MultStmt,
    FunctionCall,
    Reference,
    Dereference,
}

/// A node of the syntax tree: one variant per construct, so that each
/// construct carries exactly the children it has. `Assign`, `Reference` and
/// `Dereference` carry the character position of their `=`, `&` or `*` for
/// the structural checks made during code generation.
#[derive(Debug)]
pub enum ASTNode {
    Primary(PrimaryNodeKind),
    Operation(OperationKind, Box<ASTNode>, Box<ASTNode>),
    Assign(usize, Box<ASTNode>, Box<ASTNode>),
    Return(Box<ASTNode>),
    If(Box<ASTNode>, Box<ASTNode>),
    IfElse(Box<ASTNode>, Box<ASTNode>, Box<ASTNode>),
    While(Box<ASTNode>, Box<ASTNode>),
    For(
        Option<Box<ASTNode>>,
        Option<Box<ASTNode>>,
        Option<Box<ASTNode>>,
        Box<ASTNode>,
    ),
    MultStmt(Vec<ASTNode>),
    FunctionCall(String, Vec<ASTNode>),
    Reference(usize, Box<ASTNode>),
    Dereference(usize, Box<ASTNode>),
}

impl ASTNode {
    /// The node's kind tag.
    pub open spec fn kind(&self) -> ASTNodeKind {
        match *self {
            ASTNode::Primary(p) => ASTNodeKind::Primary(p),
            ASTNode::Operation(op, _, _) => ASTNodeKind::Operation(op),
            ASTNode::Assign(_, _, _) => ASTNodeKind::Assign,
            ASTNode::Return(_) => ASTNodeKind::Return,
            ASTNode::If(_, _) => ASTNodeKind::If,
            ASTNode::IfElse(_, _, _) => ASTNodeKind::IfElse,
            ASTNode::While(_, _) => ASTNodeKind::While,
            ASTNode::For(_, _, _, _) => ASTNodeKind::For,
            ASTNode::MultStmt(_) => ASTNodeKind::MultStmt,
            ASTNode::FunctionCall(_, _) => ASTNodeKind::FunctionCall,
            ASTNode::Reference(_, _) => ASTNodeKind::Reference,
            ASTNode::Dereference(_, _) => ASTNodeKind::Dereference,
        }
    }

    pub fn node_kind(&self) -> (r: ASTNodeKind)
        ensures
            r == self.kind(),
    {
        match self {
            ASTNode::Primary(p) => ASTNodeKind::Primary(*p),
            ASTNode::Operation(op, _, _) => ASTNodeKind::Operation(*op),
            ASTNode::Assign(_, _, _) => ASTNodeKind::Assign,
            ASTNode::Return(_) => ASTNodeKind::Return,
            ASTNode::If(_, _) => ASTNodeKind::If,
            ASTNode::IfElse(_, _, _) => ASTNodeKind::IfElse,
            ASTNode::While(_, _) => ASTNodeKind::While,
            ASTNode::For(_, _, _, _) => ASTNodeKind::For,
            ASTNode::MultStmt(_) => ASTNodeKind::MultStmt,
            ASTNode::FunctionCall(_, _) => ASTNodeKind::FunctionCall,
            ASTNode::Reference(_, _) => ASTNodeKind::Reference,
            ASTNode::Dereference(_, _) => ASTNodeKind::Dereference,
        }
    }
}

/// No node of the tree carries the kind `Gt` or `Ge`: the parser encodes
/// those comparisons by swapping the operands and emitting `Lt` / `Le`.
pub open spec fn no_gt_ge(n: ASTNode) -> bool
    decreases n,
{
    match n {
        ASTNode::Primary(_) => true,
        ASTNode::Operation(op, l, r) => op != OperationKind::Gt && op != OperationKind::Ge
            && no_gt_ge(*l) && no_gt_ge(*r),
        ASTNode::Assign(_, l, r) => no_gt_ge(*l) && no_gt_ge(*r),
        ASTNode::Return(e) => no_gt_ge(*e),
        ASTNode::If(c, t) => no_gt_ge(*c) && no_gt_ge(*t),
        ASTNode::IfElse(c, t, e) => no_gt_ge(*c) && no_gt_ge(*t) && no_gt_ge(*e),
        ASTNode::While(c, b) => no_gt_ge(*c) && no_gt_ge(*b),
        ASTNode::For(init, cond, update, body) => no_gt_ge_opt(init) && no_gt_ge_opt(cond)
            && no_gt_ge_opt(update) && no_gt_ge(*body),
        ASTNode::MultStmt(stmts) => no_gt_ge_seq(stmts@),
        ASTNode::FunctionCall(_, args) => no_gt_ge_seq(args@),
        ASTNode::Reference(_, e) => no_gt_ge(*e),
        ASTNode::Dereference(_, e) => no_gt_ge(*e),
    }
}

pub open spec fn no_gt_ge_opt(n: Option<Box<ASTNode>>) -> bool
    decreases n,
{
    match n {
        Some(node) => no_gt_ge(*node),
        None => true,
    }
}

pub open spec fn no_gt_ge_seq(s: Seq<ASTNode>) -> bool
    decreases s,
{
    if s.len() == 0 {
        true
    } else {
        no_gt_ge(s[0]) && no_gt_ge_seq(s.drop_first())
    }
}

/// A token that is a complete primary expression by itself: a literal or a
/// variable (a definition stands for its fresh variable).
pub open spec fn leaf_token(k: TokenKind) -> bool {
    k is Number || k is LocalVariable || k is LocalVariableDefinition
}

/// The tree such a token parses to.
pub open spec fn leaf_node(k: TokenKind) -> ASTNode {
    match k {
        TokenKind::Number(n) => ASTNode::Primary(PrimaryNodeKind::Number(n)),
        TokenKind::LocalVariable(off) => ASTNode::Primary(PrimaryNodeKind::LocalVariable(off)),
        TokenKind::LocalVariableDefinition(off) => ASTNode::Primary(
            PrimaryNodeKind::LocalVariable(off),
        ),
        _ => ASTNode::Primary(PrimaryNodeKind::Number(0)),
    }
}

/// A token that makes a `*` `/` multiplicative step continue.
pub open spec fn mul_level_op(k: TokenKind) -> bool {
    k == TokenKind::Operation(OperationKind::Mul) || k == TokenKind::Operation(OperationKind::Div)
}

/// A token that makes an additive or multiplicative step continue.
pub open spec fn add_level_op(k: TokenKind) -> bool {
    mul_level_op(k) || k == TokenKind::Operation(OperationKind::Add) || k == TokenKind::Operation(
        OperationKind::Sub,
    )
}

/// A token that makes a relational, additive or multiplicative step
/// continue.
pub open spec fn relational_level_op(k: TokenKind) -> bool {
    add_level_op(k) || k == TokenKind::Operation(OperationKind::Lt) || k == TokenKind::Operation(
        OperationKind::Le,
    ) || k == TokenKind::Operation(OperationKind::Gt) || k == TokenKind::Operation(
        OperationKind::Ge,
    )
}

/// A token list whose head is a whole multiplicative expression by itself: a
/// leaf not followed by `*` or `/`.
pub open spec fn mul_leaf_input(ts: Seq<Token>) -> bool {
    ts.len() > 0 && leaf_token(ts[0].token_kind) && (ts.len() == 1 || !mul_level_op(
        ts[1].token_kind,
    ))
}

/// A token list whose head is a whole additive expression by itself: a leaf
/// not followed by an arithmetic operator.
pub open spec fn add_leaf_input(ts: Seq<Token>) -> bool {
    ts.len() > 0 && leaf_token(ts[0].token_kind) && (ts.len() == 1 || !add_level_op(
        ts[1].token_kind,
    ))
}

/// A token list opening with the comparison `a OP b` of two leaves, not
/// continued by another operator of relational level or below.
pub open spec fn comparison_leaf_input(ts: Seq<Token>, op: OperationKind) -> bool {
    &&& ts.len() >= 3
    &&& leaf_token(ts[0].token_kind)
    &&& ts[1].token_kind == TokenKind::Operation(op)
    &&& leaf_token(ts[2].token_kind)
    &&& (ts.len() == 3 || !relational_level_op(ts[3].token_kind))
}

/// A token that makes an equality step or anything below it continue.
pub open spec fn equality_level_op(k: TokenKind) -> bool {
    relational_level_op(k) || k == TokenKind::Operation(OperationKind::Eq) || k
        == TokenKind::Operation(OperationKind::Ne)
}

/// A token list whose head is a whole relational expression by itself.
pub open spec fn relational_leaf_input(ts: Seq<Token>) -> bool {
    ts.len() > 0 && leaf_token(ts[0].token_kind) && (ts.len() == 1 || !relational_level_op(
        ts[1].token_kind,
    ))
}

/// A token list whose head is a whole expression by itself: a leaf followed
/// by no operator at all.
pub open spec fn expr_leaf_input(ts: Seq<Token>) -> bool {
    ts.len() > 0 && leaf_token(ts[0].token_kind) && (ts.len() == 1 || !(equality_level_op(
        ts[1].token_kind,
    ) || ts[1].token_kind == TokenKind::Assign))
}

/// The parse relations: `parses_X(ts, n, rest)` holds when the grammar's
/// production X can read the tree `n` from the front of `ts`, leaving
/// exactly `rest`. Each relation decomposes the tree, so a node is tied to
/// the very tokens it came from: chains associate to the left, `>` and `>=`
/// derive `Lt`/`Le` nodes with the operands swapped relative to source
/// order, unary `-` derives `Sub(0, E)`, and `Assign`, `Reference` and
/// `Dereference` nodes record the position of the token that made them.
/// Each sequencing point has a named `..._step` form whose extra arguments
/// are the intermediate token sequences.
pub open spec fn parses_primary(ts: Seq<Token>, n: ASTNode, rest: Seq<Token>) -> bool
    decreases n, ts.len(), 0int,
{
    ||| (ts.len() > 0 && leaf_token(ts[0].token_kind) && n == leaf_node(ts[0].token_kind) && rest
        == ts.drop_first())
    ||| (ts.len() > 0 && ts[0].token_kind == TokenKind::Parentheses(
        ParenthesesKind::LeftParentheses,
    ) && (exists|mid: Seq<Token>|
        #[trigger] within(mid, ts) && paren_step(ts.drop_first(), n, mid, rest)))
    ||| (ts.len() >= 2 && (ts[0].token_kind matches TokenKind::FunctionCall(name) && (
    n matches ASTNode::FunctionCall(fname, args) && fname == name && args.len() <= 6
        && ts[1].token_kind == TokenKind::Parentheses(ParenthesesKind::LeftParentheses)
        && parses_args(ts.subrange(2, ts.len() as int), args@, rest))))
}

/// A parenthesized expression after its `(`: the inner tree, then `)`.
pub open spec fn paren_step(ts: Seq<Token>, n: ASTNode, mid: Seq<Token>, rest: Seq<Token>) -> bool
    decreases n, ts.len(), 9int,
{
    parses_expr(ts, n, mid) && mid.len() > 0 && mid[0].token_kind == TokenKind::Parentheses(
        ParenthesesKind::RightParentheses,
    ) && rest == mid.drop_first()
}

/// The remaining arguments of a call: each a full expression, separated by
/// commas, closed by `)`; a trailing comma before the `)` is allowed.
pub open spec fn parses_args(ts: Seq<Token>, args: Seq<ASTNode>, rest: Seq<Token>) -> bool
    decreases args, ts.len(), 1int,
{
    ||| (ts.len() > 0 && ts[0].token_kind == TokenKind::Parentheses(
        ParenthesesKind::RightParentheses,
    ) && args.len() == 0 && rest == ts.drop_first())
    ||| (args.len() > 0 && (exists|mid: Seq<Token>|
        #[trigger] within(mid, ts) && arg_step(ts, args, mid, rest)))
}

/// One argument and whatever follows it.
pub open spec fn arg_step(ts: Seq<Token>, args: Seq<ASTNode>, mid: Seq<Token>, rest: Seq<
    Token,
>) -> bool
    decreases args, ts.len(), 0int,
{
    args.len() > 0 && parses_expr(ts, args[0], mid) && parses_args_after(
        mid,
        args.drop_first(),
        rest,
    )
}

/// After one argument: either the closing `)`, or a comma and the rest.
pub open spec fn parses_args_after(ts: Seq<Token>, args: Seq<ASTNode>, rest: Seq<Token>) -> bool
    decreases args, ts.len(), 2int,
{
    ||| (ts.len() > 0 && ts[0].token_kind == TokenKind::Parentheses(
        ParenthesesKind::RightParentheses,
    ) && args.len() == 0 && rest == ts.drop_first())
    ||| (ts.len() > 0 && ts[0].token_kind == TokenKind::Comma && parses_args(
        ts.drop_first(),
        args,
        rest,
    ))
}

pub open spec fn parses_unary(ts: Seq<Token>, n: ASTNode, rest: Seq<Token>) -> bool
    decreases n, ts.len(), 1int,
{
    ||| parses_primary(ts, n, rest)
    ||| (ts.len() > 0 && ts[0].token_kind == TokenKind::Operation(OperationKind::Add)
        && parses_primary(ts.drop_first(), n, rest))
    ||| (ts.len() > 0 && ts[0].token_kind == TokenKind::Operation(OperationKind::Sub) && (
    n matches ASTNode::Operation(op, zero, operand) && op == OperationKind::Sub && *zero
        == ASTNode::Primary(PrimaryNodeKind::Number(0)) && parses_primary(
        ts.drop_first(),
        *operand,
        rest,
    )))
    ||| (ts.len() > 0 && ts[0].token_kind == TokenKind::Operation(OperationKind::Mul) && (
    n matches ASTNode::Dereference(pos, inner) && pos == ts[0].token_pos && parses_unary(
        ts.drop_first(),
        *inner,
        rest,
    )))
    ||| (ts.len() > 0 && ts[0].token_kind == TokenKind::Reference && (
    n matches ASTNode::Reference(pos, inner) && pos == ts[0].token_pos && parses_unary(
        ts.drop_first(),
        *inner,
        rest,
    )))
}

pub open spec fn parses_mul(ts: Seq<Token>, n: ASTNode, rest: Seq<Token>) -> bool
    decreases n, ts.len(), 2int,
{
    ||| parses_unary(ts, n, rest)
    ||| (exists|mid: Seq<Token>| #[trigger] within(mid, ts) && mul_step(ts, n, mid, rest))
}

/// Parsing never grows the token stream: every intermediate remainder is at
/// most as long as what parsing started from.
pub open spec fn within(mid: Seq<Token>, ts: Seq<Token>) -> bool {
    mid.len() <= ts.len()
}

/// A multiplicative chain extended once: the accumulated left tree, the
/// `*` or `/` at the head of `mid`, and one more unary operand.
pub open spec fn mul_step(ts: Seq<Token>, n: ASTNode, mid: Seq<Token>, rest: Seq<Token>) -> bool
    decreases n, ts.len(), 0int,
{
    n matches ASTNode::Operation(op, l, r) && (op == OperationKind::Mul || op
        == OperationKind::Div) && parses_mul(ts, *l, mid) && mid.len() > 0 && mid[0].token_kind
        == TokenKind::Operation(op) && parses_unary(mid.drop_first(), *r, rest)
}

pub open spec fn parses_add(ts: Seq<Token>, n: ASTNode, rest: Seq<Token>) -> bool
    decreases n, ts.len(), 3int,
{
    ||| parses_mul(ts, n, rest)
    ||| (exists|mid: Seq<Token>| #[trigger] within(mid, ts) && add_step(ts, n, mid, rest))
}

/// An additive chain extended once.
pub open spec fn add_step(ts: Seq<Token>, n: ASTNode, mid: Seq<Token>, rest: Seq<Token>) -> bool
    decreases n, ts.len(), 0int,
{
    n matches ASTNode::Operation(op, l, r) && (op == OperationKind::Add || op
        == OperationKind::Sub) && parses_add(ts, *l, mid) && mid.len() > 0 && mid[0].token_kind
        == TokenKind::Operation(op) && parses_mul(mid.drop_first(), *r, rest)
}

pub open spec fn parses_relational(ts: Seq<Token>, n: ASTNode, rest: Seq<Token>) -> bool
    decreases n, ts.len(), 4int,
{
    ||| parses_add(ts, n, rest)
    ||| (exists|mid: Seq<Token>|
        #[trigger] within(mid, ts) && relational_step(ts, n, mid, rest))
}

/// A relational chain extended once. A `<` or `<=` in the source keeps its
/// operands; a `>` or `>=` yields the same `Lt`/`Le` node with the earlier
/// operand on the right: the operands are swapped relative to source order.
pub open spec fn relational_step(ts: Seq<Token>, n: ASTNode, mid: Seq<Token>, rest: Seq<
    Token,
>) -> bool
    decreases n, ts.len(), 0int,
{
    n matches ASTNode::Operation(op, l, r) && (op == OperationKind::Lt || op == OperationKind::Le)
        && mid.len() > 0 && {
        ||| (mid[0].token_kind == TokenKind::Operation(op) && parses_relational(ts, *l, mid)
            && parses_add(mid.drop_first(), *r, rest))
        ||| (mid[0].token_kind == TokenKind::Operation(
            if op == OperationKind::Lt {
                OperationKind::Gt
            } else {
                OperationKind::Ge
            },
        ) && parses_relational(ts, *r, mid) && parses_add(mid.drop_first(), *l, rest))
    }
}

pub open spec fn parses_equality(ts: Seq<Token>, n: ASTNode, rest: Seq<Token>) -> bool
    decreases n, ts.len(), 5int,
{
    ||| parses_relational(ts, n, rest)
    ||| (exists|mid: Seq<Token>|
        #[trigger] within(mid, ts) && equality_step(ts, n, mid, rest))
}

/// An equality chain extended once.
pub open spec fn equality_step(ts: Seq<Token>, n: ASTNode, mid: Seq<Token>, rest: Seq<
    Token,
>) -> bool
    decreases n, ts.len(), 0int,
{
    n matches ASTNode::Operation(op, l, r) && (op == OperationKind::Eq || op == OperationKind::Ne)
        && parses_equality(ts, *l, mid) && mid.len() > 0 && mid[0].token_kind
        == TokenKind::Operation(op) && parses_relational(mid.drop_first(), *r, rest)
}

pub open spec fn parses_assign(ts: Seq<Token>, n: ASTNode, rest: Seq<Token>) -> bool
    decreases n, ts.len(), 6int,
{
    ||| parses_equality(ts, n, rest)
    ||| (exists|mid: Seq<Token>| #[trigger] within(mid, ts) && assign_step(ts, n, mid, rest))
}

/// An assignment: the target, the `=` whose position the node records, and
/// the assigned expression, which may itself be an assignment — assignment
/// is right-associative.
pub open spec fn assign_step(ts: Seq<Token>, n: ASTNode, mid: Seq<Token>, rest: Seq<
    Token,
>) -> bool
    decreases n, ts.len(), 0int,
{
    n matches ASTNode::Assign(pos, l, r) && parses_equality(ts, *l, mid) && mid.len() > 0
        && mid[0].token_kind == TokenKind::Assign && pos == mid[0].token_pos && parses_assign(
        mid.drop_first(),
        *r,
        rest,
    )
}

pub open spec fn parses_expr(ts: Seq<Token>, n: ASTNode, rest: Seq<Token>) -> bool
    decreases n, ts.len(), 7int,
{
    parses_assign(ts, n, rest)
}

pub open spec fn parses_stmt(ts: Seq<Token>, n: ASTNode, rest: Seq<Token>) -> bool
    decreases n, ts.len(), 12int,
{
    ||| (ts.len() > 0 && ts[0].token_kind == TokenKind::Return && (n matches ASTNode::Return(e)
        && (exists|mid: Seq<Token>|
        #[trigger] within(mid, ts) && return_step(ts.drop_first(), *e, mid, rest))))
    ||| (ts.len() > 0 && ts[0].token_kind == TokenKind::If && parses_if_tail(
        ts.drop_first(),
        n,
        rest,
    ))
    ||| (ts.len() > 0 && ts[0].token_kind == TokenKind::While && parses_while_tail(
        ts.drop_first(),
        n,
        rest,
    ))
    ||| (ts.len() > 0 && ts[0].token_kind == TokenKind::For && parses_for_tail(
        ts.drop_first(),
        n,
        rest,
    ))
    ||| (ts.len() > 0 && ts[0].token_kind == TokenKind::Braces(BracesKind::LeftBraces) && (
    n matches ASTNode::MultStmt(stmts) && parses_stmt_seq(ts.drop_first(), stmts@, rest)))
    ||| (exists|mid: Seq<Token>| #[trigger] within(mid, ts) && return_step(ts, n, mid, rest))
}

/// An expression closed by the `;` that ends its statement; also the shape
/// of what follows a `return`.
pub open spec fn return_step(ts: Seq<Token>, n: ASTNode, mid: Seq<Token>, rest: Seq<
    Token,
>) -> bool
    decreases n, ts.len(), 8int,
{
    parses_expr(ts, n, mid) && mid.len() > 0 && mid[0].token_kind == TokenKind::StatementEnd
        && rest == mid.drop_first()
}

/// The rest of an `if` statement after its `if` token: `( cond ) stmt`,
/// optionally followed by `else stmt`; a plain `If` node means no `else`
/// followed.
pub open spec fn parses_if_tail(ts: Seq<Token>, n: ASTNode, rest: Seq<Token>) -> bool
    decreases n, ts.len(), 11int,
{
    ||| (ts.len() > 0 && ts[0].token_kind == TokenKind::Parentheses(
        ParenthesesKind::LeftParentheses,
    ) && (n matches ASTNode::If(cond, then_branch) && (exists|mid: Seq<Token>|
        #[trigger] within(mid, ts) && condition_step(ts.drop_first(), *cond, mid) && parses_stmt(
            mid.drop_first(),
            *then_branch,
            rest,
        )) && !(rest.len() > 0 && rest[0].token_kind == TokenKind::Else)))
    ||| (ts.len() > 0 && ts[0].token_kind == TokenKind::Parentheses(
        ParenthesesKind::LeftParentheses,
    ) && (n matches ASTNode::IfElse(cond, then_branch, else_branch) && (exists|
        mid: Seq<Token>,
        mid2: Seq<Token>,
    |
        #![trigger within(mid, ts), within(mid2, ts)]
        within(mid, ts) && within(mid2, ts) && condition_step(ts.drop_first(), *cond, mid)
            && parses_stmt(mid.drop_first(), *then_branch, mid2) && mid2.len() > 0
            && mid2[0].token_kind == TokenKind::Else && parses_stmt(
            mid2.drop_first(),
            *else_branch,
            rest,
        ))))
}

/// A parenthesized condition's body: the expression, stopped at the `)`
/// still at the head of `mid`.
pub open spec fn condition_step(ts: Seq<Token>, n: ASTNode, mid: Seq<Token>) -> bool
    decreases n, ts.len(), 8int,
{
    parses_expr(ts, n, mid) && mid.len() > 0 && mid[0].token_kind == TokenKind::Parentheses(
        ParenthesesKind::RightParentheses,
    )
}

/// The rest of a `while` statement after its `while` token: `( cond ) stmt`.
pub open spec fn parses_while_tail(ts: Seq<Token>, n: ASTNode, rest: Seq<Token>) -> bool
    decreases n, ts.len(), 11int,
{
    ts.len() > 0 && ts[0].token_kind == TokenKind::Parentheses(ParenthesesKind::LeftParentheses)
        && (n matches ASTNode::While(cond, body) && (exists|mid: Seq<Token>|
        #[trigger] within(mid, ts) && condition_step(ts.drop_first(), *cond, mid) && parses_stmt(
            mid.drop_first(),
            *body,
            rest,
        )))
}

/// The rest of a `for` statement after its `for` token: `(`, the three
/// optional slots with their terminators, then the body.
pub open spec fn parses_for_tail(ts: Seq<Token>, n: ASTNode, rest: Seq<Token>) -> bool
    decreases n, ts.len(), 11int,
{
    ts.len() > 0 && ts[0].token_kind == TokenKind::Parentheses(ParenthesesKind::LeftParentheses)
        && (n matches ASTNode::For(init, cond, update, body) && (exists|
        mid: Seq<Token>,
        mid2: Seq<Token>,
        mid3: Seq<Token>,
    |
        #![trigger within(mid, ts), within(mid2, ts), within(mid3, ts)]
        within(mid, ts) && within(mid2, ts) && within(mid3, ts) && parses_for_slot(
            ts.drop_first(),
            init,
            TokenKind::StatementEnd,
            mid,
        ) && parses_for_slot(mid, cond, TokenKind::StatementEnd, mid2) && parses_for_slot(
            mid2,
            update,
            TokenKind::Parentheses(ParenthesesKind::RightParentheses),
            mid3,
        ) && parses_stmt(mid3, *body, rest)))
}

/// One optional slot of a `for` header: empty and just its terminator, or an
/// expression followed by the terminator.
pub open spec fn parses_for_slot(
    ts: Seq<Token>,
    slot: Option<Box<ASTNode>>,
    terminator: TokenKind,
    rest: Seq<Token>,
) -> bool
    decreases slot, ts.len(), 10int,
{
    ||| (slot is None && ts.len() > 0 && ts[0].token_kind == terminator && rest
        == ts.drop_first())
    ||| (slot matches Some(e) && (exists|mid: Seq<Token>|
        #[trigger] within(mid, ts) && slot_step(ts, *e, terminator, mid, rest)))
}

/// A filled `for` slot: its expression, then the slot's terminator.
pub open spec fn slot_step(
    ts: Seq<Token>,
    e: ASTNode,
    terminator: TokenKind,
    mid: Seq<Token>,
    rest: Seq<Token>,
) -> bool
    decreases e, ts.len(), 8int,
{
    parses_expr(ts, e, mid) && mid.len() > 0 && mid[0].token_kind == terminator && rest
        == mid.drop_first()
}

/// The statements of a compound, in order, closed by `}`.
pub open spec fn parses_stmt_seq(ts: Seq<Token>, stmts: Seq<ASTNode>, rest: Seq<Token>) -> bool
    decreases stmts, ts.len(), 13int,
{
    ||| (ts.len() > 0 && ts[0].token_kind == TokenKind::Braces(BracesKind::RightBraces)
        && stmts.len() == 0 && rest == ts.drop_first())
    ||| (stmts.len() > 0 && (exists|mid: Seq<Token>|
        #[trigger] within(mid, ts) && parses_stmt(ts, stmts[0], mid) && parses_stmt_seq(
            mid,
            stmts.drop_first(),
            rest,
        )))
}

/// The syntax tree of one statement; a whole function body is one compound
/// statement, so one `AST` covers a function.
#[derive(Debug)]
pub struct AST {
    pub root: Option<Box<ASTNode>>,
}

impl AST {
    /// Parses one statement from the head of the token list.
    pub fn new(token_list: &mut TokenList, program: &ProgramText) -> (r: Result<AST, CompileError>)
        requires
            program.text@.len() > 0,
        ensures
            final(token_list)@.len() <= old(token_list)@.len(),
            final(token_list).local_stack_size == old(token_list).local_stack_size,
            r matches Ok(ast) ==> (ast.root matches Some(root) && no_gt_ge(*root) && final(token_list)@.len() < old(token_list)@.len()),
            r matches Ok(ast) ==> (ast.root matches Some(root) && parses_stmt(
                old(token_list)@,
                *root,
                final(token_list)@,
            )),
    {
        let root = AST::stmt(token_list, program)?;
        Ok(AST { root: Some(root) })
    }

    /// stmt = "return" expr ";"
    ///      | "if" "(" expr ")" stmt ("else" stmt)?
    ///      | "while" "(" expr ")" stmt
    ///      | "for" "(" expr? ";" expr? ";" expr? ")" stmt
    ///      | "{" stmt* "}"
    ///      | expr ";"
    fn stmt(token_list: &mut TokenList, program: &ProgramText) -> (r: Result<
        Box<ASTNode>,
        CompileError,
    >)
        requires
            program.text@.len() > 0,
        ensures
            final(token_list)@.len() <= old(token_list)@.len(),
            final(token_list).local_stack_size == old(token_list).local_stack_size,
            r matches Ok(node) ==> no_gt_ge(*node) && final(token_list)@.len() < old(token_list)@.len(),
            (old(token_list).head_is(TokenKind::Return) && r is Ok) ==> (r matches Ok(node)
                && *node is Return),
            (old(token_list).head_is(TokenKind::If) && r is Ok) ==> (r matches Ok(node) && (*node
                is If || *node is IfElse)),
            (old(token_list).head_is(TokenKind::While) && r is Ok) ==> (r matches Ok(node) && *node
                is While),
            (old(token_list).head_is(TokenKind::For) && r is Ok) ==> (r matches Ok(node) && *node
                is For),
            (old(token_list).head_is(TokenKind::Braces(BracesKind::LeftBraces)) && r is Ok) ==> (
            r matches Ok(node) && *node is MultStmt),
            (old(token_list)@.len() >= 3 && old(token_list)@[0].token_kind == TokenKind::Return
                && leaf_token(old(token_list)@[1].token_kind) && old(token_list)@[2].token_kind
                == TokenKind::StatementEnd) ==> (r matches Ok(node) && (*node
                matches ASTNode::Return(value) && *value == leaf_node(
                old(token_list)@[1].token_kind,
            )) && final(token_list)@ == old(token_list)@.drop_first().drop_first().drop_first()),
            r matches Ok(node) ==> parses_stmt(old(token_list)@, *node, final(token_list)@),
        decreases token_list@.len(), 9int,
    {
        if token_list.consume_return() {
            let value = AST::expr(token_list, program)?;
            let ghost mid = token_list@;
            token_list.consume_statement_end(program)?;
            let node = Box::new(ASTNode::Return(value));
            proof {
                assert(within(mid, old(token_list)@));
                assert(return_step(old(token_list)@.drop_first(), *node->Return_0, mid, token_list@));
                assert(parses_stmt(old(token_list)@, *node, token_list@));
            }
            Ok(node)
        } else if token_list.consume_if() {
            AST::stmt_if(token_list, program)
        } else if token_list.consume_while() {
            AST::stmt_while(token_list, program)
        } else if token_list.consume_for() {
            AST::stmt_for(token_list, program)
        } else if token_list.comsume_braces(BracesKind::LeftBraces) {
            // A compound statement: `{ stmt* }`.
            let stmt_vec = AST::compound_statements(token_list, program)?;
            Ok(Box::new(ASTNode::MultStmt(stmt_vec)))
        } else {
            let value = AST::expr(token_list, program)?;
            let ghost mid = token_list@;
            token_list.consume_statement_end(program)?;
            proof {
                assert(within(mid, old(token_list)@));
                assert(return_step(old(token_list)@, *value, mid, token_list@));
                assert(parses_stmt(old(token_list)@, *value, token_list@));
            }
            Ok(value)
        }
    }

    /// The statements of a compound, after its `{`: statements until the
    /// matching `}`.
    fn compound_statements(token_list: &mut TokenList, program: &ProgramText) -> (r: Result<
        Vec<ASTNode>,
        CompileError,
    >)
        requires
            program.text@.len() > 0,
        ensures
            final(token_list)@.len() <= old(token_list)@.len(),
            final(token_list).local_stack_size == old(token_list).local_stack_size,
            r matches Ok(stmts) ==> no_gt_ge_seq(stmts@) && final(token_list)@.len() < old(token_list)@.len() && parses_stmt_seq(old(token_list)@, stmts@, final(token_list)@),
        decreases token_list@.len(), 11int,
    {
        let ghost ts0 = token_list@;
        if token_list.comsume_braces(BracesKind::RightBraces) {
            let stmts: Vec<ASTNode> = Vec::new();
            proof {
                assert(stmts@ =~= Seq::<ASTNode>::empty());
                assert(no_gt_ge_seq(stmts@));
                assert(parses_stmt_seq(ts0, stmts@, token_list@));
            }
            return Ok(stmts);
        }
        if token_list.is_empty() {
            return Err(invalid_token_exit("braces are not closed", token_list, program));
        }
        let stmt_node = AST::stmt(token_list, program)?;
        let ghost mid = token_list@;
        let mut stmts = AST::compound_statements(token_list, program)?;
        let ghost rest0 = stmts@;
        stmts.insert(0, *stmt_node);
        proof {
            reveal_with_fuel(no_gt_ge_seq, 2);
            assert(stmts@.drop_first() =~= rest0);
            assert(stmts@[0] == *stmt_node);
            assert(within(mid, ts0));
            assert(parses_stmt(ts0, stmts@[0], mid));
            assert(parses_stmt_seq(ts0, stmts@, token_list@));
            assert(no_gt_ge_seq(stmts@));
        }
        Ok(stmts)
    }

    /// The rest of an `if` statement, after its `if` token.
    fn stmt_if(token_list: &mut TokenList, program: &ProgramText) -> (r: Result<
        Box<ASTNode>,
        CompileError,
    >)
        requires
            program.text@.len() > 0,
        ensures
            final(token_list)@.len() <= old(token_list)@.len(),
            final(token_list).local_stack_size == old(token_list).local_stack_size,
            r matches Ok(node) ==> no_gt_ge(*node) && final(token_list)@.len() < old(token_list)@.len(),
            r matches Ok(node) ==> (*node is If || *node is IfElse),
            r matches Ok(node) ==> parses_if_tail(old(token_list)@, *node, final(token_list)@),
        decreases token_list@.len(), 9int,
    {
        if !token_list.comsume_parentheses(ParenthesesKind::LeftParentheses) {
            return Err(invalid_token_exit("if condition must start with (", token_list, program));
        }
        let condition = AST::expr(token_list, program)?;
        let ghost mid = token_list@;
        if !token_list.comsume_parentheses(ParenthesesKind::RightParentheses) {
            return Err(invalid_token_exit("parenthesis is not closed", token_list, program));
        }
        let then_branch = AST::stmt(token_list, program)?;
        let ghost mid2 = token_list@;
        if token_list.consume_else() {
            let else_branch = AST::stmt_else(token_list, program)?;
            let node = Box::new(ASTNode::IfElse(condition, then_branch, else_branch));
            proof {
                assert(within(mid, old(token_list)@));
                assert(within(mid2, old(token_list)@));
                assert(condition_step(old(token_list)@.drop_first(), *node->IfElse_0, mid));
                assert(parses_stmt(mid.drop_first(), *node->IfElse_1, mid2));
                assert(parses_stmt(mid2.drop_first(), *node->IfElse_2, token_list@));
                assert(parses_if_tail(old(token_list)@, *node, token_list@));
            }
            Ok(node)
        } else {
            let node = Box::new(ASTNode::If(condition, then_branch));
            proof {
                assert(within(mid, old(token_list)@));
                assert(condition_step(old(token_list)@.drop_first(), *node->If_0, mid));
                assert(parses_stmt(mid.drop_first(), *node->If_1, token_list@));
                assert(parses_if_tail(old(token_list)@, *node, token_list@));
            }
            Ok(node)
        }
    }

    /// The statement in an `else` branch.
    fn stmt_else(token_list: &mut TokenList, program: &ProgramText) -> (r: Result<
        Box<ASTNode>,
        CompileError,
    >)
        requires
            program.text@.len() > 0,
        ensures
            final(token_list)@.len() <= old(token_list)@.len(),
            final(token_list).local_stack_size == old(token_list).local_stack_size,
            r matches Ok(node) ==> no_gt_ge(*node) && final(token_list)@.len() < old(token_list)@.len(),
            r matches Ok(node) ==> parses_stmt(old(token_list)@, *node, final(token_list)@),
        decreases token_list@.len(), 10int,
    {
        AST::stmt(token_list, program)
    }

    /// The rest of a `while` statement, after its `while` token.
    fn stmt_while(token_list: &mut TokenList, program: &ProgramText) -> (r: Result<
        Box<ASTNode>,
        CompileError,
    >)
        requires
            program.text@.len() > 0,
        ensures
            final(token_list)@.len() <= old(token_list)@.len(),
            final(token_list).local_stack_size == old(token_list).local_stack_size,
            r matches Ok(node) ==> no_gt_ge(*node) && final(token_list)@.len() < old(token_list)@.len(),
            r matches Ok(node) ==> *node is While,
            r matches Ok(node) ==> parses_while_tail(old(token_list)@, *node, final(token_list)@),
        decreases token_list@.len(), 9int,
    {
        if !token_list.comsume_parentheses(ParenthesesKind::LeftParentheses) {
            return Err(
                invalid_token_exit("while condition must start with (", token_list, program),
            );
        }
        let condition = AST::expr(token_list, program)?;
        let ghost mid = token_list@;
        if !token_list.comsume_parentheses(ParenthesesKind::RightParentheses) {
            return Err(invalid_token_exit("parenthesis is not closed", token_list, program));
        }
        let body = AST::stmt(token_list, program)?;
        let node = Box::new(ASTNode::While(condition, body));
        proof {
            assert(within(mid, old(token_list)@));
            assert(condition_step(old(token_list)@.drop_first(), *node->While_0, mid));
            assert(parses_stmt(mid.drop_first(), *node->While_1, token_list@));
            assert(parses_while_tail(old(token_list)@, *node, token_list@));
        }
        Ok(node)
    }

    /// The rest of a `for` statement, after its `for` token: three optional
    /// slots (initializer, condition, update), then the body.
    fn stmt_for(token_list: &mut TokenList, program: &ProgramText) -> (r: Result<
        Box<ASTNode>,
        CompileError,
    >)
        requires
            program.text@.len() > 0,
        ensures
            final(token_list)@.len() <= old(token_list)@.len(),
            final(token_list).local_stack_size == old(token_list).local_stack_size,
            r matches Ok(node) ==> no_gt_ge(*node) && final(token_list)@.len() < old(token_list)@.len(),
            r matches Ok(node) ==> *node is For,
            (old(token_list)@.len() >= 4 && old(token_list)@[0].token_kind
                == TokenKind::Parentheses(ParenthesesKind::LeftParentheses) && old(token_list)@[1].token_kind == TokenKind::StatementEnd && old(token_list)@[2].token_kind
                == TokenKind::StatementEnd && old(token_list)@[3].token_kind
                == TokenKind::Parentheses(ParenthesesKind::RightParentheses) && r is Ok) ==> (
            r matches Ok(node) && *node matches ASTNode::For(init, cond, update, _) && init
                is None && cond is None && update is None),
            r matches Ok(node) ==> parses_for_tail(old(token_list)@, *node, final(token_list)@),
        decreases token_list@.len(), 9int,
    {
        if !token_list.comsume_parentheses(ParenthesesKind::LeftParentheses) {
            return Err(invalid_token_exit("for condition must start with (", token_list, program));
        }
        // The initializer slot.
        let ghost start1 = token_list@;
        let init = if token_list.is_statement_end() {
            token_list.pop_head();
            None
        } else {
            let node = AST::expr(token_list, program)?;
            let ghost mid = token_list@;
            if token_list.consume_statement_end(program).is_err() {
                return Err(
                    invalid_token_exit("for initializer must be expression", token_list, program),
                );
            }
            proof {
                assert(within(mid, start1));
                assert(slot_step(start1, *node, TokenKind::StatementEnd, mid, token_list@));
            }
            Some(node)
        };
        let ghost s1 = token_list@;
        proof {
            assert(parses_for_slot(start1, init, TokenKind::StatementEnd, s1));
        }
        // The condition slot.
        let cond = if token_list.is_statement_end() {
            token_list.pop_head();
            None
        } else {
            let node = AST::expr(token_list, program)?;
            let ghost mid = token_list@;
            if token_list.consume_statement_end(program).is_err() {
                return Err(
                    invalid_token_exit("for condition must be expression", token_list, program),
                );
            }
            proof {
                assert(within(mid, s1));
                assert(slot_step(s1, *node, TokenKind::StatementEnd, mid, token_list@));
            }
            Some(node)
        };
        let ghost s2 = token_list@;
        proof {
            assert(parses_for_slot(s1, cond, TokenKind::StatementEnd, s2));
        }
        // The update slot.
        let update = if token_list.is_parentheses(ParenthesesKind::RightParentheses) {
            token_list.pop_head();
            None
        } else {
            let node = AST::expr(token_list, program)?;
            let ghost mid = token_list@;
            if !token_list.comsume_parentheses(ParenthesesKind::RightParentheses) {
                return Err(
                    invalid_token_exit("for update must be expression", token_list, program),
                );
            }
            proof {
                assert(within(mid, s2));
                assert(slot_step(
                    s2,
                    *node,
                    TokenKind::Parentheses(ParenthesesKind::RightParentheses),
                    mid,
                    token_list@,
                ));
            }
            Some(node)
        };
        let ghost s3 = token_list@;
        proof {
            assert(parses_for_slot(
                s2,
                update,
                TokenKind::Parentheses(ParenthesesKind::RightParentheses),
                s3,
            ));
        }
        let body = AST::stmt(token_list, program)?;
        let node = Box::new(ASTNode::For(init, cond, update, body));
        proof {
            assert(no_gt_ge_opt(init));
            assert(no_gt_ge_opt(cond));
            assert(no_gt_ge_opt(update));
            assert(within(s1, old(token_list)@));
            assert(within(s2, old(token_list)@));
            assert(within(s3, old(token_list)@));
            assert(start1 == old(token_list)@.drop_first());
            assert(parses_stmt(s3, *node->For_3, token_list@));
            assert(parses_for_tail(old(token_list)@, *node, token_list@));
        }
        Ok(node)
    }

    /// expr = assign
    fn expr(token_list: &mut TokenList, program: &ProgramText) -> (r: Result<
        Box<ASTNode>,
        CompileError,
    >)
        requires
            program.text@.len() > 0,
        ensures
            final(token_list)@.len() <= old(token_list)@.len(),
            final(token_list).local_stack_size == old(token_list).local_stack_size,
            r matches Ok(node) ==> no_gt_ge(*node) && final(token_list)@.len() < old(token_list)@.len(),
            expr_leaf_input(old(token_list)@) ==> (r matches Ok(node) && *node == leaf_node(
                old(token_list)@[0].token_kind,
            ) && final(token_list)@ == old(token_list)@.drop_first()),
            r matches Ok(node) ==> parses_expr(old(token_list)@, *node, final(token_list)@),
        decreases token_list@.len(), 8int,
    {
        AST::assign(token_list, program)
    }

    /// assign = equality ("=" assign)?
    ///
    /// Right-associative; the `=` position is kept so that an assignment to
    /// a non-lvalue can be reported there during code generation.
    fn assign(token_list: &mut TokenList, program: &ProgramText) -> (r: Result<
        Box<ASTNode>,
        CompileError,
    >)
        requires
            program.text@.len() > 0,
        ensures
            final(token_list)@.len() <= old(token_list)@.len(),
            final(token_list).local_stack_size == old(token_list).local_stack_size,
            r matches Ok(node) ==> no_gt_ge(*node) && final(token_list)@.len() < old(token_list)@.len(),
            expr_leaf_input(old(token_list)@) ==> (r matches Ok(node) && *node == leaf_node(
                old(token_list)@[0].token_kind,
            ) && final(token_list)@ == old(token_list)@.drop_first()),
            r matches Ok(node) ==> parses_assign(old(token_list)@, *node, final(token_list)@),
        decreases token_list@.len(), 7int,
    {
        let left = AST::equality(token_list, program)?;
        if token_list.is_assign() {
            let ghost mid = token_list@;
            let assign_token = match token_list.pop_head() {
                Some(token) => token,
                None => vstd::pervasive::unreached(),
            };
            let right = AST::assign(token_list, program)?;
            let node = Box::new(ASTNode::Assign(assign_token.token_pos, left, right));
            proof {
                assert(within(mid, old(token_list)@));
                assert(assign_step(old(token_list)@, *node, mid, token_list@));
                assert(parses_assign(old(token_list)@, *node, token_list@));
            }
            Ok(node)
        } else {
            Ok(left)
        }
    }

    /// equality = relational (("==" | "!=") relational)*
    fn equality(token_list: &mut TokenList, program: &ProgramText) -> (r: Result<
        Box<ASTNode>,
        CompileError,
    >)
        requires
            program.text@.len() > 0,
        ensures
            final(token_list)@.len() <= old(token_list)@.len(),
            final(token_list).local_stack_size == old(token_list).local_stack_size,
            r matches Ok(node) ==> no_gt_ge(*node) && final(token_list)@.len() < old(token_list)@.len(),
            (old(token_list)@.len() > 0 && leaf_token(old(token_list)@[0].token_kind) && (old(token_list)@.len() == 1 || !equality_level_op(old(token_list)@[1].token_kind))) ==> (r matches Ok(node) && *node == leaf_node(old(token_list)@[0].token_kind) && final(token_list)@ == old(token_list)@.drop_first()),
            r matches Ok(node) ==> parses_equality(old(token_list)@, *node, final(token_list)@),
        decreases token_list@.len(), 6int,
    {
        let mut link = AST::relational(token_list, program)?;
        loop
            invariant
                program.text@.len() > 0,
                token_list@.len() < old(token_list)@.len(),
                token_list.local_stack_size == old(token_list).local_stack_size,
                no_gt_ge(*link),
                parses_equality(old(token_list)@, *link, token_list@),
                (old(token_list)@.len() > 0 && leaf_token(old(token_list)@[0].token_kind) && (old(token_list)@.len() == 1 || !equality_level_op(old(token_list)@[1].token_kind))) ==> (*link
                    == leaf_node(old(token_list)@[0].token_kind) && token_list@ == old(token_list)@.drop_first()),
            decreases token_list@.len(),
        {
            let ghost pre = token_list@;
            let ghost link0 = *link;
            if token_list.consume_operation(OperationKind::Eq) {
                let right = AST::relational(token_list, program)?;
                link = Box::new(ASTNode::Operation(OperationKind::Eq, link, right));
                proof {
                    lemma_chain_step_equality(old(token_list)@, link0, pre, OperationKind::Eq, *link, token_list@);
                }
            } else if token_list.consume_operation(OperationKind::Ne) {
                let right = AST::relational(token_list, program)?;
                link = Box::new(ASTNode::Operation(OperationKind::Ne, link, right));
                proof {
                    lemma_chain_step_equality(old(token_list)@, link0, pre, OperationKind::Ne, *link, token_list@);
                }
            } else {
                break ;
            }
        }
        Ok(link)
    }

    /// relational = add (("<" | "<=" | ">" | ">=") add)*
    ///
    /// `>` and `>=` are normalized away here: the already-parsed left side
    /// becomes the right operand of an `Lt` / `Le` node.
    fn relational(token_list: &mut TokenList, program: &ProgramText) -> (r: Result<
        Box<ASTNode>,
        CompileError,
    >)
        requires
            program.text@.len() > 0,
        ensures
            final(token_list)@.len() <= old(token_list)@.len(),
            final(token_list).local_stack_size == old(token_list).local_stack_size,
            r matches Ok(node) ==> no_gt_ge(*node) && final(token_list)@.len() < old(token_list)@.len(),
            relational_leaf_input(old(token_list)@) ==> (r matches Ok(node) && *node == leaf_node(
                old(token_list)@[0].token_kind,
            ) && final(token_list)@ == old(token_list)@.drop_first()),
            comparison_leaf_input(old(token_list)@, OperationKind::Gt) ==> (r matches Ok(node) && (
            *node matches ASTNode::Operation(op2, lhs, rhs) && op2 == OperationKind::Lt && *lhs
                == leaf_node(old(token_list)@[2].token_kind) && *rhs == leaf_node(
                old(token_list)@[0].token_kind,
            )) && final(token_list)@ == old(token_list)@.drop_first().drop_first().drop_first()),
            comparison_leaf_input(old(token_list)@, OperationKind::Ge) ==> (r matches Ok(node) && (
            *node matches ASTNode::Operation(op2, lhs, rhs) && op2 == OperationKind::Le && *lhs
                == leaf_node(old(token_list)@[2].token_kind) && *rhs == leaf_node(
                old(token_list)@[0].token_kind,
            )) && final(token_list)@ == old(token_list)@.drop_first().drop_first().drop_first()),
            r matches Ok(node) ==> parses_relational(old(token_list)@, *node, final(token_list)@),
        decreases token_list@.len(), 5int,
    {
        let mut link = AST::add(token_list, program)?;
        loop
            invariant
                program.text@.len() > 0,
                token_list@.len() < old(token_list)@.len(),
                token_list.local_stack_size == old(token_list).local_stack_size,
                no_gt_ge(*link),
                parses_relational(old(token_list)@, *link, token_list@),
                relational_leaf_input(old(token_list)@) ==> (*link == leaf_node(
                    old(token_list)@[0].token_kind,
                ) && token_list@ == old(token_list)@.drop_first()),
                comparison_leaf_input(old(token_list)@, OperationKind::Gt) ==> ((*link
                    == leaf_node(old(token_list)@[0].token_kind) && token_list@ == old(token_list)@.drop_first()) || ((*link matches ASTNode::Operation(op2, lhs, rhs) && op2
                    == OperationKind::Lt && *lhs == leaf_node(old(token_list)@[2].token_kind)
                    && *rhs == leaf_node(old(token_list)@[0].token_kind)) && token_list@ == old(token_list)@.drop_first().drop_first().drop_first())),
                comparison_leaf_input(old(token_list)@, OperationKind::Ge) ==> ((*link
                    == leaf_node(old(token_list)@[0].token_kind) && token_list@ == old(token_list)@.drop_first()) || ((*link matches ASTNode::Operation(op2, lhs, rhs) && op2
                    == OperationKind::Le && *lhs == leaf_node(old(token_list)@[2].token_kind)
                    && *rhs == leaf_node(old(token_list)@[0].token_kind)) && token_list@ == old(token_list)@.drop_first().drop_first().drop_first())),
            decreases token_list@.len(),
        {
            let ghost pre = token_list@;
            let ghost link0 = *link;
            if token_list.consume_operation(OperationKind::Gt) {
                let right = AST::add(token_list, program)?;
                link = normalize_comparison(OperationKind::Gt, link, right);
                proof {
                    lemma_chain_step_relational(old(token_list)@, link0, pre, OperationKind::Gt, *link, token_list@);
                }
            } else if token_list.consume_operation(OperationKind::Ge) {
                let right = AST::add(token_list, program)?;
                link = normalize_comparison(OperationKind::Ge, link, right);
                proof {
                    lemma_chain_step_relational(old(token_list)@, link0, pre, OperationKind::Ge, *link, token_list@);
                }
            } else if token_list.consume_operation(OperationKind::Lt) {
                let right = AST::add(token_list, program)?;
                link = normalize_comparison(OperationKind::Lt, link, right);
                proof {
                    lemma_chain_step_relational(old(token_list)@, link0, pre, OperationKind::Lt, *link, token_list@);
                }
            } else if token_list.consume_operation(OperationKind::Le) {
                let right = AST::add(token_list, program)?;
                link = normalize_comparison(OperationKind::Le, link, right);
                proof {
                    lemma_chain_step_relational(old(token_list)@, link0, pre, OperationKind::Le, *link, token_list@);
                }
            } else {
                return Ok(link);
            }
        }
    }

    /// add = mul (("+" | "-") mul)*
    fn add(token_list: &mut TokenList, program: &ProgramText) -> (r: Result<
        Box<ASTNode>,
        CompileError,
    >)
        requires
            program.text@.len() > 0,
        ensures
            final(token_list)@.len() <= old(token_list)@.len(),
            final(token_list).local_stack_size == old(token_list).local_stack_size,
            r matches Ok(node) ==> no_gt_ge(*node) && final(token_list)@.len() < old(token_list)@.len(),
            add_leaf_input(old(token_list)@) ==> (r matches Ok(node) && *node == leaf_node(
                old(token_list)@[0].token_kind,
            ) && final(token_list)@ == old(token_list)@.drop_first()),
            r matches Ok(node) ==> parses_add(old(token_list)@, *node, final(token_list)@),
        decreases token_list@.len(), 4int,
    {
        let mut link = AST::mul(token_list, program)?;
        loop
            invariant
                program.text@.len() > 0,
                token_list@.len() < old(token_list)@.len(),
                token_list.local_stack_size == old(token_list).local_stack_size,
                no_gt_ge(*link),
                parses_add(old(token_list)@, *link, token_list@),
                add_leaf_input(old(token_list)@) ==> (*link == leaf_node(
                    old(token_list)@[0].token_kind,
                ) && token_list@ == old(token_list)@.drop_first()),
            decreases token_list@.len(),
        {
            let ghost pre = token_list@;
            let ghost link0 = *link;
            if token_list.consume_operation(OperationKind::Add) {
                let right = AST::mul(token_list, program)?;
                link = Box::new(ASTNode::Operation(OperationKind::Add, link, right));
                proof {
                    lemma_chain_step_add(old(token_list)@, link0, pre, OperationKind::Add, *link, token_list@);
                }
            } else if token_list.consume_operation(OperationKind::Sub) {
                let right = AST::mul(token_list, program)?;
                link = Box::new(ASTNode::Operation(OperationKind::Sub, link, right));
                proof {
                    lemma_chain_step_add(old(token_list)@, link0, pre, OperationKind::Sub, *link, token_list@);
                }
            } else {
                break ;
            }
        }
        Ok(link)
    }

    /// mul = unary (("*" | "/") unary)*
    fn mul(token_list: &mut TokenList, program: &ProgramText) -> (r: Result<
        Box<ASTNode>,
        CompileError,
    >)
        requires
            program.text@.len() > 0,
        ensures
            final(token_list)@.len() <= old(token_list)@.len(),
            final(token_list).local_stack_size == old(token_list).local_stack_size,
            r matches Ok(node) ==> no_gt_ge(*node) && final(token_list)@.len() < old(token_list)@.len(),
            mul_leaf_input(old(token_list)@) ==> (r matches Ok(node) && *node == leaf_node(
                old(token_list)@[0].token_kind,
            ) && final(token_list)@ == old(token_list)@.drop_first()),
            r matches Ok(node) ==> parses_mul(old(token_list)@, *node, final(token_list)@),
        decreases token_list@.len(), 3int,
    {
        let mut link = AST::urany(token_list, program)?;
        loop
            invariant
                program.text@.len() > 0,
                token_list@.len() < old(token_list)@.len(),
                token_list.local_stack_size == old(token_list).local_stack_size,
                no_gt_ge(*link),
                parses_mul(old(token_list)@, *link, token_list@),
                mul_leaf_input(old(token_list)@) ==> (*link == leaf_node(
                    old(token_list)@[0].token_kind,
                ) && token_list@ == old(token_list)@.drop_first()),
            decreases token_list@.len(),
        {
            let ghost pre = token_list@;
            let ghost link0 = *link;
            if token_list.consume_operation(OperationKind::Mul) {
                let right = AST::urany(token_list, program)?;
                link = Box::new(ASTNode::Operation(OperationKind::Mul, link, right));
                proof {
                    lemma_chain_step_mul(old(token_list)@, link0, pre, OperationKind::Mul, *link, token_list@);
                }
            } else if token_list.consume_operation(OperationKind::Div) {
                let right = AST::urany(token_list, program)?;
                link = Box::new(ASTNode::Operation(OperationKind::Div, link, right));
                proof {
                    lemma_chain_step_mul(old(token_list)@, link0, pre, OperationKind::Div, *link, token_list@);
                }
            } else {
                break ;
            }
        }
        Ok(link)
    }

    /// unary = "+" primary | "-" primary | "*" unary | "&" unary | primary
    ///
    /// Unary minus is lowered here: `-E` becomes the tree `Sub(0, E)`.
    fn urany(token_list: &mut TokenList, program: &ProgramText) -> (r: Result<
        Box<ASTNode>,
        CompileError,
    >)
        requires
            program.text@.len() > 0,
        ensures
            final(token_list)@.len() <= old(token_list)@.len(),
            final(token_list).local_stack_size == old(token_list).local_stack_size,
            r matches Ok(node) ==> no_gt_ge(*node) && final(token_list)@.len() < old(token_list)@.len(),
            (old(token_list).head_is(TokenKind::Operation(OperationKind::Sub)) && r is Ok) ==> (
            r matches Ok(node) && *node matches ASTNode::Operation(op, zero, _) && op
                == OperationKind::Sub && *zero == ASTNode::Primary(PrimaryNodeKind::Number(0))),
            (old(token_list)@.len() >= 2 && old(token_list)@[0].token_kind == TokenKind::Operation(
                OperationKind::Sub,
            ) && leaf_token(old(token_list)@[1].token_kind)) ==> (r matches Ok(node) && (*node
                matches ASTNode::Operation(op, zero, operand) && op == OperationKind::Sub && *zero
                == ASTNode::Primary(PrimaryNodeKind::Number(0)) && *operand == leaf_node(old(token_list)@[1].token_kind)) && final(token_list)@ == old(token_list)@.drop_first().drop_first()),
            (old(token_list)@.len() > 0 && leaf_token(old(token_list)@[0].token_kind)) ==> (
            r matches Ok(node) && *node == leaf_node(old(token_list)@[0].token_kind) && final(token_list)@ == old(token_list)@.drop_first()),
            r matches Ok(node) ==> parses_unary(old(token_list)@, *node, final(token_list)@),
        decreases token_list@.len(), 2int,
    {
        if token_list.consume_operation(OperationKind::Add) {
            AST::primary(token_list, program)
        } else if token_list.consume_operation(OperationKind::Sub) {
            let zero = Box::new(ASTNode::Primary(PrimaryNodeKind::Number(0)));
            let operand = AST::primary(token_list, program)?;
            let node = Box::new(ASTNode::Operation(OperationKind::Sub, zero, operand));
            proof {
                assert(no_gt_ge(ASTNode::Primary(PrimaryNodeKind::Number(0))));
                assert(no_gt_ge(*node));
            }
            Ok(node)
        } else if token_list.is_operation(OperationKind::Mul) {
            // A dereference; keep the `*` position for the lvalue check.
            let token = match token_list.pop_head() {
                Some(token) => token,
                None => vstd::pervasive::unreached(),
            };
            let operand = AST::urany(token_list, program)?;
            Ok(Box::new(ASTNode::Dereference(token.token_pos, operand)))
        } else if token_list.is_reference() {
            // An address-of; keep the `&` position for the operand check.
            let token = match token_list.pop_head() {
                Some(token) => token,
                None => vstd::pervasive::unreached(),
            };
            let operand = AST::urany(token_list, program)?;
            Ok(Box::new(ASTNode::Reference(token.token_pos, operand)))
        } else {
            AST::primary(token_list, program)
        }
    }

    /// primary = number | variable | ident "(" (expr ("," expr)*)? ")"
    ///         | "(" expr ")"
    ///
    /// A function call takes at most six arguments.
    fn primary(token_list: &mut TokenList, program: &ProgramText) -> (r: Result<
        Box<ASTNode>,
        CompileError,
    >)
        requires
            program.text@.len() > 0,
        ensures
            final(token_list)@.len() <= old(token_list)@.len(),
            final(token_list).local_stack_size == old(token_list).local_stack_size,
            r matches Ok(node) ==> no_gt_ge(*node) && final(token_list)@.len() < old(token_list)@.len(),
            (old(token_list)@.len() > 0 && leaf_token(old(token_list)@[0].token_kind)) ==> (
            r matches Ok(node) && *node == leaf_node(old(token_list)@[0].token_kind) && final(token_list)@ == old(token_list)@.drop_first()),
            r matches Ok(node) ==> parses_primary(old(token_list)@, *node, final(token_list)@),
        decreases token_list@.len(), 1int,
    {
        if token_list.comsume_parentheses(ParenthesesKind::LeftParentheses) {
            let node = AST::expr(token_list, program)?;
            let ghost mid = token_list@;
            if !token_list.comsume_parentheses(ParenthesesKind::RightParentheses) {
                return Err(invalid_token_exit("parenthesis is not closed", token_list, program));
            }
            proof {
                assert(within(mid, old(token_list)@));
                assert(paren_step(old(token_list)@.drop_first(), *node, mid, token_list@));
                assert(parses_primary(old(token_list)@, *node, token_list@));
            }
            return Ok(node);
        }
        if let Some(function_name) = token_list.consume_functioncall() {
            // The lexer emits a function-call token only when a `(` follows.
            if !token_list.comsume_parentheses(ParenthesesKind::LeftParentheses) {
                return Err(invalid_token_exit("function call requires (", token_list, program));
            }
            proof {
                assert(token_list@ =~= old(token_list)@.subrange(2, old(token_list)@.len() as int));
            }
            let args_vec = AST::call_arguments(token_list, program, 6)?;
            return Ok(Box::new(ASTNode::FunctionCall(function_name, args_vec)));
        }
        let primary_kind = token_list.expect_primary(program)?;
        Ok(Box::new(ASTNode::Primary(primary_kind)))
    }

    /// The arguments of a call, after its `(`: full expressions separated by
    /// commas, closed by `)`, at most `slots` of them.
    fn call_arguments(token_list: &mut TokenList, program: &ProgramText, slots: usize) -> (r:
        Result<Vec<ASTNode>, CompileError>)
        requires
            program.text@.len() > 0,
        ensures
            final(token_list)@.len() <= old(token_list)@.len(),
            final(token_list).local_stack_size == old(token_list).local_stack_size,
            r matches Ok(args) ==> no_gt_ge_seq(args@) && args@.len() <= slots && final(token_list)@.len() < old(token_list)@.len() && parses_args(old(token_list)@, args@, final(token_list)@),
        decreases token_list@.len(), 9int,
    {
        let ghost ts0 = token_list@;
        if token_list.comsume_parentheses(ParenthesesKind::RightParentheses) {
            let args: Vec<ASTNode> = Vec::new();
            proof {
                assert(args@ =~= Seq::<ASTNode>::empty());
                assert(no_gt_ge_seq(args@));
                assert(parses_args(ts0, args@, token_list@));
            }
            return Ok(args);
        }
        if token_list.is_empty() {
            return Err(invalid_token_exit("function call is not closed", token_list, program));
        }
        if slots == 0 {
            return Err(
                invalid_token_exit("cannot take more than six arguments", token_list, program),
            );
        }
        let arg = AST::expr(token_list, program)?;
        let ghost mid = token_list@;
        if token_list.consume_commma() {
            let mut args = AST::call_arguments(token_list, program, slots - 1)?;
            let ghost rest0 = args@;
            args.insert(0, *arg);
            proof {
                reveal_with_fuel(no_gt_ge_seq, 2);
                assert(args@.drop_first() =~= rest0);
                assert(args@[0] == *arg);
                assert(within(mid, ts0));
                assert(parses_args_after(mid, args@.drop_first(), token_list@));
                assert(arg_step(ts0, args@, mid, token_list@));
                assert(parses_args(ts0, args@, token_list@));
                assert(no_gt_ge_seq(args@));
            }
            return Ok(args);
        }
        let ghost mid2 = token_list@;
        if token_list.comsume_parentheses(ParenthesesKind::RightParentheses) {
            let mut args: Vec<ASTNode> = Vec::new();
            args.push(*arg);
            proof {
                reveal_with_fuel(no_gt_ge_seq, 2);
                assert(args@.drop_first() =~= Seq::<ASTNode>::empty());
                assert(args@[0] == *arg);
                assert(mid2 == mid);
                assert(within(mid, ts0));
                assert(parses_args_after(mid2, args@.drop_first(), token_list@));
                assert(arg_step(ts0, args@, mid, token_list@));
                assert(parses_args(ts0, args@, token_list@));
                assert(no_gt_ge_seq(args@));
            }
            return Ok(args);
        }
        Err(invalid_token_exit("function args must be separated by comma", token_list, program))
    }
}

/// What the code generator needs to know about one function besides its
/// body: its name, how many parameters it takes, and how many bytes its
/// locals occupy.
#[derive(Debug)]
pub struct FuntionInfo {
    pub function_name: String,
    pub args_count: usize,
    pub local_stack_size: usize,
}

/// One function, parsed: its body's tree and its frame description.
#[derive(Debug)]
pub struct FunctionAST {
    pub function_ast: AST,
    pub function_info: FuntionInfo,
}

/// What the parameter tokens from the head of `ts` parse to: the number of
/// parameters seen so far is `count`; on a well-formed list the final count
/// and the tokens after the closing `)` come back. Mirrors the header
/// pre-pass: definitions separated by commas, at most six, closed by `)`.
pub open spec fn spec_parse_params(ts: Seq<Token>, count: int) -> Option<(int, Seq<Token>)>
    decreases ts.len(),
{
    if ts.len() == 0 {
        None
    } else if ts[0].token_kind == TokenKind::Parentheses(ParenthesesKind::RightParentheses) {
        Some((count, ts.drop_first()))
    } else if count == 6 {
        None
    } else if !(ts[0].token_kind is LocalVariableDefinition) {
        None
    } else {
        let rest = ts.drop_first();
        if rest.len() > 0 && rest[0].token_kind == TokenKind::Comma {
            spec_parse_params(rest.drop_first(), count + 1)
        } else if rest.len() > 0 && rest[0].token_kind == TokenKind::Parentheses(
            ParenthesesKind::RightParentheses,
        ) {
            Some((count + 1, rest.drop_first()))
        } else {
            None
        }
    }
}

/// What a function's header tokens parse to: the function's name, its
/// parameter count, and the body tokens after the header — or nothing when
/// the header is malformed.
pub open spec fn spec_parse_header(ts: Seq<Token>) -> Option<(String, int, Seq<Token>)> {
    if ts.len() >= 2 && (ts[0].token_kind is FunctionDefinition) && ts[1].token_kind
        == TokenKind::Parentheses(ParenthesesKind::LeftParentheses) {
        match spec_parse_params(ts.subrange(2, ts.len() as int), 0) {
            Some((count, rest)) => Some((ts[0].token_kind->FunctionDefinition_0, count, rest)),
            None => None,
        }
    } else {
        None
    }
}

/// Consumes a function's header from its token list: the function-definition
/// token, then `(`, then up to six parameter definitions separated by
/// commas, then `)`. Exactly as `spec_parse_header` states it: on a
/// well-formed header the function's name is the head token's, the argument
/// count is the number of parameter tokens, the lexer's local stack size is
/// passed through, and exactly the header tokens are consumed; a malformed
/// header is an error.
pub fn pop_function_info(token_list: &mut TokenList, program: &ProgramText) -> (r: Result<
    FuntionInfo,
    CompileError,
>)
    requires
        program.text@.len() > 0,
    ensures
        final(token_list)@.len() <= old(token_list)@.len(),
        final(token_list).local_stack_size == old(token_list).local_stack_size,
        r matches Ok(info) ==> info.args_count <= 6 && info.local_stack_size == old(token_list).local_stack_size && final(token_list)@.len() < old(token_list)@.len(),
        match spec_parse_header(old(token_list)@) {
            Some((name, count, rest)) => (r matches Ok(info) && info.function_name == name
                && info.args_count == count && final(token_list)@ == rest),
            None => r is Err,
        },
{
    let ghost ts0 = token_list@;
    let function_name = match token_list.consume_function_definition() {
        Some(name) => name,
        None => {
            return Err(invalid_token_exit("invalid function definition", token_list, program));
        },
    };
    if !token_list.comsume_parentheses(ParenthesesKind::LeftParentheses) {
        return Err(invalid_token_exit("function definition requires (", token_list, program));
    }
    proof {
        assert(token_list@ =~= ts0.subrange(2, ts0.len() as int));
    }
    let ghost body0 = token_list@;
    let mut args_count: usize = 0;
    loop
        invariant
            program.text@.len() > 0,
            args_count <= 6,
            token_list@.len() < ts0.len(),
            ts0 == old(token_list)@,
            token_list.local_stack_size == old(token_list).local_stack_size,
            ts0.len() >= 2,
            ts0[0].token_kind is FunctionDefinition,
            function_name == ts0[0].token_kind->FunctionDefinition_0,
            ts0[1].token_kind == TokenKind::Parentheses(ParenthesesKind::LeftParentheses),
            body0 == ts0.subrange(2, ts0.len() as int),
            spec_parse_params(body0, 0) == spec_parse_params(token_list@, args_count as int),
        decreases token_list@.len(),
    {
        let ghost cur = token_list@;
        if token_list.comsume_parentheses(ParenthesesKind::RightParentheses) {
            proof {
                assert(spec_parse_params(cur, args_count as int) == Some(
                    (args_count as int, cur.drop_first()),
                ));
            }
            return Ok(
                FuntionInfo {
                    function_name,
                    args_count,
                    local_stack_size: token_list.local_stack_size,
                },
            );
        }
        if args_count == 6 {
            return Err(invalid_token_exit("too many arguments", token_list, program));
        }
        if token_list.expect_variable(program).is_err() {
            return Err(invalid_token_exit("expect parameter definition", token_list, program));
        }
        args_count = args_count + 1;
        if token_list.consume_commma() {
            proof {
                assert(token_list@ =~= cur.drop_first().drop_first());
            }
            continue ;
        }
        let ghost after_def = token_list@;
        if token_list.comsume_parentheses(ParenthesesKind::RightParentheses) {
            proof {
                assert(after_def =~= cur.drop_first());
                assert(spec_parse_params(cur, (args_count - 1) as int) == Some(
                    (args_count as int, after_def.drop_first()),
                ));
            }
            return Ok(
                FuntionInfo {
                    function_name,
                    args_count,
                    local_stack_size: token_list.local_stack_size,
                },
            );
        }
        return Err(invalid_token_exit("function parameter list is not correct", token_list, program));
    }
}

impl FunctionAST {
    fn new(token_list: &mut TokenList, program: &ProgramText) -> (r: Result<
        FunctionAST,
        CompileError,
    >)
        requires
            program.text@.len() > 0,
        ensures
            final(token_list).local_stack_size == old(token_list).local_stack_size,
            r matches Ok(fast) ==> fast.function_info.args_count <= 6
                && fast.function_info.local_stack_size == old(token_list).local_stack_size && (
            fast.function_ast.root matches Some(root) && no_gt_ge(*root)) && final(token_list)@.len()
                == 0,
            spec_parse_header(old(token_list)@) is None ==> r is Err,
            r matches Ok(fast) ==> (spec_parse_header(old(token_list)@) matches Some(
                (name, count, body_tokens),
            ) && fast.function_info.function_name == name && fast.function_info.args_count
                == count && (fast.function_ast.root matches Some(root) && parses_stmt(
                body_tokens,
                *root,
                Seq::empty(),
            ))),
    {
        let function_info = pop_function_info(token_list, program)?;
        let ghost body_tokens = token_list@;
        let function_ast = AST::new(token_list, program)?;
        // The body is one compound statement, so nothing may remain.
        if !token_list.is_empty() {
            return Err(
                invalid_token_exit("unexpected token after function body", token_list, program),
            );
        }
        proof {
            assert(token_list@ =~= Seq::<Token>::empty());
        }
        Ok(FunctionAST { function_ast, function_info })
    }

    /// Parses one whole function: its header, then its body.
    pub fn make_function_ast(token_list: &mut TokenList, program: &ProgramText) -> (r: Result<
        FunctionAST,
        CompileError,
    >)
        requires
            program.text@.len() > 0,
        ensures
            final(token_list).local_stack_size == old(token_list).local_stack_size,
            r matches Ok(fast) ==> fast.function_info.args_count <= 6
                && fast.function_info.local_stack_size == old(token_list).local_stack_size && (
            fast.function_ast.root matches Some(root) && no_gt_ge(*root)) && final(token_list)@.len()
                == 0,
            spec_parse_header(old(token_list)@) is None ==> r is Err,
            r matches Ok(fast) ==> (spec_parse_header(old(token_list)@) matches Some(
                (name, count, body_tokens),
            ) && fast.function_info.function_name == name && fast.function_info.args_count
                == count && (fast.function_ast.root matches Some(root) && parses_stmt(
                body_tokens,
                *root,
                Seq::empty(),
            ))),
    {
        FunctionAST::new(token_list, program)
    }
}

/// One step of the multiplicative chain: the accumulated left tree, the
/// operator token at the head of `pre`, and the next unary piece combine
/// into the new accumulated tree.
proof fn lemma_chain_step_mul(
    ts0: Seq<Token>,
    link0: ASTNode,
    pre: Seq<Token>,
    op: OperationKind,
    link1: ASTNode,
    rest: Seq<Token>,
)
    requires
        op == OperationKind::Mul || op == OperationKind::Div,
        parses_mul(ts0, link0, pre),
        pre.len() <= ts0.len(),
        pre.len() > 0,
        pre[0].token_kind == TokenKind::Operation(op),
        link1 matches ASTNode::Operation(op2, l, r) && op2 == op && *l == link0 && parses_unary(
            pre.drop_first(),
            *r,
            rest,
        ),
    ensures
        parses_mul(ts0, link1, rest),
{
    assert(within(pre, ts0));
    assert(mul_step(ts0, link1, pre, rest));
}

/// One step of the additive chain.
proof fn lemma_chain_step_add(
    ts0: Seq<Token>,
    link0: ASTNode,
    pre: Seq<Token>,
    op: OperationKind,
    link1: ASTNode,
    rest: Seq<Token>,
)
    requires
        op == OperationKind::Add || op == OperationKind::Sub,
        parses_add(ts0, link0, pre),
        pre.len() <= ts0.len(),
        pre.len() > 0,
        pre[0].token_kind == TokenKind::Operation(op),
        link1 matches ASTNode::Operation(op2, l, r) && op2 == op && *l == link0 && parses_mul(
            pre.drop_first(),
            *r,
            rest,
        ),
    ensures
        parses_add(ts0, link1, rest),
{
    assert(within(pre, ts0));
    assert(add_step(ts0, link1, pre, rest));
}

/// One step of the relational chain: the comparison read from the source is
/// `source_op`; the node carries `Lt` or `Le`, with the operands swapped
/// when the source operator was `>` or `>=`.
proof fn lemma_chain_step_relational(
    ts0: Seq<Token>,
    link0: ASTNode,
    pre: Seq<Token>,
    source_op: OperationKind,
    link1: ASTNode,
    rest: Seq<Token>,
)
    requires
        source_op == OperationKind::Gt || source_op == OperationKind::Ge || source_op
            == OperationKind::Lt || source_op == OperationKind::Le,
        parses_relational(ts0, link0, pre),
        pre.len() <= ts0.len(),
        pre.len() > 0,
        pre[0].token_kind == TokenKind::Operation(source_op),
        source_op == OperationKind::Gt ==> (link1 matches ASTNode::Operation(op2, l, r) && op2
            == OperationKind::Lt && *r == link0 && parses_add(pre.drop_first(), *l, rest)),
        source_op == OperationKind::Ge ==> (link1 matches ASTNode::Operation(op2, l, r) && op2
            == OperationKind::Le && *r == link0 && parses_add(pre.drop_first(), *l, rest)),
        source_op == OperationKind::Lt ==> (link1 matches ASTNode::Operation(op2, l, r) && op2
            == OperationKind::Lt && *l == link0 && parses_add(pre.drop_first(), *r, rest)),
        source_op == OperationKind::Le ==> (link1 matches ASTNode::Operation(op2, l, r) && op2
            == OperationKind::Le && *l == link0 && parses_add(pre.drop_first(), *r, rest)),
    ensures
        parses_relational(ts0, link1, rest),
{
    assert(within(pre, ts0));
    assert(relational_step(ts0, link1, pre, rest));
}

/// One step of the equality chain.
proof fn lemma_chain_step_equality(
    ts0: Seq<Token>,
    link0: ASTNode,
    pre: Seq<Token>,
    op: OperationKind,
    link1: ASTNode,
    rest: Seq<Token>,
)
    requires
        op == OperationKind::Eq || op == OperationKind::Ne,
        parses_equality(ts0, link0, pre),
        pre.len() <= ts0.len(),
        pre.len() > 0,
        pre[0].token_kind == TokenKind::Operation(op),
        link1 matches ASTNode::Operation(op2, l, r) && op2 == op && *l == link0
            && parses_relational(pre.drop_first(), *r, rest),
    ensures
        parses_equality(ts0, link1, rest),
{
    assert(within(pre, ts0));
    assert(equality_step(ts0, link1, pre, rest));
}

/// Builds the tree node for a comparison. `Lt` and `Le` keep their operands;
/// `Gt` and `Ge` become `Lt` / `Le` with the operands swapped, so no `Gt` or
/// `Ge` node is ever built.
fn normalize_comparison(op: OperationKind, left: Box<ASTNode>, right: Box<ASTNode>) -> (r: Box<
    ASTNode,
>)
    requires
        op == OperationKind::Gt || op == OperationKind::Ge || op == OperationKind::Lt || op
            == OperationKind::Le,
    ensures
        op == OperationKind::Gt ==> *r == ASTNode::Operation(OperationKind::Lt, right, left),
        op == OperationKind::Ge ==> *r == ASTNode::Operation(OperationKind::Le, right, left),
        op == OperationKind::Lt ==> *r == ASTNode::Operation(OperationKind::Lt, left, right),
        op == OperationKind::Le ==> *r == ASTNode::Operation(OperationKind::Le, left, right),
        no_gt_ge(*left) && no_gt_ge(*right) ==> no_gt_ge(*r),
{
    match op {
        OperationKind::Gt => Box::new(ASTNode::Operation(OperationKind::Lt, right, left)),
        OperationKind::Ge => Box::new(ASTNode::Operation(OperationKind::Le, right, left)),
        OperationKind::Lt => Box::new(ASTNode::Operation(OperationKind::Lt, left, right)),
        _ => Box::new(ASTNode::Operation(OperationKind::Le, left, right)),
    }
}

} // verus!
