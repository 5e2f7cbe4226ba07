use vstd::prelude::*;
use crate::expect::{error_tok, expect_token, expected_msg};
use crate::error::{fail, ErrView, ParseError};
use crate::token::{Lexeme, Token, TokenIter, TokenKind};
use crate::variable::{bind, declare, lookup, new_slot, reference, slot_of, str_eq, Env, Variable};

verus! {

/// Binary operators, arithmetic and comparison.
#[derive(Debug, PartialEq, Eq, Clone, Copy, Structural)]
pub enum OpKind {
    Add,
    Sub,
    Mul,
    Div,
    Eq,
    Ne,
    Lt,
    Gt,
    Le,
    Ge,
}

/// The syntax tree of one compilation unit. Each child is owned by its parent.
#[derive(Debug, PartialEq, Eq)]
pub enum Node {
    Sequence { first: Box<Node>, second: Box<Node> },
    Num { value: u64 },
    StringLiteral { value: String },
    Var { offset: u64 },
    Function { name: String, args: Vec<Node>, body: Box<Node> },
    Call { name: String, args: Vec<Node> },
    Syscall { name: String, args: Vec<Node> },
    Assign { lhs: Box<Node>, rhs: Box<Node> },
    BinaryOp { op: OpKind, lhs: Box<Node>, rhs: Box<Node> },
    Return { expr: Box<Node> },
    If { cond: Box<Node>, then_stmt: Box<Node>, else_stmt: Option<Box<Node>> },
    While { cond: Box<Node>, body: Box<Node> },
    For { init: Box<Node>, cond: Box<Node>, update: Box<Node>, body: Box<Node> },
    Deref { expr: Box<Node> },
    Addr { expr: Box<Node> },
    ArrayAssign { offset: u64, elements: Vec<Node> },
}

/// A syntax tree as a mathematical value: names are character sequences and
/// child lists are sequences.
pub enum Ast {
    Sequence(Box<Ast>, Box<Ast>),
    Num(u64),
    Str(Seq<char>),
    Var(u64),
    Function(Seq<char>, Seq<Ast>, Box<Ast>),
    Call(Seq<char>, Seq<Ast>),
    Syscall(Seq<char>, Seq<Ast>),
    Assign(Box<Ast>, Box<Ast>),
    Binary(OpKind, Box<Ast>, Box<Ast>),
    Return(Box<Ast>),
    If(Box<Ast>, Box<Ast>, Option<Box<Ast>>),
    While(Box<Ast>, Box<Ast>),
    For(Box<Ast>, Box<Ast>, Box<Ast>, Box<Ast>),
    Deref(Box<Ast>),
    Addr(Box<Ast>),
    ArrayAssign(u64, Seq<Ast>),
}

impl Node {
    pub open spec fn ast(&self) -> Ast
        decreases self,
    {
        match self {
            Node::Sequence { first, second } => Ast::Sequence(Box::new(first.ast()), Box::new(second.ast())),
            Node::Num { value } => Ast::Num(*value),
            Node::StringLiteral { value } => Ast::Str(value@),
            Node::Var { offset } => Ast::Var(*offset),
            Node::Function { name, args, body } => Ast::Function(
                name@,
                children(*args),
                Box::new(body.ast()),
            ),
            Node::Call { name, args } => Ast::Call(
                name@,
                children(*args),
            ),
            Node::Syscall { name, args } => Ast::Syscall(
                name@,
                children(*args),
            ),
            Node::Assign { lhs, rhs } => Ast::Assign(Box::new(lhs.ast()), Box::new(rhs.ast())),
            Node::BinaryOp { op, lhs, rhs } => Ast::Binary(
                *op,
                Box::new(lhs.ast()),
                Box::new(rhs.ast()),
            ),
            Node::Return { expr } => Ast::Return(Box::new(expr.ast())),
            Node::If { cond, then_stmt, else_stmt } => Ast::If(
                Box::new(cond.ast()),
                Box::new(then_stmt.ast()),
                match else_stmt {
                    Some(e) => Some(Box::new(e.ast())),
                    None => None,
                },
            ),
            Node::While { cond, body } => Ast::While(Box::new(cond.ast()), Box::new(body.ast())),
            Node::For { init, cond, update, body } => Ast::For(
                Box::new(init.ast()),
                Box::new(cond.ast()),
                Box::new(update.ast()),
                Box::new(body.ast()),
            ),
            Node::Deref { expr } => Ast::Deref(Box::new(expr.ast())),
            Node::Addr { expr } => Ast::Addr(Box::new(expr.ast())),
            Node::ArrayAssign { offset, elements } => Ast::ArrayAssign(
                *offset,
                children(*elements),
            ),
        }
    }
}

/// The trees of a list of nodes.
pub open spec fn children(v: Vec<Node>) -> Seq<Ast>
    decreases v,
{
    Seq::new(
        v.len() as nat,
        |i: int|
            if 0 <= i < v.len() {
                v[i].ast()
            } else {
                Ast::Num(0)
            },
    )
}

pub proof fn lemma_children_push(v1: Vec<Node>, v2: Vec<Node>, n: Node)
    requires
        v2@ == v1@.push(n),
    ensures
        children(v2) == children(v1).push(n.ast()),
{
    assert(children(v2) =~= children(v1).push(n.ast()));
}

pub proof fn lemma_children_pop(v1: Vec<Node>, v2: Vec<Node>)
    requires
        v1@.len() > 0,
        v2@ == v1@.drop_last(),
    ensures
        children(v2) == children(v1).drop_last(),
        v1@.last().ast() == children(v1).last(),
{
    assert(children(v2) =~= children(v1).drop_last());
}

/// Statements folded into a left-nested chain of `Sequence`; none stands for `Num(0)`.
pub open spec fn fold(s: Seq<Ast>) -> Ast
    decreases s.len(),
{
    if s.len() == 0 {
        Ast::Num(0)
    } else if s.len() == 1 {
        s[0]
    } else {
        Ast::Sequence(Box::new(fold(s.drop_last())), Box::new(s.last()))
    }
}

// ---------------------------------------------------------------------
// The token stream.

pub type Tk = (Lexeme, usize);

/// The result of parsing a phrase: its value, the tokens left and the
/// environment after; or the first error.
pub type Parsed<T> = Result<(T, Seq<Tk>, Env), ErrView>;

pub open spec fn is_at(ts: Seq<Tk>, k: TokenKind) -> bool {
    ts.len() > 0 && ts[0].0 == Lexeme::Fixed(k)
}

pub open spec fn pos_of(ts: Seq<Tk>) -> usize {
    if ts.len() > 0 {
        ts[0].1
    } else {
        0
    }
}

/// Consumes a token of kind `k`, or fails at the token that stands there.
pub open spec fn expect(ts: Seq<Tk>, k: TokenKind) -> Result<Seq<Tk>, ErrView> {
    if is_at(ts, k) {
        Ok(ts.drop_first())
    } else {
        Err((expected_msg(k), pos_of(ts)))
    }
}

/// What a phrase that consumed no token where one was owed yields. The
/// parse functions never reach it; it keeps their definitions total.
pub open spec fn stalled<T>(ts: Seq<Tk>) -> Parsed<T> {
    Err(("parser made no progress"@, pos_of(ts)))
}

// ---------------------------------------------------------------------
// The grammar as spec functions. Each takes the tokens left and the
// environment, and yields the phrase, the tokens after it and the
// environment after it. The second measure orders phrases that start at
// the same token.

/// The operator that binds at `level` (4: equality, 3: relational,
/// 2: additive, 1: multiplicative) for a token.
pub open spec fn level_op(level: nat, l: Lexeme) -> Option<OpKind> {
    if level == 4 && l == Lexeme::Fixed(TokenKind::EqEq) {
        Some(OpKind::Eq)
    } else if level == 4 && l == Lexeme::Fixed(TokenKind::Ne) {
        Some(OpKind::Ne)
    } else if level == 3 && l == Lexeme::Fixed(TokenKind::Lt) {
        Some(OpKind::Lt)
    } else if level == 3 && l == Lexeme::Fixed(TokenKind::Gt) {
        Some(OpKind::Gt)
    } else if level == 3 && l == Lexeme::Fixed(TokenKind::Le) {
        Some(OpKind::Le)
    } else if level == 3 && l == Lexeme::Fixed(TokenKind::Ge) {
        Some(OpKind::Ge)
    } else if level == 2 && l == Lexeme::Fixed(TokenKind::Plus) {
        Some(OpKind::Add)
    } else if level == 2 && l == Lexeme::Fixed(TokenKind::Minus) {
        Some(OpKind::Sub)
    } else if level == 1 && l == Lexeme::Fixed(TokenKind::Star) {
        Some(OpKind::Mul)
    } else if level == 1 && l == Lexeme::Fixed(TokenKind::Slash) {
        Some(OpKind::Div)
    } else {
        None
    }
}

/// The word of the one builtin call.
pub open spec fn write_name() -> Seq<char> {
    "write"@
}

/// `primary := NUMBER | STRING | IDENT '[' expr ']' | IDENT '(' args ')' | IDENT | '(' expr ')'`
pub open spec fn parse_primary(ts: Seq<Tk>, env: Env) -> Parsed<Ast>
    decreases ts.len(), 0nat,
{
    if ts.len() == 0 {
        Err(("expected expression"@, 0))
    } else {
        let rest = ts.drop_first();
        match ts[0].0 {
            Lexeme::Num(n) => Ok((Ast::Num(n), rest, env)),
            Lexeme::Text(s) => Ok((Ast::Str(s), rest, env)),
            Lexeme::Fixed(TokenKind::LParen) => match parse_expr(rest, env) {
                Ok((e, ts1, env1)) => match expect(ts1, TokenKind::RParen) {
                    Ok(ts2) => Ok((e, ts2, env1)),
                    Err(err) => Err(err),
                },
                Err(err) => Err(err),
            },
            Lexeme::Ident(name) => {
                if is_at(rest, TokenKind::LBracket) {
                    match parse_expr(rest.drop_first(), env) {
                        Ok((idx, ts1, env1)) => match expect(ts1, TokenKind::RBracket) {
                            Ok(ts2) => match reference(env1, name, ts[0].1) {
                                Ok((off, env2)) => Ok((index_ast(off, idx), ts2, env2)),
                                Err(err) => Err(err),
                            },
                            Err(err) => Err(err),
                        },
                        Err(err) => Err(err),
                    }
                } else if is_at(rest, TokenKind::LParen) {
                    match parse_list(rest.drop_first(), env, TokenKind::RParen) {
                        Ok((args, ts1, env1)) => match expect(ts1, TokenKind::RParen) {
                            Ok(ts2) => if name == write_name() {
                                Ok((Ast::Syscall(name, args), ts2, env1))
                            } else {
                                Ok((Ast::Call(name, args), ts2, env1))
                            },
                            Err(err) => Err(err),
                        },
                        Err(err) => Err(err),
                    }
                } else {
                    match reference(env, name, ts[0].1) {
                        Ok((off, env1)) => Ok((Ast::Var(off), rest, env1)),
                        Err(err) => Err(err),
                    }
                }
            },
            _ => Err(("expected expression"@, ts[0].1)),
        }
    }
}

/// `a[i]` reads the word at `&a - i * 8`.
pub open spec fn index_ast(off: u64, idx: Ast) -> Ast {
    Ast::Deref(
        Box::new(
            Ast::Binary(
                OpKind::Sub,
                Box::new(Ast::Addr(Box::new(Ast::Var(off)))),
                Box::new(Ast::Binary(OpKind::Mul, Box::new(idx), Box::new(Ast::Num(8)))),
            ),
        ),
    )
}

/// `unary := ('+'|'-')? primary | ('*'|'&') unary`; `-x` is `0 - x`.
pub open spec fn parse_unary(ts: Seq<Tk>, env: Env) -> Parsed<Ast>
    decreases ts.len(), 1nat,
{
    if is_at(ts, TokenKind::Plus) {
        parse_primary(ts.drop_first(), env)
    } else if is_at(ts, TokenKind::Minus) {
        match parse_primary(ts.drop_first(), env) {
            Ok((e, ts1, env1)) => Ok(
                (Ast::Binary(OpKind::Sub, Box::new(Ast::Num(0)), Box::new(e)), ts1, env1),
            ),
            Err(err) => Err(err),
        }
    } else if is_at(ts, TokenKind::Star) {
        match parse_unary(ts.drop_first(), env) {
            Ok((e, ts1, env1)) => Ok((Ast::Deref(Box::new(e)), ts1, env1)),
            Err(err) => Err(err),
        }
    } else if is_at(ts, TokenKind::Amp) {
        match parse_unary(ts.drop_first(), env) {
            Ok((e, ts1, env1)) => Ok((Ast::Addr(Box::new(e)), ts1, env1)),
            Err(err) => Err(err),
        }
    } else {
        parse_primary(ts, env)
    }
}

/// A left-associative chain of the operators of `level` over operands of
/// the level below; level 0 is a unary expression.
pub open spec fn parse_binary(ts: Seq<Tk>, env: Env, level: nat) -> Parsed<Ast>
    decreases ts.len(), 2 * level + 2,
{
    if level == 0 {
        parse_unary(ts, env)
    } else {
        match parse_binary(ts, env, (level - 1) as nat) {
            Ok((l, ts1, env1)) => if ts1.len() <= ts.len() {
                binary_rest(l, ts1, env1, level)
            } else {
                stalled(ts)
            },
            Err(err) => Err(err),
        }
    }
}

/// The rest of a chain at `level`, after its left operand `l`.
pub open spec fn binary_rest(l: Ast, ts: Seq<Tk>, env: Env, level: nat) -> Parsed<Ast>
    decreases ts.len(), 2 * level + 1,
{
    if level > 0 && ts.len() > 0 && level_op(level, ts[0].0) is Some {
        let op = level_op(level, ts[0].0)->0;
        match parse_binary(ts.drop_first(), env, (level - 1) as nat) {
            Ok((r, ts1, env1)) => if ts1.len() < ts.len() {
                binary_rest(Ast::Binary(op, Box::new(l), Box::new(r)), ts1, env1, level)
            } else {
                stalled(ts)
            },
            Err(err) => Err(err),
        }
    } else {
        Ok((l, ts, env))
    }
}

/// `assign := equality ('=' assign)?`, right-associative.
pub open spec fn parse_assign(ts: Seq<Tk>, env: Env) -> Parsed<Ast>
    decreases ts.len(), 11nat,
{
    match parse_binary(ts, env, 4) {
        Ok((l, ts1, env1)) => if ts1.len() <= ts.len() && is_at(ts1, TokenKind::Assign) {
            match parse_assign(ts1.drop_first(), env1) {
                Ok((r, ts2, env2)) => Ok((Ast::Assign(Box::new(l), Box::new(r)), ts2, env2)),
                Err(err) => Err(err),
            }
        } else if ts1.len() <= ts.len() {
            Ok((l, ts1, env1))
        } else {
            stalled(ts)
        },
        Err(err) => Err(err),
    }
}

pub open spec fn parse_expr(ts: Seq<Tk>, env: Env) -> Parsed<Ast>
    decreases ts.len(), 12nat,
{
    parse_assign(ts, env)
}

/// `(expr (',' expr)*)?`, up to (not including) the `close` token.
pub open spec fn parse_list(ts: Seq<Tk>, env: Env, close: TokenKind) -> Parsed<Seq<Ast>>
    decreases ts.len(), 14nat,
{
    if is_at(ts, close) {
        Ok((Seq::empty(), ts, env))
    } else {
        match parse_expr(ts, env) {
            Ok((e, ts1, env1)) => if ts1.len() <= ts.len() {
                list_rest(seq![e], ts1, env1)
            } else {
                stalled(ts)
            },
            Err(err) => Err(err),
        }
    }
}

/// The `(',' expr)*` tail of a list, after the items `acc`.
pub open spec fn list_rest(acc: Seq<Ast>, ts: Seq<Tk>, env: Env) -> Parsed<Seq<Ast>>
    decreases ts.len(), 13nat,
{
    if is_at(ts, TokenKind::Comma) {
        match parse_expr(ts.drop_first(), env) {
            Ok((e, ts1, env1)) => if ts1.len() < ts.len() {
                list_rest(acc.push(e), ts1, env1)
            } else {
                stalled(ts)
            },
            Err(err) => Err(err),
        }
    } else {
        Ok((acc, ts, env))
    }
}


/// Keeps a result only where it consumed no tokens beyond `ts`.
pub open spec fn shrink<T>(r: Parsed<T>, ts: Seq<Tk>) -> Parsed<T> {
    match r {
        Ok((v, ts1, env1)) => if ts1.len() <= ts.len() {
            Ok((v, ts1, env1))
        } else {
            stalled(ts)
        },
        Err(err) => Err(err),
    }
}

/// Whether a phrase that must start here is missing: a `stop` token (or
/// the end) stands instead.
pub open spec fn missing(ts: Seq<Tk>, stop: TokenKind) -> bool {
    ts.len() == 0 || is_at(ts, stop) || is_at(ts, TokenKind::Eof)
}

/// `stmt*` up to a closing brace, after the statements `acc`; the end of
/// the tokens there is an error.
pub open spec fn parse_block(acc: Seq<Ast>, ts: Seq<Tk>, env: Env) -> Parsed<Seq<Ast>>
    decreases ts.len(), 16nat,
{
    if is_at(ts, TokenKind::RBrace) {
        Ok((acc, ts, env))
    } else if ts.len() == 0 || is_at(ts, TokenKind::Eof) {
        Err(("expected RBrace"@, pos_of(ts)))
    } else {
        match parse_stmt(ts, env) {
            Ok((st, ts1, env1)) => if ts1.len() < ts.len() {
                parse_block(acc.push(st), ts1, env1)
            } else {
                stalled(ts)
            },
            Err(err) => Err(err),
        }
    }
}

/// `stmt := 'return' expr ';' | '{' stmt* '}' | if | while | for | let | expr ';'`
pub open spec fn parse_stmt(ts: Seq<Tk>, env: Env) -> Parsed<Ast>
    decreases ts.len(), 15nat,
{
    if ts.len() == 0 || is_at(ts, TokenKind::Eof) {
        Err(("expected statement"@, pos_of(ts)))
    } else if is_at(ts, TokenKind::Return) {
        match parse_expr(ts.drop_first(), env) {
            Ok((e, ts1, env1)) => match expect(ts1, TokenKind::Semicolon) {
                Ok(ts2) => Ok((Ast::Return(Box::new(e)), ts2, env1)),
                Err(err) => Err(err),
            },
            Err(err) => Err(err),
        }
    } else if is_at(ts, TokenKind::LBrace) {
        match parse_block(Seq::empty(), ts.drop_first(), env) {
            Ok((ss, ts1, env1)) => match expect(ts1, TokenKind::RBrace) {
                Ok(ts2) => Ok((fold(ss), ts2, env1)),
                Err(err) => Err(err),
            },
            Err(err) => Err(err),
        }
    } else if is_at(ts, TokenKind::If) {
        parse_if(ts.drop_first(), env)
    } else if is_at(ts, TokenKind::While) {
        parse_while(ts.drop_first(), env)
    } else if is_at(ts, TokenKind::For) {
        parse_for(ts.drop_first(), env)
    } else if is_at(ts, TokenKind::Let) {
        parse_let(ts.drop_first(), env)
    } else {
        match parse_expr(ts, env) {
            Ok((e, ts1, env1)) => match expect(ts1, TokenKind::Semicolon) {
                Ok(ts2) => Ok((e, ts2, env1)),
                Err(err) => Err(err),
            },
            Err(err) => Err(err),
        }
    }
}

/// `'(' expr ')'`, the condition of `if` and `while`.
pub open spec fn parse_cond(ts: Seq<Tk>, env: Env) -> Parsed<Ast>
    decreases ts.len(), 14nat,
{
    match expect(ts, TokenKind::LParen) {
        Ok(ts1) => if missing(ts1, TokenKind::RParen) {
            Err(("expected expression"@, pos_of(ts1)))
        } else {
            match parse_expr(ts1, env) {
                Ok((c, ts2, env2)) => match expect(ts2, TokenKind::RParen) {
                    Ok(ts3) => Ok((c, ts3, env2)),
                    Err(err) => Err(err),
                },
                Err(err) => Err(err),
            }
        },
        Err(err) => Err(err),
    }
}

/// After `if`: `'(' expr ')' stmt ('else' stmt)?`
pub open spec fn parse_if(ts: Seq<Tk>, env: Env) -> Parsed<Ast>
    decreases ts.len(), 16nat,
{
    match shrink(parse_cond(ts, env), ts) {
        Ok((c, ts1, env1)) => match shrink(parse_stmt(ts1, env1), ts1) {
            Ok((t, ts2, env2)) => if is_at(ts2, TokenKind::Else) {
                match parse_stmt(ts2.drop_first(), env2) {
                    Ok((e, ts3, env3)) => Ok(
                        (Ast::If(Box::new(c), Box::new(t), Some(Box::new(e))), ts3, env3),
                    ),
                    Err(err) => Err(err),
                }
            } else {
                Ok((Ast::If(Box::new(c), Box::new(t), None), ts2, env2))
            },
            Err(err) => Err(err),
        },
        Err(err) => Err(err),
    }
}

/// After `while`: `'(' expr ')' stmt`
pub open spec fn parse_while(ts: Seq<Tk>, env: Env) -> Parsed<Ast>
    decreases ts.len(), 16nat,
{
    match shrink(parse_cond(ts, env), ts) {
        Ok((c, ts1, env1)) => match parse_stmt(ts1, env1) {
            Ok((b, ts2, env2)) => Ok((Ast::While(Box::new(c), Box::new(b)), ts2, env2)),
            Err(err) => Err(err),
        },
        Err(err) => Err(err),
    }
}

/// One clause of a `for` header: an expression and the token that ends it.
pub open spec fn parse_clause(ts: Seq<Tk>, env: Env, end: TokenKind) -> Parsed<Ast>
    decreases ts.len(), 14nat,
{
    if missing(ts, end) {
        Err(("expected expression"@, pos_of(ts)))
    } else {
        match parse_expr(ts, env) {
            Ok((e, ts1, env1)) => match expect(ts1, end) {
                Ok(ts2) => Ok((e, ts2, env1)),
                Err(err) => Err(err),
            },
            Err(err) => Err(err),
        }
    }
}

/// After `for`: `'(' expr ';' expr ';' expr ')' stmt`
pub open spec fn parse_for(ts: Seq<Tk>, env: Env) -> Parsed<Ast>
    decreases ts.len(), 15nat,
{
    match expect(ts, TokenKind::LParen) {
        Ok(ts1) => match shrink(parse_clause(ts1, env, TokenKind::Semicolon), ts1) {
            Ok((init, ts2, env2)) => match shrink(
                parse_clause(ts2, env2, TokenKind::Semicolon),
                ts2,
            ) {
                Ok((cond, ts3, env3)) => match shrink(
                    parse_clause(ts3, env3, TokenKind::RParen),
                    ts3,
                ) {
                    Ok((update, ts4, env4)) => match parse_stmt(ts4, env4) {
                        Ok((body, ts5, env5)) => Ok(
                            (
                                Ast::For(
                                    Box::new(init),
                                    Box::new(cond),
                                    Box::new(update),
                                    Box::new(body),
                                ),
                                ts5,
                                env5,
                            ),
                        ),
                        Err(err) => Err(err),
                    },
                    Err(err) => Err(err),
                },
                Err(err) => Err(err),
            },
            Err(err) => Err(err),
        },
        Err(err) => Err(err),
    }
}

/// Slots for an array of `n` words: the first at a fresh offset `o`, bound
/// to `name`, and the run up to `o + (n - 1) * 8` held by an unnamed binding.
pub open spec fn array_slots(env: Env, name: Seq<char>, n: nat, pos: usize) -> Result<(u64, Env), ErrView> {
    match declare(env, name, pos) {
        Ok((off, env1)) => {
            let end = if n == 0 {
                off as int
            } else {
                off + (n - 1) * 8
            };
            if end > u64::MAX {
                Err(("stack frame too large"@, pos))
            } else {
                Ok((off, bind(env1, Seq::empty(), end as u64)))
            }
        },
        Err(err) => Err(err),
    }
}

/// After `let`: `IDENT '=' ('[' list ']' | expr) ';'`. The name must not
/// be bound yet once the right-hand side is read.
pub open spec fn parse_let(ts: Seq<Tk>, env: Env) -> Parsed<Ast>
    decreases ts.len(), 15nat,
{
    if ts.len() > 0 && ts[0].0 is Ident {
        let name = ts[0].0->Ident_0;
        let npos = ts[0].1;
        match expect(ts.drop_first(), TokenKind::Assign) {
            Ok(ts1) => if is_at(ts1, TokenKind::LBracket) {
                match parse_list(ts1.drop_first(), env, TokenKind::RBracket) {
                    Ok((elems, ts2, env2)) => match expect(ts2, TokenKind::RBracket) {
                        Ok(ts3) => match expect(ts3, TokenKind::Semicolon) {
                            Ok(ts4) => if lookup(env2.binds, name) is Some {
                                Err(("variable already declared"@, npos))
                            } else {
                                match array_slots(env2, name, elems.len(), npos) {
                                    Ok((off, env3)) => Ok((Ast::ArrayAssign(off, elems), ts4, env3)),
                                    Err(err) => Err(err),
                                }
                            },
                            Err(err) => Err(err),
                        },
                        Err(err) => Err(err),
                    },
                    Err(err) => Err(err),
                }
            } else {
                match parse_expr(ts1, env) {
                    Ok((rhs, ts2, env2)) => match expect(ts2, TokenKind::Semicolon) {
                        Ok(ts3) => if lookup(env2.binds, name) is Some {
                            Err(("variable already declared"@, npos))
                        } else {
                            match declare(env2, name, npos) {
                                Ok((off, env3)) => Ok(
                                    (
                                        Ast::Assign(Box::new(Ast::Var(off)), Box::new(rhs)),
                                        ts3,
                                        env3,
                                    ),
                                ),
                                Err(err) => Err(err),
                            }
                        },
                        Err(err) => Err(err),
                    },
                    Err(err) => Err(err),
                }
            },
            Err(err) => Err(err),
        }
    } else {
        Err(("expected identifier after 'let'"@, pos_of(ts)))
    }
}

/// `param (',' param)*` with `param := IDENT ':' 'i32'`, after the
/// parameters `acc`; each parameter is a slot, as a reference would give.
pub open spec fn parse_params(acc: Seq<Ast>, ts: Seq<Tk>, env: Env) -> Parsed<Seq<Ast>>
    decreases ts.len(), 0nat,
{
    if ts.len() > 0 && ts[0].0 is Ident {
        match expect(ts.drop_first(), TokenKind::Colon) {
            Ok(ts1) => match expect(ts1, TokenKind::I32) {
                Ok(ts2) => match reference(env, ts[0].0->Ident_0, ts[0].1) {
                    Ok((off, env1)) => if is_at(ts2, TokenKind::Comma) {
                        parse_params(acc.push(Ast::Var(off)), ts2.drop_first(), env1)
                    } else {
                        Ok((acc.push(Ast::Var(off)), ts2, env1))
                    },
                    Err(err) => Err(err),
                },
                Err(err) => Err(err),
            },
            Err(err) => Err(err),
        }
    } else {
        Err(("expected identifier"@, pos_of(ts)))
    }
}

/// `'fn' IDENT '(' params? ')' ('->' 'i32')? '{' stmt* '}'`; an empty body is `Num(0)`.
pub open spec fn parse_function(ts: Seq<Tk>, env: Env) -> Parsed<Ast>
    decreases ts.len(), 17nat,
{
    match expect(ts, TokenKind::Fn) {
        Ok(ts1) => if ts1.len() > 0 && ts1[0].0 is Ident {
            let name = ts1[0].0->Ident_0;
            match expect(ts1.drop_first(), TokenKind::LParen) {
                Ok(ts2) => {
                    let params = if ts2.len() > 0 && ts2[0].0 is Ident {
                        shrink(parse_params(Seq::empty(), ts2, env), ts2)
                    } else {
                        Ok((Seq::empty(), ts2, env))
                    };
                    match params {
                        Ok((ps, ts3, env3)) => match expect(ts3, TokenKind::RParen) {
                            Ok(ts4) => {
                                let ret = if is_at(ts4, TokenKind::Arrow) {
                                    expect(ts4.drop_first(), TokenKind::I32)
                                } else {
                                    Ok(ts4)
                                };
                                match ret {
                                    Ok(ts5) => match expect(ts5, TokenKind::LBrace) {
                                        Ok(ts6) => match parse_block(Seq::empty(), ts6, env3) {
                                            Ok((ss, ts7, env7)) => match expect(
                                                ts7,
                                                TokenKind::RBrace,
                                            ) {
                                                Ok(ts8) => Ok(
                                                    (
                                                        Ast::Function(name, ps, Box::new(fold(ss))),
                                                        ts8,
                                                        env7,
                                                    ),
                                                ),
                                                Err(err) => Err(err),
                                            },
                                            Err(err) => Err(err),
                                        },
                                        Err(err) => Err(err),
                                    },
                                    Err(err) => Err(err),
                                }
                            },
                            Err(err) => Err(err),
                        },
                        Err(err) => Err(err),
                    }
                },
                Err(err) => Err(err),
            }
        } else {
            Err(("expected identifier"@, pos_of(ts1)))
        },
        Err(err) => Err(err),
    }
}

/// `function+` up to the end of the tokens, after the functions `acc`.
pub open spec fn parse_functions(acc: Seq<Ast>, ts: Seq<Tk>, env: Env) -> Parsed<Seq<Ast>>
    decreases ts.len(), 18nat,
{
    if acc.len() > 0 && (ts.len() == 0 || is_at(ts, TokenKind::Eof)) {
        Ok((acc, ts, env))
    } else {
        match parse_function(ts, env) {
            Ok((f, ts1, env1)) => if ts1.len() < ts.len() {
                parse_functions(acc.push(f), ts1, env1)
            } else {
                stalled(ts)
            },
            Err(err) => Err(err),
        }
    }
}

/// `program := function+`; several functions fold into nested `Sequence`s.
pub open spec fn parse_program(ts: Seq<Tk>, env: Env) -> Parsed<Ast> {
    match parse_functions(Seq::empty(), ts, env) {
        Ok((fs, ts1, env1)) => Ok((fold(fs), ts1, env1)),
        Err(err) => Err(err),
    }
}


// ---------------------------------------------------------------------
// The parser.

/// What a parse function returned, as the grammar's spec functions state it.
pub open spec fn outcome(r: Result<Node, ParseError>, toks: TokenIter, vars: Variable) -> Parsed<Ast> {
    match r {
        Ok(n) => Ok((n.ast(), toks@, vars.env())),
        Err(e) => Err(e@),
    }
}

pub open spec fn outcome_list(r: Result<Vec<Node>, ParseError>, toks: TokenIter, vars: Variable) -> Parsed<Seq<Ast>> {
    match r {
        Ok(v) => Ok((children(v), toks@, vars.env())),
        Err(e) => Err(e@),
    }
}

/// Folds statements into a left-nested chain of `Sequence` nodes.
fn fold_seq(nodes: Vec<Node>) -> (r: Node)
    ensures
        r.ast() == fold(children(nodes)),
    decreases nodes@.len(),
{
    let mut nodes = nodes;
    let ghost all = nodes;
    if nodes.len() == 0 {
        return Node::Num { value: 0 };
    }
    let last = nodes.pop().unwrap();
    proof { lemma_children_pop(all, nodes); }
    if nodes.len() == 0 {
        return last;
    }
    let first = fold_seq(nodes);
    Node::Sequence { first: Box::new(first), second: Box::new(last) }
}

/// Consumes a token of kind `kind`, or fails at the token that stands there.
fn expect_next(toks: &mut TokenIter, kind: TokenKind) -> (r: Result<Token, ParseError>)
    requires
        old(toks).wf(),
        kind@ == Lexeme::Fixed(kind),
        kind != TokenKind::Eof,
    ensures
        final(toks).wf(),
        final(toks)@.len() <= old(toks)@.len(),
        match expect(old(toks)@, kind) {
            Ok(ts) => r is Ok && final(toks)@ == ts,
            Err(e) => r matches Err(x) && x@ == e,
        },
{
    match expect_token(toks.peek(), &kind) {
        Ok(()) => Ok(toks.advance()),
        Err(e) => Err(e),
    }
}

/// The operator that binds at `level` for a token kind.
fn level_op_of(k: &TokenKind, level: u8) -> (r: Option<OpKind>)
    ensures
        r == level_op(level as nat, k@),
{
    match k {
        TokenKind::EqEq => if level == 4 { Some(OpKind::Eq) } else { None },
        TokenKind::Ne => if level == 4 { Some(OpKind::Ne) } else { None },
        TokenKind::Lt => if level == 3 { Some(OpKind::Lt) } else { None },
        TokenKind::Gt => if level == 3 { Some(OpKind::Gt) } else { None },
        TokenKind::Le => if level == 3 { Some(OpKind::Le) } else { None },
        TokenKind::Ge => if level == 3 { Some(OpKind::Ge) } else { None },
        TokenKind::Plus => if level == 2 { Some(OpKind::Add) } else { None },
        TokenKind::Minus => if level == 2 { Some(OpKind::Sub) } else { None },
        TokenKind::Star => if level == 1 { Some(OpKind::Mul) } else { None },
        TokenKind::Slash => if level == 1 { Some(OpKind::Div) } else { None },
        _ => None,
    }
}

/// A primary expression: a number, a string, a variable (given a slot on
/// first reference), an indexed array, a call, or a parenthesized expression.
#[verifier::spinoff_prover]
pub fn primary(toks: &mut TokenIter, vars: &mut Variable) -> (r: Result<Node, ParseError>)
    requires
        old(toks).wf(),
    ensures
        final(toks).wf(),
        final(toks)@.len() <= old(toks)@.len(),
        outcome(r, *final(toks), *final(vars)) == parse_primary(old(toks)@, old(vars).env()),
    decreases old(toks)@.len(), 0nat,
{
    let pos = toks.peek().pos;
    let starts = match &toks.peek().kind {
        TokenKind::Number { .. } => true,
        TokenKind::String { .. } => true,
        TokenKind::Ident { .. } => true,
        TokenKind::LParen => true,
        _ => false,
    };
    if !starts {
        return Err(fail("expected expression", pos));
    }
    let Token { kind, pos } = toks.advance();
    match kind {
        TokenKind::Number { num } => Ok(Node::Num { value: num }),
        TokenKind::String { value } => Ok(Node::StringLiteral { value }),
        TokenKind::LParen => {
            let e = match expr(toks, vars) {
                Ok(e) => e,
                Err(err) => return Err(err),
            };
            match expect_next(toks, TokenKind::RParen) {
                Ok(_) => Ok(e),
                Err(err) => Err(err),
            }
        },
        TokenKind::Ident { name } => {
            if toks.at(&TokenKind::LBracket) {
                toks.advance();
                let idx = match expr(toks, vars) {
                    Ok(e) => e,
                    Err(err) => return Err(err),
                };
                if let Err(err) = expect_next(toks, TokenKind::RBracket) {
                    return Err(err);
                }
                let offset = match slot_of(vars, &name, pos) {
                    Ok(o) => o,
                    Err(err) => return Err(err),
                };
                let addr = Node::BinaryOp {
                    op: OpKind::Sub,
                    lhs: Box::new(Node::Addr { expr: Box::new(Node::Var { offset }) }),
                    rhs: Box::new(
                        Node::BinaryOp {
                            op: OpKind::Mul,
                            lhs: Box::new(idx),
                            rhs: Box::new(Node::Num { value: 8 }),
                        },
                    ),
                };
                let r = Node::Deref { expr: Box::new(addr) };
                proof { reveal_with_fuel(Node::ast, 5); }
                return Ok(r);
            }
            if toks.at(&TokenKind::LParen) {
                toks.advance();
                let args = match expr_list(toks, vars, TokenKind::RParen) {
                    Ok(a) => a,
                    Err(err) => return Err(err),
                };
                if let Err(err) = expect_next(toks, TokenKind::RParen) {
                    return Err(err);
                }
                if str_eq(name.as_str(), "write") {
                    return Ok(Node::Syscall { name, args });
                }
                return Ok(Node::Call { name, args });
            }
            match slot_of(vars, &name, pos) {
                Ok(offset) => Ok(Node::Var { offset }),
                Err(err) => Err(err),
            }
        },
        _ => Err(fail("expected expression", pos)),
    }
}

fn unary(toks: &mut TokenIter, vars: &mut Variable) -> (r: Result<Node, ParseError>)
    requires
        old(toks).wf(),
    ensures
        final(toks).wf(),
        final(toks)@.len() <= old(toks)@.len(),
        outcome(r, *final(toks), *final(vars)) == parse_unary(old(toks)@, old(vars).env()),
    decreases old(toks)@.len(), 1nat,
{
    if toks.at(&TokenKind::Plus) {
        toks.advance();
        return primary(toks, vars);
    }
    if toks.at(&TokenKind::Minus) {
        toks.advance();
        return match primary(toks, vars) {
            Ok(e) => {
                let zero = Node::Num { value: 0 };
                assert(zero.ast() == Ast::Num(0));
                Ok(Node::BinaryOp { op: OpKind::Sub, lhs: Box::new(zero), rhs: Box::new(e) })
            },
            Err(err) => Err(err),
        };
    }
    if toks.at(&TokenKind::Star) {
        toks.advance();
        return match unary(toks, vars) {
            Ok(e) => Ok(Node::Deref { expr: Box::new(e) }),
            Err(err) => Err(err),
        };
    }
    if toks.at(&TokenKind::Amp) {
        toks.advance();
        return match unary(toks, vars) {
            Ok(e) => Ok(Node::Addr { expr: Box::new(e) }),
            Err(err) => Err(err),
        };
    }
    primary(toks, vars)
}

/// A left-associative chain of the operators of `level` (4: equality,
/// 3: relational, 2: additive, 1: multiplicative; 0: a unary expression).
fn binary(toks: &mut TokenIter, vars: &mut Variable, level: u8) -> (r: Result<Node, ParseError>)
    requires
        old(toks).wf(),
        level <= 4,
    ensures
        final(toks).wf(),
        final(toks)@.len() <= old(toks)@.len(),
        outcome(r, *final(toks), *final(vars)) == parse_binary(
            old(toks)@,
            old(vars).env(),
            level as nat,
        ),
    decreases old(toks)@.len(), 2 * level + 2,
{
    if level == 0 {
        return unary(toks, vars);
    }
    let mut lhs = match binary(toks, vars, level - 1) {
        Ok(e) => e,
        Err(err) => return Err(err),
    };
    loop
        invariant
            toks.wf(),
            toks@.len() <= old(toks)@.len(),
            1 <= level <= 4,
            binary_rest(lhs.ast(), toks@, vars.env(), level as nat) == parse_binary(
                old(toks)@,
                old(vars).env(),
                level as nat,
            ),
        decreases toks@.len(),
    {
        let op = match level_op_of(&toks.peek().kind, level) {
            Some(op) => op,
            None => return Ok(lhs),
        };
        toks.advance();
        let rhs = match binary(toks, vars, level - 1) {
            Ok(e) => e,
            Err(err) => return Err(err),
        };
        lhs = Node::BinaryOp { op, lhs: Box::new(lhs), rhs: Box::new(rhs) };
    }
}

/// `assign := equality ('=' assign)?`
fn assign(toks: &mut TokenIter, vars: &mut Variable) -> (r: Result<Node, ParseError>)
    requires
        old(toks).wf(),
    ensures
        final(toks).wf(),
        final(toks)@.len() <= old(toks)@.len(),
        outcome(r, *final(toks), *final(vars)) == parse_assign(old(toks)@, old(vars).env()),
    decreases old(toks)@.len(), 11nat,
{
    let lhs = match binary(toks, vars, 4) {
        Ok(e) => e,
        Err(err) => return Err(err),
    };
    if toks.at(&TokenKind::Assign) {
        toks.advance();
        return match assign(toks, vars) {
            Ok(rhs) => Ok(Node::Assign { lhs: Box::new(lhs), rhs: Box::new(rhs) }),
            Err(err) => Err(err),
        };
    }
    Ok(lhs)
}

/// An expression, by precedence climbing from assignment down to unary.
pub fn expr(toks: &mut TokenIter, vars: &mut Variable) -> (r: Result<Node, ParseError>)
    requires
        old(toks).wf(),
    ensures
        final(toks).wf(),
        final(toks)@.len() <= old(toks)@.len(),
        outcome(r, *final(toks), *final(vars)) == parse_expr(old(toks)@, old(vars).env()),
    decreases old(toks)@.len(), 12nat,
{
    assign(toks, vars)
}

/// `(expr (',' expr)*)?` up to (not including) a `close` token.
fn expr_list(toks: &mut TokenIter, vars: &mut Variable, close: TokenKind) -> (r: Result<Vec<Node>, ParseError>)
    requires
        old(toks).wf(),
        close@ == Lexeme::Fixed(close),
    ensures
        final(toks).wf(),
        final(toks)@.len() <= old(toks)@.len(),
        outcome_list(r, *final(toks), *final(vars)) == parse_list(
            old(toks)@,
            old(vars).env(),
            close,
        ),
    decreases old(toks)@.len(), 14nat,
{
    if toks.at(&close) {
        let v: Vec<Node> = Vec::new();
        assert(children(v) =~= Seq::<Ast>::empty());
        return Ok(v);
    }
    let first = match expr(toks, vars) {
        Ok(e) => e,
        Err(err) => return Err(err),
    };
    let mut items: Vec<Node> = Vec::new();
    let ghost empty = items;
    items.push(first);
    proof {
        lemma_children_push(empty, items, first);
        assert(children(empty) =~= Seq::<Ast>::empty());
        assert(seq![first.ast()] =~= Seq::<Ast>::empty().push(first.ast()));
    }
    loop
        invariant
            toks.wf(),
            toks@.len() <= old(toks)@.len(),
            list_rest(children(items), toks@, vars.env()) == parse_list(
                old(toks)@,
                old(vars).env(),
                close,
            ),
        decreases toks@.len(),
    {
        if !toks.at(&TokenKind::Comma) {
            return Ok(items);
        }
        toks.advance();
        let e = match expr(toks, vars) {
            Ok(e) => e,
            Err(err) => return Err(err),
        };
        let ghost before = items;
        items.push(e);
        proof { lemma_children_push(before, items, e); }
    }
}


/// `stmt*` up to a closing brace, which is left in place.
fn block(toks: &mut TokenIter, vars: &mut Variable) -> (r: Result<Vec<Node>, ParseError>)
    requires
        old(toks).wf(),
    ensures
        final(toks).wf(),
        final(toks)@.len() <= old(toks)@.len(),
        outcome_list(r, *final(toks), *final(vars)) == parse_block(
            Seq::empty(),
            old(toks)@,
            old(vars).env(),
        ),
    decreases old(toks)@.len(), 16nat,
{
    let mut stmts: Vec<Node> = Vec::new();
    assert(children(stmts) =~= Seq::<Ast>::empty());
    loop
        invariant
            toks.wf(),
            toks@.len() <= old(toks)@.len(),
            parse_block(children(stmts), toks@, vars.env()) == parse_block(
                Seq::empty(),
                old(toks)@,
                old(vars).env(),
            ),
        decreases toks@.len(),
    {
        if toks.at(&TokenKind::RBrace) {
            return Ok(stmts);
        }
        if toks.at(&TokenKind::Eof) {
            return Err(error_tok(toks.peek(), "expected RBrace"));
        }
        let st = match stmt(toks, vars) {
            Ok(st) => st,
            Err(err) => return Err(err),
        };
        let ghost before = stmts;
        stmts.push(st);
        proof { lemma_children_push(before, stmts, st); }
    }
}

/// A statement; on success it has consumed at least one token.
#[verifier::spinoff_prover]
pub fn stmt(toks: &mut TokenIter, vars: &mut Variable) -> (r: Result<Node, ParseError>)
    requires
        old(toks).wf(),
    ensures
        final(toks).wf(),
        final(toks)@.len() <= old(toks)@.len(),
        r is Ok ==> final(toks)@.len() < old(toks)@.len(),
        outcome(r, *final(toks), *final(vars)) == parse_stmt(old(toks)@, old(vars).env()),
    decreases old(toks)@.len(), 15nat,
{
    if toks.at(&TokenKind::Eof) {
        return Err(error_tok(toks.peek(), "expected statement"));
    }
    if toks.at(&TokenKind::Return) {
        toks.advance();
        let e = match expr(toks, vars) {
            Ok(e) => e,
            Err(err) => return Err(err),
        };
        return match expect_next(toks, TokenKind::Semicolon) {
            Ok(_) => Ok(Node::Return { expr: Box::new(e) }),
            Err(err) => Err(err),
        };
    }
    if toks.at(&TokenKind::LBrace) {
        toks.advance();
        let stmts = match block(toks, vars) {
            Ok(v) => v,
            Err(err) => return Err(err),
        };
        return match expect_next(toks, TokenKind::RBrace) {
            Ok(_) => Ok(fold_seq(stmts)),
            Err(err) => Err(err),
        };
    }
    if toks.at(&TokenKind::If) {
        toks.advance();
        return if_stmt(toks, vars);
    }
    if toks.at(&TokenKind::While) {
        toks.advance();
        return while_stmt(toks, vars);
    }
    if toks.at(&TokenKind::For) {
        toks.advance();
        return for_stmt(toks, vars);
    }
    if toks.at(&TokenKind::Let) {
        toks.advance();
        return let_stmt(toks, vars);
    }
    let e = match expr(toks, vars) {
        Ok(e) => e,
        Err(err) => return Err(err),
    };
    match expect_next(toks, TokenKind::Semicolon) {
        Ok(_) => Ok(e),
        Err(err) => Err(err),
    }
}

/// `'(' expr ')'`, the condition of `if` and `while`.
fn cond(toks: &mut TokenIter, vars: &mut Variable) -> (r: Result<Node, ParseError>)
    requires
        old(toks).wf(),
    ensures
        final(toks).wf(),
        final(toks)@.len() <= old(toks)@.len(),
        outcome(r, *final(toks), *final(vars)) == parse_cond(old(toks)@, old(vars).env()),
    decreases old(toks)@.len(), 14nat,
{
    if let Err(err) = expect_next(toks, TokenKind::LParen) {
        return Err(err);
    }
    if toks.at(&TokenKind::RParen) || toks.at(&TokenKind::Eof) {
        return Err(error_tok(toks.peek(), "expected expression"));
    }
    let c = match expr(toks, vars) {
        Ok(e) => e,
        Err(err) => return Err(err),
    };
    match expect_next(toks, TokenKind::RParen) {
        Ok(_) => Ok(c),
        Err(err) => Err(err),
    }
}

/// After `if`: `'(' expr ')' stmt ('else' stmt)?`
fn if_stmt(toks: &mut TokenIter, vars: &mut Variable) -> (r: Result<Node, ParseError>)
    requires
        old(toks).wf(),
    ensures
        final(toks).wf(),
        final(toks)@.len() <= old(toks)@.len(),
        r is Ok ==> final(toks)@.len() < old(toks)@.len(),
        outcome(r, *final(toks), *final(vars)) == parse_if(old(toks)@, old(vars).env()),
    decreases old(toks)@.len(), 16nat,
{
    let c = match cond(toks, vars) {
        Ok(e) => e,
        Err(err) => return Err(err),
    };
    let t = match stmt(toks, vars) {
        Ok(e) => e,
        Err(err) => return Err(err),
    };
    if toks.at(&TokenKind::Else) {
        toks.advance();
        return match stmt(toks, vars) {
            Ok(e) => Ok(
                Node::If { cond: Box::new(c), then_stmt: Box::new(t), else_stmt: Some(Box::new(e)) },
            ),
            Err(err) => Err(err),
        };
    }
    Ok(Node::If { cond: Box::new(c), then_stmt: Box::new(t), else_stmt: None })
}

/// After `while`: `'(' expr ')' stmt`
fn while_stmt(toks: &mut TokenIter, vars: &mut Variable) -> (r: Result<Node, ParseError>)
    requires
        old(toks).wf(),
    ensures
        final(toks).wf(),
        final(toks)@.len() <= old(toks)@.len(),
        r is Ok ==> final(toks)@.len() < old(toks)@.len(),
        outcome(r, *final(toks), *final(vars)) == parse_while(old(toks)@, old(vars).env()),
    decreases old(toks)@.len(), 16nat,
{
    let c = match cond(toks, vars) {
        Ok(e) => e,
        Err(err) => return Err(err),
    };
    match stmt(toks, vars) {
        Ok(b) => Ok(Node::While { cond: Box::new(c), body: Box::new(b) }),
        Err(err) => Err(err),
    }
}

/// One clause of a `for` header and the token that ends it.
fn clause(toks: &mut TokenIter, vars: &mut Variable, end: TokenKind) -> (r: Result<Node, ParseError>)
    requires
        old(toks).wf(),
        end@ == Lexeme::Fixed(end),
        end != TokenKind::Eof,
    ensures
        final(toks).wf(),
        final(toks)@.len() <= old(toks)@.len(),
        outcome(r, *final(toks), *final(vars)) == parse_clause(old(toks)@, old(vars).env(), end),
    decreases old(toks)@.len(), 14nat,
{
    if toks.at(&end) || toks.at(&TokenKind::Eof) {
        return Err(error_tok(toks.peek(), "expected expression"));
    }
    let e = match expr(toks, vars) {
        Ok(e) => e,
        Err(err) => return Err(err),
    };
    match expect_next(toks, end) {
        Ok(_) => Ok(e),
        Err(err) => Err(err),
    }
}

/// After `for`: `'(' expr ';' expr ';' expr ')' stmt`
fn for_stmt(toks: &mut TokenIter, vars: &mut Variable) -> (r: Result<Node, ParseError>)
    requires
        old(toks).wf(),
    ensures
        final(toks).wf(),
        final(toks)@.len() <= old(toks)@.len(),
        r is Ok ==> final(toks)@.len() < old(toks)@.len(),
        outcome(r, *final(toks), *final(vars)) == parse_for(old(toks)@, old(vars).env()),
    decreases old(toks)@.len(), 15nat,
{
    if let Err(err) = expect_next(toks, TokenKind::LParen) {
        return Err(err);
    }
    let init = match clause(toks, vars, TokenKind::Semicolon) {
        Ok(e) => e,
        Err(err) => return Err(err),
    };
    let c = match clause(toks, vars, TokenKind::Semicolon) {
        Ok(e) => e,
        Err(err) => return Err(err),
    };
    let update = match clause(toks, vars, TokenKind::RParen) {
        Ok(e) => e,
        Err(err) => return Err(err),
    };
    match stmt(toks, vars) {
        Ok(body) => Ok(
            Node::For {
                init: Box::new(init),
                cond: Box::new(c),
                update: Box::new(update),
                body: Box::new(body),
            },
        ),
        Err(err) => Err(err),
    }
}

/// Reserves the slots of an array of `n` words for `name`: a fresh slot
/// for its first word, and an unnamed binding at the end of the run.
fn array_slots_exec(vars: &mut Variable, name: &String, n: usize, pos: usize) -> (r: Result<u64, ParseError>)
    ensures
        match array_slots(old(vars).env(), name@, n as nat, pos) {
            Ok((off, e)) => r == Ok::<u64, ParseError>(off) && final(vars).env() == e,
            Err(err) => r matches Err(x) && x@ == err,
        },
{
    let off = match new_slot(vars, name, pos) {
        Ok(o) => o,
        Err(err) => return Err(err),
    };
    let end = if n == 0 {
        off
    } else {
        let k = (n - 1) as u64;
        if k > (u64::MAX - off) / 8 {
            assert(off + k * 8 > u64::MAX) by (nonlinear_arith)
                requires
                    k > (u64::MAX - off) / 8,
                    off <= u64::MAX,
            ;
            return Err(fail("stack frame too large", pos));
        }
        assert(off + k * 8 <= u64::MAX) by (nonlinear_arith)
            requires
                k <= (u64::MAX - off) / 8,
                off <= u64::MAX,
        ;
        off + k * 8
    };
    vars.push(String::new(), end);
    Ok(off)
}

/// After `let`: `IDENT '=' ('[' list ']' | expr) ';'`
#[verifier::spinoff_prover]
fn let_stmt(toks: &mut TokenIter, vars: &mut Variable) -> (r: Result<Node, ParseError>)
    requires
        old(toks).wf(),
    ensures
        final(toks).wf(),
        final(toks)@.len() <= old(toks)@.len(),
        r is Ok ==> final(toks)@.len() < old(toks)@.len(),
        outcome(r, *final(toks), *final(vars)) == parse_let(old(toks)@, old(vars).env()),
    decreases old(toks)@.len(), 15nat,
{
    let (name, npos) = match toks.take_ident() {
        Some(x) => x,
        None => return Err(error_tok(toks.peek(), "expected identifier after 'let'")),
    };
    if let Err(err) = expect_next(toks, TokenKind::Assign) {
        return Err(err);
    }
    if toks.at(&TokenKind::LBracket) {
        toks.advance();
        let elements = match expr_list(toks, vars, TokenKind::RBracket) {
            Ok(v) => v,
            Err(err) => return Err(err),
        };
        if let Err(err) = expect_next(toks, TokenKind::RBracket) {
            return Err(err);
        }
        if let Err(err) = expect_next(toks, TokenKind::Semicolon) {
            return Err(err);
        }
        if vars.find(name.as_str()).is_some() {
            return Err(fail("variable already declared", npos));
        }
        let offset = match array_slots_exec(vars, &name, elements.len(), npos) {
            Ok(o) => o,
            Err(err) => return Err(err),
        };
        return Ok(Node::ArrayAssign { offset, elements });
    }
    let rhs = match expr(toks, vars) {
        Ok(e) => e,
        Err(err) => return Err(err),
    };
    if let Err(err) = expect_next(toks, TokenKind::Semicolon) {
        return Err(err);
    }
    if vars.find(name.as_str()).is_some() {
        return Err(fail("variable already declared", npos));
    }
    let offset = match new_slot(vars, &name, npos) {
        Ok(o) => o,
        Err(err) => return Err(err),
    };
    let lhs = Node::Var { offset };
    assert(lhs.ast() == Ast::Var(offset));
    Ok(Node::Assign { lhs: Box::new(lhs), rhs: Box::new(rhs) })
}

/// `param (',' param)*` with `param := IDENT ':' 'i32'`.
fn function_args(toks: &mut TokenIter, vars: &mut Variable) -> (r: Result<Vec<Node>, ParseError>)
    requires
        old(toks).wf(),
    ensures
        final(toks).wf(),
        final(toks)@.len() <= old(toks)@.len(),
        outcome_list(r, *final(toks), *final(vars)) == parse_params(
            Seq::empty(),
            old(toks)@,
            old(vars).env(),
        ),
{
    let mut params: Vec<Node> = Vec::new();
    assert(children(params) =~= Seq::<Ast>::empty());
    loop
        invariant
            toks.wf(),
            toks@.len() <= old(toks)@.len(),
            parse_params(children(params), toks@, vars.env()) == parse_params(
                Seq::empty(),
                old(toks)@,
                old(vars).env(),
            ),
        decreases toks@.len(),
    {
        let (name, npos) = match toks.take_ident() {
            Some(x) => x,
            None => return Err(error_tok(toks.peek(), "expected identifier")),
        };
        if let Err(err) = expect_next(toks, TokenKind::Colon) {
            return Err(err);
        }
        if let Err(err) = expect_next(toks, TokenKind::I32) {
            return Err(err);
        }
        let offset = match slot_of(vars, &name, npos) {
            Ok(o) => o,
            Err(err) => return Err(err),
        };
        let p = Node::Var { offset };
        let ghost before = params;
        params.push(p);
        proof { lemma_children_push(before, params, p); }
        if !toks.at(&TokenKind::Comma) {
            return Ok(params);
        }
        toks.advance();
    }
}

/// `'fn' IDENT '(' params? ')' ('->' 'i32')? '{' stmt* '}'`
#[verifier::spinoff_prover]
fn function(toks: &mut TokenIter, vars: &mut Variable) -> (r: Result<Node, ParseError>)
    requires
        old(toks).wf(),
    ensures
        final(toks).wf(),
        final(toks)@.len() <= old(toks)@.len(),
        r is Ok ==> final(toks)@.len() < old(toks)@.len(),
        outcome(r, *final(toks), *final(vars)) == parse_function(old(toks)@, old(vars).env()),
    decreases old(toks)@.len(), 17nat,
{
    if let Err(err) = expect_next(toks, TokenKind::Fn) {
        return Err(err);
    }
    let (name, _) = match toks.take_ident() {
        Some(x) => x,
        None => return Err(error_tok(toks.peek(), "expected identifier")),
    };
    if let Err(err) = expect_next(toks, TokenKind::LParen) {
        return Err(err);
    }
    let is_ident = match &toks.peek().kind {
        TokenKind::Ident { .. } => true,
        _ => false,
    };
    let args = if is_ident {
        match function_args(toks, vars) {
            Ok(v) => v,
            Err(err) => return Err(err),
        }
    } else {
        let v: Vec<Node> = Vec::new();
        assert(children(v) =~= Seq::<Ast>::empty());
        v
    };
    if let Err(err) = expect_next(toks, TokenKind::RParen) {
        return Err(err);
    }
    if toks.at(&TokenKind::Arrow) {
        toks.advance();
        if let Err(err) = expect_next(toks, TokenKind::I32) {
            return Err(err);
        }
    }
    if let Err(err) = expect_next(toks, TokenKind::LBrace) {
        return Err(err);
    }
    let stmts = match block(toks, vars) {
        Ok(v) => v,
        Err(err) => return Err(err),
    };
    if let Err(err) = expect_next(toks, TokenKind::RBrace) {
        return Err(err);
    }
    Ok(Node::Function { name, args, body: Box::new(fold_seq(stmts)) })
}

/// Parses a whole program, `function+` up to `Eof`, allocating a stack slot
/// in `vars` for each variable as it is first met. Several functions fold
/// into nested `Sequence` nodes.
pub fn program(toks: &mut TokenIter, vars: &mut Variable) -> (r: Result<Node, ParseError>)
    requires
        old(toks).wf(),
    ensures
        final(toks).wf(),
        outcome(r, *final(toks), *final(vars)) == parse_program(old(toks)@, old(vars).env()),
{
    let mut funcs: Vec<Node> = Vec::new();
    assert(children(funcs) =~= Seq::<Ast>::empty());
    loop
        invariant
            toks.wf(),
            parse_functions(children(funcs), toks@, vars.env()) == parse_functions(
                Seq::empty(),
                old(toks)@,
                old(vars).env(),
            ),
        decreases toks@.len(),
    {
        if funcs.len() > 0 && toks.at(&TokenKind::Eof) {
            return Ok(fold_seq(funcs));
        }
        let f = match function(toks, vars) {
            Ok(f) => f,
            Err(err) => return Err(err),
        };
        let ghost before = funcs;
        funcs.push(f);
        proof { lemma_children_push(before, funcs, f); }
    }
}

} // verus!
