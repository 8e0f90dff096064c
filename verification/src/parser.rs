//! The parser: precedence climbing for expressions, recursive descent
//! for statements and function declarations.
//!
//! The grammar is written down once, as the `sp_*` spec functions below;
//! they read the token stream through [`token_at`] and say, for every
//! position, which node is built, where parsing stands afterwards, and
//! which error is reported otherwise.  Every recursion step spends one
//! unit of fuel, so a fixed budget bounds the nesting a parse may reach;
//! an input that exhausts it is answered with a dedicated error rather
//! than a crash.  The executable parser is proved to return exactly what
//! the spec functions say, fuel included.

use vstd::prelude::*;

use vstd::string::StringExecFns;

use crate::ast::{
    BinOp, Expr, Function, Item, Param, Program, SpecExpr, SpecFunction, SpecItem, SpecStatement,
    Statement, expr_view, exprs_view, fn_view, item_view, items_view, param_view, params_view,
    program_view, stmt_view, stmts_view,
};
use crate::error::ParserError;
use crate::lexer::{token_at, LexStep, Lexer};
use crate::token::{spec_precedence, tok_view, SpecTok, Token, get_precedence};

verus! {

broadcast use crate::lexer::Lexer::lemma_position_bounds;

/// Outcome of a spec-level parse: a node plus the position after it, or
/// the first error met.
pub enum Parsed<A> {
    Done(A, int),
    Fail(ParserError),
}

/// The tokens that may open an expression.
pub open spec fn starts_expr(st: SpecTok) -> bool {
    match st {
        SpecTok::Integer(_) => true,
        SpecTok::Float(_) => true,
        SpecTok::Identifier(_) => true,
        SpecTok::Simple(Token::True) => true,
        SpecTok::Simple(Token::False) => true,
        SpecTok::Simple(Token::LParen) => true,
        _ => false,
    }
}

/// The node an infix operator token builds from its two operands.
pub open spec fn combine_op(st: SpecTok, lhs: SpecExpr, rhs: SpecExpr) -> SpecExpr {
    match st {
        SpecTok::Simple(Token::Assign) => SpecExpr::Assignment(Box::new(lhs), Box::new(rhs)),
        SpecTok::Simple(Token::Period) => SpecExpr::Dot(Box::new(lhs), Box::new(rhs)),
        SpecTok::Simple(Token::Plus) => SpecExpr::Binary(BinOp::Add, Box::new(lhs), Box::new(rhs)),
        SpecTok::Simple(Token::Minus) => SpecExpr::Binary(BinOp::Sub, Box::new(lhs), Box::new(rhs)),
        SpecTok::Simple(Token::Asterix) => SpecExpr::Binary(BinOp::Mul, Box::new(lhs), Box::new(rhs)),
        SpecTok::Simple(Token::Slash) => SpecExpr::Binary(BinOp::Div, Box::new(lhs), Box::new(rhs)),
        SpecTok::Simple(Token::LessThan) => SpecExpr::Binary(BinOp::Lt, Box::new(lhs), Box::new(rhs)),
        SpecTok::Simple(Token::GreaterThan) => SpecExpr::Binary(
            BinOp::Gt,
            Box::new(lhs),
            Box::new(rhs),
        ),
        SpecTok::Simple(Token::EqualTo) => SpecExpr::Binary(BinOp::Eq, Box::new(lhs), Box::new(rhs)),
        SpecTok::Simple(Token::NotEqualTo) => SpecExpr::Binary(
            BinOp::Ne,
            Box::new(lhs),
            Box::new(rhs),
        ),
        SpecTok::Simple(Token::And) => SpecExpr::Binary(BinOp::And, Box::new(lhs), Box::new(rhs)),
        _ => SpecExpr::Boolean(false),
    }
}

/// Whether an operator is right-associative: assignment, so that
/// `a = b = c` groups as `a = (b = c)`, and field access.
pub open spec fn right_assoc(st: SpecTok) -> bool {
    st == SpecTok::Simple(Token::Assign) || st == SpecTok::Simple(Token::Period)
}

/// A primary expression: a literal, `true` or `false`, an identifier or
/// a function call, or a parenthesized subexpression.
pub open spec fn sp_primary(s: Seq<char>, pos: int, fuel: nat) -> Parsed<SpecExpr>
    decreases fuel,
{
    if fuel == 0 {
        Parsed::Fail(ParserError::TooDeep)
    } else {
        match token_at(s, pos) {
            LexStep::End => Parsed::Fail(ParserError::OutOfInput),
            LexStep::Bad(_) => Parsed::Fail(ParserError::BadNumber),
            LexStep::Tok(st, p) => match st {
                SpecTok::Integer(n) => Parsed::Done(SpecExpr::Integer(n), p),
                SpecTok::Float(tx) => Parsed::Done(SpecExpr::Float(tx), p),
                SpecTok::Invalid(_) => Parsed::Fail(ParserError::BadInput),
                SpecTok::Identifier(name) => match token_at(s, p) {
                    LexStep::Bad(_) => Parsed::Fail(ParserError::BadNumber),
                    LexStep::End => Parsed::Done(SpecExpr::Identifier(name), p),
                    LexStep::Tok(st2, p2) => if st2 == SpecTok::Simple(Token::LParen) {
                        sp_call_args(s, p2, name, (fuel - 1) as nat)
                    } else {
                        Parsed::Done(SpecExpr::Identifier(name), p)
                    },
                },
                SpecTok::Simple(Token::True) => Parsed::Done(SpecExpr::Boolean(true), p),
                SpecTok::Simple(Token::False) => Parsed::Done(SpecExpr::Boolean(false), p),
                SpecTok::Simple(Token::LParen) => match sp_expr(s, p, 0, (fuel - 1) as nat) {
                    Parsed::Fail(e) => Parsed::Fail(e),
                    Parsed::Done(e, p2) => match token_at(s, p2) {
                        LexStep::End => Parsed::Fail(ParserError::MissingRParen),
                        LexStep::Bad(_) => Parsed::Fail(ParserError::BadNumber),
                        LexStep::Tok(st2, p3) => if st2 == SpecTok::Simple(Token::RParen) {
                            Parsed::Done(e, p3)
                        } else {
                            Parsed::Fail(ParserError::MissingRParen)
                        },
                    },
                },
                _ => if spec_precedence(st) >= 0 {
                    Parsed::Fail(ParserError::UnknownOperator)
                } else {
                    Parsed::Fail(ParserError::UnexpectedToken)
                },
            },
        }
    }
}

/// The argument list of a call, entered just behind the `(`.
pub open spec fn sp_call_args(s: Seq<char>, pos: int, name: Seq<char>, fuel: nat) -> Parsed<
    SpecExpr,
>
    decreases fuel,
{
    if fuel == 0 {
        Parsed::Fail(ParserError::TooDeep)
    } else {
        match token_at(s, pos) {
            LexStep::End => Parsed::Fail(ParserError::MissingRParen),
            LexStep::Bad(_) => Parsed::Fail(ParserError::BadNumber),
            LexStep::Tok(st, p) => if st == SpecTok::Simple(Token::RParen) {
                Parsed::Done(SpecExpr::FnCall(name, Seq::empty()), p)
            } else {
                match sp_expr(s, pos, 0, (fuel - 1) as nat) {
                    Parsed::Fail(e) => Parsed::Fail(e),
                    Parsed::Done(e, p1) => sp_more_args(
                        s,
                        p1,
                        name,
                        Seq::empty().push(e),
                        (fuel - 1) as nat,
                    ),
                }
            },
        }
    }
}

/// The rest of an argument list, standing right behind an argument:
/// either `,` and another argument, or the closing `)`.
pub open spec fn sp_more_args(
    s: Seq<char>,
    pos: int,
    name: Seq<char>,
    acc: Seq<SpecExpr>,
    fuel: nat,
) -> Parsed<SpecExpr>
    decreases fuel,
{
    if fuel == 0 {
        Parsed::Fail(ParserError::TooDeep)
    } else {
        match token_at(s, pos) {
            LexStep::End => Parsed::Fail(ParserError::MissingRParen),
            LexStep::Bad(_) => Parsed::Fail(ParserError::BadNumber),
            LexStep::Tok(st, p) => if st == SpecTok::Simple(Token::RParen) {
                Parsed::Done(SpecExpr::FnCall(name, acc), p)
            } else if st == SpecTok::Simple(Token::Comma) {
                match sp_expr(s, p, 0, (fuel - 1) as nat) {
                    Parsed::Fail(e) => Parsed::Fail(e),
                    Parsed::Done(e, p2) => sp_more_args(s, p2, name, acc.push(e), (fuel - 1) as nat),
                }
            } else {
                Parsed::Fail(ParserError::MissingRParen)
            },
        }
    }
}

/// An expression: a primary, then climbing over every infix operator
/// that binds at least as tightly as `min_prec`.
pub open spec fn sp_expr(s: Seq<char>, pos: int, min_prec: int, fuel: nat) -> Parsed<SpecExpr>
    decreases fuel,
{
    if fuel == 0 {
        Parsed::Fail(ParserError::TooDeep)
    } else {
        match sp_primary(s, pos, (fuel - 1) as nat) {
            Parsed::Fail(e) => Parsed::Fail(e),
            Parsed::Done(lhs, p) => sp_climb(s, p, lhs, min_prec, (fuel - 1) as nat),
        }
    }
}

/// The climbing loop: while the next token is an operator binding at
/// least as tightly as `min_prec`, take it, parse its right operand one
/// level tighter (same level for a right-associative operator), and
/// fold both into one node.  Anything else ends the expression without
/// being consumed.
pub open spec fn sp_climb(
    s: Seq<char>,
    pos: int,
    lhs: SpecExpr,
    min_prec: int,
    fuel: nat,
) -> Parsed<SpecExpr>
    decreases fuel,
{
    if fuel == 0 {
        Parsed::Fail(ParserError::TooDeep)
    } else {
        match token_at(s, pos) {
            LexStep::End => Parsed::Done(lhs, pos),
            LexStep::Bad(_) => Parsed::Fail(ParserError::BadNumber),
            LexStep::Tok(st, p) => if spec_precedence(st) >= 0 && spec_precedence(st) >= min_prec {
                let next_min = if right_assoc(st) {
                    spec_precedence(st)
                } else {
                    spec_precedence(st) + 1
                };
                match sp_expr(s, p, next_min, (fuel - 1) as nat) {
                    Parsed::Fail(e) => Parsed::Fail(e),
                    Parsed::Done(rhs, p2) => sp_climb(
                        s,
                        p2,
                        combine_op(st, lhs, rhs),
                        min_prec,
                        (fuel - 1) as nat,
                    ),
                }
            } else {
                Parsed::Done(lhs, pos)
            },
        }
    }
}

/// A statement, dispatched on its first token: `if` / `unless`,
/// `return`, or an expression statement.
pub open spec fn sp_statement(s: Seq<char>, pos: int, fuel: nat) -> Parsed<SpecStatement>
    decreases fuel,
{
    if fuel == 0 {
        Parsed::Fail(ParserError::TooDeep)
    } else {
        match token_at(s, pos) {
            LexStep::End => Parsed::Fail(ParserError::OutOfInput),
            LexStep::Bad(_) => Parsed::Fail(ParserError::BadNumber),
            LexStep::Tok(st, p) => if st == SpecTok::Simple(Token::If) {
                sp_if_tail(s, p, false, (fuel - 1) as nat)
            } else if st == SpecTok::Simple(Token::Unless) {
                sp_if_tail(s, p, true, (fuel - 1) as nat)
            } else if st == SpecTok::Simple(Token::Return) {
                match token_at(s, p) {
                    LexStep::Bad(_) => Parsed::Fail(ParserError::BadNumber),
                    LexStep::End => Parsed::Done(SpecStatement::Return, p),
                    LexStep::Tok(st2, _) => if starts_expr(st2) {
                        match sp_expr(s, p, 0, (fuel - 1) as nat) {
                            Parsed::Fail(e) => Parsed::Fail(e),
                            Parsed::Done(e, p2) => Parsed::Done(
                                SpecStatement::ReturnWithVal(Box::new(e)),
                                p2,
                            ),
                        }
                    } else {
                        Parsed::Done(SpecStatement::Return, p)
                    },
                }
            } else {
                match sp_expr(s, pos, 0, (fuel - 1) as nat) {
                    Parsed::Fail(e) => Parsed::Fail(e),
                    Parsed::Done(e, p2) => Parsed::Done(SpecStatement::Expr(Box::new(e)), p2),
                }
            },
        }
    }
}

/// The rest of an `if` or `unless`: the condition, the body block, an
/// optional `else` block, and the closing `end`.
pub open spec fn sp_if_tail(s: Seq<char>, pos: int, unless: bool, fuel: nat) -> Parsed<
    SpecStatement,
>
    decreases fuel,
{
    if fuel == 0 {
        Parsed::Fail(ParserError::TooDeep)
    } else {
        match sp_expr(s, pos, 0, (fuel - 1) as nat) {
            Parsed::Fail(e) => Parsed::Fail(e),
            Parsed::Done(cond, p1) => match sp_block_rec(s, p1, Seq::empty(), (fuel - 1) as nat) {
                Parsed::Fail(e) => Parsed::Fail(e),
                Parsed::Done(body, p2) => match token_at(s, p2) {
                    LexStep::End => Parsed::Fail(ParserError::OutOfInput),
                    LexStep::Bad(_) => Parsed::Fail(ParserError::BadNumber),
                    LexStep::Tok(st, p3) => if st == SpecTok::Simple(Token::End) {
                        Parsed::Done(
                            if unless {
                                SpecStatement::Unless(Box::new(cond), Box::new(body))
                            } else {
                                SpecStatement::If(Box::new(cond), Box::new(body))
                            },
                            p3,
                        )
                    } else if st == SpecTok::Simple(Token::Else) {
                        match sp_block_rec(s, p3, Seq::empty(), (fuel - 1) as nat) {
                            Parsed::Fail(e) => Parsed::Fail(e),
                            Parsed::Done(els, p4) => match token_at(s, p4) {
                                LexStep::End => Parsed::Fail(ParserError::OutOfInput),
                                LexStep::Bad(_) => Parsed::Fail(ParserError::BadNumber),
                                LexStep::Tok(st2, p5) => if st2 == SpecTok::Simple(Token::End) {
                                    Parsed::Done(
                                        if unless {
                                            SpecStatement::UnlessElse(
                                                Box::new(cond),
                                                Box::new(body),
                                                Box::new(els),
                                            )
                                        } else {
                                            SpecStatement::IfElse(
                                                Box::new(cond),
                                                Box::new(body),
                                                Box::new(els),
                                            )
                                        },
                                        p5,
                                    )
                                } else {
                                    Parsed::Fail(ParserError::UnexpectedToken)
                                },
                            },
                        }
                    } else {
                        Parsed::Fail(ParserError::UnexpectedToken)
                    },
                },
            },
        }
    }
}

/// A block: statements gathered in order until `end`, `else` or the end
/// of the input stands next; the terminator is left unconsumed.
pub open spec fn sp_block_rec(
    s: Seq<char>,
    pos: int,
    acc: Seq<SpecStatement>,
    fuel: nat,
) -> Parsed<SpecStatement>
    decreases fuel,
{
    if fuel == 0 {
        Parsed::Fail(ParserError::TooDeep)
    } else {
        match token_at(s, pos) {
            LexStep::End => Parsed::Done(SpecStatement::Block(acc), pos),
            LexStep::Bad(_) => Parsed::Fail(ParserError::BadNumber),
            LexStep::Tok(st, _) => if st == SpecTok::Simple(Token::End) || st == SpecTok::Simple(
                Token::Else,
            ) {
                Parsed::Done(SpecStatement::Block(acc), pos)
            } else {
                match sp_statement(s, pos, (fuel - 1) as nat) {
                    Parsed::Fail(e) => Parsed::Fail(e),
                    Parsed::Done(stmt, p) => sp_block_rec(s, p, acc.push(stmt), (fuel - 1) as nat),
                }
            },
        }
    }
}

/// A function declaration, starting at its `func` keyword.
pub open spec fn sp_function_decl(s: Seq<char>, pos: int, fuel: nat) -> Parsed<SpecFunction>
    decreases fuel,
{
    if fuel == 0 {
        Parsed::Fail(ParserError::TooDeep)
    } else {
        match token_at(s, pos) {
            LexStep::End => Parsed::Fail(ParserError::OutOfInput),
            LexStep::Bad(_) => Parsed::Fail(ParserError::BadNumber),
            LexStep::Tok(st, p) => if st == SpecTok::Simple(Token::Function) {
                match token_at(s, p) {
                    LexStep::End => Parsed::Fail(ParserError::OutOfInput),
                    LexStep::Bad(_) => Parsed::Fail(ParserError::BadNumber),
                    LexStep::Tok(st2, p2) => match st2 {
                        SpecTok::Identifier(base) => sp_fn_name(s, p2, base, (fuel - 1) as nat),
                        _ => Parsed::Fail(ParserError::FnMissingName),
                    },
                }
            } else {
                Parsed::Fail(ParserError::UnexpectedToken)
            },
        }
    }
}

/// The possibly dotted function name, continued after its first part,
/// then the mandatory `(` of the parameter list.
pub open spec fn sp_fn_name(s: Seq<char>, pos: int, name: Seq<char>, fuel: nat) -> Parsed<
    SpecFunction,
>
    decreases fuel,
{
    if fuel == 0 {
        Parsed::Fail(ParserError::TooDeep)
    } else {
        match token_at(s, pos) {
            LexStep::End => Parsed::Fail(ParserError::OutOfInput),
            LexStep::Bad(_) => Parsed::Fail(ParserError::BadNumber),
            LexStep::Tok(st, p) => if st == SpecTok::Simple(Token::Period) {
                match token_at(s, p) {
                    LexStep::End => Parsed::Fail(ParserError::OutOfInput),
                    LexStep::Bad(_) => Parsed::Fail(ParserError::BadNumber),
                    LexStep::Tok(st2, p2) => match st2 {
                        SpecTok::Identifier(part) => sp_fn_name(
                            s,
                            p2,
                            name + "."@ + part,
                            (fuel - 1) as nat,
                        ),
                        _ => Parsed::Fail(ParserError::FnMissingName),
                    },
                }
            } else if st == SpecTok::Simple(Token::LParen) {
                sp_params(s, p, name, (fuel - 1) as nat)
            } else {
                Parsed::Fail(ParserError::FnMissingParameters)
            },
        }
    }
}

/// The parameter list, entered just behind its `(`: empty, or the first
/// parameter name.
pub open spec fn sp_params(s: Seq<char>, pos: int, name: Seq<char>, fuel: nat) -> Parsed<
    SpecFunction,
>
    decreases fuel,
{
    if fuel == 0 {
        Parsed::Fail(ParserError::TooDeep)
    } else {
        match token_at(s, pos) {
            LexStep::End => Parsed::Fail(ParserError::OutOfInput),
            LexStep::Bad(_) => Parsed::Fail(ParserError::BadNumber),
            LexStep::Tok(st, p) => if st == SpecTok::Simple(Token::RParen) {
                sp_fn_ret(s, p, name, Seq::empty(), (fuel - 1) as nat)
            } else {
                match st {
                    SpecTok::Identifier(pn) => sp_param_tail(
                        s,
                        p,
                        name,
                        Seq::empty(),
                        pn,
                        (fuel - 1) as nat,
                    ),
                    _ => Parsed::Fail(ParserError::UnexpectedToken),
                }
            },
        }
    }
}

/// One parameter after its name: `: type`, then `,` and the next name,
/// or the closing `)`.
pub open spec fn sp_param_tail(
    s: Seq<char>,
    pos: int,
    name: Seq<char>,
    params: Seq<(Seq<char>, Seq<char>)>,
    pn: Seq<char>,
    fuel: nat,
) -> Parsed<SpecFunction>
    decreases fuel,
{
    if fuel == 0 {
        Parsed::Fail(ParserError::TooDeep)
    } else {
        match token_at(s, pos) {
            LexStep::End => Parsed::Fail(ParserError::OutOfInput),
            LexStep::Bad(_) => Parsed::Fail(ParserError::BadNumber),
            LexStep::Tok(st, p) => if st == SpecTok::Simple(Token::Colon) {
                match token_at(s, p) {
                    LexStep::End => Parsed::Fail(ParserError::OutOfInput),
                    LexStep::Bad(_) => Parsed::Fail(ParserError::BadNumber),
                    LexStep::Tok(st2, p2) => match st2 {
                        SpecTok::Identifier(tn) => match token_at(s, p2) {
                            LexStep::End => Parsed::Fail(ParserError::OutOfInput),
                            LexStep::Bad(_) => Parsed::Fail(ParserError::BadNumber),
                            LexStep::Tok(st3, p3) => if st3 == SpecTok::Simple(Token::Comma) {
                                match token_at(s, p3) {
                                    LexStep::End => Parsed::Fail(ParserError::OutOfInput),
                                    LexStep::Bad(_) => Parsed::Fail(ParserError::BadNumber),
                                    LexStep::Tok(st4, p4) => match st4 {
                                        SpecTok::Identifier(pn2) => sp_param_tail(
                                            s,
                                            p4,
                                            name,
                                            params.push((pn, tn)),
                                            pn2,
                                            (fuel - 1) as nat,
                                        ),
                                        _ => Parsed::Fail(ParserError::UnexpectedToken),
                                    },
                                }
                            } else if st3 == SpecTok::Simple(Token::RParen) {
                                sp_fn_ret(s, p3, name, params.push((pn, tn)), (fuel - 1) as nat)
                            } else {
                                Parsed::Fail(ParserError::UnexpectedToken)
                            },
                        },
                        _ => Parsed::Fail(ParserError::UnexpectedToken),
                    },
                }
            } else {
                Parsed::Fail(ParserError::UnexpectedToken)
            },
        }
    }
}

/// The optional `-> type` return annotation, then the body.
pub open spec fn sp_fn_ret(
    s: Seq<char>,
    pos: int,
    name: Seq<char>,
    params: Seq<(Seq<char>, Seq<char>)>,
    fuel: nat,
) -> Parsed<SpecFunction>
    decreases fuel,
{
    if fuel == 0 {
        Parsed::Fail(ParserError::TooDeep)
    } else {
        match token_at(s, pos) {
            LexStep::Bad(_) => Parsed::Fail(ParserError::BadNumber),
            LexStep::End => sp_fn_body(s, pos, name, params, Seq::empty(), (fuel - 1) as nat),
            LexStep::Tok(st, p) => if st == SpecTok::Simple(Token::Arrow) {
                match token_at(s, p) {
                    LexStep::End => Parsed::Fail(ParserError::OutOfInput),
                    LexStep::Bad(_) => Parsed::Fail(ParserError::BadNumber),
                    LexStep::Tok(st2, p2) => match st2 {
                        SpecTok::Identifier(rn) => sp_fn_body(
                            s,
                            p2,
                            name,
                            params,
                            rn,
                            (fuel - 1) as nat,
                        ),
                        _ => Parsed::Fail(ParserError::UnexpectedToken),
                    },
                }
            } else {
                sp_fn_body(s, pos, name, params, Seq::empty(), (fuel - 1) as nat)
            },
        }
    }
}

/// The function body: a block closed by `end`.
pub open spec fn sp_fn_body(
    s: Seq<char>,
    pos: int,
    name: Seq<char>,
    params: Seq<(Seq<char>, Seq<char>)>,
    ret: Seq<char>,
    fuel: nat,
) -> Parsed<SpecFunction>
    decreases fuel,
{
    if fuel == 0 {
        Parsed::Fail(ParserError::TooDeep)
    } else {
        match sp_block_rec(s, pos, Seq::empty(), (fuel - 1) as nat) {
            Parsed::Fail(e) => Parsed::Fail(e),
            Parsed::Done(body, p) => match token_at(s, p) {
                LexStep::End => Parsed::Fail(ParserError::OutOfInput),
                LexStep::Bad(_) => Parsed::Fail(ParserError::BadNumber),
                LexStep::Tok(st, p2) => if st == SpecTok::Simple(Token::End) {
                    Parsed::Done(
                        SpecFunction { name, params, body: Box::new(body), ret },
                        p2,
                    )
                } else {
                    Parsed::Fail(ParserError::UnexpectedToken)
                },
            },
        }
    }
}

/// A whole program: function declarations and top-level statements,
/// gathered in order until the input ends.
pub open spec fn sp_program_rec(s: Seq<char>, pos: int, acc: Seq<SpecItem>, fuel: nat) -> Parsed<
    Seq<SpecItem>,
>
    decreases fuel,
{
    if fuel == 0 {
        Parsed::Fail(ParserError::TooDeep)
    } else {
        match token_at(s, pos) {
            LexStep::End => Parsed::Done(acc, pos),
            LexStep::Bad(_) => Parsed::Fail(ParserError::BadNumber),
            LexStep::Tok(st, _) => if st == SpecTok::Simple(Token::Function) {
                match sp_function_decl(s, pos, (fuel - 1) as nat) {
                    Parsed::Fail(e) => Parsed::Fail(e),
                    Parsed::Done(f, p) => sp_program_rec(
                        s,
                        p,
                        acc.push(SpecItem::Function(f)),
                        (fuel - 1) as nat,
                    ),
                }
            } else {
                match sp_statement(s, pos, (fuel - 1) as nat) {
                    Parsed::Fail(e) => Parsed::Fail(e),
                    Parsed::Done(stmt, p) => sp_program_rec(
                        s,
                        p,
                        acc.push(SpecItem::Statement(stmt)),
                        (fuel - 1) as nat,
                    ),
                }
            },
        }
    }
}

/// The recursion budget granted to an input: ample for any nesting the
/// input's own length allows.
pub open spec fn fuel_for(s: Seq<char>) -> nat {
    (8 * s.len() + 64) as nat
}

/// Appending one expression appends its model.
proof fn lemma_exprs_view_push(es: Seq<Expr>, e: Expr)
    ensures
        exprs_view(es.push(e)) == exprs_view(es).push(expr_view(e)),
{
    assert(es.push(e).drop_last() =~= es);
    assert(es.push(e).last() == e);
}

/// Appending one statement appends its model.
proof fn lemma_stmts_view_push(ss: Seq<Statement>, st: Statement)
    ensures
        stmts_view(ss.push(st)) == stmts_view(ss).push(stmt_view(st)),
{
    assert(ss.push(st).drop_last() =~= ss);
    assert(ss.push(st).last() == st);
}

/// Appending one parameter appends its model.
proof fn lemma_params_view_push(ps: Seq<Param>, p: Param)
    ensures
        params_view(ps.push(p)) == params_view(ps).push(param_view(p)),
{
    assert(ps.push(p).drop_last() =~= ps);
    assert(ps.push(p).last() == p);
}

/// Appending one item appends its model.
proof fn lemma_items_view_push(its: Seq<Item>, it: Item)
    ensures
        items_view(its.push(it)) == items_view(its).push(item_view(it)),
{
    assert(its.push(it).drop_last() =~= its);
    assert(its.push(it).last() == it);
}

/// What an expression-producing operation promises: exactly the node
/// and resting place of the spec parse, or exactly its error.
pub open spec fn expr_matches(p: Parsed<SpecExpr>, r: Result<Expr, ParserError>, new_at: int) -> bool {
    match p {
        Parsed::Done(se, q) => match r {
            Ok(e) => expr_view(e) == se && new_at == q,
            Err(_) => false,
        },
        Parsed::Fail(er) => r == Err::<Expr, ParserError>(er),
    }
}

/// The same promise for a statement-producing operation.
pub open spec fn stmt_matches(
    p: Parsed<SpecStatement>,
    r: Result<Statement, ParserError>,
    new_at: int,
) -> bool {
    match p {
        Parsed::Done(sst, q) => match r {
            Ok(st) => stmt_view(st) == sst && new_at == q,
            Err(_) => false,
        },
        Parsed::Fail(er) => r == Err::<Statement, ParserError>(er),
    }
}

/// The same promise for a function-declaration operation.
pub open spec fn fn_matches(
    p: Parsed<SpecFunction>,
    r: Result<Function, ParserError>,
    new_at: int,
) -> bool {
    match p {
        Parsed::Done(sf, q) => match r {
            Ok(f) => fn_view(f) == sf && new_at == q,
            Err(_) => false,
        },
        Parsed::Fail(er) => r == Err::<Function, ParserError>(er),
    }
}

/// The same promise for the top-level item list.
pub open spec fn items_matches(
    p: Parsed<Seq<SpecItem>>,
    r: Result<Vec<Item>, ParserError>,
    new_at: int,
) -> bool {
    match p {
        Parsed::Done(sis, q) => match r {
            Ok(its) => items_view(its@) == sis && new_at == q,
            Err(_) => false,
        },
        Parsed::Fail(er) => r == Err::<Vec<Item>, ParserError>(er),
    }
}

/// The parser: it owns the scanner and one slot of token lookahead.
/// `cur` is empty until a token is peeked; a peeked `None` records that
/// the input is exhausted.  `start` remembers where the peeked token
/// began, so that the parser's own position is the start of whatever
/// stands unconsumed.
pub struct Parser {
    lx: Lexer,
    cur: Option<Option<Token>>,
    start: Ghost<int>,
}

impl Parser {
    /// The scanner is sound and the lookahead slot, when filled, holds
    /// exactly the token that the grammar places at `start`.
    pub closed spec fn wf(self) -> bool {
        &&& self.lx.wf()
        &&& match self.cur {
            None => true,
            Some(opt) => {
                &&& 0 <= self.start@ <= self.lx.input().len()
                &&& match opt {
                    Some(t) => token_at(self.lx.input(), self.start@) == LexStep::Tok(
                        tok_view(t),
                        self.lx.position(),
                    ),
                    None => token_at(self.lx.input(), self.start@) == LexStep::End,
                }
            },
        }
    }

    /// The characters being parsed.
    pub closed spec fn input(self) -> Seq<char> {
        self.lx.input()
    }

    /// Where parsing stands: the start of the first unconsumed token.
    pub closed spec fn at(self) -> int {
        match self.cur {
            None => self.lx.position(),
            Some(_) => self.start@,
        }
    }

    /// The lookahead slot is empty.
    spec fn unpeeked(self) -> bool {
        self.cur is None
    }

    /// A parser over `input`, standing at its beginning.
    pub fn new(input: &str) -> (p: Parser)
        ensures
            p.wf(),
            p.input() == input@,
            p.at() == 0,
    {
        Parser { lx: Lexer::new(input), cur: None, start: Ghost(0) }
    }

    /// Consume and return the next token; `Ok(None)` at the end of the
    /// input, which is remembered and never stepped past.
    fn advance(&mut self) -> (r: Result<Option<Token>, ParserError>)
        requires
            old(self).wf(),
        ensures
            final(self).wf(),
            final(self).input() == old(self).input(),
            match token_at(old(self).input(), old(self).at()) {
                LexStep::End => r == Ok::<Option<Token>, ParserError>(None) && final(self).at()
                    == old(self).at(),
                LexStep::Tok(st, p) => final(self).at() == p && final(self).unpeeked() && match r {
                    Ok(Some(t)) => tok_view(t) == st,
                    _ => false,
                },
                LexStep::Bad(_) => r == Err::<Option<Token>, ParserError>(ParserError::BadNumber),
            },
    {
        match self.cur.take() {
            Some(opt) => match opt {
                Some(t) => Ok(Some(t)),
                None => {
                    self.cur = Some(None);
                    Ok(None)
                },
            },
            None => {
                let ghost prev = self.lx.position();
                match self.lx.next_token() {
                    Ok(Some(t)) => Ok(Some(t)),
                    Ok(None) => {
                        self.cur = Some(None);
                        self.start = Ghost(prev);
                        Ok(None)
                    },
                    Err(e) => Err(e),
                }
            },
        }
    }

    /// Hand a token back into the empty lookahead slot; `start` is where
    /// it had been scanned from.
    fn put_back(&mut self, t: Token, start: Ghost<int>)
        requires
            old(self).wf(),
            old(self).unpeeked(),
            0 <= start@ <= old(self).input().len(),
            token_at(old(self).input(), start@) == LexStep::Tok(tok_view(t), old(self).at()),
        ensures
            final(self).wf(),
            final(self).input() == old(self).input(),
            final(self).at() == start@,
    {
        self.cur = Some(Some(t));
        self.start = Ghost(start@);
    }

    /// Parse one primary expression.
    fn primary(&mut self, fuel: usize) -> (r: Result<Expr, ParserError>)
        requires
            old(self).wf(),
        ensures
            final(self).wf(),
            final(self).input() == old(self).input(),
            expr_matches(
                sp_primary(old(self).input(), old(self).at(), fuel as nat),
                r,
                final(self).at(),
            ),
        decreases fuel,
    {
        if fuel == 0 {
            return Err(ParserError::TooDeep);
        }
        match self.advance() {
            Err(e) => Err(e),
            Ok(None) => Err(ParserError::OutOfInput),
            Ok(Some(t)) => match t {
                Token::Integer(n) => Ok(Expr::Integer(n)),
                Token::Float(tx) => Ok(Expr::Float(tx)),
                Token::Invalid(_) => Err(ParserError::BadInput),
                Token::Identifier(name) => {
                    let ghost p2 = self.at();
                    match self.advance() {
                        Err(e) => Err(e),
                        Ok(None) => Ok(Expr::Identifier(name)),
                        Ok(Some(t2)) => match t2 {
                            Token::LParen => self.call_args(name, fuel - 1),
                            _ => {
                                self.put_back(t2, Ghost(p2));
                                Ok(Expr::Identifier(name))
                            },
                        },
                    }
                },
                Token::True => Ok(Expr::Boolean(true)),
                Token::False => Ok(Expr::Boolean(false)),
                Token::LParen => match self.expression(0, fuel - 1) {
                    Err(e) => Err(e),
                    Ok(e) => match self.advance() {
                        Err(e2) => Err(e2),
                        Ok(None) => Err(ParserError::MissingRParen),
                        Ok(Some(t2)) => match t2 {
                            Token::RParen => Ok(e),
                            _ => Err(ParserError::MissingRParen),
                        },
                    },
                },
                _ => {
                    if get_precedence(&t) >= 0 {
                        Err(ParserError::UnknownOperator)
                    } else {
                        Err(ParserError::UnexpectedToken)
                    }
                },
            },
        }
    }

    /// Parse a call's argument list, after its `(`.
    fn call_args(&mut self, name: String, fuel: usize) -> (r: Result<Expr, ParserError>)
        requires
            old(self).wf(),
        ensures
            final(self).wf(),
            final(self).input() == old(self).input(),
            expr_matches(
                sp_call_args(old(self).input(), old(self).at(), name@, fuel as nat),
                r,
                final(self).at(),
            ),
        decreases fuel,
    {
        if fuel == 0 {
            return Err(ParserError::TooDeep);
        }
        let ghost at0 = self.at();
        match self.advance() {
            Err(e) => Err(e),
            Ok(None) => Err(ParserError::MissingRParen),
            Ok(Some(t)) => match t {
                Token::RParen => {
                    proof {
                        assert(exprs_view(Seq::<Expr>::empty()) =~= Seq::<SpecExpr>::empty());
                    }
                    Ok(Expr::FnCall(name, Vec::new()))
                },
                _ => {
                    self.put_back(t, Ghost(at0));
                    match self.expression(0, fuel - 1) {
                        Err(e) => Err(e),
                        Ok(e) => {
                            let mut args: Vec<Expr> = Vec::new();
                            proof {
                                lemma_exprs_view_push(Seq::empty(), e);
                                assert(exprs_view(Seq::<Expr>::empty()) =~= Seq::<
                                    SpecExpr,
                                >::empty());
                            }
                            args.push(e);
                            self.more_args(name, args, fuel - 1)
                        },
                    }
                },
            },
        }
    }

    /// Parse the remainder of an argument list, after an argument.
    fn more_args(&mut self, name: String, acc: Vec<Expr>, fuel: usize) -> (r: Result<
        Expr,
        ParserError,
    >)
        requires
            old(self).wf(),
        ensures
            final(self).wf(),
            final(self).input() == old(self).input(),
            expr_matches(
                sp_more_args(old(self).input(), old(self).at(), name@, exprs_view(acc@), fuel as nat),
                r,
                final(self).at(),
            ),
        decreases fuel,
    {
        if fuel == 0 {
            return Err(ParserError::TooDeep);
        }
        match self.advance() {
            Err(e) => Err(e),
            Ok(None) => Err(ParserError::MissingRParen),
            Ok(Some(t)) => match t {
                Token::RParen => Ok(Expr::FnCall(name, acc)),
                Token::Comma => match self.expression(0, fuel - 1) {
                    Err(e) => Err(e),
                    Ok(e) => {
                        let mut acc2 = acc;
                        proof {
                            lemma_exprs_view_push(acc2@, e);
                        }
                        acc2.push(e);
                        self.more_args(name, acc2, fuel - 1)
                    },
                },
                _ => Err(ParserError::MissingRParen),
            },
        }
    }

    /// Parse an expression: a primary, then every operator binding at
    /// least as tightly as `min_prec`.
    pub fn expression(&mut self, min_prec: i32, fuel: usize) -> (r: Result<Expr, ParserError>)
        requires
            old(self).wf(),
        ensures
            final(self).wf(),
            final(self).input() == old(self).input(),
            expr_matches(
                sp_expr(old(self).input(), old(self).at(), min_prec as int, fuel as nat),
                r,
                final(self).at(),
            ),
        decreases fuel,
    {
        if fuel == 0 {
            return Err(ParserError::TooDeep);
        }
        match self.primary(fuel - 1) {
            Err(e) => Err(e),
            Ok(lhs) => self.climb(lhs, min_prec, fuel - 1),
        }
    }

    /// The climbing loop over infix operators.
    fn climb(&mut self, lhs: Expr, min_prec: i32, fuel: usize) -> (r: Result<Expr, ParserError>)
        requires
            old(self).wf(),
        ensures
            final(self).wf(),
            final(self).input() == old(self).input(),
            expr_matches(
                sp_climb(
                    old(self).input(),
                    old(self).at(),
                    expr_view(lhs),
                    min_prec as int,
                    fuel as nat,
                ),
                r,
                final(self).at(),
            ),
        decreases fuel,
    {
        if fuel == 0 {
            return Err(ParserError::TooDeep);
        }
        let ghost at0 = self.at();
        match self.advance() {
            Err(e) => Err(e),
            Ok(None) => Ok(lhs),
            Ok(Some(t)) => {
                let pr = get_precedence(&t);
                if pr >= 0 && pr >= min_prec {
                    let next_min: i32 = match t {
                        Token::Assign => pr,
                        Token::Period => pr,
                        _ => pr + 1,
                    };
                    match self.expression(next_min, fuel - 1) {
                        Err(e) => Err(e),
                        Ok(rhs) => {
                            let combined = combine_tok(t, lhs, rhs);
                            self.climb(combined, min_prec, fuel - 1)
                        },
                    }
                } else {
                    self.put_back(t, Ghost(at0));
                    Ok(lhs)
                }
            },
        }
    }

    /// Parse one statement.
    pub fn statement(&mut self, fuel: usize) -> (r: Result<Statement, ParserError>)
        requires
            old(self).wf(),
        ensures
            final(self).wf(),
            final(self).input() == old(self).input(),
            stmt_matches(
                sp_statement(old(self).input(), old(self).at(), fuel as nat),
                r,
                final(self).at(),
            ),
        decreases fuel,
    {
        if fuel == 0 {
            return Err(ParserError::TooDeep);
        }
        let ghost at0 = self.at();
        match self.advance() {
            Err(e) => Err(e),
            Ok(None) => Err(ParserError::OutOfInput),
            Ok(Some(t)) => match t {
                Token::If => self.if_tail(false, fuel - 1),
                Token::Unless => self.if_tail(true, fuel - 1),
                Token::Return => {
                    let ghost p2 = self.at();
                    match self.advance() {
                        Err(e) => Err(e),
                        Ok(None) => Ok(Statement::Return),
                        Ok(Some(t2)) => {
                            let starts = tok_starts_expr(&t2);
                            self.put_back(t2, Ghost(p2));
                            if starts {
                                match self.expression(0, fuel - 1) {
                                    Err(e) => Err(e),
                                    Ok(e) => Ok(Statement::ReturnWithVal(Box::new(e))),
                                }
                            } else {
                                Ok(Statement::Return)
                            }
                        },
                    }
                },
                _ => {
                    self.put_back(t, Ghost(at0));
                    match self.expression(0, fuel - 1) {
                        Err(e) => Err(e),
                        Ok(e) => Ok(Statement::Expr(Box::new(e))),
                    }
                },
            },
        }
    }

    /// Parse the rest of an `if` or `unless` statement, after its
    /// keyword.
    fn if_tail(&mut self, unless: bool, fuel: usize) -> (r: Result<Statement, ParserError>)
        requires
            old(self).wf(),
        ensures
            final(self).wf(),
            final(self).input() == old(self).input(),
            stmt_matches(
                sp_if_tail(old(self).input(), old(self).at(), unless, fuel as nat),
                r,
                final(self).at(),
            ),
        decreases fuel,
    {
        if fuel == 0 {
            return Err(ParserError::TooDeep);
        }
        match self.expression(0, fuel - 1) {
            Err(e) => Err(e),
            Ok(cond) => match self.block_rec(Vec::new(), fuel - 1) {
                Err(e) => Err(e),
                Ok(body) => match self.advance() {
                    Err(e) => Err(e),
                    Ok(None) => Err(ParserError::OutOfInput),
                    Ok(Some(t)) => match t {
                        Token::End => Ok(
                            if unless {
                                Statement::Unless(Box::new(cond), Box::new(body))
                            } else {
                                Statement::If(Box::new(cond), Box::new(body))
                            },
                        ),
                        Token::Else => match self.block_rec(Vec::new(), fuel - 1) {
                            Err(e) => Err(e),
                            Ok(els) => match self.advance() {
                                Err(e) => Err(e),
                                Ok(None) => Err(ParserError::OutOfInput),
                                Ok(Some(t2)) => match t2 {
                                    Token::End => Ok(
                                        if unless {
                                            Statement::UnlessElse(
                                                Box::new(cond),
                                                Box::new(body),
                                                Box::new(els),
                                            )
                                        } else {
                                            Statement::IfElse(
                                                Box::new(cond),
                                                Box::new(body),
                                                Box::new(els),
                                            )
                                        },
                                    ),
                                    _ => Err(ParserError::UnexpectedToken),
                                },
                            },
                        },
                        _ => Err(ParserError::UnexpectedToken),
                    },
                },
            },
        }
    }

    /// Gather block statements until `end`, `else` or the end of the
    /// input.
    fn block_rec(&mut self, acc: Vec<Statement>, fuel: usize) -> (r: Result<Statement, ParserError>)
        requires
            old(self).wf(),
        ensures
            final(self).wf(),
            final(self).input() == old(self).input(),
            stmt_matches(
                sp_block_rec(old(self).input(), old(self).at(), stmts_view(acc@), fuel as nat),
                r,
                final(self).at(),
            ),
        decreases fuel,
    {
        if fuel == 0 {
            return Err(ParserError::TooDeep);
        }
        let ghost at0 = self.at();
        match self.advance() {
            Err(e) => Err(e),
            Ok(None) => Ok(Statement::Block(acc)),
            Ok(Some(t)) => match t {
                Token::End => {
                    self.put_back(t, Ghost(at0));
                    Ok(Statement::Block(acc))
                },
                Token::Else => {
                    self.put_back(t, Ghost(at0));
                    Ok(Statement::Block(acc))
                },
                _ => {
                    self.put_back(t, Ghost(at0));
                    match self.statement(fuel - 1) {
                        Err(e) => Err(e),
                        Ok(st) => {
                            let mut acc2 = acc;
                            proof {
                                lemma_stmts_view_push(acc2@, st);
                            }
                            acc2.push(st);
                            self.block_rec(acc2, fuel - 1)
                        },
                    }
                },
            },
        }
    }

    /// Parse a function declaration, starting at `func`.
    pub fn function_decl(&mut self, fuel: usize) -> (r: Result<Function, ParserError>)
        requires
            old(self).wf(),
        ensures
            final(self).wf(),
            final(self).input() == old(self).input(),
            fn_matches(
                sp_function_decl(old(self).input(), old(self).at(), fuel as nat),
                r,
                final(self).at(),
            ),
        decreases fuel,
    {
        if fuel == 0 {
            return Err(ParserError::TooDeep);
        }
        match self.advance() {
            Err(e) => Err(e),
            Ok(None) => Err(ParserError::OutOfInput),
            Ok(Some(t)) => match t {
                Token::Function => match self.advance() {
                    Err(e) => Err(e),
                    Ok(None) => Err(ParserError::OutOfInput),
                    Ok(Some(t2)) => match t2 {
                        Token::Identifier(base) => self.fn_name(base, fuel - 1),
                        _ => Err(ParserError::FnMissingName),
                    },
                },
                _ => Err(ParserError::UnexpectedToken),
            },
        }
    }

    /// Continue the dotted function name, then demand the `(` of the
    /// parameter list.
    fn fn_name(&mut self, name: String, fuel: usize) -> (r: Result<Function, ParserError>)
        requires
            old(self).wf(),
        ensures
            final(self).wf(),
            final(self).input() == old(self).input(),
            fn_matches(
                sp_fn_name(old(self).input(), old(self).at(), name@, fuel as nat),
                r,
                final(self).at(),
            ),
        decreases fuel,
    {
        if fuel == 0 {
            return Err(ParserError::TooDeep);
        }
        match self.advance() {
            Err(e) => Err(e),
            Ok(None) => Err(ParserError::OutOfInput),
            Ok(Some(t)) => match t {
                Token::Period => match self.advance() {
                    Err(e) => Err(e),
                    Ok(None) => Err(ParserError::OutOfInput),
                    Ok(Some(t2)) => match t2 {
                        Token::Identifier(part) => {
                            let mut name2 = name;
                            name2.append(".");
                            name2.append(part.as_str());
                            self.fn_name(name2, fuel - 1)
                        },
                        _ => Err(ParserError::FnMissingName),
                    },
                },
                Token::LParen => self.params(name, fuel - 1),
                _ => Err(ParserError::FnMissingParameters),
            },
        }
    }

    /// Parse the parameter list, after its `(`.
    fn params(&mut self, name: String, fuel: usize) -> (r: Result<Function, ParserError>)
        requires
            old(self).wf(),
        ensures
            final(self).wf(),
            final(self).input() == old(self).input(),
            fn_matches(
                sp_params(old(self).input(), old(self).at(), name@, fuel as nat),
                r,
                final(self).at(),
            ),
        decreases fuel,
    {
        if fuel == 0 {
            return Err(ParserError::TooDeep);
        }
        proof {
            assert(params_view(Seq::<Param>::empty()) =~= Seq::<(Seq<char>, Seq<char>)>::empty());
        }
        match self.advance() {
            Err(e) => Err(e),
            Ok(None) => Err(ParserError::OutOfInput),
            Ok(Some(t)) => match t {
                Token::RParen => self.fn_ret(name, Vec::new(), fuel - 1),
                Token::Identifier(pn) => self.param_tail(name, Vec::new(), pn, fuel - 1),
                _ => Err(ParserError::UnexpectedToken),
            },
        }
    }

    /// Parse one parameter's `: type` and what follows it.
    fn param_tail(
        &mut self,
        name: String,
        params: Vec<Param>,
        pn: String,
        fuel: usize,
    ) -> (r: Result<Function, ParserError>)
        requires
            old(self).wf(),
        ensures
            final(self).wf(),
            final(self).input() == old(self).input(),
            fn_matches(
                sp_param_tail(
                    old(self).input(),
                    old(self).at(),
                    name@,
                    params_view(params@),
                    pn@,
                    fuel as nat,
                ),
                r,
                final(self).at(),
            ),
        decreases fuel,
    {
        if fuel == 0 {
            return Err(ParserError::TooDeep);
        }
        match self.advance() {
            Err(e) => Err(e),
            Ok(None) => Err(ParserError::OutOfInput),
            Ok(Some(t)) => match t {
                Token::Colon => match self.advance() {
                    Err(e) => Err(e),
                    Ok(None) => Err(ParserError::OutOfInput),
                    Ok(Some(t2)) => match t2 {
                        Token::Identifier(tn) => {
                            let mut params2 = params;
                            proof {
                                lemma_params_view_push(params2@, Param { name: pn, ty: tn });
                            }
                            params2.push(Param { name: pn, ty: tn });
                            match self.advance() {
                                Err(e) => Err(e),
                                Ok(None) => Err(ParserError::OutOfInput),
                                Ok(Some(t3)) => match t3 {
                                    Token::Comma => match self.advance() {
                                        Err(e) => Err(e),
                                        Ok(None) => Err(ParserError::OutOfInput),
                                        Ok(Some(t4)) => match t4 {
                                            Token::Identifier(pn2) => self.param_tail(
                                                name,
                                                params2,
                                                pn2,
                                                fuel - 1,
                                            ),
                                            _ => Err(ParserError::UnexpectedToken),
                                        },
                                    },
                                    Token::RParen => self.fn_ret(name, params2, fuel - 1),
                                    _ => Err(ParserError::UnexpectedToken),
                                },
                            }
                        },
                        _ => Err(ParserError::UnexpectedToken),
                    },
                },
                _ => Err(ParserError::UnexpectedToken),
            },
        }
    }

    /// Parse the optional `-> type` annotation, then the body.
    fn fn_ret(&mut self, name: String, params: Vec<Param>, fuel: usize) -> (r: Result<
        Function,
        ParserError,
    >)
        requires
            old(self).wf(),
        ensures
            final(self).wf(),
            final(self).input() == old(self).input(),
            fn_matches(
                sp_fn_ret(
                    old(self).input(),
                    old(self).at(),
                    name@,
                    params_view(params@),
                    fuel as nat,
                ),
                r,
                final(self).at(),
            ),
        decreases fuel,
    {
        if fuel == 0 {
            return Err(ParserError::TooDeep);
        }
        let ghost at0 = self.at();
        match self.advance() {
            Err(e) => Err(e),
            Ok(None) => self.fn_body(name, params, String::new(), fuel - 1),
            Ok(Some(t)) => match t {
                Token::Arrow => match self.advance() {
                    Err(e) => Err(e),
                    Ok(None) => Err(ParserError::OutOfInput),
                    Ok(Some(t2)) => match t2 {
                        Token::Identifier(rn) => self.fn_body(name, params, rn, fuel - 1),
                        _ => Err(ParserError::UnexpectedToken),
                    },
                },
                _ => {
                    self.put_back(t, Ghost(at0));
                    self.fn_body(name, params, String::new(), fuel - 1)
                },
            },
        }
    }

    /// Parse the body block and the closing `end`.
    fn fn_body(
        &mut self,
        name: String,
        params: Vec<Param>,
        ret: String,
        fuel: usize,
    ) -> (r: Result<Function, ParserError>)
        requires
            old(self).wf(),
        ensures
            final(self).wf(),
            final(self).input() == old(self).input(),
            fn_matches(
                sp_fn_body(
                    old(self).input(),
                    old(self).at(),
                    name@,
                    params_view(params@),
                    ret@,
                    fuel as nat,
                ),
                r,
                final(self).at(),
            ),
        decreases fuel,
    {
        if fuel == 0 {
            return Err(ParserError::TooDeep);
        }
        proof {
            assert(stmts_view(Seq::<Statement>::empty()) =~= Seq::<SpecStatement>::empty());
        }
        match self.block_rec(Vec::new(), fuel - 1) {
            Err(e) => Err(e),
            Ok(body) => match self.advance() {
                Err(e) => Err(e),
                Ok(None) => Err(ParserError::OutOfInput),
                Ok(Some(t)) => match t {
                    Token::End => Ok(Function { name, params, body: Box::new(body), ret }),
                    _ => Err(ParserError::UnexpectedToken),
                },
            },
        }
    }

    /// Gather top-level items until the input ends.
    fn program_rec(&mut self, acc: Vec<Item>, fuel: usize) -> (r: Result<Vec<Item>, ParserError>)
        requires
            old(self).wf(),
        ensures
            final(self).wf(),
            final(self).input() == old(self).input(),
            items_matches(
                sp_program_rec(old(self).input(), old(self).at(), items_view(acc@), fuel as nat),
                r,
                final(self).at(),
            ),
        decreases fuel,
    {
        if fuel == 0 {
            return Err(ParserError::TooDeep);
        }
        let ghost at0 = self.at();
        match self.advance() {
            Err(e) => Err(e),
            Ok(None) => Ok(acc),
            Ok(Some(t)) => match t {
                Token::Function => {
                    self.put_back(t, Ghost(at0));
                    match self.function_decl(fuel - 1) {
                        Err(e) => Err(e),
                        Ok(f) => {
                            let mut acc2 = acc;
                            proof {
                                lemma_items_view_push(acc2@, Item::Function(f));
                            }
                            acc2.push(Item::Function(f));
                            self.program_rec(acc2, fuel - 1)
                        },
                    }
                },
                _ => {
                    self.put_back(t, Ghost(at0));
                    match self.statement(fuel - 1) {
                        Err(e) => Err(e),
                        Ok(st) => {
                            let mut acc2 = acc;
                            proof {
                                lemma_items_view_push(acc2@, Item::Statement(st));
                            }
                            acc2.push(Item::Statement(st));
                            self.program_rec(acc2, fuel - 1)
                        },
                    }
                },
            },
        }
    }

    /// Parse a whole program: top-level items until the input ends.
    pub fn program(&mut self, fuel: usize) -> (r: Result<Program, ParserError>)
        requires
            old(self).wf(),
        ensures
            final(self).wf(),
            final(self).input() == old(self).input(),
            match sp_program_rec(old(self).input(), old(self).at(), Seq::empty(), fuel as nat) {
                Parsed::Done(sis, q) => match r {
                    Ok(prog) => program_view(prog) == sis && final(self).at() == q,
                    Err(_) => false,
                },
                Parsed::Fail(er) => r == Err::<Program, ParserError>(er),
            },
        decreases fuel,
    {
        proof {
            assert(items_view(Seq::<Item>::empty()) =~= Seq::<SpecItem>::empty());
        }
        match self.program_rec(Vec::new(), fuel) {
            Err(e) => Err(e),
            Ok(items) => Ok(Program { items }),
        }
    }
}

/// Parse one expression standing at the front of `input`; whatever
/// follows it is left unread.
pub fn parse_expression(input: &str) -> (r: Result<Expr, ParserError>)
    requires
        input@.len() <= 0x0fff_ffff,
    ensures
        match sp_expr(input@, 0, 0, fuel_for(input@)) {
            Parsed::Done(se, _) => match r {
                Ok(e) => expr_view(e) == se,
                Err(_) => false,
            },
            Parsed::Fail(er) => r == Err::<Expr, ParserError>(er),
        },
{
    let mut p = Parser::new(input);
    let n = input.unicode_len();
    let fuel: usize = 8 * n + 64;
    p.expression(0, fuel)
}

/// Parse one statement standing at the front of `input`; whatever
/// follows it is left unread.
pub fn parse_statement(input: &str) -> (r: Result<Statement, ParserError>)
    requires
        input@.len() <= 0x0fff_ffff,
    ensures
        match sp_statement(input@, 0, fuel_for(input@)) {
            Parsed::Done(st, _) => match r {
                Ok(s) => stmt_view(s) == st,
                Err(_) => false,
            },
            Parsed::Fail(er) => r == Err::<Statement, ParserError>(er),
        },
{
    let mut p = Parser::new(input);
    let n = input.unicode_len();
    let fuel: usize = 8 * n + 64;
    p.statement(fuel)
}

/// Parse one function declaration standing at the front of `input`;
/// whatever follows it is left unread.
pub fn parse_function(input: &str) -> (r: Result<Function, ParserError>)
    requires
        input@.len() <= 0x0fff_ffff,
    ensures
        match sp_function_decl(input@, 0, fuel_for(input@)) {
            Parsed::Done(sf, _) => match r {
                Ok(f) => fn_view(f) == sf,
                Err(_) => false,
            },
            Parsed::Fail(er) => r == Err::<Function, ParserError>(er),
        },
{
    let mut p = Parser::new(input);
    let n = input.unicode_len();
    let fuel: usize = 8 * n + 64;
    p.function_decl(fuel)
}

/// Parse a whole program: every top-level item until the input ends.
pub fn parse_program(input: &str) -> (r: Result<Program, ParserError>)
    requires
        input@.len() <= 0x0fff_ffff,
    ensures
        match sp_program_rec(input@, 0, Seq::empty(), fuel_for(input@)) {
            Parsed::Done(sis, _) => match r {
                Ok(prog) => program_view(prog) == sis,
                Err(_) => false,
            },
            Parsed::Fail(er) => r == Err::<Program, ParserError>(er),
        },
{
    let mut p = Parser::new(input);
    let n = input.unicode_len();
    let fuel: usize = 8 * n + 64;
    p.program(fuel)
}

/// Whether this token may open an expression.
fn tok_starts_expr(t: &Token) -> (r: bool)
    ensures
        r == starts_expr(tok_view(*t)),
{
    match t {
        Token::Integer(_) => true,
        Token::Float(_) => true,
        Token::Identifier(_) => true,
        Token::True => true,
        Token::False => true,
        Token::LParen => true,
        _ => false,
    }
}

/// Build the node an infix operator makes of its operands.
fn combine_tok(op: Token, lhs: Expr, rhs: Expr) -> (r: Expr)
    ensures
        expr_view(r) == combine_op(tok_view(op), expr_view(lhs), expr_view(rhs)),
{
    match op {
        Token::Assign => Expr::Assignment(Box::new(lhs), Box::new(rhs)),
        Token::Period => Expr::Dot(Box::new(lhs), Box::new(rhs)),
        Token::Plus => Expr::Binary(BinOp::Add, Box::new(lhs), Box::new(rhs)),
        Token::Minus => Expr::Binary(BinOp::Sub, Box::new(lhs), Box::new(rhs)),
        Token::Asterix => Expr::Binary(BinOp::Mul, Box::new(lhs), Box::new(rhs)),
        Token::Slash => Expr::Binary(BinOp::Div, Box::new(lhs), Box::new(rhs)),
        Token::LessThan => Expr::Binary(BinOp::Lt, Box::new(lhs), Box::new(rhs)),
        Token::GreaterThan => Expr::Binary(BinOp::Gt, Box::new(lhs), Box::new(rhs)),
        Token::EqualTo => Expr::Binary(BinOp::Eq, Box::new(lhs), Box::new(rhs)),
        Token::NotEqualTo => Expr::Binary(BinOp::Ne, Box::new(lhs), Box::new(rhs)),
        Token::And => Expr::Binary(BinOp::And, Box::new(lhs), Box::new(rhs)),
        _ => Expr::Boolean(false),
    }
}

} // verus!
