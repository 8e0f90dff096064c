//! Re-serializing syntax trees to source text.
//!
//! Expressions are printed fully parenthesized, so whatever the parser
//! built reads back with the same shape regardless of precedence.  What
//! each printing function produces is written down as a spec function
//! over the tree's model, and the executable printer is proved to emit
//! exactly that text.
//!
//! Two tree shapes have no spelling in the grammar and therefore do not
//! read back as themselves: a text literal (the tokenizer has no text
//! tokens) and a variable declaration (printed as an assignment).

use vstd::prelude::*;

use crate::ast::{
    BinOp, Expr, Function, Item, Param, Program, SpecExpr, SpecFunction, SpecItem, SpecStatement,
    Statement, expr_view, fn_view, item_view, param_view, stmt_view,
};

verus! {

broadcast use
    vstd::seq::axiom_seq_index_decreases,
    vstd::seq::axiom_seq_subrange_decreases,
    vstd::std_specs::vec::axiom_vec_decreases_to_view,
    vstd::std_specs::vec::axiom_vec_index_decreases,
;

/// The digit character of one decimal digit.
pub open spec fn digit_text(d: nat) -> char {
    if d == 0 {
        '0'
    } else if d == 1 {
        '1'
    } else if d == 2 {
        '2'
    } else if d == 3 {
        '3'
    } else if d == 4 {
        '4'
    } else if d == 5 {
        '5'
    } else if d == 6 {
        '6'
    } else if d == 7 {
        '7'
    } else if d == 8 {
        '8'
    } else {
        '9'
    }
}

/// The decimal spelling of a non-negative number.
pub open spec fn dec_text(n: nat) -> Seq<char>
    decreases n,
{
    if n < 10 {
        Seq::empty().push(digit_text(n))
    } else {
        dec_text(n / 10).push(digit_text(n % 10))
    }
}

/// The spelling of an integer literal.
pub open spec fn int_text(n: int) -> Seq<char> {
    if n < 0 {
        Seq::empty().push('-') + dec_text((-n) as nat)
    } else {
        dec_text(n as nat)
    }
}

/// The spelling of a binary operator, spaced.
pub open spec fn op_text(op: BinOp) -> Seq<char> {
    match op {
        BinOp::Add => " + "@,
        BinOp::Sub => " - "@,
        BinOp::Mul => " * "@,
        BinOp::Div => " / "@,
        BinOp::Lt => " < "@,
        BinOp::Gt => " > "@,
        BinOp::Eq => " == "@,
        BinOp::Ne => " ~= "@,
        BinOp::And => " && "@,
    }
}

/// The source text of an expression, fully parenthesized.
pub open spec fn print_expr(e: SpecExpr) -> Seq<char>
    decreases e, 0int,
{
    match e {
        SpecExpr::Integer(n) => int_text(n),
        SpecExpr::Float(tx) => tx,
        SpecExpr::Text(tx) => tx,
        SpecExpr::Identifier(name) => name,
        SpecExpr::Boolean(b) => if b {
            "true"@
        } else {
            "false"@
        },
        SpecExpr::FnCall(name, args) => name + "("@ + print_args(args, 0) + ")"@,
        SpecExpr::Dot(l, r) => "("@ + print_expr(*l) + "."@ + print_expr(*r) + ")"@,
        SpecExpr::Index(name, idx) => name + "["@ + print_expr(*idx) + "]"@,
        SpecExpr::Assignment(l, r) => "("@ + print_expr(*l) + " = "@ + print_expr(*r) + ")"@,
        SpecExpr::Binary(op, l, r) => "("@ + print_expr(*l) + op_text(op) + print_expr(*r) + ")"@,
    }
}

/// The comma-separated argument texts from index `j` on.
pub open spec fn print_args(args: Seq<SpecExpr>, j: int) -> Seq<char>
    decreases args, args.len() - j,
{
    if j < 0 || j >= args.len() {
        Seq::empty()
    } else if j == args.len() - 1 {
        print_expr(args[j])
    } else {
        print_expr(args[j]) + ", "@ + print_args(args, j + 1)
    }
}

/// The source text of a statement, closed by a line break.
pub open spec fn print_stmt(st: SpecStatement) -> Seq<char>
    decreases st, 0int,
{
    match st {
        SpecStatement::If(c, body) => "if "@ + print_expr(*c) + "\n"@ + print_stmt(*body)
            + "end\n"@,
        SpecStatement::IfElse(c, t, e) => "if "@ + print_expr(*c) + "\n"@ + print_stmt(*t)
            + "else\n"@ + print_stmt(*e) + "end\n"@,
        SpecStatement::Unless(c, body) => "unless "@ + print_expr(*c) + "\n"@ + print_stmt(*body)
            + "end\n"@,
        SpecStatement::UnlessElse(c, t, e) => "unless "@ + print_expr(*c) + "\n"@ + print_stmt(*t)
            + "else\n"@ + print_stmt(*e) + "end\n"@,
        SpecStatement::Var(name, init) => match init {
            Some(e) => "("@ + name + " = "@ + print_expr(*e) + ")\n"@,
            None => name + "\n"@,
        },
        SpecStatement::Block(stmts) => print_stmts(stmts, 0),
        SpecStatement::Expr(e) => print_expr(*e) + "\n"@,
        SpecStatement::Return => "return\n"@,
        SpecStatement::ReturnWithVal(e) => "return "@ + print_expr(*e) + "\n"@,
    }
}

/// The statement texts from index `j` on.
pub open spec fn print_stmts(stmts: Seq<SpecStatement>, j: int) -> Seq<char>
    decreases stmts, stmts.len() - j,
{
    if j < 0 || j >= stmts.len() {
        Seq::empty()
    } else {
        print_stmt(stmts[j]) + print_stmts(stmts, j + 1)
    }
}

/// The parameter texts from index `j` on, comma-separated.
pub open spec fn print_params(ps: Seq<(Seq<char>, Seq<char>)>, j: int) -> Seq<char>
    decreases ps.len() - j,
{
    if j < 0 || j >= ps.len() {
        Seq::empty()
    } else if j == ps.len() - 1 {
        ps[j].0 + ": "@ + ps[j].1
    } else {
        ps[j].0 + ": "@ + ps[j].1 + ", "@ + print_params(ps, j + 1)
    }
}

/// The source text of a function declaration.
pub open spec fn print_fn(f: SpecFunction) -> Seq<char> {
    "func "@ + f.name + "("@ + print_params(f.params, 0) + ")"@ + (if f.ret.len() == 0 {
        Seq::<char>::empty()
    } else {
        " -> "@ + f.ret
    }) + "\n"@ + print_stmt(*f.body) + "end\n"@
}

/// The source text of one top-level item.
pub open spec fn print_item(it: SpecItem) -> Seq<char> {
    match it {
        SpecItem::Function(f) => print_fn(f),
        SpecItem::Statement(st) => print_stmt(st),
    }
}

/// The source text of a program's items from index `j` on.
pub open spec fn print_items(its: Seq<SpecItem>, j: int) -> Seq<char>
    decreases its.len() - j,
{
    if j < 0 || j >= its.len() {
        Seq::empty()
    } else {
        print_item(its[j]) + print_items(its, j + 1)
    }
}

/// Append every character of `s` to `out`.
fn push_str(out: &mut Vec<char>, s: &str)
    ensures
        final(out)@ == old(out)@ + s@,
{
    let n = s.unicode_len();
    let mut i: usize = 0;
    while i < n
        invariant
            n == s@.len(),
            i <= n,
            out@ =~= old(out)@ + s@.subrange(0, i as int),
        decreases n - i,
    {
        out.push(s.get_char(i));
        proof {
            assert(out@ =~= old(out)@ + s@.subrange(0, i + 1));
        }
        i += 1;
    }
    proof {
        assert(old(out)@ + s@.subrange(0, n as int) =~= old(out)@ + s@);
    }
}

/// Append the decimal spelling of `n` to `out`.
fn push_dec(out: &mut Vec<char>, n: u64)
    ensures
        final(out)@ == old(out)@ + dec_text(n as nat),
    decreases n,
{
    if n < 10 {
        let c = match n {
            0 => '0',
            1 => '1',
            2 => '2',
            3 => '3',
            4 => '4',
            5 => '5',
            6 => '6',
            7 => '7',
            8 => '8',
            _ => '9',
        };
        out.push(c);
        proof {
            assert(out@ =~= old(out)@ + dec_text(n as nat));
        }
    } else {
        push_dec(out, n / 10);
        let d = n % 10;
        let c = match d {
            0 => '0',
            1 => '1',
            2 => '2',
            3 => '3',
            4 => '4',
            5 => '5',
            6 => '6',
            7 => '7',
            8 => '8',
            _ => '9',
        };
        out.push(c);
        proof {
            assert(out@ =~= old(out)@ + dec_text(n as nat));
        }
    }
}

/// Append the spelling of the integer literal `n` to `out`.
fn push_int(out: &mut Vec<char>, n: i64)
    ensures
        final(out)@ == old(out)@ + int_text(n as int),
{
    if n < 0 {
        out.push('-');
        let m: u64 = if n == i64::MIN {
            9223372036854775808u64
        } else {
            (-n) as u64
        };
        push_dec(out, m);
        proof {
            assert(out@ =~= old(out)@ + int_text(n as int));
        }
    } else {
        push_dec(out, n as u64);
    }
}

/// Append the text of an expression to `out`.
fn push_expr(out: &mut Vec<char>, e: &Expr)
    ensures
        final(out)@ == old(out)@ + print_expr(expr_view(*e)),
    decreases *e, 0int,
{
    match e {
        Expr::Integer(n) => push_int(out, *n),
        Expr::Float(tx) => push_str(out, tx.as_str()),
        Expr::Text(tx) => push_str(out, tx.as_str()),
        Expr::Identifier(name) => push_str(out, name.as_str()),
        Expr::Boolean(b) => {
            if *b {
                push_str(out, "true");
            } else {
                push_str(out, "false");
            }
        },
        Expr::FnCall(name, args) => {
            push_str(out, name.as_str());
            push_str(out, "(");
            push_args(out, args, 0);
            push_str(out, ")");
            proof {
                assert(out@ =~= old(out)@ + print_expr(expr_view(*e)));
            }
        },
        Expr::Dot(l, r) => {
            push_str(out, "(");
            push_expr(out, l);
            push_str(out, ".");
            push_expr(out, r);
            push_str(out, ")");
            proof {
                assert(out@ =~= old(out)@ + print_expr(expr_view(*e)));
            }
        },
        Expr::Index(name, idx) => {
            push_str(out, name.as_str());
            push_str(out, "[");
            push_expr(out, idx);
            push_str(out, "]");
            proof {
                assert(out@ =~= old(out)@ + print_expr(expr_view(*e)));
            }
        },
        Expr::Assignment(l, r) => {
            push_str(out, "(");
            push_expr(out, l);
            push_str(out, " = ");
            push_expr(out, r);
            push_str(out, ")");
            proof {
                assert(out@ =~= old(out)@ + print_expr(expr_view(*e)));
            }
        },
        Expr::Binary(op, l, r) => {
            push_str(out, "(");
            push_expr(out, l);
            match op {
                BinOp::Add => push_str(out, " + "),
                BinOp::Sub => push_str(out, " - "),
                BinOp::Mul => push_str(out, " * "),
                BinOp::Div => push_str(out, " / "),
                BinOp::Lt => push_str(out, " < "),
                BinOp::Gt => push_str(out, " > "),
                BinOp::Eq => push_str(out, " == "),
                BinOp::Ne => push_str(out, " ~= "),
                BinOp::And => push_str(out, " && "),
            }
            push_expr(out, r);
            push_str(out, ")");
            proof {
                assert(out@ =~= old(out)@ + print_expr(expr_view(*e)));
            }
        },
    }
}

/// Append the argument texts from index `j` on.
fn push_args(out: &mut Vec<char>, args: &Vec<Expr>, j: usize)
    ensures
        final(out)@ == old(out)@ + print_args(crate::ast::exprs_view(args@), j as int),
    decreases args@, args@.len() - j,
{
    let n = args.len();
    proof {
        lemma_exprs_view_len(args@);
    }
    if j >= n {
    } else if j == n - 1 {
        proof {
            lemma_exprs_view_index(args@, j as int);
        }
        push_expr(out, &args[j]);
    } else {
        proof {
            lemma_exprs_view_index(args@, j as int);
        }
        push_expr(out, &args[j]);
        push_str(out, ", ");
        push_args(out, args, j + 1);
        proof {
            assert(out@ =~= old(out)@ + print_args(crate::ast::exprs_view(args@), j as int));
        }
    }
}

/// A row of expressions and its model have the same length.
proof fn lemma_exprs_view_len(es: Seq<Expr>)
    ensures
        crate::ast::exprs_view(es).len() == es.len(),
    decreases es.len(),
{
    if es.len() > 0 {
        lemma_exprs_view_len(es.drop_last());
    }
}

/// The model of a row of expressions is the row of the models.
proof fn lemma_exprs_view_index(es: Seq<Expr>, i: int)
    requires
        0 <= i < es.len(),
    ensures
        crate::ast::exprs_view(es).len() == es.len(),
        crate::ast::exprs_view(es)[i] == expr_view(es[i]),
    decreases es.len(),
{
    lemma_exprs_view_len(es);
    if i < es.len() - 1 {
        lemma_exprs_view_index(es.drop_last(), i);
    }
}

/// A row of statements and its model have the same length.
proof fn lemma_stmts_view_len(ss: Seq<Statement>)
    ensures
        crate::ast::stmts_view(ss).len() == ss.len(),
    decreases ss.len(),
{
    if ss.len() > 0 {
        lemma_stmts_view_len(ss.drop_last());
    }
}

/// The model of a row of statements is the row of the models.
proof fn lemma_stmts_view_index(ss: Seq<Statement>, i: int)
    requires
        0 <= i < ss.len(),
    ensures
        crate::ast::stmts_view(ss).len() == ss.len(),
        crate::ast::stmts_view(ss)[i] == stmt_view(ss[i]),
    decreases ss.len(),
{
    lemma_stmts_view_len(ss);
    if i < ss.len() - 1 {
        lemma_stmts_view_index(ss.drop_last(), i);
    }
}

/// A row of parameters and its model have the same length.
proof fn lemma_params_view_len(ps: Seq<Param>)
    ensures
        crate::ast::params_view(ps).len() == ps.len(),
    decreases ps.len(),
{
    if ps.len() > 0 {
        lemma_params_view_len(ps.drop_last());
    }
}

/// The model of a row of parameters is the row of the models.
proof fn lemma_params_view_index(ps: Seq<Param>, i: int)
    requires
        0 <= i < ps.len(),
    ensures
        crate::ast::params_view(ps).len() == ps.len(),
        crate::ast::params_view(ps)[i] == param_view(ps[i]),
    decreases ps.len(),
{
    lemma_params_view_len(ps);
    if i < ps.len() - 1 {
        lemma_params_view_index(ps.drop_last(), i);
    }
}

/// A row of items and its model have the same length.
proof fn lemma_items_view_len(its: Seq<Item>)
    ensures
        crate::ast::items_view(its).len() == its.len(),
    decreases its.len(),
{
    if its.len() > 0 {
        lemma_items_view_len(its.drop_last());
    }
}

/// The model of a row of items is the row of the models.
proof fn lemma_items_view_index(its: Seq<Item>, i: int)
    requires
        0 <= i < its.len(),
    ensures
        crate::ast::items_view(its).len() == its.len(),
        crate::ast::items_view(its)[i] == item_view(its[i]),
    decreases its.len(),
{
    lemma_items_view_len(its);
    if i < its.len() - 1 {
        lemma_items_view_index(its.drop_last(), i);
    }
}

/// Append the text of a statement to `out`.
fn push_stmt(out: &mut Vec<char>, st: &Statement)
    ensures
        final(out)@ == old(out)@ + print_stmt(stmt_view(*st)),
    decreases *st, 0int,
{
    match st {
        Statement::If(c, body) => {
            push_str(out, "if ");
            push_expr(out, c);
            push_str(out, "\n");
            push_stmt(out, body);
            push_str(out, "end\n");
            proof {
                assert(out@ =~= old(out)@ + print_stmt(stmt_view(*st)));
            }
        },
        Statement::IfElse(c, t, e) => {
            push_str(out, "if ");
            push_expr(out, c);
            push_str(out, "\n");
            push_stmt(out, t);
            push_str(out, "else\n");
            push_stmt(out, e);
            push_str(out, "end\n");
            proof {
                assert(out@ =~= old(out)@ + print_stmt(stmt_view(*st)));
            }
        },
        Statement::Unless(c, body) => {
            push_str(out, "unless ");
            push_expr(out, c);
            push_str(out, "\n");
            push_stmt(out, body);
            push_str(out, "end\n");
            proof {
                assert(out@ =~= old(out)@ + print_stmt(stmt_view(*st)));
            }
        },
        Statement::UnlessElse(c, t, e) => {
            push_str(out, "unless ");
            push_expr(out, c);
            push_str(out, "\n");
            push_stmt(out, t);
            push_str(out, "else\n");
            push_stmt(out, e);
            push_str(out, "end\n");
            proof {
                assert(out@ =~= old(out)@ + print_stmt(stmt_view(*st)));
            }
        },
        Statement::Var(name, init) => {
            match init {
                Some(e) => {
                    push_str(out, "(");
                    push_str(out, name.as_str());
                    push_str(out, " = ");
                    push_expr(out, e);
                    push_str(out, ")\n");
                },
                None => {
                    push_str(out, name.as_str());
                    push_str(out, "\n");
                },
            }
            proof {
                assert(out@ =~= old(out)@ + print_stmt(stmt_view(*st)));
            }
        },
        Statement::Block(stmts) => {
            push_stmts(out, stmts, 0);
        },
        Statement::Expr(e) => {
            push_expr(out, e);
            push_str(out, "\n");
            proof {
                assert(out@ =~= old(out)@ + print_stmt(stmt_view(*st)));
            }
        },
        Statement::Return => {
            push_str(out, "return\n");
        },
        Statement::ReturnWithVal(e) => {
            push_str(out, "return ");
            push_expr(out, e);
            push_str(out, "\n");
            proof {
                assert(out@ =~= old(out)@ + print_stmt(stmt_view(*st)));
            }
        },
    }
}

/// Append the statement texts from index `j` on.
fn push_stmts(out: &mut Vec<char>, stmts: &Vec<Statement>, j: usize)
    ensures
        final(out)@ == old(out)@ + print_stmts(crate::ast::stmts_view(stmts@), j as int),
    decreases stmts@, stmts@.len() - j,
{
    let n = stmts.len();
    proof {
        lemma_stmts_view_len(stmts@);
    }
    if j < n {
        proof {
            lemma_stmts_view_index(stmts@, j as int);
        }
        push_stmt(out, &stmts[j]);
        push_stmts(out, stmts, j + 1);
        proof {
            assert(out@ =~= old(out)@ + print_stmts(crate::ast::stmts_view(stmts@), j as int));
        }
    }
}

/// Append the parameter texts from index `j` on.
fn push_params(out: &mut Vec<char>, ps: &Vec<Param>, j: usize)
    ensures
        final(out)@ == old(out)@ + print_params(crate::ast::params_view(ps@), j as int),
    decreases ps@.len() - j,
{
    let n = ps.len();
    proof {
        lemma_params_view_len(ps@);
    }
    if j >= n {
    } else {
        proof {
            lemma_params_view_index(ps@, j as int);
        }
        push_str(out, ps[j].name.as_str());
        push_str(out, ": ");
        push_str(out, ps[j].ty.as_str());
        if j < n - 1 {
            push_str(out, ", ");
            push_params(out, ps, j + 1);
        }
        proof {
            assert(out@ =~= old(out)@ + print_params(crate::ast::params_view(ps@), j as int));
        }
    }
}

/// Append the text of a function declaration to `out`.
fn push_fn(out: &mut Vec<char>, f: &Function)
    ensures
        final(out)@ == old(out)@ + print_fn(fn_view(*f)),
{
    push_str(out, "func ");
    push_str(out, f.name.as_str());
    push_str(out, "(");
    push_params(out, &f.params, 0);
    push_str(out, ")");
    if f.ret.as_str().unicode_len() > 0 {
        push_str(out, " -> ");
        push_str(out, f.ret.as_str());
    }
    push_str(out, "\n");
    push_stmt(out, &f.body);
    push_str(out, "end\n");
    proof {
        assert(out@ =~= old(out)@ + print_fn(fn_view(*f)));
    }
}

/// Every character of a decimal spelling is a digit, and there is at
/// least one.
proof fn lemma_dec_text_digits(n: nat)
    ensures
        dec_text(n).len() >= 1,
        forall|k: int|
            0 <= k < dec_text(n).len() ==> crate::lexer::is_digit_char(#[trigger] dec_text(n)[k]),
    decreases n,
{
    if n >= 10 {
        lemma_dec_text_digits(n / 10);
    }
}

/// Appending a character does not change the value read from the
/// untouched stretch before it.
proof fn lemma_digits_val_snoc(s: Seq<char>, c: char, i: int, j: int)
    requires
        0 <= i,
        j <= s.len(),
    ensures
        crate::lexer::digits_val(s.push(c), i, j) == crate::lexer::digits_val(s, i, j),
        crate::lexer::dot_count(s.push(c), i, j) == crate::lexer::dot_count(s, i, j),
    decreases j - i,
{
    reveal_with_fuel(crate::lexer::digits_val, 2);
    reveal_with_fuel(crate::lexer::dot_count, 2);
    if i < j {
        lemma_digits_val_snoc(s, c, i, j - 1);
        assert(s.push(c)[j - 1] == s[j - 1]);
    }
}

/// Reading a decimal spelling back gives the number it spells, and no
/// point stands in it.
proof fn lemma_dec_text_value(n: nat)
    ensures
        crate::lexer::digits_val(dec_text(n), 0, dec_text(n).len() as int) == n,
        crate::lexer::dot_count(dec_text(n), 0, dec_text(n).len() as int) == 0,
    decreases n,
{
    lemma_dec_text_digits(n);
    reveal_with_fuel(crate::lexer::digits_val, 3);
    reveal_with_fuel(crate::lexer::dot_count, 3);
    if n < 10 {
        assert(crate::lexer::digits_val(dec_text(n), 0, 1) == crate::lexer::digit_of(
            dec_text(n)[0],
        ));
    } else {
        lemma_dec_text_value(n / 10);
        let s = dec_text((n / 10) as nat);
        let c = digit_text(n % 10);
        lemma_digits_val_snoc(s, c, 0, s.len() as int);
        assert(crate::lexer::digits_val(s.push(c), 0, s.len() as int + 1) == crate::lexer::digits_val(
            s.push(c),
            0,
            s.len() as int,
        ) * 10 + crate::lexer::digit_of(c));
    }
}

/// A run of digits that fills the rest of the input scans to its end.
proof fn lemma_num_end_full(s: Seq<char>, i: int)
    requires
        0 <= i <= s.len(),
        forall|k: int| i <= k < s.len() ==> crate::lexer::is_digit_char(#[trigger] s[k]),
    ensures
        crate::lexer::num_end(s, i) == s.len(),
    decreases s.len() - i,
{
    if i < s.len() {
        lemma_num_end_full(s, i + 1);
    }
}

/// Printing an integer literal and parsing the text back yields the
/// same literal, for every value an integer token can carry: the
/// round trip through the printer and the expression grammar is the
/// identity on integer literals.
pub proof fn lemma_print_parse_integer(n: int)
    requires
        0 <= n <= i64::MAX,
    ensures
        ({
            let s = print_expr(SpecExpr::Integer(n));
            crate::parser::sp_expr(s, 0, 0, crate::parser::fuel_for(s)) == crate::parser::Parsed::Done(
                SpecExpr::Integer(n),
                s.len() as int,
            )
        }),
{
    let s = print_expr(SpecExpr::Integer(n));
    lemma_dec_text_digits(n as nat);
    lemma_dec_text_value(n as nat);
    lemma_num_end_full(s, 1);
    let len = s.len() as int;
    assert(crate::lexer::ws_end(s, 0) == 0);
    assert(crate::lexer::token_at(s, 0) == crate::lexer::LexStep::Tok(
        crate::token::SpecTok::Integer(n),
        len,
    ));
    assert(crate::lexer::ws_end(s, len) == len);
    assert(crate::lexer::token_at(s, len) == crate::lexer::LexStep::End);
    let fuel = crate::parser::fuel_for(s);
    assert(crate::parser::sp_primary(s, 0, (fuel - 1) as nat) == crate::parser::Parsed::Done(
        SpecExpr::Integer(n),
        len,
    ));
    assert(crate::parser::sp_climb(s, len, SpecExpr::Integer(n), 0, (fuel - 2) as nat)
        == crate::parser::Parsed::Done(SpecExpr::Integer(n), len));
}

/// The source text of an expression, fully parenthesized.
pub fn expr_to_source(e: &Expr) -> (r: Vec<char>)
    ensures
        r@ == print_expr(expr_view(*e)),
{
    let mut out: Vec<char> = Vec::new();
    push_expr(&mut out, e);
    out
}

/// The source text of a statement.
pub fn stmt_to_source(st: &Statement) -> (r: Vec<char>)
    ensures
        r@ == print_stmt(stmt_view(*st)),
{
    let mut out: Vec<char> = Vec::new();
    push_stmt(&mut out, st);
    out
}

/// The source text of a function declaration.
pub fn fn_to_source(f: &Function) -> (r: Vec<char>)
    ensures
        r@ == print_fn(fn_view(*f)),
{
    let mut out: Vec<char> = Vec::new();
    push_fn(&mut out, f);
    out
}

/// The source text of a whole program.
pub fn program_to_source(p: &Program) -> (r: Vec<char>)
    ensures
        r@ == print_items(crate::ast::program_view(*p), 0),
{
    let mut out: Vec<char> = Vec::new();
    let n = p.items.len();
    proof {
        lemma_items_view_len(p.items@);
    }
    let mut j: usize = 0;
    while j < n
        invariant
            n == p.items@.len(),
            j <= n,
            crate::ast::items_view(p.items@).len() == n,
            out@ + print_items(crate::ast::items_view(p.items@), j as int) =~= print_items(
                crate::ast::items_view(p.items@),
                0,
            ),
        decreases n - j,
    {
        proof {
            lemma_items_view_index(p.items@, j as int);
        }
        match &p.items[j] {
            Item::Function(f) => push_fn(&mut out, f),
            Item::Statement(st) => push_stmt(&mut out, st),
        }
        j += 1;
        proof {
            assert(out@ + print_items(crate::ast::items_view(p.items@), j as int) =~= print_items(
                crate::ast::items_view(p.items@),
                0,
            ));
        }
    }
    proof {
        assert(out@ =~= print_items(crate::ast::items_view(p.items@), 0));
    }
    out
}

} // verus!
