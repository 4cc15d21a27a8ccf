//! The parser: recursive descent with precedence climbing, from a
//! token stream to a forest of declarations.
//!
//! Each parsing function has a specification twin over token views:
//! what it parses, what it reports, and where it leaves the cursor.

use vstd::prelude::*;

use std::rc::Rc;

use crate::ast::{
    wrap_expr, Assign, Binary, BlockStmt, BreakStmt, Call, Decl, DeclRef, DeclV, Expr, ExprStmt,
    ExprV, Expression, FunDecl, Grouping, IfStmt, Literal, Logical, PrintStmt, ReturnStmt, Stmt,
    StmtDecl, StmtV, TokenRef, Unary, VarDecl, WhileStmt,
};
use crate::ast::{block_view, decl_view, decl_views, expression_view, exprs_views, stmt_view};
use crate::shared::rc_clone;
use crate::tokens::{spec_variant_id, Token, TokenType, TokenTypeV, TokenV};

verus! {

/// What parsing one piece yields: the parsed view or an error message,
/// and the cursor after it.
pub struct PRes<T> {
    pub result: Result<T, Seq<char>>,
    pub cursor: int,
}

/// The views of shared tokens.
pub open spec fn tok_views(ts: Seq<TokenRef>) -> Seq<TokenV> {
    crate::ast::token_views_of(ts)
}

/// Whether the cursor has reached the closing end-of-file token.
pub open spec fn spec_is_end(toks: Seq<TokenV>, cur: int) -> bool {
    cur + 1 >= toks.len()
}

/// Whether the token under the cursor is of the same variant as `t`.
pub open spec fn spec_check(toks: Seq<TokenV>, cur: int, t: TokenTypeV) -> bool {
    !spec_is_end(toks, cur) && 0 <= cur && spec_variant_id(toks[cur].ttype) == spec_variant_id(t)
}

/// The outcome of a parsing function that failed to move: never
/// reached from a cursor inside the token list.
pub open spec fn stalled<T>(cur: int) -> PRes<T> {
    PRes { result: Err("parse did not advance"@), cursor: cur }
}

/// A likely statement boundary for error recovery: the end of the
/// tokens, a position just past a semicolon, or a keyword that starts
/// a statement standing under the cursor.
pub open spec fn spec_sync_boundary(toks: Seq<TokenV>, cur: int) -> bool {
    spec_is_end(toks, cur) || (1 <= cur <= toks.len() && spec_variant_id(toks[cur - 1].ttype)
        == spec_variant_id(TokenTypeV::Semicolon)) || spec_check(toks, cur, TokenTypeV::Class)
        || spec_check(toks, cur, TokenTypeV::Fun) || spec_check(toks, cur, TokenTypeV::Var)
        || spec_check(toks, cur, TokenTypeV::For) || spec_check(toks, cur, TokenTypeV::If)
        || spec_check(toks, cur, TokenTypeV::While) || spec_check(toks, cur, TokenTypeV::Print)
        || spec_check(toks, cur, TokenTypeV::Return)
}

/// A list of expression views is as long as the list it views.
proof fn lemma_exprs_views_len(es: Seq<Expression>)
    ensures
        exprs_views(es).len() == es.len(),
    decreases es,
{
    if es.len() > 0 {
        lemma_exprs_views_len(es.drop_last());
    }
}

/// Parses a primary expression: a literal, an identifier, or a
/// parenthesized expression.
pub open spec fn spec_parse_primary(toks: Seq<TokenV>, cur: int) -> PRes<ExprV>
    decreases toks.len() - cur, 2int,
{
    if spec_check(toks, cur, TokenTypeV::LeftParen) {
        let e = spec_parse_expression(toks, cur + 1);
        match e.result {
            Ok(ev) => if spec_check(toks, e.cursor, TokenTypeV::RightParen) {
                PRes { result: Ok(ExprV::Grouping(Box::new(ev))), cursor: e.cursor + 1 }
            } else {
                PRes { result: Err("right brace missing"@), cursor: e.cursor }
            },
            Err(m) => PRes { result: Err(m), cursor: e.cursor },
        }
    } else if spec_check(toks, cur, TokenTypeV::False) || spec_check(toks, cur, TokenTypeV::True)
        || spec_check(toks, cur, TokenTypeV::Nil) || spec_check(toks, cur, TokenTypeV::Str(Seq::empty()))
        || spec_check(toks, cur, TokenTypeV::Number(0)) || spec_check(toks, cur, TokenTypeV::Identifier) {
        PRes { result: Ok(ExprV::Literal(toks[cur])), cursor: cur + 1 }
    } else {
        PRes { result: Err("literal expected"@), cursor: cur }
    }
}

/// Parses the arguments of a call after its opening parenthesis, the
/// accumulated views given; the closing parenthesis is left for the
/// caller.
pub open spec fn spec_parse_args(toks: Seq<TokenV>, cur: int, acc: Seq<ExprV>) -> PRes<Seq<ExprV>>
    decreases toks.len() - cur, 14int,
{
    let e = spec_parse_expression(toks, cur);
    match e.result {
        Ok(ev) => {
            let acc1 = acc.push(ev);
            if spec_check(toks, e.cursor, TokenTypeV::Comma) {
                if acc1.len() > 255 {
                    PRes { result: Err("too many arguments"@), cursor: e.cursor + 1 }
                } else if cur < e.cursor + 1 && e.cursor + 1 <= toks.len() {
                    spec_parse_args(toks, e.cursor + 1, acc1)
                } else {
                    stalled(e.cursor)
                }
            } else {
                PRes { result: Ok(acc1), cursor: e.cursor }
            }
        },
        Err(m) => PRes { result: Err(m), cursor: e.cursor },
    }
}

/// Parses a call: a primary, optionally followed by one argument list
/// in parentheses.
pub open spec fn spec_parse_call(toks: Seq<TokenV>, cur: int) -> PRes<ExprV>
    decreases toks.len() - cur, 3int,
{
    let p = spec_parse_primary(toks, cur);
    match p.result {
        Ok(pv) => if spec_check(toks, p.cursor, TokenTypeV::LeftParen) {
            if cur < p.cursor + 1 && p.cursor + 1 <= toks.len() {
                let a = if spec_check(toks, p.cursor + 1, TokenTypeV::RightParen) {
                    PRes { result: Ok(Seq::<ExprV>::empty()), cursor: p.cursor + 1 }
                } else {
                    spec_parse_args(toks, p.cursor + 1, Seq::empty())
                };
                match a.result {
                    Ok(args) => if spec_check(toks, a.cursor, TokenTypeV::RightParen) {
                        PRes {
                            result: Ok(ExprV::Call(Box::new(pv), args)),
                            cursor: a.cursor + 1,
                        }
                    } else {
                        PRes { result: Err("expected ')' after arguments"@), cursor: a.cursor }
                    },
                    Err(m) => PRes { result: Err(m), cursor: a.cursor },
                }
            } else {
                stalled(p.cursor)
            }
        } else {
            p
        },
        Err(m) => p,
    }
}

/// Parses a unary expression: `!` or `-` applied recursively, or a
/// call.
pub open spec fn spec_parse_unary(toks: Seq<TokenV>, cur: int) -> PRes<ExprV>
    decreases toks.len() - cur, 4int,
{
    if spec_check(toks, cur, TokenTypeV::Bang) || spec_check(toks, cur, TokenTypeV::Minus) {
        let u = spec_parse_unary(toks, cur + 1);
        match u.result {
            Ok(uv) => PRes { result: Ok(ExprV::Unary(toks[cur], Box::new(uv))), cursor: u.cursor },
            Err(m) => u,
        }
    } else {
        spec_parse_call(toks, cur)
    }
}

/// Extends a parsed left operand with `/` or `*` operators, left
/// associatively.
pub open spec fn spec_factor_chain(toks: Seq<TokenV>, cur: int, left: ExprV) -> PRes<ExprV>
    decreases toks.len() - cur, 0int,
{
    if spec_check(toks, cur, TokenTypeV::Slash) || spec_check(toks, cur, TokenTypeV::Star) {
        let r = spec_parse_unary(toks, cur + 1);
        match r.result {
            Ok(rv) => if cur < r.cursor && r.cursor <= toks.len() {
                spec_factor_chain(toks, r.cursor, ExprV::Binary(Box::new(left), toks[cur], Box::new(rv)))
            } else {
                stalled(r.cursor)
            },
            Err(m) => PRes { result: Err(m), cursor: r.cursor },
        }
    } else {
        PRes { result: Ok(left), cursor: cur }
    }
}

/// Parses a factor: unary expressions joined by `/` or `*`.
pub open spec fn spec_parse_factor(toks: Seq<TokenV>, cur: int) -> PRes<ExprV>
    decreases toks.len() - cur, 5int,
{
    let l = spec_parse_unary(toks, cur);
    match l.result {
        Ok(lv) => if cur <= l.cursor && l.cursor <= toks.len() {
            spec_factor_chain(toks, l.cursor, lv)
        } else {
            stalled(l.cursor)
        },
        Err(m) => l,
    }
}

/// Extends a parsed left operand with `-` or `+` operators.
pub open spec fn spec_term_chain(toks: Seq<TokenV>, cur: int, left: ExprV) -> PRes<ExprV>
    decreases toks.len() - cur, 0int,
{
    if spec_check(toks, cur, TokenTypeV::Minus) || spec_check(toks, cur, TokenTypeV::Plus) {
        let r = spec_parse_factor(toks, cur + 1);
        match r.result {
            Ok(rv) => if cur < r.cursor && r.cursor <= toks.len() {
                spec_term_chain(toks, r.cursor, ExprV::Binary(Box::new(left), toks[cur], Box::new(rv)))
            } else {
                stalled(r.cursor)
            },
            Err(m) => PRes { result: Err(m), cursor: r.cursor },
        }
    } else {
        PRes { result: Ok(left), cursor: cur }
    }
}

/// Parses a term: factors joined by `-` or `+`.
pub open spec fn spec_parse_term(toks: Seq<TokenV>, cur: int) -> PRes<ExprV>
    decreases toks.len() - cur, 6int,
{
    let l = spec_parse_factor(toks, cur);
    match l.result {
        Ok(lv) => if cur <= l.cursor && l.cursor <= toks.len() {
            spec_term_chain(toks, l.cursor, lv)
        } else {
            stalled(l.cursor)
        },
        Err(m) => l,
    }
}

/// Extends a parsed left operand with comparison operators.
pub open spec fn spec_comparison_chain(toks: Seq<TokenV>, cur: int, left: ExprV) -> PRes<ExprV>
    decreases toks.len() - cur, 0int,
{
    if spec_check(toks, cur, TokenTypeV::Greater) || spec_check(toks, cur, TokenTypeV::GreaterEqual)
        || spec_check(toks, cur, TokenTypeV::Less) || spec_check(toks, cur, TokenTypeV::LessEqual) {
        let r = spec_parse_term(toks, cur + 1);
        match r.result {
            Ok(rv) => if cur < r.cursor && r.cursor <= toks.len() {
                spec_comparison_chain(toks, r.cursor, ExprV::Binary(Box::new(left), toks[cur], Box::new(rv)))
            } else {
                stalled(r.cursor)
            },
            Err(m) => PRes { result: Err(m), cursor: r.cursor },
        }
    } else {
        PRes { result: Ok(left), cursor: cur }
    }
}

/// Parses a comparison: terms joined by `>`, `>=`, `<` or `<=`.
pub open spec fn spec_parse_comparison(toks: Seq<TokenV>, cur: int) -> PRes<ExprV>
    decreases toks.len() - cur, 7int,
{
    let l = spec_parse_term(toks, cur);
    match l.result {
        Ok(lv) => if cur <= l.cursor && l.cursor <= toks.len() {
            spec_comparison_chain(toks, l.cursor, lv)
        } else {
            stalled(l.cursor)
        },
        Err(m) => l,
    }
}

/// Extends a parsed left operand with `==` or `!=` operators.
pub open spec fn spec_equality_chain(toks: Seq<TokenV>, cur: int, left: ExprV) -> PRes<ExprV>
    decreases toks.len() - cur, 0int,
{
    if spec_check(toks, cur, TokenTypeV::EqualEqual) || spec_check(toks, cur, TokenTypeV::BangEqual) {
        let r = spec_parse_comparison(toks, cur + 1);
        match r.result {
            Ok(rv) => if cur < r.cursor && r.cursor <= toks.len() {
                spec_equality_chain(toks, r.cursor, ExprV::Binary(Box::new(left), toks[cur], Box::new(rv)))
            } else {
                stalled(r.cursor)
            },
            Err(m) => PRes { result: Err(m), cursor: r.cursor },
        }
    } else {
        PRes { result: Ok(left), cursor: cur }
    }
}

/// Parses an equality: comparisons joined by `==` or `!=`.
pub open spec fn spec_parse_equality(toks: Seq<TokenV>, cur: int) -> PRes<ExprV>
    decreases toks.len() - cur, 8int,
{
    let l = spec_parse_comparison(toks, cur);
    match l.result {
        Ok(lv) => if cur <= l.cursor && l.cursor <= toks.len() {
            spec_equality_chain(toks, l.cursor, lv)
        } else {
            stalled(l.cursor)
        },
        Err(m) => l,
    }
}

/// Extends a parsed left operand with `and` connectives.
pub open spec fn spec_and_chain(toks: Seq<TokenV>, cur: int, left: ExprV) -> PRes<ExprV>
    decreases toks.len() - cur, 0int,
{
    if spec_check(toks, cur, TokenTypeV::And) {
        let r = spec_parse_equality(toks, cur + 1);
        match r.result {
            Ok(rv) => if cur < r.cursor && r.cursor <= toks.len() {
                spec_and_chain(toks, r.cursor, ExprV::Logical(Box::new(left), toks[cur], Box::new(rv)))
            } else {
                stalled(r.cursor)
            },
            Err(m) => PRes { result: Err(m), cursor: r.cursor },
        }
    } else {
        PRes { result: Ok(left), cursor: cur }
    }
}

/// Parses a conjunction: equalities joined by `and`.
pub open spec fn spec_parse_logic_and(toks: Seq<TokenV>, cur: int) -> PRes<ExprV>
    decreases toks.len() - cur, 9int,
{
    let l = spec_parse_equality(toks, cur);
    match l.result {
        Ok(lv) => if cur <= l.cursor && l.cursor <= toks.len() {
            spec_and_chain(toks, l.cursor, lv)
        } else {
            stalled(l.cursor)
        },
        Err(m) => l,
    }
}

/// Extends a parsed left operand with `or` connectives.
pub open spec fn spec_or_chain(toks: Seq<TokenV>, cur: int, left: ExprV) -> PRes<ExprV>
    decreases toks.len() - cur, 0int,
{
    if spec_check(toks, cur, TokenTypeV::Or) {
        let r = spec_parse_logic_and(toks, cur + 1);
        match r.result {
            Ok(rv) => if cur < r.cursor && r.cursor <= toks.len() {
                spec_or_chain(toks, r.cursor, ExprV::Logical(Box::new(left), toks[cur], Box::new(rv)))
            } else {
                stalled(r.cursor)
            },
            Err(m) => PRes { result: Err(m), cursor: r.cursor },
        }
    } else {
        PRes { result: Ok(left), cursor: cur }
    }
}

/// Parses a disjunction: conjunctions joined by `or`.
pub open spec fn spec_parse_logic_or(toks: Seq<TokenV>, cur: int) -> PRes<ExprV>
    decreases toks.len() - cur, 10int,
{
    let l = spec_parse_logic_and(toks, cur);
    match l.result {
        Ok(lv) => if cur <= l.cursor && l.cursor <= toks.len() {
            spec_or_chain(toks, l.cursor, lv)
        } else {
            stalled(l.cursor)
        },
        Err(m) => l,
    }
}

/// Parses an assignment: an identifier followed by `=` starts one,
/// parsed right recursively; anything else falls back to `or`.
pub open spec fn spec_parse_assignment(toks: Seq<TokenV>, cur: int) -> PRes<ExprV>
    decreases toks.len() - cur, 11int,
{
    if spec_check(toks, cur, TokenTypeV::Identifier) && spec_check(toks, cur + 1, TokenTypeV::Equal) {
        let v = spec_parse_assignment(toks, cur + 2);
        match v.result {
            Ok(vv) => PRes { result: Ok(ExprV::Assign(toks[cur], Box::new(vv))), cursor: v.cursor },
            Err(m) => v,
        }
    } else {
        spec_parse_logic_or(toks, cur)
    }
}

/// Parses an expression.
pub open spec fn spec_parse_expression(toks: Seq<TokenV>, cur: int) -> PRes<ExprV>
    decreases toks.len() - cur, 12int,
{
    spec_parse_assignment(toks, cur)
}

/// Parses the declarations of a block up to and including its closing
/// brace.
pub open spec fn spec_block_decls(toks: Seq<TokenV>, cur: int) -> PRes<Seq<DeclV>>
    decreases toks.len() - cur, 30int,
{
    if spec_check(toks, cur, TokenTypeV::RightBrace) {
        PRes { result: Ok(Seq::empty()), cursor: cur + 1 }
    } else {
        let d = spec_parse_declaration(toks, cur);
        match d.result {
            Ok(dv) => if cur < d.cursor && d.cursor <= toks.len() {
                let rest = spec_block_decls(toks, d.cursor);
                match rest.result {
                    Ok(ds) => PRes { result: Ok(seq![dv] + ds), cursor: rest.cursor },
                    Err(m) => PRes { result: Err(m), cursor: rest.cursor },
                }
            } else {
                stalled(d.cursor)
            },
            Err(m) => PRes { result: Err(m), cursor: d.cursor },
        }
    }
}

/// Parses a block: `{`, unless already consumed, then declarations up
/// to the closing `}`.
pub open spec fn spec_parse_block_stmt(toks: Seq<TokenV>, cur: int, ft_consumed: bool) -> PRes<Seq<DeclV>>
    decreases toks.len() - cur, 31int,
{
    if ft_consumed {
        spec_block_decls(toks, cur)
    } else {
        if spec_check(toks, cur, TokenTypeV::LeftBrace) {
            spec_block_decls(toks, cur + 1)
        } else {
            PRes { result: Err("expected '{' at start of block"@), cursor: cur }
        }
    }
}

/// Parses an if statement after its keyword: a condition, a
/// then-branch, and an optional else-branch.
pub open spec fn spec_parse_if_stmt(toks: Seq<TokenV>, cur: int) -> PRes<StmtV>
    decreases toks.len() - cur, 27int,
{
    let c = spec_parse_expression(toks, cur);
    match c.result {
        Ok(cv) => if cur < c.cursor && c.cursor <= toks.len() {
            let t = spec_parse_statement(toks, c.cursor);
            match t.result {
                Ok(tv) => if c.cursor <= t.cursor && t.cursor <= toks.len() {
                    if spec_check(toks, t.cursor, TokenTypeV::Else) {
                        let e = spec_parse_statement(toks, t.cursor + 1);
                        match e.result {
                            Ok(ev) => PRes {
                                result: Ok(StmtV::If(cv, Box::new(tv), Some(Box::new(ev)))),
                                cursor: e.cursor,
                            },
                            Err(m) => PRes { result: Err(m), cursor: e.cursor },
                        }
                    } else {
                        PRes { result: Ok(StmtV::If(cv, Box::new(tv), None)), cursor: t.cursor }
                    }
                } else {
                    stalled(t.cursor)
                },
                Err(m) => PRes { result: Err(m), cursor: t.cursor },
            }
        } else {
            stalled(c.cursor)
        },
        Err(m) => PRes { result: Err(m), cursor: c.cursor },
    }
}

/// Parses a while statement after its keyword: a condition and a block
/// body.
pub open spec fn spec_parse_while_stmt(toks: Seq<TokenV>, cur: int) -> PRes<StmtV>
    decreases toks.len() - cur, 27int,
{
    let c = spec_parse_expression(toks, cur);
    match c.result {
        Ok(cv) => if cur < c.cursor && c.cursor <= toks.len() {
            let b = spec_parse_block_stmt(toks, c.cursor, false);
            match b.result {
                Ok(ds) => PRes { result: Ok(StmtV::While(cv, ds)), cursor: b.cursor },
                Err(m) => PRes { result: Err(m), cursor: b.cursor },
            }
        } else {
            stalled(c.cursor)
        },
        Err(m) => PRes { result: Err(m), cursor: c.cursor },
    }
}

/// Parses a statement.
pub open spec fn spec_parse_statement(toks: Seq<TokenV>, cur: int) -> PRes<StmtV>
    decreases toks.len() - cur, 28int,
{
    if spec_check(toks, cur, TokenTypeV::Print) {
        let e = spec_parse_expression(toks, cur + 1);
        match e.result {
            Ok(ev) => if spec_check(toks, e.cursor, TokenTypeV::Semicolon) {
                PRes { result: Ok(StmtV::Print(ev)), cursor: e.cursor + 1 }
            } else {
                PRes { result: Err("semicolon missing"@), cursor: e.cursor }
            },
            Err(m) => PRes { result: Err(m), cursor: e.cursor },
        }
    } else if spec_check(toks, cur, TokenTypeV::LeftBrace) {
        let b = spec_parse_block_stmt(toks, cur + 1, true);
        match b.result {
            Ok(ds) => PRes { result: Ok(StmtV::Block(ds)), cursor: b.cursor },
            Err(m) => PRes { result: Err(m), cursor: b.cursor },
        }
    } else if spec_check(toks, cur, TokenTypeV::If) {
        spec_parse_if_stmt(toks, cur + 1)
    } else if spec_check(toks, cur, TokenTypeV::While) {
        spec_parse_while_stmt(toks, cur + 1)
    } else if spec_check(toks, cur, TokenTypeV::Break) {
        if spec_check(toks, cur + 1, TokenTypeV::Semicolon) {
            PRes { result: Ok(StmtV::Break), cursor: cur + 2 }
        } else {
            PRes { result: Err("semicolon missing"@), cursor: cur + 1 }
        }
    } else if spec_check(toks, cur, TokenTypeV::Return) {
        if spec_check(toks, cur + 1, TokenTypeV::Semicolon) {
            PRes { result: Ok(StmtV::Return(None)), cursor: cur + 2 }
        } else {
            let e = spec_parse_expression(toks, cur + 1);
            match e.result {
                Ok(ev) => if spec_check(toks, e.cursor, TokenTypeV::Semicolon) {
                    PRes { result: Ok(StmtV::Return(Some(ev))), cursor: e.cursor + 1 }
                } else {
                    PRes { result: Err("semicolon missing"@), cursor: e.cursor }
                },
                Err(m) => PRes { result: Err(m), cursor: e.cursor },
            }
        }
    } else {
        let e = spec_parse_expression(toks, cur);
        match e.result {
            Ok(ev) => if spec_check(toks, e.cursor, TokenTypeV::Semicolon) {
                PRes { result: Ok(StmtV::Expression(ev)), cursor: e.cursor + 1 }
            } else {
                PRes { result: Err("semicolon missing"@), cursor: e.cursor }
            },
            Err(m) => PRes { result: Err(m), cursor: e.cursor },
        }
    }
}

/// Parses a variable declaration after its keyword: a name, an
/// optional initializer, and a semicolon.
pub open spec fn spec_parse_var_declaration(toks: Seq<TokenV>, cur: int) -> PRes<DeclV>
    decreases toks.len() - cur, 27int,
{
    if spec_check(toks, cur, TokenTypeV::Identifier) {
        if spec_check(toks, cur + 1, TokenTypeV::Equal) {
            let e = spec_parse_expression(toks, cur + 2);
            match e.result {
                Ok(ev) => if spec_check(toks, e.cursor, TokenTypeV::Semicolon) {
                    PRes { result: Ok(DeclV::Var(toks[cur], Some(ev))), cursor: e.cursor + 1 }
                } else {
                    PRes { result: Err("semicolon missing"@), cursor: e.cursor }
                },
                Err(m) => PRes { result: Err(m), cursor: e.cursor },
            }
        } else {
            if spec_check(toks, cur + 1, TokenTypeV::Semicolon) {
                PRes { result: Ok(DeclV::Var(toks[cur], None)), cursor: cur + 2 }
            } else {
                PRes { result: Err("semicolon missing"@), cursor: cur + 1 }
            }
        }
    } else {
        PRes { result: Err("expected identifier after 'var'"@), cursor: cur }
    }
}

/// Parses the parameter list of a function declaration, ending at and
/// consuming the closing parenthesis.
pub open spec fn spec_parse_params(toks: Seq<TokenV>, cur: int, acc: Seq<TokenV>) -> PRes<Seq<TokenV>>
    decreases toks.len() - cur, 26int,
{
    if acc.len() >= 255 {
        PRes { result: Err("cannot have more than 255 parameters"@), cursor: cur }
    } else {
        let matched = spec_check(toks, cur, TokenTypeV::Identifier);
        let acc1 = if matched {
            acc.push(toks[cur])
        } else {
            acc
        };
        let c = if matched {
            cur + 1
        } else {
            cur
        };
        if spec_check(toks, c, TokenTypeV::Comma) {
            if cur < c + 1 && c + 1 <= toks.len() {
                spec_parse_params(toks, c + 1, acc1)
            } else {
                stalled(c)
            }
        } else {
            if spec_check(toks, c, TokenTypeV::RightParen) {
                PRes { result: Ok(acc1), cursor: c + 1 }
            } else {
                PRes { result: Err("expected paranthesis after parameters"@), cursor: c }
            }
        }
    }
}

/// Parses a function declaration after its keyword: a name, a
/// parameter list in parentheses, and a block body.
pub open spec fn spec_parse_fun_declaration(toks: Seq<TokenV>, cur: int) -> PRes<DeclV>
    decreases toks.len() - cur, 27int,
{
    if spec_check(toks, cur, TokenTypeV::Identifier) {
        if spec_check(toks, cur + 1, TokenTypeV::LeftParen) {
            let ps = if spec_check(toks, cur + 2, TokenTypeV::RightParen) {
                PRes { result: Ok(Seq::<TokenV>::empty()), cursor: cur + 3 }
            } else {
                spec_parse_params(toks, cur + 2, Seq::empty())
            };
            match ps.result {
                Ok(params) => if cur < ps.cursor && ps.cursor <= toks.len() {
                    let b = spec_parse_block_stmt(toks, ps.cursor, false);
                    match b.result {
                        Ok(ds) => PRes {
                            result: Ok(DeclV::Fun(toks[cur], params, ds)),
                            cursor: b.cursor,
                        },
                        Err(m) => PRes { result: Err(m), cursor: b.cursor },
                    }
                } else {
                    stalled(ps.cursor)
                },
                Err(m) => PRes { result: Err(m), cursor: ps.cursor },
            }
        } else {
            PRes { result: Err("expected '(' after function name"@), cursor: cur + 1 }
        }
    } else {
        PRes { result: Err("expected identifier after 'fun'"@), cursor: cur }
    }
}

/// Parses a declaration: a variable declaration, a function
/// declaration, or a statement.
pub open spec fn spec_parse_declaration(toks: Seq<TokenV>, cur: int) -> PRes<DeclV>
    decreases toks.len() - cur, 29int,
{
    if spec_check(toks, cur, TokenTypeV::Var) {
        spec_parse_var_declaration(toks, cur + 1)
    } else if spec_check(toks, cur, TokenTypeV::Fun) {
        spec_parse_fun_declaration(toks, cur + 1)
    } else {
        let s = spec_parse_statement(toks, cur);
        match s.result {
            Ok(sv) => PRes { result: Ok(DeclV::Stmt(sv)), cursor: s.cursor },
            Err(m) => PRes { result: Err(m), cursor: s.cursor },
        }
    }
}

/// Parses a whole program: declarations until the end-of-file token.
pub open spec fn spec_parse_program(toks: Seq<TokenV>, cur: int) -> PRes<Seq<DeclV>>
    decreases toks.len() - cur, 32int,
{
    if spec_is_end(toks, cur) {
        PRes { result: Ok(Seq::empty()), cursor: cur }
    } else {
        let d = spec_parse_declaration(toks, cur);
        match d.result {
            Ok(dv) => if cur < d.cursor && d.cursor <= toks.len() {
                let rest = spec_parse_program(toks, d.cursor);
                match rest.result {
                    Ok(ds) => PRes { result: Ok(seq![dv] + ds), cursor: rest.cursor },
                    Err(m) => PRes { result: Err(m), cursor: rest.cursor },
                }
            } else {
                stalled(d.cursor)
            },
            Err(m) => PRes { result: Err(m), cursor: d.cursor },
        }
    }
}

/// The parser: the token list and a cursor into it.
pub struct Parser {
    pub tokens: Vec<TokenRef>,
    pub token_cursor: usize,
}

impl Parser {
    /// The views of the tokens being parsed.
    pub open spec fn toks(&self) -> Seq<TokenV> {
        tok_views(self.tokens@)
    }

    /// A parser at the start of the given token list.
    pub fn new(tokens: Vec<TokenRef>) -> (r: Parser)
        ensures
            r.tokens == tokens,
            r.token_cursor == 0,
    {
        Parser { tokens, token_cursor: 0 }
    }

    /// Whether the cursor has reached the closing end-of-file token.
    fn is_end(&self) -> (r: bool)
        ensures
            r == spec_is_end(self.toks(), self.token_cursor as int),
    {
        self.tokens.len() == 0 || self.token_cursor >= self.tokens.len() - 1
    }

    /// Whether the token under the cursor is of the same variant as
    /// `ttype`, without committing to it.
    fn check(&self, ttype: &TokenType) -> (r: bool)
        ensures
            r == spec_check(self.toks(), self.token_cursor as int, ttype@),
    {
        if self.is_end() {
            false
        } else {
            proof {
                assert(self.toks()[self.token_cursor as int] == (*self.tokens@[self.token_cursor as int])@);
            }
            self.tokens[self.token_cursor].ttype.same_variant(ttype)
        }
    }

    /// The token under the cursor.
    fn peek(&self) -> (r: TokenRef)
        requires
            self.token_cursor < self.tokens@.len(),
        ensures
            r == self.tokens@[self.token_cursor as int],
    {
        rc_clone(&self.tokens[self.token_cursor])
    }

    /// The token just before the cursor.
    fn previous(&self) -> (r: TokenRef)
        requires
            1 <= self.token_cursor <= self.tokens@.len(),
        ensures
            r == self.tokens@[self.token_cursor - 1],
            (*r)@ == self.toks()[self.token_cursor - 1],
    {
        proof {
            assert(self.toks()[self.token_cursor - 1] == (*self.tokens@[self.token_cursor - 1])@);
        }
        rc_clone(&self.tokens[self.token_cursor - 1])
    }

    /// Moves the cursor one token forward.
    fn advance(&mut self)
        requires
            old(self).token_cursor < old(self).tokens@.len(),
        ensures
            final(self).tokens == old(self).tokens,
            final(self).token_cursor == old(self).token_cursor + 1,
    {
        let n = self.tokens.len();
        assert(self.token_cursor < n);
        self.token_cursor = self.token_cursor + 1;
    }

    /// Moves the cursor one token backward.
    fn retreat(&mut self)
        requires
            old(self).token_cursor >= 1,
        ensures
            final(self).tokens == old(self).tokens,
            final(self).token_cursor == old(self).token_cursor - 1,
    {
        self.token_cursor = self.token_cursor - 1;
    }

    /// Commits to the token under the cursor when it is of the same
    /// variant as `ttype`.
    fn match_t(&mut self, ttype: &TokenType) -> (r: bool)
        requires
            old(self).token_cursor <= old(self).tokens@.len(),
        ensures
            final(self).tokens == old(self).tokens,
            r == spec_check(old(self).toks(), old(self).token_cursor as int, ttype@),
            r ==> final(self).token_cursor == old(self).token_cursor + 1,
            !r ==> final(self).token_cursor == old(self).token_cursor,
    {
        if self.check(ttype) {
            self.advance();
            true
        } else {
            false
        }
    }

    /// Commits to the token under the cursor when it is of the same
    /// variant as `ttype`, and reports the given message otherwise.
    fn consume(&mut self, ttype: &TokenType, errmsg: &str) -> (r: Result<(), String>)
        requires
            old(self).token_cursor <= old(self).tokens@.len(),
        ensures
            final(self).tokens == old(self).tokens,
            match r {
                Ok(_) => spec_check(old(self).toks(), old(self).token_cursor as int, ttype@)
                    && final(self).token_cursor == old(self).token_cursor + 1,
                Err(m) => !spec_check(old(self).toks(), old(self).token_cursor as int, ttype@)
                    && final(self).token_cursor == old(self).token_cursor && m@ == errmsg@,
            },
    {
        if self.check(ttype) {
            self.advance();
            Ok(())
        } else {
            Err(String::from_str(errmsg))
        }
    }

    /// Skips forward to the next likely statement boundary: the cursor
    /// moves at least one token and stops at the first position after
    /// that which is a boundary — just past a semicolon, in front of a
    /// keyword that starts a statement, or the end of the tokens.
    #[verifier::rlimit(50)]
    pub fn synchronize(&mut self)
        requires
            old(self).token_cursor <= old(self).tokens@.len(),
        ensures
            final(self).tokens == old(self).tokens,
            old(self).token_cursor <= final(self).token_cursor <= final(self).tokens@.len(),
            old(self).token_cursor < old(self).tokens@.len() ==> final(self).token_cursor > old(
                self,
            ).token_cursor,
            spec_sync_boundary(old(self).toks(), final(self).token_cursor as int),
            forall|k: int|
                old(self).token_cursor < k < final(self).token_cursor ==> !spec_sync_boundary(
                    old(self).toks(),
                    k,
                ),
    {
        if self.token_cursor < self.tokens.len() {
            self.advance();
            while !self.is_end()
                invariant
                    1 <= self.token_cursor <= self.tokens@.len(),
                    self.tokens == old(self).tokens,
                    old(self).token_cursor < self.token_cursor,
                    forall|k: int|
                        old(self).token_cursor < k < self.token_cursor ==> !spec_sync_boundary(
                            old(self).toks(),
                            k,
                        ),
                decreases self.tokens@.len() - self.token_cursor,
            {
                proof {
                    assert(self.toks()[self.token_cursor - 1] == (*self.tokens@[self.token_cursor
                        - 1])@);
                    assert(self.toks()[self.token_cursor as int] == (*self.tokens@[self.token_cursor
                        as int])@);
                }
                if self.tokens[self.token_cursor - 1].ttype.same_variant(&TokenType::Semicolon) {
                    return;
                }
                let boundary = {
                    let t = &self.tokens[self.token_cursor].ttype;
                    t.same_variant(&TokenType::Class) || t.same_variant(&TokenType::Fun)
                        || t.same_variant(&TokenType::Var) || t.same_variant(&TokenType::For)
                        || t.same_variant(&TokenType::If) || t.same_variant(&TokenType::While)
                        || t.same_variant(&TokenType::Print) || t.same_variant(&TokenType::Return)
                };
                if boundary {
                    return;
                }
                proof {
                    assert(!spec_sync_boundary(old(self).toks(), self.token_cursor as int));
                }
                self.advance();
            }
        }
    }

    /// Parses a primary expression: a literal, an identifier, or a
    /// parenthesized expression.
    #[verifier::rlimit(100)]
    #[verifier::spinoff_prover]
    pub fn primary(&mut self) -> (r: Result<Expression, String>)
        requires
            old(self).token_cursor <= old(self).tokens@.len(),
        ensures
            final(self).tokens == old(self).tokens,
            old(self).token_cursor <= final(self).token_cursor <= final(self).tokens@.len(),
            r is Ok ==> final(self).token_cursor > old(self).token_cursor,
            ({
                let p = spec_parse_primary(old(self).toks(), old(self).token_cursor as int);
                final(self).token_cursor == p.cursor && (match r {
                    Ok(e) => p.result == Ok::<ExprV, Seq<char>>(expression_view(e)),
                    Err(m) => p.result == Err::<ExprV, Seq<char>>(m@),
                })
            }),
        decreases old(self).tokens@.len() - old(self).token_cursor, 2int,
    {
        let ghost toks = old(self).toks();
        let ghost c0 = old(self).token_cursor as int;
        let ghost p = spec_parse_primary(toks, c0);
        if self.match_t(&TokenType::LeftParen) {
            match self.expression() {
                Ok(e) => match self.consume(&TokenType::RightParen, "right brace missing") {
                    Ok(_) => {
                        let node = wrap_expr(Expr::Grouping(Box::new(Grouping { expr: e })));
                        proof {
                            assert(p.cursor == self.token_cursor as int);
                            assert(p.result == Ok::<ExprV, Seq<char>>(expression_view(node)));
                        }
                        Ok(node)
                    },
                    Err(m) => {
                        proof {
                            assert(p.cursor == self.token_cursor as int);
                            assert(p.result == Err::<ExprV, Seq<char>>(m@));
                        }
                        Err(m)
                    },
                },
                Err(m) => {
                    proof {
                        assert(p.cursor == self.token_cursor as int);
                        assert(p.result == Err::<ExprV, Seq<char>>(m@));
                    }
                    Err(m)
                },
            }
        } else if self.match_t(&TokenType::False) || self.match_t(&TokenType::True) || self.match_t(
            &TokenType::Nil,
        ) || self.match_t(&TokenType::Str(String::new())) || self.match_t(&TokenType::Number(0))
            || self.match_t(&TokenType::Identifier) {
            let t = self.previous();
            let node = wrap_expr(Expr::Literal(Literal { value: t }));
            proof {
                assert(p.cursor == self.token_cursor as int);
                assert(p.result == Ok::<ExprV, Seq<char>>(expression_view(node)));
            }
            Ok(node)
        } else {
            let m = String::from_str("literal expected");
            proof {
                assert(p.cursor == self.token_cursor as int);
                assert(p.result == Err::<ExprV, Seq<char>>(m@));
            }
            Err(m)
        }
    }

    /// Parses the arguments of a call after its opening parenthesis;
    /// the closing parenthesis is left for the caller.
    #[verifier::rlimit(100)]
    #[verifier::spinoff_prover]
    fn args_chain(&mut self, acc: Vec<Expression>) -> (r: Result<Vec<Expression>, String>)
        requires
            old(self).token_cursor <= old(self).tokens@.len(),
        ensures
            final(self).tokens == old(self).tokens,
            old(self).token_cursor <= final(self).token_cursor <= final(self).tokens@.len(),
            ({
                let p = spec_parse_args(old(self).toks(), old(self).token_cursor as int, exprs_views(acc@));
                final(self).token_cursor == p.cursor && (match r {
                    Ok(es) => p.result == Ok::<Seq<ExprV>, Seq<char>>(exprs_views(es@)),
                    Err(m) => p.result == Err::<Seq<ExprV>, Seq<char>>(m@),
                })
            }),
        decreases old(self).tokens@.len() - old(self).token_cursor, 14int,
    {
        let ghost toks = old(self).toks();
        let ghost c0 = old(self).token_cursor as int;
        let ghost accv = exprs_views(acc@);
        let ghost p = spec_parse_args(toks, c0, accv);
        match self.expression() {
            Err(m) => {
                proof {
                    let sub = spec_parse_expression(toks, c0);
                    assert(sub.cursor == self.token_cursor as int);
                    assert(sub.result == Err::<ExprV, Seq<char>>(m@));
                    assert(p == PRes::<Seq<ExprV>> { result: Err(m@), cursor: sub.cursor });
                }
                Err(m)
            },
            Ok(ev) => {
                let ghost evv = expression_view(ev);
                let ghost ecur = self.token_cursor as int;
                let mut acc1 = acc;
                let ghost before = acc1@;
                acc1.push(ev);
                proof {
                    assert(acc1@.drop_last() =~= before);
                    assert(exprs_views(acc1@) == accv.push(evv));
                    lemma_exprs_views_len(acc1@);
                }
                if self.match_t(&TokenType::Comma) {
                    if acc1.len() > 255 {
                        let m = String::from_str("too many arguments");
                        proof {
                            let sub = spec_parse_expression(toks, c0);
                            assert(sub.cursor == ecur);
                            assert(sub.result == Ok::<ExprV, Seq<char>>(evv));
                            assert(accv.push(evv).len() > 255);
                            assert(p == PRes::<Seq<ExprV>> { result: Err("too many arguments"@), cursor: ecur + 1 });
                        }
                        Err(m)
                    } else {
                        let ghost mid = self.token_cursor as int;
                        proof {
                            let sub = spec_parse_expression(toks, c0);
                            assert(sub.cursor == ecur);
                            assert(sub.result == Ok::<ExprV, Seq<char>>(evv));
                            assert(accv.push(evv).len() <= 255);
                            assert(c0 < mid <= toks.len());
                            assert(p == spec_parse_args(toks, mid, accv.push(evv)));
                        }
                        self.args_chain(acc1)
                    }
                } else {
                    proof {
                        let sub = spec_parse_expression(toks, c0);
                        assert(sub.cursor == ecur);
                        assert(sub.result == Ok::<ExprV, Seq<char>>(evv));
                        assert(p == PRes::<Seq<ExprV>> { result: Ok(accv.push(evv)), cursor: ecur });
                        assert(p.result == Ok::<Seq<ExprV>, Seq<char>>(exprs_views(acc1@)));
                    }
                    Ok(acc1)
                }
            },
        }
    }

    /// Parses a call: a primary, optionally followed by one argument
    /// list in parentheses.
    #[verifier::rlimit(100)]
    #[verifier::spinoff_prover]
    pub fn call(&mut self) -> (r: Result<Expression, String>)
        requires
            old(self).token_cursor <= old(self).tokens@.len(),
        ensures
            final(self).tokens == old(self).tokens,
            old(self).token_cursor <= final(self).token_cursor <= final(self).tokens@.len(),
            r is Ok ==> final(self).token_cursor > old(self).token_cursor,
            ({
                let p = spec_parse_call(old(self).toks(), old(self).token_cursor as int);
                final(self).token_cursor == p.cursor && (match r {
                    Ok(e) => p.result == Ok::<ExprV, Seq<char>>(expression_view(e)),
                    Err(m) => p.result == Err::<ExprV, Seq<char>>(m@),
                })
            }),
        decreases old(self).tokens@.len() - old(self).token_cursor, 3int,
    {
        let ghost toks = old(self).toks();
        let ghost c0 = old(self).token_cursor as int;
        let ghost p = spec_parse_call(toks, c0);
        match self.primary() {
            Err(m) => {
                proof {
                    assert(p.cursor == self.token_cursor as int);
                    assert(p.result == Err::<ExprV, Seq<char>>(m@));
                }
                Err(m)
            },
            Ok(pv) => {
                if self.match_t(&TokenType::LeftParen) {
                    let args: Vec<Expression>;
                    if self.check(&TokenType::RightParen) {
                        args = Vec::new();
                        proof {
                            assert(exprs_views(args@) == Seq::<ExprV>::empty());
                        }
                    } else {
                        let started: Vec<Expression> = Vec::new();
                        proof {
                            assert(exprs_views(started@) == Seq::<ExprV>::empty());
                        }
                        match self.args_chain(started) {
                            Ok(a) => {
                                args = a;
                            },
                            Err(m) => {
                                proof {
                                    assert(p.cursor == self.token_cursor as int);
                                    assert(p.result == Err::<ExprV, Seq<char>>(m@));
                                }
                                return Err(m);
                            },
                        }
                    }
                    match self.consume(&TokenType::RightParen, "expected ')' after arguments") {
                        Ok(_) => {
                            let node = wrap_expr(
                                Expr::Call(Box::new(Call { callee: pv, arguments: args })),
                            );
                            proof {
                                assert(p.cursor == self.token_cursor as int);
                                assert(p.result == Ok::<ExprV, Seq<char>>(expression_view(node)));
                            }
                            Ok(node)
                        },
                        Err(m) => {
                            proof {
                                assert(p.cursor == self.token_cursor as int);
                                assert(p.result == Err::<ExprV, Seq<char>>(m@));
                            }
                            Err(m)
                        },
                    }
                } else {
                    proof {
                        assert(p.cursor == self.token_cursor as int);
                        assert(p.result == Ok::<ExprV, Seq<char>>(expression_view(pv)));
                    }
                    Ok(pv)
                }
            },
        }
    }

    /// Parses a unary expression: `!` or `-` applied recursively, or a
    /// call.
    #[verifier::rlimit(100)]
    #[verifier::spinoff_prover]
    pub fn unary(&mut self) -> (r: Result<Expression, String>)
        requires
            old(self).token_cursor <= old(self).tokens@.len(),
        ensures
            final(self).tokens == old(self).tokens,
            old(self).token_cursor <= final(self).token_cursor <= final(self).tokens@.len(),
            r is Ok ==> final(self).token_cursor > old(self).token_cursor,
            ({
                let p = spec_parse_unary(old(self).toks(), old(self).token_cursor as int);
                final(self).token_cursor == p.cursor && (match r {
                    Ok(e) => p.result == Ok::<ExprV, Seq<char>>(expression_view(e)),
                    Err(m) => p.result == Err::<ExprV, Seq<char>>(m@),
                })
            }),
        decreases old(self).tokens@.len() - old(self).token_cursor, 4int,
    {
        let ghost toks = old(self).toks();
        let ghost c0 = old(self).token_cursor as int;
        let ghost p = spec_parse_unary(toks, c0);
        if self.match_t(&TokenType::Bang) || self.match_t(&TokenType::Minus) {
            let operator = self.previous();
            match self.unary() {
                Ok(e) => {
                    let node = wrap_expr(Expr::Unary(Box::new(Unary { operator, expr: e })));
                    proof {
                        assert(p.cursor == self.token_cursor as int);
                        assert(p.result == Ok::<ExprV, Seq<char>>(expression_view(node)));
                    }
                    Ok(node)
                },
                Err(m) => {
                    proof {
                        assert(p.cursor == self.token_cursor as int);
                        assert(p.result == Err::<ExprV, Seq<char>>(m@));
                    }
                    Err(m)
                },
            }
        } else {
            let r = self.call();
            proof {
                assert(p == spec_parse_call(toks, c0));
            }
            r
        }
    }

    /// Extends a parsed left operand with `/` or `*` operators, left associatively.
    #[verifier::rlimit(100)]
    #[verifier::spinoff_prover]
    fn factor_chain(&mut self, left: Expression) -> (r: Result<Expression, String>)
        requires
            old(self).token_cursor <= old(self).tokens@.len(),
        ensures
            final(self).tokens == old(self).tokens,
            old(self).token_cursor <= final(self).token_cursor <= final(self).tokens@.len(),
            ({
                let p = spec_factor_chain(old(self).toks(), old(self).token_cursor as int, expression_view(left));
                final(self).token_cursor == p.cursor && (match r {
                    Ok(e) => p.result == Ok::<ExprV, Seq<char>>(expression_view(e)),
                    Err(m) => p.result == Err::<ExprV, Seq<char>>(m@),
                })
            }),
        decreases old(self).tokens@.len() - old(self).token_cursor, 0int,
    {
        let ghost toks = old(self).toks();
        let ghost c0 = old(self).token_cursor as int;
        let ghost lv = expression_view(left);
        let ghost p = spec_factor_chain(toks, c0, lv);
        if self.match_t(&TokenType::Slash) || self.match_t(&TokenType::Star) {
            let operator = self.previous();
            match self.unary() {
                Ok(right) => {
                    let ghost mid = self.token_cursor as int;
                    let ghost rv = expression_view(right);
                    let newleft = wrap_expr(Expr::Binary(Box::new(Binary { left, operator, right })));
                    proof {
                        let sub = spec_parse_unary(toks, c0 + 1);
                        assert(sub.cursor == mid);
                        assert(sub.result == Ok::<ExprV, Seq<char>>(rv));
                        assert(expression_view(newleft) == ExprV::Binary(Box::new(lv), toks[c0], Box::new(rv)));
                        assert(c0 < mid <= toks.len());
                        assert(p == spec_factor_chain(toks, mid, expression_view(newleft)));
                    }
                    self.factor_chain(newleft)
                },
                Err(m) => {
                    proof {
                        let sub = spec_parse_unary(toks, c0 + 1);
                        assert(sub.cursor == self.token_cursor as int);
                        assert(sub.result == Err::<ExprV, Seq<char>>(m@));
                        assert(p == PRes::<ExprV> { result: Err(m@), cursor: sub.cursor });
                    }
                    Err(m)
                },
            }
        } else {
            proof {
                assert(p.cursor == c0);
                assert(p.result == Ok::<ExprV, Seq<char>>(expression_view(left)));
            }
            Ok(left)
        }
    }

    /// Parses a factor: unary expressions joined by `/` or `*`.
    #[verifier::rlimit(100)]
    #[verifier::spinoff_prover]
    pub fn factor(&mut self) -> (r: Result<Expression, String>)
        requires
            old(self).token_cursor <= old(self).tokens@.len(),
        ensures
            final(self).tokens == old(self).tokens,
            old(self).token_cursor <= final(self).token_cursor <= final(self).tokens@.len(),
            r is Ok ==> final(self).token_cursor > old(self).token_cursor,
            ({
                let p = spec_parse_factor(old(self).toks(), old(self).token_cursor as int);
                final(self).token_cursor == p.cursor && (match r {
                    Ok(e) => p.result == Ok::<ExprV, Seq<char>>(expression_view(e)),
                    Err(m) => p.result == Err::<ExprV, Seq<char>>(m@),
                })
            }),
        decreases old(self).tokens@.len() - old(self).token_cursor, 5int,
    {
        let ghost toks = old(self).toks();
        let ghost c0 = old(self).token_cursor as int;
        let ghost p = spec_parse_factor(toks, c0);
        match self.unary() {
            Ok(l) => {
                let ghost mid = self.token_cursor as int;
                proof {
                    assert(p == spec_factor_chain(toks, mid, expression_view(l)));
                }
                self.factor_chain(l)
            },
            Err(m) => {
                proof {
                    assert(p.cursor == self.token_cursor as int);
                    assert(p.result == Err::<ExprV, Seq<char>>(m@));
                }
                Err(m)
            },
        }
    }

    /// Extends a parsed left operand with `-` or `+` operators.
    #[verifier::rlimit(100)]
    #[verifier::spinoff_prover]
    fn term_chain(&mut self, left: Expression) -> (r: Result<Expression, String>)
        requires
            old(self).token_cursor <= old(self).tokens@.len(),
        ensures
            final(self).tokens == old(self).tokens,
            old(self).token_cursor <= final(self).token_cursor <= final(self).tokens@.len(),
            ({
                let p = spec_term_chain(old(self).toks(), old(self).token_cursor as int, expression_view(left));
                final(self).token_cursor == p.cursor && (match r {
                    Ok(e) => p.result == Ok::<ExprV, Seq<char>>(expression_view(e)),
                    Err(m) => p.result == Err::<ExprV, Seq<char>>(m@),
                })
            }),
        decreases old(self).tokens@.len() - old(self).token_cursor, 0int,
    {
        let ghost toks = old(self).toks();
        let ghost c0 = old(self).token_cursor as int;
        let ghost lv = expression_view(left);
        let ghost p = spec_term_chain(toks, c0, lv);
        if self.match_t(&TokenType::Minus) || self.match_t(&TokenType::Plus) {
            let operator = self.previous();
            match self.factor() {
                Ok(right) => {
                    let ghost mid = self.token_cursor as int;
                    let ghost rv = expression_view(right);
                    let newleft = wrap_expr(Expr::Binary(Box::new(Binary { left, operator, right })));
                    proof {
                        let sub = spec_parse_factor(toks, c0 + 1);
                        assert(sub.cursor == mid);
                        assert(sub.result == Ok::<ExprV, Seq<char>>(rv));
                        assert(expression_view(newleft) == ExprV::Binary(Box::new(lv), toks[c0], Box::new(rv)));
                        assert(c0 < mid <= toks.len());
                        assert(p == spec_term_chain(toks, mid, expression_view(newleft)));
                    }
                    self.term_chain(newleft)
                },
                Err(m) => {
                    proof {
                        let sub = spec_parse_factor(toks, c0 + 1);
                        assert(sub.cursor == self.token_cursor as int);
                        assert(sub.result == Err::<ExprV, Seq<char>>(m@));
                        assert(p == PRes::<ExprV> { result: Err(m@), cursor: sub.cursor });
                    }
                    Err(m)
                },
            }
        } else {
            proof {
                assert(p.cursor == c0);
                assert(p.result == Ok::<ExprV, Seq<char>>(expression_view(left)));
            }
            Ok(left)
        }
    }

    /// Parses a term: factors joined by `-` or `+`.
    #[verifier::rlimit(100)]
    #[verifier::spinoff_prover]
    pub fn term(&mut self) -> (r: Result<Expression, String>)
        requires
            old(self).token_cursor <= old(self).tokens@.len(),
        ensures
            final(self).tokens == old(self).tokens,
            old(self).token_cursor <= final(self).token_cursor <= final(self).tokens@.len(),
            r is Ok ==> final(self).token_cursor > old(self).token_cursor,
            ({
                let p = spec_parse_term(old(self).toks(), old(self).token_cursor as int);
                final(self).token_cursor == p.cursor && (match r {
                    Ok(e) => p.result == Ok::<ExprV, Seq<char>>(expression_view(e)),
                    Err(m) => p.result == Err::<ExprV, Seq<char>>(m@),
                })
            }),
        decreases old(self).tokens@.len() - old(self).token_cursor, 6int,
    {
        let ghost toks = old(self).toks();
        let ghost c0 = old(self).token_cursor as int;
        let ghost p = spec_parse_term(toks, c0);
        match self.factor() {
            Ok(l) => {
                let ghost mid = self.token_cursor as int;
                proof {
                    assert(p == spec_term_chain(toks, mid, expression_view(l)));
                }
                self.term_chain(l)
            },
            Err(m) => {
                proof {
                    assert(p.cursor == self.token_cursor as int);
                    assert(p.result == Err::<ExprV, Seq<char>>(m@));
                }
                Err(m)
            },
        }
    }

    /// Extends a parsed left operand with comparison operators.
    #[verifier::rlimit(100)]
    #[verifier::spinoff_prover]
    fn comparison_chain(&mut self, left: Expression) -> (r: Result<Expression, String>)
        requires
            old(self).token_cursor <= old(self).tokens@.len(),
        ensures
            final(self).tokens == old(self).tokens,
            old(self).token_cursor <= final(self).token_cursor <= final(self).tokens@.len(),
            ({
                let p = spec_comparison_chain(old(self).toks(), old(self).token_cursor as int, expression_view(left));
                final(self).token_cursor == p.cursor && (match r {
                    Ok(e) => p.result == Ok::<ExprV, Seq<char>>(expression_view(e)),
                    Err(m) => p.result == Err::<ExprV, Seq<char>>(m@),
                })
            }),
        decreases old(self).tokens@.len() - old(self).token_cursor, 0int,
    {
        let ghost toks = old(self).toks();
        let ghost c0 = old(self).token_cursor as int;
        let ghost lv = expression_view(left);
        let ghost p = spec_comparison_chain(toks, c0, lv);
        if self.match_t(&TokenType::Greater) || self.match_t(&TokenType::GreaterEqual)
            || self.match_t(&TokenType::Less) || self.match_t(&TokenType::LessEqual) {
            let operator = self.previous();
            match self.term() {
                Ok(right) => {
                    let ghost mid = self.token_cursor as int;
                    let ghost rv = expression_view(right);
                    let newleft = wrap_expr(Expr::Binary(Box::new(Binary { left, operator, right })));
                    proof {
                        assert(p == spec_comparison_chain(toks, mid, expression_view(newleft))) by {};
                    }
                    self.comparison_chain(newleft)
                },
                Err(m) => {
                    proof {
                        assert(p.cursor == self.token_cursor as int) by {};
                        assert(p.result == Err::<ExprV, Seq<char>>(m@)) by {};
                    }
                    Err(m)
                },
            }
        } else {
            proof {
                assert(p.cursor == c0) by {};
                assert(p.result == Ok::<ExprV, Seq<char>>(expression_view(left))) by {};
            }
            Ok(left)
        }
    }

    /// Parses a comparison: terms joined by `>`, `>=`, `<` or `<=`.
    #[verifier::rlimit(100)]
    #[verifier::spinoff_prover]
    pub fn comparison(&mut self) -> (r: Result<Expression, String>)
        requires
            old(self).token_cursor <= old(self).tokens@.len(),
        ensures
            final(self).tokens == old(self).tokens,
            old(self).token_cursor <= final(self).token_cursor <= final(self).tokens@.len(),
            r is Ok ==> final(self).token_cursor > old(self).token_cursor,
            ({
                let p = spec_parse_comparison(old(self).toks(), old(self).token_cursor as int);
                final(self).token_cursor == p.cursor && (match r {
                    Ok(e) => p.result == Ok::<ExprV, Seq<char>>(expression_view(e)),
                    Err(m) => p.result == Err::<ExprV, Seq<char>>(m@),
                })
            }),
        decreases old(self).tokens@.len() - old(self).token_cursor, 7int,
    {
        let ghost toks = old(self).toks();
        let ghost c0 = old(self).token_cursor as int;
        let ghost p = spec_parse_comparison(toks, c0);
        match self.term() {
            Ok(l) => {
                let ghost mid = self.token_cursor as int;
                proof {
                    assert(p == spec_comparison_chain(toks, mid, expression_view(l)));
                }
                self.comparison_chain(l)
            },
            Err(m) => {
                proof {
                    assert(p.cursor == self.token_cursor as int);
                    assert(p.result == Err::<ExprV, Seq<char>>(m@));
                }
                Err(m)
            },
        }
    }

    /// Extends a parsed left operand with `==` or `!=` operators.
    #[verifier::rlimit(100)]
    #[verifier::spinoff_prover]
    fn equality_chain(&mut self, left: Expression) -> (r: Result<Expression, String>)
        requires
            old(self).token_cursor <= old(self).tokens@.len(),
        ensures
            final(self).tokens == old(self).tokens,
            old(self).token_cursor <= final(self).token_cursor <= final(self).tokens@.len(),
            ({
                let p = spec_equality_chain(old(self).toks(), old(self).token_cursor as int, expression_view(left));
                final(self).token_cursor == p.cursor && (match r {
                    Ok(e) => p.result == Ok::<ExprV, Seq<char>>(expression_view(e)),
                    Err(m) => p.result == Err::<ExprV, Seq<char>>(m@),
                })
            }),
        decreases old(self).tokens@.len() - old(self).token_cursor, 0int,
    {
        let ghost toks = old(self).toks();
        let ghost c0 = old(self).token_cursor as int;
        let ghost lv = expression_view(left);
        let ghost p = spec_equality_chain(toks, c0, lv);
        if self.match_t(&TokenType::EqualEqual) || self.match_t(&TokenType::BangEqual) {
            let operator = self.previous();
            match self.comparison() {
                Ok(right) => {
                    let ghost mid = self.token_cursor as int;
                    let ghost rv = expression_view(right);
                    let newleft = wrap_expr(Expr::Binary(Box::new(Binary { left, operator, right })));
                    proof {
                        let sub = spec_parse_comparison(toks, c0 + 1);
                        assert(sub.cursor == mid);
                        assert(sub.result == Ok::<ExprV, Seq<char>>(rv));
                        assert(expression_view(newleft) == ExprV::Binary(Box::new(lv), toks[c0], Box::new(rv)));
                        assert(c0 < mid <= toks.len());
                        assert(p == spec_equality_chain(toks, mid, expression_view(newleft)));
                    }
                    self.equality_chain(newleft)
                },
                Err(m) => {
                    proof {
                        let sub = spec_parse_comparison(toks, c0 + 1);
                        assert(sub.cursor == self.token_cursor as int);
                        assert(sub.result == Err::<ExprV, Seq<char>>(m@));
                        assert(p == PRes::<ExprV> { result: Err(m@), cursor: sub.cursor });
                    }
                    Err(m)
                },
            }
        } else {
            proof {
                assert(p.cursor == c0);
                assert(p.result == Ok::<ExprV, Seq<char>>(expression_view(left)));
            }
            Ok(left)
        }
    }

    /// Parses an equality: comparisons joined by `==` or `!=`.
    #[verifier::rlimit(100)]
    #[verifier::spinoff_prover]
    pub fn equality(&mut self) -> (r: Result<Expression, String>)
        requires
            old(self).token_cursor <= old(self).tokens@.len(),
        ensures
            final(self).tokens == old(self).tokens,
            old(self).token_cursor <= final(self).token_cursor <= final(self).tokens@.len(),
            r is Ok ==> final(self).token_cursor > old(self).token_cursor,
            ({
                let p = spec_parse_equality(old(self).toks(), old(self).token_cursor as int);
                final(self).token_cursor == p.cursor && (match r {
                    Ok(e) => p.result == Ok::<ExprV, Seq<char>>(expression_view(e)),
                    Err(m) => p.result == Err::<ExprV, Seq<char>>(m@),
                })
            }),
        decreases old(self).tokens@.len() - old(self).token_cursor, 8int,
    {
        let ghost toks = old(self).toks();
        let ghost c0 = old(self).token_cursor as int;
        let ghost p = spec_parse_equality(toks, c0);
        match self.comparison() {
            Ok(l) => {
                let ghost mid = self.token_cursor as int;
                proof {
                    assert(p == spec_equality_chain(toks, mid, expression_view(l)));
                }
                self.equality_chain(l)
            },
            Err(m) => {
                proof {
                    assert(p.cursor == self.token_cursor as int);
                    assert(p.result == Err::<ExprV, Seq<char>>(m@));
                }
                Err(m)
            },
        }
    }

    /// Extends a parsed left operand with `and` connectives.
    #[verifier::rlimit(100)]
    #[verifier::spinoff_prover]
    fn and_chain(&mut self, left: Expression) -> (r: Result<Expression, String>)
        requires
            old(self).token_cursor <= old(self).tokens@.len(),
        ensures
            final(self).tokens == old(self).tokens,
            old(self).token_cursor <= final(self).token_cursor <= final(self).tokens@.len(),
            ({
                let p = spec_and_chain(old(self).toks(), old(self).token_cursor as int, expression_view(left));
                final(self).token_cursor == p.cursor && (match r {
                    Ok(e) => p.result == Ok::<ExprV, Seq<char>>(expression_view(e)),
                    Err(m) => p.result == Err::<ExprV, Seq<char>>(m@),
                })
            }),
        decreases old(self).tokens@.len() - old(self).token_cursor, 0int,
    {
        let ghost toks = old(self).toks();
        let ghost c0 = old(self).token_cursor as int;
        let ghost lv = expression_view(left);
        let ghost p = spec_and_chain(toks, c0, lv);
        if self.match_t(&TokenType::And) {
            let operator = self.previous();
            match self.equality() {
                Ok(right) => {
                    let ghost mid = self.token_cursor as int;
                    let ghost rv = expression_view(right);
                    let newleft = wrap_expr(Expr::Logical(Box::new(Logical { left, operator, right })));
                    proof {
                        assert(p == spec_and_chain(toks, mid, expression_view(newleft))) by {};
                    }
                    self.and_chain(newleft)
                },
                Err(m) => {
                    proof {
                        assert(p.cursor == self.token_cursor as int) by {};
                        assert(p.result == Err::<ExprV, Seq<char>>(m@)) by {};
                    }
                    Err(m)
                },
            }
        } else {
            proof {
                assert(p.cursor == c0) by {};
                assert(p.result == Ok::<ExprV, Seq<char>>(expression_view(left))) by {};
            }
            Ok(left)
        }
    }

    /// Parses a conjunction: equalities joined by `and`.
    #[verifier::rlimit(100)]
    #[verifier::spinoff_prover]
    pub fn logic_and(&mut self) -> (r: Result<Expression, String>)
        requires
            old(self).token_cursor <= old(self).tokens@.len(),
        ensures
            final(self).tokens == old(self).tokens,
            old(self).token_cursor <= final(self).token_cursor <= final(self).tokens@.len(),
            r is Ok ==> final(self).token_cursor > old(self).token_cursor,
            ({
                let p = spec_parse_logic_and(old(self).toks(), old(self).token_cursor as int);
                final(self).token_cursor == p.cursor && (match r {
                    Ok(e) => p.result == Ok::<ExprV, Seq<char>>(expression_view(e)),
                    Err(m) => p.result == Err::<ExprV, Seq<char>>(m@),
                })
            }),
        decreases old(self).tokens@.len() - old(self).token_cursor, 9int,
    {
        let ghost toks = old(self).toks();
        let ghost c0 = old(self).token_cursor as int;
        let ghost p = spec_parse_logic_and(toks, c0);
        match self.equality() {
            Ok(l) => {
                let ghost mid = self.token_cursor as int;
                proof {
                    assert(p == spec_and_chain(toks, mid, expression_view(l)));
                }
                self.and_chain(l)
            },
            Err(m) => {
                proof {
                    assert(p.cursor == self.token_cursor as int);
                    assert(p.result == Err::<ExprV, Seq<char>>(m@));
                }
                Err(m)
            },
        }
    }

    /// Extends a parsed left operand with `or` connectives.
    #[verifier::rlimit(100)]
    #[verifier::spinoff_prover]
    fn or_chain(&mut self, left: Expression) -> (r: Result<Expression, String>)
        requires
            old(self).token_cursor <= old(self).tokens@.len(),
        ensures
            final(self).tokens == old(self).tokens,
            old(self).token_cursor <= final(self).token_cursor <= final(self).tokens@.len(),
            ({
                let p = spec_or_chain(old(self).toks(), old(self).token_cursor as int, expression_view(left));
                final(self).token_cursor == p.cursor && (match r {
                    Ok(e) => p.result == Ok::<ExprV, Seq<char>>(expression_view(e)),
                    Err(m) => p.result == Err::<ExprV, Seq<char>>(m@),
                })
            }),
        decreases old(self).tokens@.len() - old(self).token_cursor, 0int,
    {
        let ghost toks = old(self).toks();
        let ghost c0 = old(self).token_cursor as int;
        let ghost lv = expression_view(left);
        let ghost p = spec_or_chain(toks, c0, lv);
        if self.match_t(&TokenType::Or) {
            let operator = self.previous();
            match self.logic_and() {
                Ok(right) => {
                    let ghost mid = self.token_cursor as int;
                    let ghost rv = expression_view(right);
                    let newleft = wrap_expr(Expr::Logical(Box::new(Logical { left, operator, right })));
                    proof {
                        assert(p == spec_or_chain(toks, mid, expression_view(newleft))) by {};
                    }
                    self.or_chain(newleft)
                },
                Err(m) => {
                    proof {
                        assert(p.cursor == self.token_cursor as int) by {};
                        assert(p.result == Err::<ExprV, Seq<char>>(m@)) by {};
                    }
                    Err(m)
                },
            }
        } else {
            proof {
                assert(p.cursor == c0) by {};
                assert(p.result == Ok::<ExprV, Seq<char>>(expression_view(left))) by {};
            }
            Ok(left)
        }
    }

    /// Parses a disjunction: conjunctions joined by `or`.
    #[verifier::rlimit(100)]
    #[verifier::spinoff_prover]
    pub fn logic_or(&mut self) -> (r: Result<Expression, String>)
        requires
            old(self).token_cursor <= old(self).tokens@.len(),
        ensures
            final(self).tokens == old(self).tokens,
            old(self).token_cursor <= final(self).token_cursor <= final(self).tokens@.len(),
            r is Ok ==> final(self).token_cursor > old(self).token_cursor,
            ({
                let p = spec_parse_logic_or(old(self).toks(), old(self).token_cursor as int);
                final(self).token_cursor == p.cursor && (match r {
                    Ok(e) => p.result == Ok::<ExprV, Seq<char>>(expression_view(e)),
                    Err(m) => p.result == Err::<ExprV, Seq<char>>(m@),
                })
            }),
        decreases old(self).tokens@.len() - old(self).token_cursor, 10int,
    {
        let ghost toks = old(self).toks();
        let ghost c0 = old(self).token_cursor as int;
        let ghost p = spec_parse_logic_or(toks, c0);
        match self.logic_and() {
            Ok(l) => {
                let ghost mid = self.token_cursor as int;
                proof {
                    assert(p == spec_or_chain(toks, mid, expression_view(l)));
                }
                self.or_chain(l)
            },
            Err(m) => {
                proof {
                    assert(p.cursor == self.token_cursor as int);
                    assert(p.result == Err::<ExprV, Seq<char>>(m@));
                }
                Err(m)
            },
        }
    }

    /// Parses an assignment: an identifier followed by `=` starts one,
    /// parsed right recursively; anything else falls back to `or`.
    #[verifier::rlimit(100)]
    #[verifier::spinoff_prover]
    pub fn assignment(&mut self) -> (r: Result<Expression, String>)
        requires
            old(self).token_cursor <= old(self).tokens@.len(),
        ensures
            final(self).tokens == old(self).tokens,
            old(self).token_cursor <= final(self).token_cursor <= final(self).tokens@.len(),
            r is Ok ==> final(self).token_cursor > old(self).token_cursor,
            ({
                let p = spec_parse_assignment(old(self).toks(), old(self).token_cursor as int);
                final(self).token_cursor == p.cursor && (match r {
                    Ok(e) => p.result == Ok::<ExprV, Seq<char>>(expression_view(e)),
                    Err(m) => p.result == Err::<ExprV, Seq<char>>(m@),
                })
            }),
        decreases old(self).tokens@.len() - old(self).token_cursor, 11int,
    {
        let ghost toks = old(self).toks();
        let ghost c0 = old(self).token_cursor as int;
        let ghost p = spec_parse_assignment(toks, c0);
        if self.match_t(&TokenType::Identifier) {
            let identifier = self.previous();
            if self.match_t(&TokenType::Equal) {
                match self.assignment() {
                    Ok(value) => {
                        let node = wrap_expr(Expr::Assign(Box::new(Assign { identifier, value })));
                        proof {
                            assert(p.cursor == self.token_cursor as int);
                            assert(p.result == Ok::<ExprV, Seq<char>>(expression_view(node)));
                        }
                        Ok(node)
                    },
                    Err(m) => {
                        proof {
                            assert(p.cursor == self.token_cursor as int);
                            assert(p.result == Err::<ExprV, Seq<char>>(m@));
                        }
                        Err(m)
                    },
                }
            } else {
                self.retreat();
                let r = self.logic_or();
                proof {
                    assert(p == spec_parse_logic_or(toks, c0));
                }
                r
            }
        } else {
            let r = self.logic_or();
            proof {
                assert(p == spec_parse_logic_or(toks, c0));
            }
            r
        }
    }

    /// Parses an expression.
    #[verifier::rlimit(100)]
    #[verifier::spinoff_prover]
    pub fn expression(&mut self) -> (r: Result<Expression, String>)
        requires
            old(self).token_cursor <= old(self).tokens@.len(),
        ensures
            final(self).tokens == old(self).tokens,
            old(self).token_cursor <= final(self).token_cursor <= final(self).tokens@.len(),
            r is Ok ==> final(self).token_cursor > old(self).token_cursor,
            ({
                let p = spec_parse_expression(old(self).toks(), old(self).token_cursor as int);
                final(self).token_cursor == p.cursor && (match r {
                    Ok(e) => p.result == Ok::<ExprV, Seq<char>>(expression_view(e)),
                    Err(m) => p.result == Err::<ExprV, Seq<char>>(m@),
                })
            }),
        decreases old(self).tokens@.len() - old(self).token_cursor, 12int,
    {
        let ghost toks = old(self).toks();
        let ghost c0 = old(self).token_cursor as int;
        let r = self.assignment();
        proof {
            assert(spec_parse_expression(toks, c0) == spec_parse_assignment(toks, c0));
        }
        r
    }

    /// Parses an expression statement: an expression closed by a
    /// semicolon.
    #[verifier::rlimit(100)]
    #[verifier::spinoff_prover]
    pub fn expr_stmt(&mut self) -> (r: Result<ExprStmt, String>)
        requires
            old(self).token_cursor <= old(self).tokens@.len(),
        ensures
            final(self).tokens == old(self).tokens,
            old(self).token_cursor <= final(self).token_cursor <= final(self).tokens@.len(),
            r is Ok ==> final(self).token_cursor > old(self).token_cursor,
            ({
                let e = spec_parse_expression(old(self).toks(), old(self).token_cursor as int);
                match e.result {
                    Ok(ev) => if spec_check(old(self).toks(), e.cursor, TokenTypeV::Semicolon) {
                        final(self).token_cursor == e.cursor + 1 && (match r {
                            Ok(s) => expression_view(*s.value) == ev,
                            Err(_) => false,
                        })
                    } else {
                        final(self).token_cursor == e.cursor && (match r {
                            Ok(_) => false,
                            Err(m) => m@ == "semicolon missing"@,
                        })
                    },
                    Err(m0) => final(self).token_cursor == e.cursor && (match r {
                        Ok(_) => false,
                        Err(m) => m@ == m0,
                    }),
                }
            }),
        decreases old(self).tokens@.len() - old(self).token_cursor, 27int,
    {
        match self.expression() {
            Ok(e) => match self.consume(&TokenType::Semicolon, "semicolon missing") {
                Ok(_) => Ok(ExprStmt { value: Rc::new(e) }),
                Err(m) => Err(m),
            },
            Err(m) => Err(m),
        }
    }

    /// Parses a print statement after its keyword: an expression closed
    /// by a semicolon.
    #[verifier::rlimit(100)]
    #[verifier::spinoff_prover]
    pub fn print_stmt(&mut self) -> (r: Result<PrintStmt, String>)
        requires
            old(self).token_cursor <= old(self).tokens@.len(),
        ensures
            final(self).tokens == old(self).tokens,
            old(self).token_cursor <= final(self).token_cursor <= final(self).tokens@.len(),
            r is Ok ==> final(self).token_cursor > old(self).token_cursor,
            ({
                let e = spec_parse_expression(old(self).toks(), old(self).token_cursor as int);
                match e.result {
                    Ok(ev) => if spec_check(old(self).toks(), e.cursor, TokenTypeV::Semicolon) {
                        final(self).token_cursor == e.cursor + 1 && (match r {
                            Ok(s) => expression_view(*s.value) == ev,
                            Err(_) => false,
                        })
                    } else {
                        final(self).token_cursor == e.cursor && (match r {
                            Ok(_) => false,
                            Err(m) => m@ == "semicolon missing"@,
                        })
                    },
                    Err(m0) => final(self).token_cursor == e.cursor && (match r {
                        Ok(_) => false,
                        Err(m) => m@ == m0,
                    }),
                }
            }),
        decreases old(self).tokens@.len() - old(self).token_cursor, 27int,
    {
        match self.expression() {
            Ok(e) => match self.consume(&TokenType::Semicolon, "semicolon missing") {
                Ok(_) => Ok(PrintStmt { value: Rc::new(e) }),
                Err(m) => Err(m),
            },
            Err(m) => Err(m),
        }
    }

    /// Parses a break statement after its keyword: just the semicolon.
    pub fn break_stmt(&mut self) -> (r: Result<BreakStmt, String>)
        requires
            old(self).token_cursor <= old(self).tokens@.len(),
        ensures
            final(self).tokens == old(self).tokens,
            old(self).token_cursor <= final(self).token_cursor <= final(self).tokens@.len(),
            ({
                if spec_check(old(self).toks(), old(self).token_cursor as int, TokenTypeV::Semicolon) {
                    final(self).token_cursor == old(self).token_cursor + 1 && r is Ok
                } else {
                    final(self).token_cursor == old(self).token_cursor && (match r {
                        Ok(_) => false,
                        Err(m) => m@ == "semicolon missing"@,
                    })
                }
            }),
    {
        match self.consume(&TokenType::Semicolon, "semicolon missing") {
            Ok(_) => Ok(BreakStmt {}),
            Err(m) => Err(m),
        }
    }

    /// Parses a return statement after its keyword: an optional result
    /// expression closed by a semicolon.
    #[verifier::rlimit(100)]
    #[verifier::spinoff_prover]
    pub fn return_stmt(&mut self) -> (r: Result<ReturnStmt, String>)
        requires
            old(self).token_cursor <= old(self).tokens@.len(),
        ensures
            final(self).tokens == old(self).tokens,
            old(self).token_cursor <= final(self).token_cursor <= final(self).tokens@.len(),
            r is Ok ==> final(self).token_cursor > old(self).token_cursor,
            ({
                if spec_check(old(self).toks(), old(self).token_cursor as int, TokenTypeV::Semicolon) {
                    final(self).token_cursor == old(self).token_cursor + 1 && (match r {
                        Ok(rs) => rs.value is None,
                        Err(_) => false,
                    })
                } else {
                    let e = spec_parse_expression(old(self).toks(), old(self).token_cursor as int);
                    match e.result {
                        Ok(ev) => if spec_check(old(self).toks(), e.cursor, TokenTypeV::Semicolon) {
                            final(self).token_cursor == e.cursor + 1 && (match r {
                                Ok(rs) => match rs.value {
                                    Some(x) => expression_view(*x) == ev,
                                    None => false,
                                },
                                Err(_) => false,
                            })
                        } else {
                            final(self).token_cursor == e.cursor && (match r {
                                Ok(_) => false,
                                Err(m) => m@ == "semicolon missing"@,
                            })
                        },
                        Err(m0) => final(self).token_cursor == e.cursor && (match r {
                            Ok(_) => false,
                            Err(m) => m@ == m0,
                        }),
                    }
                }
            }),
        decreases old(self).tokens@.len() - old(self).token_cursor, 27int,
    {
        if self.match_t(&TokenType::Semicolon) {
            Ok(ReturnStmt { value: None })
        } else {
            match self.expression() {
                Ok(e) => match self.consume(&TokenType::Semicolon, "semicolon missing") {
                    Ok(_) => Ok(ReturnStmt { value: Some(Rc::new(e)) }),
                    Err(m) => Err(m),
                },
                Err(m) => Err(m),
            }
        }
    }

    /// Parses an if statement after its keyword: a condition, a
    /// then-branch, and an optional else-branch.
    #[verifier::rlimit(100)]
    #[verifier::spinoff_prover]
    pub fn if_stmt(&mut self) -> (r: Result<IfStmt, String>)
        requires
            old(self).token_cursor <= old(self).tokens@.len(),
        ensures
            final(self).tokens == old(self).tokens,
            old(self).token_cursor <= final(self).token_cursor <= final(self).tokens@.len(),
            r is Ok ==> final(self).token_cursor > old(self).token_cursor,
            ({
                let p = spec_parse_if_stmt(old(self).toks(), old(self).token_cursor as int);
                final(self).token_cursor == p.cursor && (match r {
                    Ok(st) => p.result == Ok::<StmtV, Seq<char>>(stmt_view(Stmt::If(Box::new(st)))),
                    Err(m) => p.result == Err::<StmtV, Seq<char>>(m@),
                })
            }),
        decreases old(self).tokens@.len() - old(self).token_cursor, 27int,
    {
        let ghost toks = old(self).toks();
        let ghost c0 = old(self).token_cursor as int;
        let ghost p = spec_parse_if_stmt(toks, c0);
        match self.expression() {
            Err(m) => {
                proof {
                    let c = spec_parse_expression(toks, c0);
                    assert(c.cursor == self.token_cursor as int);
                    assert(c.result == Err::<ExprV, Seq<char>>(m@));
                    assert(p == PRes::<StmtV> { result: Err(m@), cursor: c.cursor });
                }
                Err(m)
            },
            Ok(cond) => {
                let ghost cv = expression_view(cond);
                let ghost ccur = self.token_cursor as int;
                match self.statement() {
                    Err(m) => {
                        proof {
                            let c = spec_parse_expression(toks, c0);
                            assert(c.cursor == ccur && c.result == Ok::<ExprV, Seq<char>>(cv));
                            let t = spec_parse_statement(toks, ccur);
                            assert(t.cursor == self.token_cursor as int);
                            assert(t.result == Err::<StmtV, Seq<char>>(m@));
                            assert(p == PRes::<StmtV> { result: Err(m@), cursor: t.cursor });
                        }
                        Err(m)
                    },
                    Ok(then_b) => {
                        let ghost tv = stmt_view(then_b.stmt);
                        let ghost tcur = self.token_cursor as int;
                        if self.match_t(&TokenType::Else) {
                            match self.statement() {
                                Ok(else_b) => {
                                    let ghost evv = stmt_view(else_b.stmt);
                                    let ghost ecur = self.token_cursor as int;
                                    let st = IfStmt {
                                        condition: Rc::new(cond),
                                        then_b,
                                        else_b: Some(else_b),
                                    };
                                    proof {
                                        let c = spec_parse_expression(toks, c0);
                                        assert(c.cursor == ccur && c.result == Ok::<ExprV, Seq<char>>(cv));
                                        let t = spec_parse_statement(toks, ccur);
                                        assert(t.cursor == tcur && t.result == Ok::<StmtV, Seq<char>>(tv));
                                        let e2 = spec_parse_statement(toks, tcur + 1);
                                        assert(e2.cursor == ecur && e2.result == Ok::<StmtV, Seq<char>>(evv));
                                        assert(p == PRes::<StmtV> {
                                            result: Ok(StmtV::If(cv, Box::new(tv), Some(Box::new(evv)))),
                                            cursor: ecur,
                                        });
                                        assert(stmt_view(Stmt::If(Box::new(st))) == StmtV::If(
                                            cv,
                                            Box::new(tv),
                                            Some(Box::new(evv)),
                                        ));
                                    }
                                    Ok(st)
                                },
                                Err(m) => {
                                    proof {
                                        let c = spec_parse_expression(toks, c0);
                                        assert(c.cursor == ccur && c.result == Ok::<ExprV, Seq<char>>(cv));
                                        let t = spec_parse_statement(toks, ccur);
                                        assert(t.cursor == tcur && t.result == Ok::<StmtV, Seq<char>>(tv));
                                        let e2 = spec_parse_statement(toks, tcur + 1);
                                        assert(e2.cursor == self.token_cursor as int);
                                        assert(e2.result == Err::<StmtV, Seq<char>>(m@));
                                        assert(p == PRes::<StmtV> { result: Err(m@), cursor: e2.cursor });
                                    }
                                    Err(m)
                                },
                            }
                        } else {
                            let st = IfStmt { condition: Rc::new(cond), then_b, else_b: None };
                            proof {
                                let c = spec_parse_expression(toks, c0);
                                assert(c.cursor == ccur && c.result == Ok::<ExprV, Seq<char>>(cv));
                                let t = spec_parse_statement(toks, ccur);
                                assert(t.cursor == tcur && t.result == Ok::<StmtV, Seq<char>>(tv));
                                assert(p == PRes::<StmtV> {
                                    result: Ok(StmtV::If(cv, Box::new(tv), None)),
                                    cursor: tcur,
                                });
                                assert(stmt_view(Stmt::If(Box::new(st))) == StmtV::If(
                                    cv,
                                    Box::new(tv),
                                    None,
                                ));
                            }
                            Ok(st)
                        }
                    },
                }
            },
        }
    }

    /// Parses a while statement after its keyword: a condition and a
    /// block body.
    #[verifier::rlimit(100)]
    #[verifier::spinoff_prover]
    pub fn while_stmt(&mut self) -> (r: Result<WhileStmt, String>)
        requires
            old(self).token_cursor <= old(self).tokens@.len(),
        ensures
            final(self).tokens == old(self).tokens,
            old(self).token_cursor <= final(self).token_cursor <= final(self).tokens@.len(),
            r is Ok ==> final(self).token_cursor > old(self).token_cursor,
            ({
                let p = spec_parse_while_stmt(old(self).toks(), old(self).token_cursor as int);
                final(self).token_cursor == p.cursor && (match r {
                    Ok(st) => p.result == Ok::<StmtV, Seq<char>>(stmt_view(Stmt::While(Box::new(st)))),
                    Err(m) => p.result == Err::<StmtV, Seq<char>>(m@),
                })
            }),
        decreases old(self).tokens@.len() - old(self).token_cursor, 27int,
    {
        let ghost toks = old(self).toks();
        let ghost c0 = old(self).token_cursor as int;
        let ghost p = spec_parse_while_stmt(toks, c0);
        match self.expression() {
            Err(m) => {
                proof {
                    assert(p.cursor == self.token_cursor as int);
                    assert(p.result == Err::<StmtV, Seq<char>>(m@));
                }
                Err(m)
            },
            Ok(cond) => match self.block_stmt(false) {
                Ok(body) => {
                    let st = WhileStmt { condition: Rc::new(cond), body };
                    proof {
                        assert(p.cursor == self.token_cursor as int);
                        assert(p.result == Ok::<StmtV, Seq<char>>(
                            stmt_view(Stmt::While(Box::new(st))),
                        ));
                    }
                    Ok(st)
                },
                Err(m) => {
                    proof {
                        assert(p.cursor == self.token_cursor as int);
                        assert(p.result == Err::<StmtV, Seq<char>>(m@));
                    }
                    Err(m)
                },
            },
        }
    }

    /// Parses the declarations of a block up to and including its
    /// closing brace.
    #[verifier::rlimit(100)]
    #[verifier::spinoff_prover]
    fn block_decls(&mut self) -> (r: Result<Vec<DeclRef>, String>)
        requires
            old(self).token_cursor <= old(self).tokens@.len(),
        ensures
            final(self).tokens == old(self).tokens,
            old(self).token_cursor <= final(self).token_cursor <= final(self).tokens@.len(),
            r is Ok ==> final(self).token_cursor > old(self).token_cursor,
            ({
                let p = spec_block_decls(old(self).toks(), old(self).token_cursor as int);
                final(self).token_cursor == p.cursor && (match r {
                    Ok(ds) => p.result == Ok::<Seq<DeclV>, Seq<char>>(decl_views(ds@)),
                    Err(m) => p.result == Err::<Seq<DeclV>, Seq<char>>(m@),
                })
            }),
        decreases old(self).tokens@.len() - old(self).token_cursor, 30int,
    {
        let ghost toks = old(self).toks();
        let ghost c0 = old(self).token_cursor as int;
        let ghost p = spec_block_decls(toks, c0);
        if self.match_t(&TokenType::RightBrace) {
            let ds: Vec<DeclRef> = Vec::new();
            proof {
                assert(p.cursor == self.token_cursor as int);
                assert(decl_views(ds@) == Seq::<DeclV>::empty());
                assert(p.result == Ok::<Seq<DeclV>, Seq<char>>(decl_views(ds@)));
            }
            Ok(ds)
        } else {
            match self.declaration() {
                Err(m) => {
                    proof {
                        assert(p.cursor == self.token_cursor as int);
                        assert(p.result == Err::<Seq<DeclV>, Seq<char>>(m@));
                    }
                    Err(m)
                },
                Ok(d) => {
                    let ghost dv = decl_view(d);
                    let ghost mid = self.token_cursor as int;
                    let rd = Rc::new(d);
                    match self.block_decls() {
                        Ok(mut rest) => {
                            let ghost tail = rest@;
                            rest.insert(0, rd);
                            proof {
                                assert(rest@ =~= seq![rd] + tail);
                                assert(rest@.drop_first() =~= tail);
                                assert(decl_views(rest@) == seq![dv] + decl_views(tail));
                                assert(p.cursor == self.token_cursor as int);
                                assert(p.result == Ok::<Seq<DeclV>, Seq<char>>(decl_views(rest@)));
                            }
                            Ok(rest)
                        },
                        Err(m) => {
                            proof {
                                assert(p.cursor == self.token_cursor as int);
                                assert(p.result == Err::<Seq<DeclV>, Seq<char>>(m@));
                            }
                            Err(m)
                        },
                    }
                },
            }
        }
    }

    /// Parses a block: `{`, unless already consumed, then declarations
    /// up to the closing `}`.
    #[verifier::rlimit(100)]
    #[verifier::spinoff_prover]
    pub fn block_stmt(&mut self, ft_consumed: bool) -> (r: Result<BlockStmt, String>)
        requires
            old(self).token_cursor <= old(self).tokens@.len(),
        ensures
            final(self).tokens == old(self).tokens,
            old(self).token_cursor <= final(self).token_cursor <= final(self).tokens@.len(),
            ({
                let p = spec_parse_block_stmt(old(self).toks(), old(self).token_cursor as int, ft_consumed);
                final(self).token_cursor == p.cursor && (match r {
                    Ok(b) => p.result == Ok::<Seq<DeclV>, Seq<char>>(block_view(b)),
                    Err(m) => p.result == Err::<Seq<DeclV>, Seq<char>>(m@),
                })
            }),
        decreases old(self).tokens@.len() - old(self).token_cursor, 31int,
    {
        let ghost toks = old(self).toks();
        let ghost c0 = old(self).token_cursor as int;
        let ghost p = spec_parse_block_stmt(toks, c0, ft_consumed);
        if !ft_consumed {
            match self.consume(&TokenType::LeftBrace, "expected '{' at start of block") {
                Err(m) => {
                    proof {
                        assert(p.cursor == self.token_cursor as int);
                        assert(p.result == Err::<Seq<DeclV>, Seq<char>>(m@));
                    }
                    return Err(m);
                },
                Ok(_) => {},
            }
        }
        match self.block_decls() {
            Ok(ds) => {
                let b = BlockStmt { declarations: Rc::new(ds) };
                proof {
                    assert(p.cursor == self.token_cursor as int);
                    assert(p.result == Ok::<Seq<DeclV>, Seq<char>>(block_view(b)));
                }
                Ok(b)
            },
            Err(m) => {
                proof {
                    assert(p.cursor == self.token_cursor as int);
                    assert(p.result == Err::<Seq<DeclV>, Seq<char>>(m@));
                }
                Err(m)
            },
        }
    }

    /// Parses a statement by dispatching on its leading token.
    #[verifier::rlimit(100)]
    #[verifier::spinoff_prover]
    pub fn statement(&mut self) -> (r: Result<StmtDecl, String>)
        requires
            old(self).token_cursor <= old(self).tokens@.len(),
        ensures
            final(self).tokens == old(self).tokens,
            old(self).token_cursor <= final(self).token_cursor <= final(self).tokens@.len(),
            r is Ok ==> final(self).token_cursor > old(self).token_cursor,
            ({
                let p = spec_parse_statement(old(self).toks(), old(self).token_cursor as int);
                final(self).token_cursor == p.cursor && (match r {
                    Ok(sd) => p.result == Ok::<StmtV, Seq<char>>(stmt_view(sd.stmt)),
                    Err(m) => p.result == Err::<StmtV, Seq<char>>(m@),
                })
            }),
        decreases old(self).tokens@.len() - old(self).token_cursor, 28int,
    {
        let ghost toks = old(self).toks();
        let ghost c0 = old(self).token_cursor as int;
        let ghost p = spec_parse_statement(toks, c0);
        if self.match_t(&TokenType::Print) {
            match self.print_stmt() {
                Ok(ps) => {
                    let sd = StmtDecl { stmt: Stmt::Print(ps) };
                    proof {
                        assert(p.cursor == self.token_cursor as int);
                        assert(p.result == Ok::<StmtV, Seq<char>>(stmt_view(sd.stmt)));
                    }
                    Ok(sd)
                },
                Err(m) => {
                    proof {
                        assert(p.cursor == self.token_cursor as int);
                        assert(p.result == Err::<StmtV, Seq<char>>(m@));
                    }
                    Err(m)
                },
            }
        } else if self.match_t(&TokenType::LeftBrace) {
            match self.block_stmt(true) {
                Ok(b) => {
                    let sd = StmtDecl { stmt: Stmt::Block(b) };
                    proof {
                        assert(p.cursor == self.token_cursor as int);
                        assert(p.result == Ok::<StmtV, Seq<char>>(stmt_view(sd.stmt)));
                    }
                    Ok(sd)
                },
                Err(m) => {
                    proof {
                        assert(p.cursor == self.token_cursor as int);
                        assert(p.result == Err::<StmtV, Seq<char>>(m@));
                    }
                    Err(m)
                },
            }
        } else if self.match_t(&TokenType::If) {
            let r = self.if_stmt();
            match r {
                Ok(st) => {
                    let sd = StmtDecl { stmt: Stmt::If(Box::new(st)) };
                    proof {
                        assert(p == spec_parse_if_stmt(toks, c0 + 1));
                        assert(p.result == Ok::<StmtV, Seq<char>>(stmt_view(sd.stmt)));
                    }
                    Ok(sd)
                },
                Err(m) => {
                    proof {
                        assert(p == spec_parse_if_stmt(toks, c0 + 1));
                    }
                    Err(m)
                },
            }
        } else if self.match_t(&TokenType::While) {
            let r = self.while_stmt();
            match r {
                Ok(st) => {
                    let sd = StmtDecl { stmt: Stmt::While(Box::new(st)) };
                    proof {
                        assert(p == spec_parse_while_stmt(toks, c0 + 1));
                        assert(p.result == Ok::<StmtV, Seq<char>>(stmt_view(sd.stmt)));
                    }
                    Ok(sd)
                },
                Err(m) => {
                    proof {
                        assert(p == spec_parse_while_stmt(toks, c0 + 1));
                    }
                    Err(m)
                },
            }
        } else if self.match_t(&TokenType::Break) {
            match self.break_stmt() {
                Ok(bs) => {
                    let sd = StmtDecl { stmt: Stmt::Break(bs) };
                    proof {
                        assert(p.cursor == self.token_cursor as int);
                        assert(p.result == Ok::<StmtV, Seq<char>>(stmt_view(sd.stmt)));
                    }
                    Ok(sd)
                },
                Err(m) => {
                    proof {
                        assert(p.cursor == self.token_cursor as int);
                        assert(p.result == Err::<StmtV, Seq<char>>(m@));
                    }
                    Err(m)
                },
            }
        } else if self.match_t(&TokenType::Return) {
            match self.return_stmt() {
                Ok(rs) => {
                    let sd = StmtDecl { stmt: Stmt::Return(rs) };
                    proof {
                        assert(p.cursor == self.token_cursor as int);
                        assert(p.result == Ok::<StmtV, Seq<char>>(stmt_view(sd.stmt)));
                    }
                    Ok(sd)
                },
                Err(m) => {
                    proof {
                        assert(p.cursor == self.token_cursor as int);
                        assert(p.result == Err::<StmtV, Seq<char>>(m@));
                    }
                    Err(m)
                },
            }
        } else {
            match self.expr_stmt() {
                Ok(es) => {
                    let sd = StmtDecl { stmt: Stmt::Expression(es) };
                    proof {
                        assert(p.cursor == self.token_cursor as int);
                        assert(p.result == Ok::<StmtV, Seq<char>>(stmt_view(sd.stmt)));
                    }
                    Ok(sd)
                },
                Err(m) => {
                    proof {
                        assert(p.cursor == self.token_cursor as int);
                        assert(p.result == Err::<StmtV, Seq<char>>(m@));
                    }
                    Err(m)
                },
            }
        }
    }

    /// Parses a variable declaration after its keyword: a name, an
    /// optional initializer, and a semicolon.
    #[verifier::rlimit(100)]
    #[verifier::spinoff_prover]
    pub fn var_declaration(&mut self) -> (r: Result<VarDecl, String>)
        requires
            old(self).token_cursor <= old(self).tokens@.len(),
        ensures
            final(self).tokens == old(self).tokens,
            old(self).token_cursor <= final(self).token_cursor <= final(self).tokens@.len(),
            ({
                let p = spec_parse_var_declaration(old(self).toks(), old(self).token_cursor as int);
                final(self).token_cursor == p.cursor && (match r {
                    Ok(vd) => p.result == Ok::<DeclV, Seq<char>>(decl_view(Decl::Var(vd))),
                    Err(m) => p.result == Err::<DeclV, Seq<char>>(m@),
                })
            }),
        decreases old(self).tokens@.len() - old(self).token_cursor, 27int,
    {
        let ghost toks = old(self).toks();
        let ghost c0 = old(self).token_cursor as int;
        let ghost p = spec_parse_var_declaration(toks, c0);
        if self.match_t(&TokenType::Identifier) {
            let identifier = self.previous();
            if self.match_t(&TokenType::Equal) {
                match self.expression() {
                    Ok(init) => match self.consume(&TokenType::Semicolon, "semicolon missing") {
                        Ok(_) => {
                            let vd = VarDecl { identifier, rhs: Some(Rc::new(init)) };
                            proof {
                                assert(p.cursor == self.token_cursor as int);
                                assert(p.result == Ok::<DeclV, Seq<char>>(decl_view(Decl::Var(vd))));
                            }
                            Ok(vd)
                        },
                        Err(m) => {
                            proof {
                                assert(p.cursor == self.token_cursor as int);
                                assert(p.result == Err::<DeclV, Seq<char>>(m@));
                            }
                            Err(m)
                        },
                    },
                    Err(m) => {
                        proof {
                            assert(p.cursor == self.token_cursor as int);
                            assert(p.result == Err::<DeclV, Seq<char>>(m@));
                        }
                        Err(m)
                    },
                }
            } else {
                match self.consume(&TokenType::Semicolon, "semicolon missing") {
                    Ok(_) => {
                        let vd = VarDecl::new(identifier);
                        proof {
                            assert(p.cursor == self.token_cursor as int);
                            assert(p.result == Ok::<DeclV, Seq<char>>(decl_view(Decl::Var(vd))));
                        }
                        Ok(vd)
                    },
                    Err(m) => {
                        proof {
                            assert(p.cursor == self.token_cursor as int);
                            assert(p.result == Err::<DeclV, Seq<char>>(m@));
                        }
                        Err(m)
                    },
                }
            }
        } else {
            let m = String::from_str("expected identifier after 'var'");
            proof {
                assert(p.cursor == self.token_cursor as int);
                assert(p.result == Err::<DeclV, Seq<char>>(m@));
            }
            Err(m)
        }
    }

    /// Parses the parameter list of a function declaration, ending at
    /// and consuming the closing parenthesis.
    #[verifier::rlimit(100)]
    #[verifier::spinoff_prover]
    fn fun_params(&mut self, acc: Vec<TokenRef>) -> (r: Result<Vec<TokenRef>, String>)
        requires
            old(self).token_cursor <= old(self).tokens@.len(),
        ensures
            final(self).tokens == old(self).tokens,
            old(self).token_cursor <= final(self).token_cursor <= final(self).tokens@.len(),
            ({
                let p = spec_parse_params(old(self).toks(), old(self).token_cursor as int, tok_views(acc@));
                final(self).token_cursor == p.cursor && (match r {
                    Ok(ps) => p.result == Ok::<Seq<TokenV>, Seq<char>>(tok_views(ps@)),
                    Err(m) => p.result == Err::<Seq<TokenV>, Seq<char>>(m@),
                })
            }),
        decreases old(self).tokens@.len() - old(self).token_cursor, 26int,
    {
        let ghost toks = old(self).toks();
        let ghost c0 = old(self).token_cursor as int;
        let ghost accv = tok_views(acc@);
        let ghost p = spec_parse_params(toks, c0, accv);
        if acc.len() >= 255 {
            let m = String::from_str("cannot have more than 255 parameters");
            proof {
                assert(p.cursor == self.token_cursor as int);
                assert(p.result == Err::<Seq<TokenV>, Seq<char>>(m@));
            }
            Err(m)
        } else {
            let mut acc1 = acc;
            if self.match_t(&TokenType::Identifier) {
                let t = self.previous();
                let ghost before = acc1@;
                acc1.push(t);
                proof {
                    assert(tok_views(acc1@) =~= accv.push((*t)@));
                }
            }
            if self.match_t(&TokenType::Comma) {
                let ghost mid = self.token_cursor as int;
                proof {
                    assert(p == spec_parse_params(toks, mid, tok_views(acc1@)));
                }
                self.fun_params(acc1)
            } else {
                match self.consume(&TokenType::RightParen, "expected paranthesis after parameters") {
                    Ok(_) => {
                        proof {
                            assert(p.cursor == self.token_cursor as int);
                            assert(p.result == Ok::<Seq<TokenV>, Seq<char>>(tok_views(acc1@)));
                        }
                        Ok(acc1)
                    },
                    Err(m) => {
                        proof {
                            assert(p.cursor == self.token_cursor as int);
                            assert(p.result == Err::<Seq<TokenV>, Seq<char>>(m@));
                        }
                        Err(m)
                    },
                }
            }
        }
    }

    /// Parses a function declaration after its keyword: a name, a
    /// parameter list in parentheses, and a block body.
    #[verifier::rlimit(100)]
    #[verifier::spinoff_prover]
    pub fn fun_declaration(&mut self) -> (r: Result<FunDecl, String>)
        requires
            old(self).token_cursor <= old(self).tokens@.len(),
        ensures
            final(self).tokens == old(self).tokens,
            old(self).token_cursor <= final(self).token_cursor <= final(self).tokens@.len(),
            ({
                let p = spec_parse_fun_declaration(old(self).toks(), old(self).token_cursor as int);
                final(self).token_cursor == p.cursor && (match r {
                    Ok(fd) => p.result == Ok::<DeclV, Seq<char>>(DeclV::Fun(
                        (*fd.identifier)@,
                        tok_views(fd.params@),
                        block_view(fd.body),
                    )),
                    Err(m) => p.result == Err::<DeclV, Seq<char>>(m@),
                })
            }),
        decreases old(self).tokens@.len() - old(self).token_cursor, 27int,
    {
        let ghost toks = old(self).toks();
        let ghost c0 = old(self).token_cursor as int;
        let ghost p = spec_parse_fun_declaration(toks, c0);
        if self.match_t(&TokenType::Identifier) {
            let identifier = self.previous();
            match self.consume(&TokenType::LeftParen, "expected '(' after function name") {
                Err(m) => {
                    proof {
                        assert(p.cursor == self.token_cursor as int);
                        assert(p.result == Err::<DeclV, Seq<char>>(m@));
                    }
                    Err(m)
                },
                Ok(_) => {
                    let params: Vec<TokenRef>;
                    if self.match_t(&TokenType::RightParen) {
                        params = Vec::new();
                        proof {
                            assert(tok_views(params@) == Seq::<TokenV>::empty());
                        }
                    } else {
                        let started: Vec<TokenRef> = Vec::new();
                        proof {
                            assert(tok_views(started@) == Seq::<TokenV>::empty());
                        }
                        match self.fun_params(started) {
                            Ok(ps) => {
                                params = ps;
                            },
                            Err(m) => {
                                proof {
                                    assert(p.cursor == self.token_cursor as int);
                                    assert(p.result == Err::<DeclV, Seq<char>>(m@));
                                }
                                return Err(m);
                            },
                        }
                    }
                    match self.block_stmt(false) {
                        Ok(body) => {
                            let fd = FunDecl { identifier, params, body };
                            proof {
                                assert(p.cursor == self.token_cursor as int);
                                assert(p.result == Ok::<DeclV, Seq<char>>(DeclV::Fun(
                                    (*fd.identifier)@,
                                    tok_views(fd.params@),
                                    block_view(fd.body),
                                )));
                            }
                            Ok(fd)
                        },
                        Err(m) => {
                            proof {
                                assert(p.cursor == self.token_cursor as int);
                                assert(p.result == Err::<DeclV, Seq<char>>(m@));
                            }
                            Err(m)
                        },
                    }
                },
            }
        } else {
            let m = String::from_str("expected identifier after 'fun'");
            proof {
                assert(p.cursor == self.token_cursor as int);
                assert(p.result == Err::<DeclV, Seq<char>>(m@));
            }
            Err(m)
        }
    }

    /// Parses a declaration: a variable declaration, a function
    /// declaration, or a statement.
    #[verifier::rlimit(100)]
    #[verifier::spinoff_prover]
    pub fn declaration(&mut self) -> (r: Result<Decl, String>)
        requires
            old(self).token_cursor <= old(self).tokens@.len(),
        ensures
            final(self).tokens == old(self).tokens,
            old(self).token_cursor <= final(self).token_cursor <= final(self).tokens@.len(),
            r is Ok ==> final(self).token_cursor > old(self).token_cursor,
            ({
                let p = spec_parse_declaration(old(self).toks(), old(self).token_cursor as int);
                final(self).token_cursor == p.cursor && (match r {
                    Ok(d) => p.result == Ok::<DeclV, Seq<char>>(decl_view(d)),
                    Err(m) => p.result == Err::<DeclV, Seq<char>>(m@),
                })
            }),
        decreases old(self).tokens@.len() - old(self).token_cursor, 29int,
    {
        let ghost toks = old(self).toks();
        let ghost c0 = old(self).token_cursor as int;
        let ghost p = spec_parse_declaration(toks, c0);
        if self.match_t(&TokenType::Var) {
            match self.var_declaration() {
                Ok(vd) => {
                    let d = Decl::Var(vd);
                    proof {
                        assert(p == spec_parse_var_declaration(toks, c0 + 1));
                        assert(p.result == Ok::<DeclV, Seq<char>>(decl_view(d)));
                    }
                    Ok(d)
                },
                Err(m) => {
                    proof {
                        assert(p == spec_parse_var_declaration(toks, c0 + 1));
                    }
                    Err(m)
                },
            }
        } else if self.match_t(&TokenType::Fun) {
            match self.fun_declaration() {
                Ok(fd) => {
                    let d = Decl::Fun(Rc::new(fd));
                    proof {
                        assert(p == spec_parse_fun_declaration(toks, c0 + 1));
                        assert(p.result == Ok::<DeclV, Seq<char>>(decl_view(d)));
                    }
                    Ok(d)
                },
                Err(m) => {
                    proof {
                        assert(p == spec_parse_fun_declaration(toks, c0 + 1));
                    }
                    Err(m)
                },
            }
        } else {
            match self.statement() {
                Ok(sd) => {
                    let d = Decl::Stmt(sd);
                    proof {
                        assert(p.cursor == self.token_cursor as int);
                        assert(p.result == Ok::<DeclV, Seq<char>>(decl_view(d)));
                    }
                    Ok(d)
                },
                Err(m) => {
                    proof {
                        assert(p.cursor == self.token_cursor as int);
                        assert(p.result == Err::<DeclV, Seq<char>>(m@));
                    }
                    Err(m)
                },
            }
        }
    }

    /// Parses a whole program: declarations until the end-of-file
    /// token.
    #[verifier::rlimit(100)]
    #[verifier::spinoff_prover]
    pub fn parse(&mut self) -> (r: Result<Vec<DeclRef>, String>)
        requires
            old(self).token_cursor <= old(self).tokens@.len(),
        ensures
            final(self).tokens == old(self).tokens,
            old(self).token_cursor <= final(self).token_cursor <= final(self).tokens@.len(),
            ({
                let p = spec_parse_program(old(self).toks(), old(self).token_cursor as int);
                final(self).token_cursor == p.cursor && (match r {
                    Ok(ds) => p.result == Ok::<Seq<DeclV>, Seq<char>>(decl_views(ds@)),
                    Err(m) => p.result == Err::<Seq<DeclV>, Seq<char>>(m@),
                })
            }),
        decreases old(self).tokens@.len() - old(self).token_cursor, 32int,
    {
        let ghost toks = old(self).toks();
        let ghost c0 = old(self).token_cursor as int;
        let ghost p = spec_parse_program(toks, c0);
        if self.is_end() {
            let ds: Vec<DeclRef> = Vec::new();
            proof {
                assert(p.cursor == self.token_cursor as int);
                assert(decl_views(ds@) == Seq::<DeclV>::empty());
                assert(p.result == Ok::<Seq<DeclV>, Seq<char>>(decl_views(ds@)));
            }
            Ok(ds)
        } else {
            match self.declaration() {
                Err(m) => {
                    proof {
                        assert(p.cursor == self.token_cursor as int);
                        assert(p.result == Err::<Seq<DeclV>, Seq<char>>(m@));
                    }
                    Err(m)
                },
                Ok(d) => {
                    let ghost dv = decl_view(d);
                    let ghost mid = self.token_cursor as int;
                    let rd = Rc::new(d);
                    match self.parse() {
                        Ok(mut rest) => {
                            let ghost tail = rest@;
                            rest.insert(0, rd);
                            proof {
                                assert(rest@ =~= seq![rd] + tail);
                                assert(rest@.drop_first() =~= tail);
                                assert(decl_views(rest@) == seq![dv] + decl_views(tail));
                                assert(p.cursor == self.token_cursor as int);
                                assert(p.result == Ok::<Seq<DeclV>, Seq<char>>(decl_views(rest@)));
                            }
                            Ok(rest)
                        },
                        Err(m) => {
                            proof {
                                assert(p.cursor == self.token_cursor as int);
                                assert(p.result == Err::<Seq<DeclV>, Seq<char>>(m@));
                            }
                            Err(m)
                        },
                    }
                },
            }
        }
    }
}

} // verus!
