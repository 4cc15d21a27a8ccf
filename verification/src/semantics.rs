//! The meaning of programs: a fuel-indexed big-step evaluation of the
//! syntax tree over a mathematical interpreter state.
//!
//! Every exec method of the interpreter is proved to leave the state
//! and produce the outcome that these functions give.  Fuel bounds the
//! depth of loop iterations and calls: a program that would run beyond
//! the given fuel ends in the `Spent` outcome instead of diverging.

use vstd::prelude::*;

use crate::ast::{
    block_size, decl_size, decls_size, expr_size, expression_size, exprs_size, stmt_decl_size,
    stmt_size, BlockStmt, Decl, DeclRef, Expr, Expression, Stmt, StmtDecl, TokenRef, WhileStmt,
};
use crate::environment::{assign_scopes, declare_scopes, lookup_scopes, ScopeV};
use crate::result::{value_text, vals_equal, CallableFunV, CallableV, ValueV};
use crate::text::dec_digits;
use crate::tokens::TokenType;

verus! {

/// The interpreter state: every scope made so far, the current scope,
/// the text printed so far, and the wall-clock seconds the interpreter
/// was given when it was made.
pub struct StateV {
    pub scopes: Seq<ScopeV>,
    pub env: int,
    pub out: Seq<char>,
    pub clock: i64,
}

/// The outcome of evaluating one node: a value (possibly a sentinel),
/// a runtime error carrying its message, or exhaustion of the fuel.
pub enum Outcome {
    Done(ValueV),
    Fail(Seq<char>),
    Spent,
}

/// The name a token spells.
pub open spec fn name_of(t: TokenRef) -> Seq<char> {
    (*t).lexeme@
}

/// The names of a parameter list.
pub open spec fn param_names(ps: Seq<TokenRef>) -> Seq<Seq<char>> {
    ps.map_values(|t: TokenRef| (*t).lexeme@)
}

/// Bindings after installing parameters over `m0`, bound positionally
/// and in order, a missing argument leaving its parameter
/// uninitialized.
pub open spec fn params_map_from(
    m0: Map<Seq<char>, Option<ValueV>>,
    names: Seq<Seq<char>>,
    args: Seq<ValueV>,
) -> Map<Seq<char>, Option<ValueV>>
    decreases names,
{
    if names.len() == 0 {
        m0
    } else {
        let i = names.len() - 1;
        params_map_from(m0, names.drop_last(), args).insert(
            names.last(),
            if i < args.len() {
                Some(args[i as int])
            } else {
                None
            },
        )
    }
}

/// The bindings of a fresh call frame.
pub open spec fn params_map(names: Seq<Seq<char>>, args: Seq<ValueV>) -> Map<Seq<char>, Option<ValueV>> {
    params_map_from(Map::empty(), names, args)
}

/// The views of a list of runtime values.
pub open spec fn views_of(vs: Seq<crate::result::IResult>) -> Seq<ValueV> {
    vs.map_values(|v: crate::result::IResult| crate::result::value_view(v))
}

/// The built-in clock as a value: a zero-arity callable.
pub open spec fn clock_callable() -> ValueV {
    ValueV::Callable(CallableV { arity: 0, call: CallableFunV::Clock })
}

/// The state a fresh interpreter starts in: one global scope holding
/// only the built-in `clock`, nothing printed, and the given wall-clock
/// seconds.
pub open spec fn initial_state(clock: i64) -> StateV {
    StateV {
        scopes: seq![
            ScopeV {
                parent: None,
                bindings: Map::<Seq<char>, Option<ValueV>>::empty().insert("clock"@, Some(clock_callable())),
            },
        ],
        env: 0,
        out: Seq::<char>::empty(),
        clock,
    }
}

/// The message of a runtime error about an unbound variable.
pub open spec fn msg_not_in_scope(name: Seq<char>) -> Seq<char> {
    "variable "@ + name + " not in scope"@
}

/// The message of a runtime error about assigning to an unbound name.
pub open spec fn msg_not_binded(name: Seq<char>) -> Seq<char> {
    name + " is not binded"@
}

/// The message of a runtime error about calling a value that is not
/// callable.
pub open spec fn msg_not_callable(v: ValueV) -> Seq<char> {
    value_text(v) + " is not callable"@
}

/// The message of a runtime error about calling with the wrong number
/// of arguments.
pub open spec fn msg_arity(arity: nat, got: nat) -> Seq<char> {
    "expected "@ + dec_digits(arity) + " arguments but got "@ + dec_digits(got)
}

/// What a unary operator yields on an evaluated operand: `-` and `+`
/// need a number, `!` needs a boolean.
pub open spec fn apply_unary(op: TokenType, v: ValueV) -> Outcome {
    match op {
        TokenType::Minus => match v {
            ValueV::Number(n) => if n == i64::MIN {
                Outcome::Fail("number overflow"@)
            } else {
                Outcome::Done(ValueV::Number((-n) as i64))
            },
            _ => Outcome::Fail("invalid operand for plus/minus operator"@),
        },
        TokenType::Plus => match v {
            ValueV::Number(n) => Outcome::Done(ValueV::Number(n)),
            _ => Outcome::Fail("invalid operand for plus/minus operator"@),
        },
        TokenType::Bang => match v {
            ValueV::Bool(b) => Outcome::Done(ValueV::Bool(!b)),
            _ => Outcome::Fail("invalid operand for bang operator"@),
        },
        _ => Outcome::Fail("invalid token found; expected unary operator"@),
    }
}

/// Truncating integer division, as the machine divides.
pub open spec fn trunc_div(x: int, d: int) -> int {
    if x == 0 {
        0
    } else if x > 0 && d > 0 {
        x / d
    } else if x < 0 && d < 0 {
        (x * -1) / (d * -1)
    } else if x < 0 {
        ((x * -1) / d) * -1
    } else {
        (x / (d * -1)) * -1
    }
}

/// What a binary operator yields on two evaluated operands.
/// Arithmetic and comparisons need two numbers; `+` also concatenates
/// two strings; `==` and `!=` are structural equality across variants.
pub open spec fn apply_binary(op: TokenType, l: ValueV, r: ValueV) -> Outcome {
    match op {
        TokenType::Plus => match (l, r) {
            (ValueV::Number(a), ValueV::Number(b)) => if i64::MIN <= a + b <= i64::MAX {
                Outcome::Done(ValueV::Number((a + b) as i64))
            } else {
                Outcome::Fail("number overflow"@)
            },
            (ValueV::Str(a), ValueV::Str(b)) => Outcome::Done(ValueV::Str(a + b)),
            _ => Outcome::Fail("invalid operands for plus operator"@),
        },
        TokenType::Minus => match (l, r) {
            (ValueV::Number(a), ValueV::Number(b)) => if i64::MIN <= a - b <= i64::MAX {
                Outcome::Done(ValueV::Number((a - b) as i64))
            } else {
                Outcome::Fail("number overflow"@)
            },
            _ => Outcome::Fail("invalid operands for minus operator"@),
        },
        TokenType::Star => match (l, r) {
            (ValueV::Number(a), ValueV::Number(b)) => if i64::MIN <= a * b <= i64::MAX {
                Outcome::Done(ValueV::Number((a * b) as i64))
            } else {
                Outcome::Fail("number overflow"@)
            },
            _ => Outcome::Fail("invalid operands for star operator"@),
        },
        TokenType::Slash => match (l, r) {
            (ValueV::Number(a), ValueV::Number(b)) => if b == 0 {
                Outcome::Fail("division by zero"@)
            } else if i64::MIN <= trunc_div(a as int, b as int) <= i64::MAX {
                Outcome::Done(ValueV::Number(trunc_div(a as int, b as int) as i64))
            } else {
                Outcome::Fail("number overflow"@)
            },
            _ => Outcome::Fail("invalid operands for slash operator"@),
        },
        TokenType::Greater => match (l, r) {
            (ValueV::Number(a), ValueV::Number(b)) => Outcome::Done(ValueV::Bool(a > b)),
            _ => Outcome::Fail("invalid operands for greater operator"@),
        },
        TokenType::GreaterEqual => match (l, r) {
            (ValueV::Number(a), ValueV::Number(b)) => Outcome::Done(ValueV::Bool(a >= b)),
            _ => Outcome::Fail("invalid operands for greater-equal"@),
        },
        TokenType::Less => match (l, r) {
            (ValueV::Number(a), ValueV::Number(b)) => Outcome::Done(ValueV::Bool(a < b)),
            _ => Outcome::Fail("invalid operands for less"@),
        },
        TokenType::LessEqual => match (l, r) {
            (ValueV::Number(a), ValueV::Number(b)) => Outcome::Done(ValueV::Bool(a <= b)),
            _ => Outcome::Fail("invalid operands for less-equal"@),
        },
        TokenType::EqualEqual => Outcome::Done(ValueV::Bool(vals_equal(l, r))),
        TokenType::BangEqual => Outcome::Done(ValueV::Bool(!vals_equal(l, r))),
        _ => Outcome::Fail("invalid token found; expected binary operator"@),
    }
}

/// What a literal token yields: its decoded payload, or, for an
/// identifier, the nearest binding of the name.
pub open spec fn eval_literal(st: StateV, t: TokenRef) -> Outcome {
    match (*t).ttype {
        TokenType::Str(s) => Outcome::Done(ValueV::Str(s@)),
        TokenType::Number(n) => Outcome::Done(ValueV::Number(n)),
        TokenType::True => Outcome::Done(ValueV::Bool(true)),
        TokenType::False => Outcome::Done(ValueV::Bool(false)),
        TokenType::Nil => Outcome::Done(ValueV::Nil),
        TokenType::Identifier => match lookup_scopes(st.scopes, st.env, name_of(t)) {
            None => Outcome::Fail(msg_not_in_scope(name_of(t))),
            Some(None) => Outcome::Fail("variable is not initialized"@),
            Some(Some(v)) => Outcome::Done(v),
        },
        _ => Outcome::Fail("invalid token found; expected literal"@),
    }
}

/// Evaluates a declaration in the current scope.
pub open spec fn eval_declaration(st: StateV, d: Decl, fuel: nat) -> (StateV, Outcome)
    decreases fuel, decl_size(d), 0int,
{
    match d {
        Decl::Var(vd) => match vd.rhs {
            None => (
                StateV { scopes: declare_scopes(st.scopes, st.env, name_of(vd.identifier), None), ..st },
                Outcome::Done(ValueV::Nil),
            ),
            Some(e) => {
                let (st1, o) = eval_expression(st, *e, fuel);
                match o {
                    Outcome::Done(v) => (
                        StateV {
                            scopes: declare_scopes(st1.scopes, st1.env, name_of(vd.identifier), Some(v)),
                            ..st1
                        },
                        Outcome::Done(ValueV::Nil),
                    ),
                    _ => (st1, o),
                }
            },
        },
        Decl::Fun(fd) => {
            let cal = ValueV::Callable(
                CallableV {
                    arity: (*fd).params@.len() as usize,
                    call: CallableFunV::Declared(
                        crate::result::DeclaredFunV { fun: *fd, closure: st.env as usize },
                    ),
                },
            );
            (
                StateV {
                    scopes: declare_scopes(st.scopes, st.env, name_of((*fd).identifier), Some(cal)),
                    ..st
                },
                Outcome::Done(ValueV::Nil),
            )
        },
        Decl::Stmt(sd) => eval_statement(st, sd.stmt, fuel),
    }
}

/// Evaluates a statement.
pub open spec fn eval_statement(st: StateV, s: Stmt, fuel: nat) -> (StateV, Outcome)
    decreases fuel, stmt_size(s), 1int,
{
    match s {
        Stmt::Expression(es) => eval_expression(st, *es.value, fuel),
        Stmt::Print(ps) => {
            let (st1, o) = eval_expression(st, *ps.value, fuel);
            match o {
                Outcome::Done(v) => (
                    StateV { out: st1.out + value_text(v) + seq!['\n'], ..st1 },
                    Outcome::Done(ValueV::Nil),
                ),
                _ => (st1, o),
            }
        },
        Stmt::Block(bs) => eval_block(st, bs, fuel),
        Stmt::If(i) => {
            let (st1, o) = eval_expression(st, *i.condition, fuel);
            match o {
                Outcome::Done(ValueV::Bool(c)) => if c {
                    eval_stmt_decl(st1, i.then_b, fuel)
                } else {
                    match i.else_b {
                        Some(e) => eval_stmt_decl(st1, e, fuel),
                        None => (st1, Outcome::Done(ValueV::Nil)),
                    }
                },
                Outcome::Done(_) => (st1, Outcome::Fail("condition expression should return boolean"@)),
                _ => (st1, o),
            }
        },
        Stmt::While(w) => eval_while(st, *w, fuel),
        Stmt::Break(_) => (st, Outcome::Done(ValueV::Break)),
        Stmt::Return(rs) => match rs.value {
            Some(e) => {
                let (st1, o) = eval_expression(st, *e, fuel);
                match o {
                    Outcome::Done(v) => (st1, Outcome::Done(ValueV::Return(Box::new(v)))),
                    _ => (st1, o),
                }
            },
            None => (st, Outcome::Done(ValueV::Return(Box::new(ValueV::Nil)))),
        },
    }
}

/// Evaluates a statement standing in declaration position.
pub open spec fn eval_stmt_decl(st: StateV, sd: StmtDecl, fuel: nat) -> (StateV, Outcome)
    decreases fuel, stmt_decl_size(sd), 0int,
{
    eval_statement(st, sd.stmt, fuel)
}

/// Evaluates a while loop: the condition must yield a boolean; while it
/// holds the body runs; a `Break` from the body ends the loop quietly;
/// a `Return` passes through.  Each further iteration takes one unit of
/// fuel.
pub open spec fn eval_while(st: StateV, w: WhileStmt, fuel: nat) -> (StateV, Outcome)
    decreases fuel, 1 + expression_size(*w.condition) + block_size(w.body), 0int,
{
    let (st1, o) = eval_expression(st, *w.condition, fuel);
    match o {
        Outcome::Done(ValueV::Bool(c)) => if !c {
            (st1, Outcome::Done(ValueV::Nil))
        } else {
            let (st2, ob) = eval_block(st1, w.body, fuel);
            match ob {
                Outcome::Done(ValueV::Break) => (st2, Outcome::Done(ValueV::Nil)),
                Outcome::Done(ValueV::Return(v)) => (st2, Outcome::Done(ValueV::Return(v))),
                Outcome::Done(_) => if fuel == 0 {
                    (st2, Outcome::Spent)
                } else {
                    eval_while(st2, w, (fuel - 1) as nat)
                },
                _ => (st2, ob),
            }
        },
        Outcome::Done(_) => (st1, Outcome::Fail("condition expression should return boolean"@)),
        _ => (st1, o),
    }
}

/// Evaluates a block: its declarations run in order in a fresh child
/// scope; a `Break` or `Return` outcome stops the block and propagates
/// unchanged; the current scope is restored on every path.
pub open spec fn eval_block(st: StateV, b: BlockStmt, fuel: nat) -> (StateV, Outcome)
    decreases fuel, block_size(b), 0int,
{
    let child = ScopeV { parent: Some(st.env as usize), bindings: Map::empty() };
    let st1 = StateV { scopes: st.scopes.push(child), env: st.scopes.len() as int, ..st };
    let (st2, o) = eval_decl_seq(st1, b.declarations@, fuel);
    (StateV { env: st.env, ..st2 }, o)
}

/// Evaluates declarations in order, stopping at the first sentinel,
/// error, or exhaustion.
pub open spec fn eval_decl_seq(st: StateV, ds: Seq<DeclRef>, fuel: nat) -> (StateV, Outcome)
    decreases fuel, decls_size(ds), 1int,
{
    if ds.len() == 0 {
        (st, Outcome::Done(ValueV::Nil))
    } else {
        let (st1, o) = eval_declaration(st, *ds[0], fuel);
        match o {
            Outcome::Done(ValueV::Break) => (st1, Outcome::Done(ValueV::Break)),
            Outcome::Done(ValueV::Return(v)) => (st1, Outcome::Done(ValueV::Return(v))),
            Outcome::Done(_) => eval_decl_seq(st1, ds.drop_first(), fuel),
            _ => (st1, o),
        }
    }
}

/// Evaluates an expression wrapper.
pub open spec fn eval_expression(st: StateV, e: Expression, fuel: nat) -> (StateV, Outcome)
    decreases fuel, expression_size(e), 0int,
{
    eval_expr(st, e.value, fuel)
}

/// Evaluates argument expressions left to right, yielding their values
/// or the first interruption.
pub open spec fn eval_args(st: StateV, es: Seq<Expression>, fuel: nat) -> (StateV, Result<Seq<ValueV>, Outcome>)
    decreases fuel, exprs_size(es), 1int,
{
    if es.len() == 0 {
        (st, Ok(Seq::empty()))
    } else {
        let (st1, o) = eval_expression(st, es[0], fuel);
        match o {
            Outcome::Done(v) => {
                let (st2, rest) = eval_args(st1, es.drop_first(), fuel);
                match rest {
                    Ok(vs) => (st2, Ok(seq![v] + vs)),
                    Err(oo) => (st2, Err(oo)),
                }
            },
            _ => (st1, Err(o)),
        }
    }
}

/// Evaluates a call of an evaluated callee on evaluated arguments: the
/// callee must be callable and the argument count must meet its arity.
/// A declared function runs its body in a fresh child of the captured
/// environment, with the parameters bound positionally; a `Return`
/// from the body gives the call's value, otherwise the call yields
/// `Nil`.  The caller's scope is restored on every path.  Entering a
/// body takes one unit of fuel.
pub open spec fn eval_invoke(st: StateV, cv: ValueV, args: Seq<ValueV>, fuel: nat) -> (StateV, Outcome)
    decreases fuel, 0int, 0int,
{
    match cv {
        ValueV::Callable(cal) => if args.len() != cal.arity {
            (st, Outcome::Fail(msg_arity(cal.arity as nat, args.len())))
        } else {
            match cal.call {
                CallableFunV::Clock => (st, Outcome::Done(ValueV::Number(st.clock))),
                CallableFunV::Declared(d) => if fuel == 0 {
                    (st, Outcome::Spent)
                } else {
                    let frame = ScopeV {
                        parent: Some(d.closure),
                        bindings: params_map(param_names(d.fun.params@), args),
                    };
                    let st1 = StateV { scopes: st.scopes.push(frame), env: st.scopes.len() as int, ..st };
                    let (st2, o) = eval_block(st1, d.fun.body, (fuel - 1) as nat);
                    let st3 = StateV { env: st.env, ..st2 };
                    match o {
                        Outcome::Done(ValueV::Return(v)) => (st3, Outcome::Done(*v)),
                        Outcome::Done(_) => (st3, Outcome::Done(ValueV::Nil)),
                        _ => (st3, o),
                    }
                },
            }
        },
        _ => (st, Outcome::Fail(msg_not_callable(cv))),
    }
}

/// Evaluates an expression node.
pub open spec fn eval_expr(st: StateV, e: Expr, fuel: nat) -> (StateV, Outcome)
    decreases fuel, expr_size(e), 0int,
{
    match e {
        Expr::Literal(lit) => (st, eval_literal(st, lit.value)),
        Expr::Grouping(g) => eval_expression(st, g.expr, fuel),
        Expr::Unary(u) => {
            let (st1, o) = eval_expression(st, u.expr, fuel);
            match o {
                Outcome::Done(v) => (st1, apply_unary((*u.operator).ttype, v)),
                _ => (st1, o),
            }
        },
        Expr::Binary(b) => {
            let (st1, o) = eval_expression(st, b.left, fuel);
            match o {
                Outcome::Done(l) => {
                    let (st2, o2) = eval_expression(st1, b.right, fuel);
                    match o2 {
                        Outcome::Done(r) => (st2, apply_binary((*b.operator).ttype, l, r)),
                        _ => (st2, o2),
                    }
                },
                _ => (st1, o),
            }
        },
        Expr::Logical(lg) => {
            let (st1, o) = eval_expression(st, lg.left, fuel);
            match o {
                Outcome::Done(ValueV::Bool(lb)) => {
                    let or_op = (*lg.operator).ttype is Or;
                    let and_op = (*lg.operator).ttype is And;
                    if !(or_op || and_op) {
                        (st1, Outcome::Fail("invalid token found; expected logical operator"@))
                    } else if lb == or_op {
                        // the left value already determines the result
                        (st1, Outcome::Done(ValueV::Bool(lb)))
                    } else {
                        let (st2, o2) = eval_expression(st1, lg.right, fuel);
                        match o2 {
                            Outcome::Done(ValueV::Bool(rb)) => (st2, Outcome::Done(ValueV::Bool(rb))),
                            Outcome::Done(_) => (
                                st2,
                                Outcome::Fail("condition expression should return boolean"@),
                            ),
                            _ => (st2, o2),
                        }
                    }
                },
                Outcome::Done(_) => (st1, Outcome::Fail("invalid operands for logical operator"@)),
                _ => (st1, o),
            }
        },
        Expr::Assign(a) => {
            let name = name_of(a.identifier);
            if lookup_scopes(st.scopes, st.env, name) is Some {
                let (st1, o) = eval_expression(st, a.value, fuel);
                match o {
                    Outcome::Done(v) => (
                        StateV { scopes: assign_scopes(st1.scopes, st1.env, name, v), ..st1 },
                        Outcome::Done(ValueV::Nil),
                    ),
                    _ => (st1, o),
                }
            } else {
                (st, Outcome::Fail(msg_not_binded(name)))
            }
        },
        Expr::Call(c) => {
            let (st1, o) = eval_expression(st, c.callee, fuel);
            match o {
                Outcome::Done(cv) => if !(cv is Callable) {
                    // the callee is checked before any argument is evaluated
                    (st1, Outcome::Fail(msg_not_callable(cv)))
                } else {
                    let (st2, ar) = eval_args(st1, c.arguments@, fuel);
                    match ar {
                        Ok(args) => eval_invoke(st2, cv, args, fuel),
                        Err(oo) => (st2, oo),
                    }
                },
                _ => (st1, o),
            }
        },
    }
}

/// Runs one top-level declaration: a `Break` or `Return` sentinel must
/// not escape the top level, and exhausted fuel surfaces as an error.
pub open spec fn interp_one(st: StateV, d: Decl, fuel: nat) -> (StateV, Result<ValueV, Seq<char>>) {
    let (st1, o) = eval_declaration(st, d, fuel);
    match o {
        Outcome::Done(ValueV::Break) => (st1, Err("break outside loop"@)),
        Outcome::Done(ValueV::Return(_)) => (st1, Err("return outside function"@)),
        Outcome::Done(v) => (st1, Ok(v)),
        Outcome::Fail(m) => (st1, Err(m)),
        Outcome::Spent => (st1, Err("evaluation fuel exhausted"@)),
    }
}

/// Runs top-level declarations in order, stopping at the first error
/// and yielding the value of the last declaration run (`last` seeds
/// the value for an empty list).
pub open spec fn interp_decls(
    st: StateV,
    ds: Seq<DeclRef>,
    last: ValueV,
    fuel: nat,
) -> (StateV, Result<ValueV, Seq<char>>)
    decreases ds.len(),
{
    if ds.len() == 0 {
        (st, Ok(last))
    } else {
        let (st1, r) = interp_one(st, *ds[0], fuel);
        match r {
            Ok(v) => interp_decls(st1, ds.drop_first(), v, fuel),
            Err(m) => (st1, Err(m)),
        }
    }
}

} // verus!
