//! The evaluator: a tree walk over the syntax tree, proved to follow
//! the evaluation model of `semantics`.

use vstd::prelude::*;

use std::rc::Rc;

use crate::ast::{
    block_size, decl_size, decls_size, expr_size, expression_size, exprs_size, stmt_decl_size,
    stmt_size, Assign, Binary, BlockStmt, BreakStmt, Call, Decl, DeclRef, Expr, ExprStmt,
    Expression, FunDecl, Grouping, IfStmt, Literal, Logical, PrintStmt, ReturnStmt, Stmt, StmtDecl,
    TokenRef, Unary, VarDecl, WhileStmt,
};
use crate::environment::{Environments, ScopeV};
use crate::result::{
    CallableFun, DeclaredFun, EnvironmentRef, IResult, LoxCallable, ValueV,
};
use crate::semantics::{
    apply_binary, apply_unary, eval_args, eval_block, eval_declaration, eval_decl_seq,
    eval_expression, eval_expr, eval_invoke, eval_literal, eval_statement, eval_stmt_decl,
    eval_while, initial_state, interp_decls, interp_one, msg_arity, msg_not_binded,
    msg_not_callable, msg_not_in_scope, name_of, param_names, params_map, params_map_from,
    views_of, Outcome, StateV,
};
use crate::shared::rc_clone;
use crate::text::{push_char, usize_to_text};
use crate::tokens::TokenType;

verus! {

/// The outcome of one evaluation step: a value, a runtime error, or
/// exhausted fuel.
pub enum EvalOutcome {
    Done(IResult),
    Fail(String),
    Spent,
}

impl View for EvalOutcome {
    type V = Outcome;

    open spec fn view(&self) -> Outcome {
        match self {
            EvalOutcome::Done(v) => Outcome::Done(v@),
            EvalOutcome::Fail(m) => Outcome::Fail(m@),
            EvalOutcome::Spent => Outcome::Spent,
        }
    }
}

/// The message about an unbound variable read.
fn make_not_in_scope(name: &String) -> (r: String)
    ensures
        r@ == msg_not_in_scope(name@),
{
    let mut m = String::from_str("variable ");
    m.append(name.as_str());
    m.append(" not in scope");
    proof {
        assert(m@ =~= msg_not_in_scope(name@));
    }
    m
}

/// The message about an assignment to an unbound name.
fn make_not_binded(name: &String) -> (r: String)
    ensures
        r@ == msg_not_binded(name@),
{
    let mut m = name.clone();
    m.append(" is not binded");
    proof {
        assert(m@ =~= msg_not_binded(name@));
    }
    m
}

/// The message about calling a value that is not callable.
fn make_not_callable(v: &IResult) -> (r: String)
    ensures
        r@ == msg_not_callable(v@),
{
    let mut m = v.to_text();
    m.append(" is not callable");
    proof {
        assert(m@ =~= msg_not_callable(v@));
    }
    m
}

/// The message about a call with the wrong argument count.
fn make_arity_msg(arity: usize, got: usize) -> (r: String)
    ensures
        r@ == msg_arity(arity as nat, got as nat),
{
    let mut m = String::from_str("expected ");
    let a = usize_to_text(arity);
    m.append(a.as_str());
    m.append(" arguments but got ");
    let g = usize_to_text(got);
    m.append(g.as_str());
    proof {
        assert(m@ =~= msg_arity(arity as nat, got as nat));
    }
    m
}

/// Applies a unary operator to an evaluated operand.
fn unary_result(op: &TokenType, v: IResult) -> (r: EvalOutcome)
    ensures
        r@ == apply_unary(*op, v@),
{
    match op {
        TokenType::Minus => match v {
            IResult::Number(n) => if n == i64::MIN {
                EvalOutcome::Fail(String::from_str("number overflow"))
            } else {
                EvalOutcome::Done(IResult::Number(-n))
            },
            _ => EvalOutcome::Fail(String::from_str("invalid operand for plus/minus operator")),
        },
        TokenType::Plus => match v {
            IResult::Number(n) => EvalOutcome::Done(IResult::Number(n)),
            _ => EvalOutcome::Fail(String::from_str("invalid operand for plus/minus operator")),
        },
        TokenType::Bang => match v {
            IResult::Bool(b) => EvalOutcome::Done(IResult::Bool(!b)),
            _ => EvalOutcome::Fail(String::from_str("invalid operand for bang operator")),
        },
        _ => EvalOutcome::Fail(String::from_str("invalid token found; expected unary operator")),
    }
}

/// Applies a binary operator to two evaluated operands.
fn binary_result(op: &TokenType, l: IResult, r: IResult) -> (res: EvalOutcome)
    ensures
        res@ == apply_binary(*op, l@, r@),
{
    match op {
        TokenType::Plus => match (l, r) {
            (IResult::Number(a), IResult::Number(b)) => match a.checked_add(b) {
                Some(s) => EvalOutcome::Done(IResult::Number(s)),
                None => EvalOutcome::Fail(String::from_str("number overflow")),
            },
            (IResult::Str(a), IResult::Str(b)) => {
                let joined = (*a).clone().concat((*b).as_str());
                EvalOutcome::Done(IResult::Str(Rc::new(joined)))
            },
            _ => EvalOutcome::Fail(String::from_str("invalid operands for plus operator")),
        },
        TokenType::Minus => match (l, r) {
            (IResult::Number(a), IResult::Number(b)) => match a.checked_sub(b) {
                Some(s) => EvalOutcome::Done(IResult::Number(s)),
                None => EvalOutcome::Fail(String::from_str("number overflow")),
            },
            _ => EvalOutcome::Fail(String::from_str("invalid operands for minus operator")),
        },
        TokenType::Star => match (l, r) {
            (IResult::Number(a), IResult::Number(b)) => match a.checked_mul(b) {
                Some(s) => EvalOutcome::Done(IResult::Number(s)),
                None => EvalOutcome::Fail(String::from_str("number overflow")),
            },
            _ => EvalOutcome::Fail(String::from_str("invalid operands for star operator")),
        },
        TokenType::Slash => match (l, r) {
            (IResult::Number(a), IResult::Number(b)) => if b == 0 {
                EvalOutcome::Fail(String::from_str("division by zero"))
            } else {
                match a.checked_div(b) {
                    Some(q) => EvalOutcome::Done(IResult::Number(q)),
                    None => EvalOutcome::Fail(String::from_str("number overflow")),
                }
            },
            _ => EvalOutcome::Fail(String::from_str("invalid operands for slash operator")),
        },
        TokenType::Greater => match (l, r) {
            (IResult::Number(a), IResult::Number(b)) => EvalOutcome::Done(IResult::Bool(a > b)),
            _ => EvalOutcome::Fail(String::from_str("invalid operands for greater operator")),
        },
        TokenType::GreaterEqual => match (l, r) {
            (IResult::Number(a), IResult::Number(b)) => EvalOutcome::Done(IResult::Bool(a >= b)),
            _ => EvalOutcome::Fail(String::from_str("invalid operands for greater-equal")),
        },
        TokenType::Less => match (l, r) {
            (IResult::Number(a), IResult::Number(b)) => EvalOutcome::Done(IResult::Bool(a < b)),
            _ => EvalOutcome::Fail(String::from_str("invalid operands for less")),
        },
        TokenType::LessEqual => match (l, r) {
            (IResult::Number(a), IResult::Number(b)) => EvalOutcome::Done(IResult::Bool(a <= b)),
            _ => EvalOutcome::Fail(String::from_str("invalid operands for less-equal")),
        },
        TokenType::EqualEqual => EvalOutcome::Done(IResult::Bool(l.eq_value(&r))),
        TokenType::BangEqual => EvalOutcome::Done(IResult::Bool(!l.eq_value(&r))),
        _ => EvalOutcome::Fail(String::from_str("invalid token found; expected binary operator")),
    }
}

/// The interpreter: the arena of scopes, the current scope, the text
/// printed so far, and the wall-clock seconds it was given.
pub struct Interpreter {
    pub environment: EnvironmentRef,
    pub scopes: Environments,
    pub ostream: String,
    pub clock: i64,
}

impl View for Interpreter {
    type V = StateV;

    open spec fn view(&self) -> StateV {
        StateV {
            scopes: self.scopes@,
            env: self.environment as int,
            out: self.ostream@,
            clock: self.clock,
        }
    }
}

impl Interpreter {
    /// A fresh interpreter that believes the wall clock reads the given
    /// seconds: one global scope holding the built-in `clock`.
    pub fn new_with_clock(clock: i64) -> (r: Interpreter)
        ensures
            r@ == initial_state(clock),
    {
        let mut scopes = Environments::new();
        let root = scopes.new_scope();
        let mut interp = Interpreter { environment: root, scopes, ostream: String::new(), clock };
        let name = String::from_str("clock");
        interp.scopes.declare_and_init(
            root,
            &name,
            IResult::Callable(LoxCallable { arity: 0, call: CallableFun::Clock }),
        );
        proof {
            assert(interp@.scopes =~= initial_state(clock).scopes);
        }
        interp
    }

    /// A fresh interpreter whose clock reads zero.
    pub fn new() -> (r: Interpreter)
        ensures
            r@ == initial_state(0),
    {
        Interpreter::new_with_clock(0)
    }

    /// Everything printed so far.
    pub fn output(&self) -> (r: &String)
        ensures
            r@ == self@.out,
    {
        &self.ostream
    }

    /// The current scope.
    pub fn get_environment(&self) -> (r: EnvironmentRef)
        ensures
            r == self.environment,
    {
        self.environment
    }

    /// Makes the given scope current.
    pub fn set_environment(&mut self, environment: EnvironmentRef)
        ensures
            final(self).environment == environment,
            final(self).scopes == old(self).scopes,
            final(self).ostream == old(self).ostream,
            final(self).clock == old(self).clock,
    {
        self.environment = environment;
    }

    /// Evaluates a literal: its decoded payload, or the nearest binding
    /// of an identifier.
    pub fn visit_literal(&self, lit: &Literal) -> (r: EvalOutcome)
        ensures
            r@ == eval_literal(self@, lit.value),
    {
        match &lit.value.ttype {
            TokenType::Str(s) => EvalOutcome::Done(IResult::Str(Rc::new(s.clone()))),
            TokenType::Number(n) => EvalOutcome::Done(IResult::Number(*n)),
            TokenType::True => EvalOutcome::Done(IResult::Bool(true)),
            TokenType::False => EvalOutcome::Done(IResult::Bool(false)),
            TokenType::Nil => EvalOutcome::Done(IResult::Nil),
            TokenType::Identifier => match self.scopes.get(self.environment, &lit.value.lexeme) {
                None => EvalOutcome::Fail(make_not_in_scope(&lit.value.lexeme)),
                Some(None) => EvalOutcome::Fail(String::from_str("variable is not initialized")),
                Some(Some(v)) => EvalOutcome::Done(v),
            },
            _ => EvalOutcome::Fail(String::from_str("invalid token found; expected literal")),
        }
    }

    /// Evaluates a parenthesized expression.
    pub fn visit_grouping(&mut self, grp: &Grouping, fuel: u64) -> (r: EvalOutcome)
        ensures
            ({
                let (st, o) = eval_expression(old(self)@, grp.expr, fuel as nat);
                final(self)@ == st && r@ == o
            }),
        decreases fuel, 1 + expression_size(grp.expr), 0int,
    {
        self.visit_expression(&grp.expr, fuel)
    }

    /// Evaluates a unary operator expression.
    pub fn visit_unary(&mut self, unr: &Unary, fuel: u64) -> (r: EvalOutcome)
        ensures
            ({
                let (st1, o) = eval_expression(old(self)@, unr.expr, fuel as nat);
                final(self)@ == st1 && (match o {
                    Outcome::Done(v) => r@ == apply_unary((*unr.operator).ttype, v),
                    _ => r@ == o,
                })
            }),
        decreases fuel, 1 + expression_size(unr.expr), 0int,
    {
        let o = self.visit_expression(&unr.expr, fuel);
        match o {
            EvalOutcome::Done(v) => unary_result(&unr.operator.ttype, v),
            other => other,
        }
    }

    /// Evaluates a binary operator expression: the left operand first,
    /// then the right, then the operator.
    pub fn visit_binary(&mut self, bin: &Binary, fuel: u64) -> (r: EvalOutcome)
        ensures
            ({
                let (st1, o) = eval_expression(old(self)@, bin.left, fuel as nat);
                match o {
                    Outcome::Done(l) => ({
                        let (st2, o2) = eval_expression(st1, bin.right, fuel as nat);
                        final(self)@ == st2 && (match o2 {
                            Outcome::Done(rv) => r@ == apply_binary((*bin.operator).ttype, l, rv),
                            _ => r@ == o2,
                        })
                    }),
                    _ => final(self)@ == st1 && r@ == o,
                }
            }),
        decreases fuel, 1 + expression_size(bin.left) + expression_size(bin.right), 0int,
    {
        let lo = self.visit_expression(&bin.left, fuel);
        match lo {
            EvalOutcome::Done(l) => {
                let ro = self.visit_expression(&bin.right, fuel);
                match ro {
                    EvalOutcome::Done(rv) => binary_result(&bin.operator.ttype, l, rv),
                    other => other,
                }
            },
            other => other,
        }
    }

    /// Evaluates a short-circuit connective: the left operand must be a
    /// boolean; when its value determines the result, the right operand
    /// is never evaluated.
    pub fn visit_logical(&mut self, logic: &Logical, fuel: u64) -> (r: EvalOutcome)
        ensures
            ({
                let (st1, o) = eval_expression(old(self)@, logic.left, fuel as nat);
                match o {
                    Outcome::Done(ValueV::Bool(lb)) => {
                        let or_op = (*logic.operator).ttype is Or;
                        let and_op = (*logic.operator).ttype is And;
                        if !(or_op || and_op) {
                            final(self)@ == st1 && r@ == Outcome::Fail(
                                "invalid token found; expected logical operator"@,
                            )
                        } else if lb == or_op {
                            final(self)@ == st1 && r@ == Outcome::Done(ValueV::Bool(lb))
                        } else {
                            let (st2, o2) = eval_expression(st1, logic.right, fuel as nat);
                            final(self)@ == st2 && (match o2 {
                                Outcome::Done(ValueV::Bool(rb)) => r@ == Outcome::Done(ValueV::Bool(rb)),
                                Outcome::Done(_) => r@ == Outcome::Fail(
                                    "condition expression should return boolean"@,
                                ),
                                _ => r@ == o2,
                            })
                        }
                    },
                    Outcome::Done(_) => final(self)@ == st1 && r@ == Outcome::Fail(
                        "invalid operands for logical operator"@,
                    ),
                    _ => final(self)@ == st1 && r@ == o,
                }
            }),
        decreases fuel, 1 + expression_size(logic.left) + expression_size(logic.right), 0int,
    {
        let lo = self.visit_expression(&logic.left, fuel);
        match lo {
            EvalOutcome::Done(IResult::Bool(lb)) => {
                let or_op = matches!(logic.operator.ttype, TokenType::Or);
                let and_op = matches!(logic.operator.ttype, TokenType::And);
                if !(or_op || and_op) {
                    EvalOutcome::Fail(String::from_str("invalid token found; expected logical operator"))
                } else if lb == or_op {
                    // the left value already determines the result
                    EvalOutcome::Done(IResult::Bool(lb))
                } else {
                    let ro = self.visit_expression(&logic.right, fuel);
                    match ro {
                        EvalOutcome::Done(IResult::Bool(rb)) => EvalOutcome::Done(IResult::Bool(rb)),
                        EvalOutcome::Done(_) => EvalOutcome::Fail(
                            String::from_str("condition expression should return boolean"),
                        ),
                        other => other,
                    }
                }
            },
            EvalOutcome::Done(_) => EvalOutcome::Fail(
                String::from_str("invalid operands for logical operator"),
            ),
            other => other,
        }
    }

    /// Evaluates an assignment: the name must already be bound
    /// somewhere in the chain; the nearest binding is rewritten.
    pub fn visit_assign(&mut self, assign: &Assign, fuel: u64) -> (r: EvalOutcome)
        ensures
            ({
                let name = name_of(assign.identifier);
                if crate::environment::lookup_scopes(old(self)@.scopes, old(self)@.env, name) is Some {
                    let (st1, o) = eval_expression(old(self)@, assign.value, fuel as nat);
                    match o {
                        Outcome::Done(v) => final(self)@ == (StateV {
                            scopes: crate::environment::assign_scopes(st1.scopes, st1.env, name, v),
                            ..st1
                        }) && r@ == Outcome::Done(ValueV::Nil),
                        _ => final(self)@ == st1 && r@ == o,
                    }
                } else {
                    final(self)@ == old(self)@ && r@ == Outcome::Fail(msg_not_binded(name))
                }
            }),
        decreases fuel, 1 + expression_size(assign.value), 0int,
    {
        if self.scopes.is_binded(self.environment, &assign.identifier.lexeme) {
            let o = self.visit_expression(&assign.value, fuel);
            match o {
                EvalOutcome::Done(v) => {
                    let _ = self.scopes.assign(self.environment, &assign.identifier.lexeme, v);
                    EvalOutcome::Done(IResult::Nil)
                },
                other => other,
            }
        } else {
            EvalOutcome::Fail(make_not_binded(&assign.identifier.lexeme))
        }
    }

    /// Evaluates the argument expressions from position `i` on, left to
    /// right.
    pub fn visit_args(&mut self, es: &Vec<Expression>, i: usize, fuel: u64) -> (r: Result<
        Vec<IResult>,
        EvalOutcome,
    >)
        requires
            i <= es.len(),
        ensures
            ({
                let (st, ar) = eval_args(old(self)@, es@.skip(i as int), fuel as nat);
                final(self)@ == st && (match r {
                    Ok(vs) => ar == Ok::<Seq<ValueV>, Outcome>(views_of(vs@)),
                    Err(o) => ar == Err::<Seq<ValueV>, Outcome>(o@),
                })
            }),
        decreases fuel, exprs_size(es@.skip(i as int)), 1int,
    {
        if i >= es.len() {
            let r: Vec<IResult> = Vec::new();
            proof {
                assert(views_of(r@) =~= Seq::<ValueV>::empty());
            }
            Ok(r)
        } else {
            proof {
                assert(es@.skip(i as int)[0] == es@[i as int]);
                assert(es@.skip(i as int).drop_first() =~= es@.skip(i as int + 1));
            }
            let o = self.visit_expression(&es[i], fuel);
            match o {
                EvalOutcome::Done(v) => {
                    match self.visit_args(es, i + 1, fuel) {
                        Ok(mut vs) => {
                            let ghost tail = vs@;
                            vs.insert(0, v);
                            proof {
                                assert(views_of(vs@) =~= seq![v@] + views_of(tail));
                            }
                            Ok(vs)
                        },
                        Err(o2) => Err(o2),
                    }
                },
                other => Err(other),
            }
        }
    }

    /// Binds the parameters of a call frame positionally, in order.
    fn bind_params(&mut self, frame: EnvironmentRef, params: &Vec<TokenRef>, args: &Vec<IResult>)
        requires
            (frame as int) < old(self)@.scopes.len(),
        ensures
            final(self)@.scopes == old(self)@.scopes.update(
                frame as int,
                ScopeV {
                    parent: old(self)@.scopes[frame as int].parent,
                    bindings: params_map_from(
                        old(self)@.scopes[frame as int].bindings,
                        param_names(params@),
                        views_of(args@),
                    ),
                },
            ),
            final(self)@.env == old(self)@.env,
            final(self)@.out == old(self)@.out,
            final(self)@.clock == old(self)@.clock,
    {
        let ghost names = param_names(params@);
        let ghost argvs = views_of(args@);
        let ghost base = old(self)@.scopes;
        let n = params.len();
        let mut i: usize = 0;
        proof {
            assert(names.take(0) =~= Seq::<Seq<char>>::empty());
            assert(base.update(
                frame as int,
                ScopeV {
                    parent: base[frame as int].parent,
                    bindings: params_map_from(base[frame as int].bindings, names.take(0), argvs),
                },
            ) =~= base);
        }
        while i < n
            invariant
                i <= n,
                n == params.len(),
                (frame as int) < base.len(),
                names == param_names(params@),
                argvs == views_of(args@),
                self@.scopes == base.update(
                    frame as int,
                    ScopeV {
                        parent: base[frame as int].parent,
                        bindings: params_map_from(
                            base[frame as int].bindings,
                            names.take(i as int),
                            argvs,
                        ),
                    },
                ),
                self@.env == old(self)@.env,
                self@.out == old(self)@.out,
                self@.clock == old(self)@.clock,
            decreases n - i,
        {
            proof {
                assert(names.take(i as int + 1).drop_last() =~= names.take(i as int));
                assert(names.take(i as int + 1).last() == names[i as int]);
                assert(names[i as int] == (*params@[i as int]).lexeme@);
            }
            if i < args.len() {
                proof {
                    assert(argvs[i as int] == args@[i as int]@);
                }
                self.scopes.declare_and_init(frame, &params[i].lexeme, args[i].duplicate());
            } else {
                self.scopes.declare(frame, &params[i].lexeme);
            }
            proof {
                assert(self@.scopes =~= base.update(
                    frame as int,
                    ScopeV {
                        parent: base[frame as int].parent,
                        bindings: params_map_from(
                            base[frame as int].bindings,
                            names.take(i as int + 1),
                            argvs,
                        ),
                    },
                ));
            }
            i = i + 1;
        }
        proof {
            assert(names.take(n as int) =~= names);
        }
    }

    /// Calls an evaluated callee on evaluated arguments: checks that it
    /// is callable and that the argument count meets its arity, then
    /// runs the body in a fresh child of the captured environment and
    /// restores the caller's scope.
    pub fn invoke(&mut self, cv: IResult, args: Vec<IResult>, fuel: u64) -> (r: EvalOutcome)
        ensures
            ({
                let (st, o) = eval_invoke(old(self)@, cv@, views_of(args@), fuel as nat);
                final(self)@ == st && r@ == o
            }),
        decreases fuel, 0int, 0int,
    {
        match cv {
            IResult::Callable(cal) => {
                if args.len() != cal.arity {
                    EvalOutcome::Fail(make_arity_msg(cal.arity, args.len()))
                } else {
                    match cal.call {
                        CallableFun::Clock => EvalOutcome::Done(IResult::Number(self.clock)),
                        CallableFun::Declared(d) => {
                            if fuel == 0 {
                                EvalOutcome::Spent
                            } else {
                                let parent = self.environment;
                                let frame = self.scopes.new_with_parent(d.closure);
                                self.environment = frame;
                                self.bind_params(frame, &d.fun.params, &args);
                                proof {
                                    assert(self@.scopes =~= old(self)@.scopes.push(
                                        ScopeV {
                                            parent: Some(d.closure),
                                            bindings: params_map(
                                                param_names((*d.fun).params@),
                                                views_of(args@),
                                            ),
                                        },
                                    ));
                                }
                                let o = self.visit_block_stmt(&d.fun.body, fuel - 1);
                                self.environment = parent;
                                match o {
                                    EvalOutcome::Done(IResult::Return(rv)) => EvalOutcome::Done(
                                        rv.duplicate(),
                                    ),
                                    EvalOutcome::Done(_) => EvalOutcome::Done(IResult::Nil),
                                    other => other,
                                }
                            }
                        },
                    }
                }
            },
            v => EvalOutcome::Fail(make_not_callable(&v)),
        }
    }

    /// Evaluates a call: the callee first, which must be callable
    /// before any argument is touched, then the arguments left to
    /// right, then the invocation.
    pub fn visit_call(&mut self, call: &Call, fuel: u64) -> (r: EvalOutcome)
        ensures
            ({
                let (st1, o) = eval_expression(old(self)@, call.callee, fuel as nat);
                match o {
                    Outcome::Done(cv) => if !(cv is Callable) {
                        final(self)@ == st1 && r@ == Outcome::Fail(
                            crate::semantics::msg_not_callable(cv),
                        )
                    } else {
                        let (st2, ar) = eval_args(st1, call.arguments@, fuel as nat);
                        match ar {
                            Ok(argvs) => ({
                                let (st3, o3) = eval_invoke(st2, cv, argvs, fuel as nat);
                                final(self)@ == st3 && r@ == o3
                            }),
                            Err(oo) => final(self)@ == st2 && r@ == oo,
                        }
                    },
                    _ => final(self)@ == st1 && r@ == o,
                }
            }),
        decreases fuel, 1 + expression_size(call.callee) + exprs_size(call.arguments@), 0int,
    {
        let co = self.visit_expression(&call.callee, fuel);
        match co {
            EvalOutcome::Done(cv) => {
                if !(matches!(cv, IResult::Callable(_))) {
                    return EvalOutcome::Fail(make_not_callable(&cv));
                }
                proof {
                    assert(call.arguments@.skip(0) =~= call.arguments@);
                }
                match self.visit_args(&call.arguments, 0, fuel) {
                    Ok(args) => self.invoke(cv, args, fuel),
                    Err(o) => o,
                }
            },
            other => other,
        }
    }

    /// Evaluates an expression by dispatching on its node.
    pub fn visit_expression(&mut self, expr: &Expression, fuel: u64) -> (r: EvalOutcome)
        ensures
            ({
                let (st, o) = eval_expression(old(self)@, *expr, fuel as nat);
                final(self)@ == st && r@ == o
            }),
        decreases fuel, expression_size(*expr), 0int,
    {
        match &expr.value {
            Expr::Literal(l) => self.visit_literal(l),
            Expr::Grouping(g) => self.visit_grouping(g, fuel),
            Expr::Unary(u) => self.visit_unary(u, fuel),
            Expr::Binary(b) => self.visit_binary(b, fuel),
            Expr::Logical(lg) => self.visit_logical(lg, fuel),
            Expr::Assign(a) => self.visit_assign(a, fuel),
            Expr::Call(c) => self.visit_call(c, fuel),
        }
    }

    /// Runs a variable declaration: the initializer, if any, is
    /// evaluated in the current scope, then the name is installed
    /// there.
    pub fn visit_var_decl(&mut self, decl: &VarDecl, fuel: u64) -> (r: EvalOutcome)
        ensures
            ({
                let (st, o) = eval_declaration(old(self)@, Decl::Var(*decl), fuel as nat);
                final(self)@ == st && r@ == o
            }),
        decreases fuel, decl_size(Decl::Var(*decl)), 0int,
    {
        match &decl.rhs {
            None => {
                self.scopes.declare(self.environment, &decl.identifier.lexeme);
                EvalOutcome::Done(IResult::Nil)
            },
            Some(e) => {
                let o = self.visit_expression(e, fuel);
                match o {
                    EvalOutcome::Done(v) => {
                        self.scopes.declare_and_init(self.environment, &decl.identifier.lexeme, v);
                        EvalOutcome::Done(IResult::Nil)
                    },
                    other => other,
                }
            },
        }
    }

    /// Runs a function declaration: builds a closure capturing the
    /// current environment and binds the function's name in the current
    /// scope.
    pub fn visit_fun_decl(&mut self, decl: Rc<FunDecl>) -> (r: EvalOutcome)
        ensures
            final(self)@ == (StateV {
                scopes: crate::environment::declare_scopes(
                    old(self)@.scopes,
                    old(self)@.env,
                    name_of((*decl).identifier),
                    Some(ValueV::Callable(crate::result::CallableV {
                        arity: (*decl).params@.len() as usize,
                        call: crate::result::CallableFunV::Declared(crate::result::DeclaredFunV {
                            fun: *decl,
                            closure: old(self)@.env as usize,
                        }),
                    })),
                ),
                ..old(self)@
            }),
            r@ == Outcome::Done(ValueV::Nil),
    {
        let name = decl.identifier.lexeme.clone();
        let arity = decl.params.len();
        let value = IResult::Callable(
            LoxCallable {
                arity,
                call: CallableFun::Declared(DeclaredFun { fun: decl, closure: self.environment }),
            },
        );
        self.scopes.declare_and_init(self.environment, &name, value);
        EvalOutcome::Done(IResult::Nil)
    }

    /// Runs a declaration by dispatching on its node.
    pub fn visit_declaration(&mut self, decl: &DeclRef, fuel: u64) -> (r: EvalOutcome)
        ensures
            ({
                let (st, o) = eval_declaration(old(self)@, **decl, fuel as nat);
                final(self)@ == st && r@ == o
            }),
        decreases fuel, decl_size(**decl), 1int,
    {
        match &**decl {
            Decl::Var(vd) => self.visit_var_decl(vd, fuel),
            Decl::Fun(fd) => self.visit_fun_decl(rc_clone(fd)),
            Decl::Stmt(sd) => self.visit_statement(sd, fuel),
        }
    }

    /// Runs a statement standing in declaration position.
    pub fn visit_statement(&mut self, stmt: &StmtDecl, fuel: u64) -> (r: EvalOutcome)
        ensures
            ({
                let (st, o) = eval_stmt_decl(old(self)@, *stmt, fuel as nat);
                final(self)@ == st && r@ == o
            }),
        decreases fuel, stmt_decl_size(*stmt), 0int,
    {
        match &stmt.stmt {
            Stmt::Expression(es) => self.visit_expression_stmt(es, fuel),
            Stmt::Print(ps) => self.visit_print_stmt(ps, fuel),
            Stmt::Block(bs) => self.visit_block_stmt(bs, fuel),
            Stmt::If(i) => self.visit_if_stmt(i, fuel),
            Stmt::While(w) => self.visit_while_stmt(w, fuel),
            Stmt::Break(b) => self.visit_break_stmt(b),
            Stmt::Return(rs) => self.visit_return_stmt(rs, fuel),
        }
    }

    /// Runs an expression statement: it yields the expression's value.
    pub fn visit_expression_stmt(&mut self, stmt: &ExprStmt, fuel: u64) -> (r: EvalOutcome)
        ensures
            ({
                let (st, o) = eval_expression(old(self)@, *stmt.value, fuel as nat);
                final(self)@ == st && r@ == o
            }),
        decreases fuel, 1 + expression_size(*stmt.value), 0int,
    {
        self.visit_expression(&stmt.value, fuel)
    }

    /// Runs a print statement: writes the value's textual form and a
    /// newline to the output.
    pub fn visit_print_stmt(&mut self, stmt: &PrintStmt, fuel: u64) -> (r: EvalOutcome)
        ensures
            ({
                let (st1, o) = eval_expression(old(self)@, *stmt.value, fuel as nat);
                match o {
                    Outcome::Done(v) => final(self)@ == (StateV {
                        out: st1.out + crate::result::value_text(v) + seq!['\n'],
                        ..st1
                    }) && r@ == Outcome::Done(ValueV::Nil),
                    _ => final(self)@ == st1 && r@ == o,
                }
            }),
        decreases fuel, 1 + expression_size(*stmt.value), 0int,
    {
        let o = self.visit_expression(&stmt.value, fuel);
        match o {
            EvalOutcome::Done(v) => {
                let ghost before = self@.out;
                let ghost vv = v@;
                let txt = v.to_text();
                self.ostream.append(txt.as_str());
                push_char(&mut self.ostream, '\n');
                proof {
                    assert(self@.out =~= before + crate::result::value_text(vv) + seq!['\n']);
                }
                EvalOutcome::Done(IResult::Nil)
            },
            other => other,
        }
    }

    /// Runs a block: its declarations run in order in a fresh child
    /// scope; a `Break` or `Return` outcome stops the block and
    /// propagates unchanged; the surrounding scope is restored on every
    /// path.
    pub fn visit_block_stmt(&mut self, stmt: &BlockStmt, fuel: u64) -> (r: EvalOutcome)
        ensures
            ({
                let (st, o) = eval_block(old(self)@, *stmt, fuel as nat);
                final(self)@ == st && r@ == o
            }),
        decreases fuel, block_size(*stmt), 0int,
    {
        let parent = self.environment;
        let child = self.scopes.new_with_parent(parent);
        self.environment = child;
        proof {
            assert(stmt.declarations@.skip(0) =~= stmt.declarations@);
        }
        let r = self.visit_decl_seq(&stmt.declarations, 0, fuel);
        self.environment = parent;
        r
    }

    /// Runs the declarations of a block from position `i` on, stopping
    /// at the first sentinel, error, or exhaustion.
    pub fn visit_decl_seq(&mut self, decls: &Vec<DeclRef>, i: usize, fuel: u64) -> (r: EvalOutcome)
        requires
            i <= decls.len(),
        ensures
            ({
                let (st, o) = eval_decl_seq(old(self)@, decls@.skip(i as int), fuel as nat);
                final(self)@ == st && r@ == o
            }),
        decreases fuel, decls_size(decls@.skip(i as int)), 1int,
    {
        if i >= decls.len() {
            EvalOutcome::Done(IResult::Nil)
        } else {
            proof {
                assert(decls@.skip(i as int)[0] == decls@[i as int]);
                assert(decls@.skip(i as int).drop_first() =~= decls@.skip(i as int + 1));
            }
            let o = self.visit_declaration(&decls[i], fuel);
            match o {
                EvalOutcome::Done(v) => match v {
                    IResult::Break => EvalOutcome::Done(IResult::Break),
                    IResult::Return(rv) => EvalOutcome::Done(IResult::Return(rv)),
                    _ => self.visit_decl_seq(decls, i + 1, fuel),
                },
                other => other,
            }
        }
    }

    /// Runs an if statement: the condition must yield a boolean; the
    /// matching branch runs, and a missing else-branch yields `Nil`.
    pub fn visit_if_stmt(&mut self, stmt: &IfStmt, fuel: u64) -> (r: EvalOutcome)
        ensures
            ({
                let (st1, o) = eval_expression(old(self)@, *stmt.condition, fuel as nat);
                match o {
                    Outcome::Done(ValueV::Bool(c)) => ({
                        if c {
                            let (st2, o2) = eval_stmt_decl(st1, stmt.then_b, fuel as nat);
                            final(self)@ == st2 && r@ == o2
                        } else {
                            match stmt.else_b {
                                Some(e) => ({
                                    let (st2, o2) = eval_stmt_decl(st1, e, fuel as nat);
                                    final(self)@ == st2 && r@ == o2
                                }),
                                None => final(self)@ == st1 && r@ == Outcome::Done(ValueV::Nil),
                            }
                        }
                    }),
                    Outcome::Done(_) => final(self)@ == st1 && r@ == Outcome::Fail(
                        "condition expression should return boolean"@,
                    ),
                    _ => final(self)@ == st1 && r@ == o,
                }
            }),
        decreases fuel, 1 + expression_size(*stmt.condition) + stmt_decl_size(stmt.then_b) + (match stmt.else_b {
            Some(e) => stmt_decl_size(e),
            None => 0,
        }), 0int,
    {
        let o = self.visit_expression(&stmt.condition, fuel);
        match o {
            EvalOutcome::Done(IResult::Bool(c)) => {
                if c {
                    self.visit_statement(&stmt.then_b, fuel)
                } else {
                    match &stmt.else_b {
                        Some(e) => self.visit_statement(e, fuel),
                        None => EvalOutcome::Done(IResult::Nil),
                    }
                }
            },
            EvalOutcome::Done(_) => EvalOutcome::Fail(
                String::from_str("condition expression should return boolean"),
            ),
            other => other,
        }
    }

    /// Runs a while statement: the condition must yield a boolean;
    /// while it holds the body block runs; a `Break` from the body ends
    /// the loop quietly and a `Return` passes through.
    pub fn visit_while_stmt(&mut self, stmt: &WhileStmt, fuel: u64) -> (r: EvalOutcome)
        ensures
            ({
                let (st, o) = eval_while(old(self)@, *stmt, fuel as nat);
                final(self)@ == st && r@ == o
            }),
        decreases fuel, 1 + expression_size(*stmt.condition) + block_size(stmt.body), 0int,
    {
        let o = self.visit_expression(&stmt.condition, fuel);
        match o {
            EvalOutcome::Done(IResult::Bool(c)) => {
                if !c {
                    EvalOutcome::Done(IResult::Nil)
                } else {
                    let ob = self.visit_block_stmt(&stmt.body, fuel);
                    match ob {
                        EvalOutcome::Done(v) => match v {
                            IResult::Break => EvalOutcome::Done(IResult::Nil),
                            IResult::Return(rv) => EvalOutcome::Done(IResult::Return(rv)),
                            _ => if fuel == 0 {
                                EvalOutcome::Spent
                            } else {
                                self.visit_while_stmt(stmt, fuel - 1)
                            },
                        },
                        other => other,
                    }
                }
            },
            EvalOutcome::Done(_) => EvalOutcome::Fail(
                String::from_str("condition expression should return boolean"),
            ),
            other => other,
        }
    }

    /// Runs a break statement: yields the `Break` sentinel.
    pub fn visit_break_stmt(&self, _stmt: &BreakStmt) -> (r: EvalOutcome)
        ensures
            r@ == Outcome::Done(ValueV::Break),
    {
        EvalOutcome::Done(IResult::Break)
    }

    /// Runs a return statement: evaluates the result, if any, and
    /// yields the `Return` sentinel around it.
    pub fn visit_return_stmt(&mut self, stmt: &ReturnStmt, fuel: u64) -> (r: EvalOutcome)
        ensures
            ({
                match stmt.value {
                    Some(e) => ({
                        let (st1, o) = eval_expression(old(self)@, *e, fuel as nat);
                        final(self)@ == st1 && (match o {
                            Outcome::Done(v) => r@ == Outcome::Done(ValueV::Return(Box::new(v))),
                            _ => r@ == o,
                        })
                    }),
                    None => final(self)@ == old(self)@ && r@ == Outcome::Done(
                        ValueV::Return(Box::new(ValueV::Nil)),
                    ),
                }
            }),
        decreases fuel, 1 + (match stmt.value {
            Some(e) => expression_size(*e),
            None => 0,
        }), 0int,
    {
        match &stmt.value {
            Some(e) => {
                let o = self.visit_expression(e, fuel);
                match o {
                    EvalOutcome::Done(v) => {
                        let ghost vv = v@;
                        let rv = Rc::new(v);
                        proof {
                            assert(crate::result::value_view(*rv) == vv);
                        }
                        EvalOutcome::Done(IResult::Return(rv))
                    },
                    other => other,
                }
            },
            None => {
                let rv = Rc::new(IResult::Nil);
                proof {
                    assert(crate::result::value_view(*rv) == ValueV::Nil);
                }
                EvalOutcome::Done(IResult::Return(rv))
            },
        }
    }

    /// Runs one top-level declaration: a `Break` or `Return` sentinel
    /// must not escape the top level, and exhausted fuel surfaces as an
    /// error.
    pub fn interpret_decl(&mut self, decl: &DeclRef, fuel: u64) -> (r: Result<IResult, String>)
        ensures
            ({
                let (st, res) = interp_one(old(self)@, **decl, fuel as nat);
                final(self)@ == st && (match r {
                    Ok(v) => res == Ok::<ValueV, Seq<char>>(v@),
                    Err(m) => res == Err::<ValueV, Seq<char>>(m@),
                })
            }),
    {
        let o = self.visit_declaration(decl, fuel);
        match o {
            EvalOutcome::Done(v) => match v {
                IResult::Break => Err(String::from_str("break outside loop")),
                IResult::Return(_) => Err(String::from_str("return outside function")),
                other => Ok(other),
            },
            EvalOutcome::Fail(m) => Err(m),
            EvalOutcome::Spent => Err(String::from_str("evaluation fuel exhausted")),
        }
    }

    /// Runs the top-level declarations from position `i` on, carrying
    /// the value of the last declaration run.
    fn interpret_from(&mut self, decls: &Vec<DeclRef>, i: usize, last: IResult, fuel: u64) -> (r:
        Result<IResult, String>)
        requires
            i <= decls.len(),
        ensures
            ({
                let (st, res) = interp_decls(old(self)@, decls@.skip(i as int), last@, fuel as nat);
                final(self)@ == st && (match r {
                    Ok(v) => res == Ok::<ValueV, Seq<char>>(v@),
                    Err(m) => res == Err::<ValueV, Seq<char>>(m@),
                })
            }),
        decreases decls.len() - i,
    {
        if i >= decls.len() {
            Ok(last)
        } else {
            proof {
                assert(decls@.skip(i as int)[0] == decls@[i as int]);
                assert(decls@.skip(i as int).drop_first() =~= decls@.skip(i as int + 1));
            }
            match self.interpret_decl(&decls[i], fuel) {
                Ok(v) => self.interpret_from(decls, i + 1, v, fuel),
                Err(m) => Err(m),
            }
        }
    }

    /// Runs a program: its declarations in order, stopping at the first
    /// error, and yields the value of the last declaration run (`Nil`
    /// for an empty program).
    pub fn interpret(&mut self, decls: Vec<DeclRef>, fuel: u64) -> (r: Result<IResult, String>)
        ensures
            ({
                let (st, res) = interp_decls(old(self)@, decls@, ValueV::Nil, fuel as nat);
                final(self)@ == st && (match r {
                    Ok(v) => res == Ok::<ValueV, Seq<char>>(v@),
                    Err(m) => res == Err::<ValueV, Seq<char>>(m@),
                })
            }),
    {
        proof {
            assert(decls@.skip(0) =~= decls@);
        }
        self.interpret_from(&decls, 0, IResult::Nil, fuel)
    }
}

} // verus!
