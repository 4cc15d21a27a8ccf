//! Laws the interpreter obeys, stated over the evaluation model and
//! the scope chain and proved once and for all.

use vstd::prelude::*;

use std::rc::Rc;

use crate::ast::{
    block_size, decl_size, decls_size, expr_size, expression_size, exprs_size, stmt_decl_size,
    stmt_size, BlockStmt, Decl, DeclRef, Expr, Expression, Logical, Stmt, StmtDecl, WhileStmt,
};
use crate::environment::{
    assign_scopes, binder_of, declare_scopes, lemma_binder_lookup, lookup_scopes, ScopeV,
};
use crate::result::{CallableFunV, CallableV, DeclaredFunV, ValueV};
use crate::semantics::{
    eval_args, eval_block, eval_decl_seq, eval_declaration, eval_expr, eval_expression,
    eval_invoke, eval_statement, eval_stmt_decl, eval_while, interp_one, param_names, params_map,
    Outcome, StateV,
};

verus! {

/// Short circuit, left-determined case: in `a or b`, when `a` yields
/// true, the whole yields true in the state `a` left behind; the right
/// operand contributes nothing, whatever it is.
pub proof fn lemma_or_short_circuit(st: StateV, lg: Logical, fuel: nat)
    requires
        (*lg.operator).ttype is Or,
        eval_expression(st, lg.left, fuel).1 == Outcome::Done(ValueV::Bool(true)),
    ensures
        eval_expr(st, Expr::Logical(Box::new(lg)), fuel) == (
            eval_expression(st, lg.left, fuel).0,
            Outcome::Done(ValueV::Bool(true)),
        ),
{
}

/// Short circuit, left-determined case: in `a and b`, when `a` yields
/// false, the whole yields false in the state `a` left behind.
pub proof fn lemma_and_short_circuit(st: StateV, lg: Logical, fuel: nat)
    requires
        (*lg.operator).ttype is And,
        eval_expression(st, lg.left, fuel).1 == Outcome::Done(ValueV::Bool(false)),
    ensures
        eval_expr(st, Expr::Logical(Box::new(lg)), fuel) == (
            eval_expression(st, lg.left, fuel).0,
            Outcome::Done(ValueV::Bool(false)),
        ),
{
}

/// Short circuit, undetermined case: when the left value does not
/// determine the result, the right operand is evaluated, and the
/// connective ends in the state the right operand left behind.
pub proof fn lemma_logical_evaluates_right(st: StateV, lg: Logical, fuel: nat, lb: bool)
    requires
        (*lg.operator).ttype is Or || (*lg.operator).ttype is And,
        eval_expression(st, lg.left, fuel).1 == Outcome::Done(ValueV::Bool(lb)),
        lb != ((*lg.operator).ttype is Or),
    ensures
        eval_expr(st, Expr::Logical(Box::new(lg)), fuel).0 == eval_expression(
            eval_expression(st, lg.left, fuel).0,
            lg.right,
            fuel,
        ).0,
{
}

/// Break locality: a `Break` arising in a loop body ends that loop
/// quietly, with the loop itself yielding `Nil`.
pub proof fn lemma_while_consumes_break(st: StateV, w: WhileStmt, fuel: nat)
    requires
        eval_expression(st, *w.condition, fuel).1 == Outcome::Done(ValueV::Bool(true)),
        eval_block(eval_expression(st, *w.condition, fuel).0, w.body, fuel).1 == Outcome::Done(
            ValueV::Break,
        ),
    ensures
        eval_while(st, w, fuel) == (
            eval_block(eval_expression(st, *w.condition, fuel).0, w.body, fuel).0,
            Outcome::Done(ValueV::Nil),
        ),
{
}

/// Return locality: a `Return` arising in a loop body passes through
/// the loop unchanged.
pub proof fn lemma_while_passes_return(st: StateV, w: WhileStmt, fuel: nat, bv: Box<ValueV>)
    requires
        eval_expression(st, *w.condition, fuel).1 == Outcome::Done(ValueV::Bool(true)),
        eval_block(eval_expression(st, *w.condition, fuel).0, w.body, fuel).1 == Outcome::Done(
            ValueV::Return(bv),
        ),
    ensures
        eval_while(st, w, fuel) == (
            eval_block(eval_expression(st, *w.condition, fuel).0, w.body, fuel).0,
            Outcome::Done(ValueV::Return(bv)),
        ),
{
}

/// Sentinel propagation: a block stops at the first declaration that
/// yields `Break` or `Return`, and hands that sentinel on unchanged.
pub proof fn lemma_block_stops_at_sentinel(st: StateV, ds: Seq<DeclRef>, fuel: nat)
    requires
        ds.len() > 0,
        eval_declaration(st, *ds[0], fuel).1 == Outcome::Done(ValueV::Break) || (
        eval_declaration(st, *ds[0], fuel).1 matches Outcome::Done(v) && v is Return),
    ensures
        eval_decl_seq(st, ds, fuel) == eval_declaration(st, *ds[0], fuel),
{
}

/// Sentinels never escape the top level: a top-level declaration that
/// yields the `Break` sentinel surfaces as the runtime error about a
/// break outside any loop.
pub proof fn lemma_top_level_break_is_error(st: StateV, d: crate::ast::Decl, fuel: nat)
    requires
        eval_declaration(st, d, fuel).1 == Outcome::Done(ValueV::Break),
    ensures
        interp_one(st, d, fuel).1 == Err::<ValueV, Seq<char>>("break outside loop"@),
{
}

/// Scope isolation and shadowing at the chain level: a declaration
/// installs into exactly the given scope; every other scope keeps its
/// bindings and its parent, and a lookup from the declaring scope sees
/// the new binding.
pub proof fn lemma_declare_touches_only_target(
    ss: Seq<ScopeV>,
    at: int,
    name: Seq<char>,
    o: Option<ValueV>,
)
    requires
        0 <= at < ss.len(),
    ensures
        declare_scopes(ss, at, name, o).len() == ss.len(),
        forall|j: int| 0 <= j < ss.len() && j != at ==> declare_scopes(ss, at, name, o)[j] == ss[j],
        declare_scopes(ss, at, name, o)[at].parent == ss[at].parent,
        declare_scopes(ss, at, name, o)[at].bindings == ss[at].bindings.insert(name, o),
        lookup_scopes(declare_scopes(ss, at, name, o), at, name) == Some(o),
{
}

/// The scope an assignment rewrites keeps resolving the name after the
/// rewrite: walking the same parent links passes the same unchanged
/// scopes and stops at the same binder.
proof fn lemma_binder_after_update(
    ss: Seq<ScopeV>,
    at: int,
    name: Seq<char>,
    ss2: Seq<ScopeV>,
    b: int,
)
    requires
        binder_of(ss, at, name) == Some(b),
        ss2.len() == ss.len(),
        forall|j: int| 0 <= j < ss.len() ==> #[trigger] ss2[j].parent == ss[j].parent,
        forall|j: int|
            0 <= j < ss.len() ==> #[trigger] ss2[j].bindings.contains_key(name)
                == ss[j].bindings.contains_key(name),
    ensures
        binder_of(ss2, at, name) == Some(b),
    decreases at,
{
    if 0 <= at < ss.len() && !ss[at].bindings.contains_key(name) {
        match ss[at].parent {
            Some(p) => {
                if p < at {
                    lemma_binder_after_update(ss, p as int, name, ss2, b);
                }
            },
            None => {},
        }
    }
}

/// Nearest mutation: an assignment rewrites the innermost scope along
/// the chain that binds the name, at that name only; every other scope
/// is untouched, and the name then reads back as the assigned value.
pub proof fn lemma_assign_nearest(ss: Seq<ScopeV>, at: int, name: Seq<char>, v: ValueV, b: int)
    requires
        binder_of(ss, at, name) == Some(b),
    ensures
        0 <= b <= at && b < ss.len(),
        ss[b].bindings.contains_key(name),
        assign_scopes(ss, at, name, v).len() == ss.len(),
        forall|j: int| 0 <= j < ss.len() && j != b ==> assign_scopes(ss, at, name, v)[j] == ss[j],
        assign_scopes(ss, at, name, v)[b].parent == ss[b].parent,
        assign_scopes(ss, at, name, v)[b].bindings == ss[b].bindings.insert(name, Some(v)),
        lookup_scopes(assign_scopes(ss, at, name, v), at, name) == Some(Some(v)),
{
    lemma_binder_lookup(ss, at, name);
    let ss2 = assign_scopes(ss, at, name, v);
    assert(forall|j: int| 0 <= j < ss.len() ==> #[trigger] ss2[j].parent == ss[j].parent);
    assert(forall|j: int|
        0 <= j < ss.len() ==> #[trigger] ss2[j].bindings.contains_key(name) == ss[j].bindings.contains_key(
            name,
        ));
    lemma_binder_after_update(ss, at, name, ss2, b);
}

} // verus!

verus! {

/// What every evaluation step preserves: the current scope, the clock,
/// and, for every scope that already existed, its parent link; scopes
/// are only ever added, never removed.
pub open spec fn chain_kept(a: StateV, b: StateV) -> bool {
    b.env == a.env && b.clock == a.clock && a.scopes.len() <= b.scopes.len() && (forall|i: int|
        0 <= i < a.scopes.len() ==> #[trigger] b.scopes[i].parent == a.scopes[i].parent)
}

/// Every scope that already existed binds exactly the names it bound.
pub open spec fn doms_kept(a: StateV, b: StateV) -> bool {
    forall|i: int|
        0 <= i < a.scopes.len() ==> #[trigger] b.scopes[i].bindings.dom() == a.scopes[i].bindings.dom()
}

/// As `doms_kept`, except that the current scope may gain names (a
/// declaration installs there).
pub open spec fn doms_kept_but_current(a: StateV, b: StateV) -> bool {
    (forall|i: int|
        0 <= i < a.scopes.len() && i != a.env ==> #[trigger] b.scopes[i].bindings.dom()
            == a.scopes[i].bindings.dom()) && (0 <= a.env < a.scopes.len()
        ==> a.scopes[a.env].bindings.dom().subset_of(b.scopes[a.env].bindings.dom()))
}

proof fn kept_trans(a: StateV, b: StateV, c: StateV)
    requires
        chain_kept(a, b),
        chain_kept(b, c),
        doms_kept(a, b),
        doms_kept(b, c),
    ensures
        chain_kept(a, c),
        doms_kept(a, c),
{
}

proof fn kept_then_current(a: StateV, b: StateV, c: StateV)
    requires
        chain_kept(a, b),
        chain_kept(b, c),
        doms_kept(a, b),
        doms_kept_but_current(b, c),
    ensures
        chain_kept(a, c),
        doms_kept_but_current(a, c),
{
}

proof fn current_trans(a: StateV, b: StateV, c: StateV)
    requires
        chain_kept(a, b),
        chain_kept(b, c),
        doms_kept_but_current(a, b),
        doms_kept_but_current(b, c),
    ensures
        chain_kept(a, c),
        doms_kept_but_current(a, c),
{
}

/// Installing a name touches only the current scope, and only by
/// adding to its domain.
proof fn declare_keeps(a: StateV, name: Seq<char>, o: Option<ValueV>)
    ensures
        chain_kept(
            a,
            StateV { scopes: crate::environment::declare_scopes(a.scopes, a.env, name, o), ..a },
        ),
        doms_kept_but_current(
            a,
            StateV { scopes: crate::environment::declare_scopes(a.scopes, a.env, name, o), ..a },
        ),
{
}

/// An assignment rewrites a binding that exists, so no scope's domain
/// changes at all.
proof fn assign_keeps(a: StateV, name: Seq<char>, v: ValueV)
    ensures
        chain_kept(
            a,
            StateV { scopes: assign_scopes(a.scopes, a.env, name, v), ..a },
        ),
        doms_kept(
            a,
            StateV { scopes: assign_scopes(a.scopes, a.env, name, v), ..a },
        ),
{
    match binder_of(a.scopes, a.env, name) {
        Some(b) => {
            lemma_binder_lookup(a.scopes, a.env, name);
            assert(a.scopes[b].bindings.insert(name, Some(v)).dom() =~= a.scopes[b].bindings.dom());
        },
        None => {},
    }
}

/// Resolution of a name is unchanged between two scope lists that
/// agree, scope by scope over the first list, on parents and on
/// whether the name is bound.
proof fn lemma_binder_same(ss: Seq<ScopeV>, ss2: Seq<ScopeV>, at: int, n: Seq<char>)
    requires
        ss.len() <= ss2.len(),
        forall|i: int| 0 <= i < ss.len() ==> #[trigger] ss2[i].parent == ss[i].parent,
        forall|i: int|
            0 <= i < ss.len() ==> #[trigger] ss2[i].bindings.contains_key(n) == ss[i].bindings.contains_key(
                n,
            ),
        at < ss.len(),
    ensures
        binder_of(ss2, at, n) == binder_of(ss, at, n),
    decreases at,
{
    if 0 <= at < ss.len() && !ss[at].bindings.contains_key(n) {
        match ss[at].parent {
            Some(p) => {
                if p < at {
                    lemma_binder_same(ss, ss2, p as int, n);
                }
            },
            None => {},
        }
    }
}

} // verus!

verus! {

/// The expression a shared node holds.
pub open spec fn expr_at(e: &crate::ast::ExprRef) -> Expression {
    **e
}

/// The function declaration a shared node holds.
pub open spec fn fun_at(f: &Rc<crate::ast::FunDecl>) -> crate::ast::FunDecl {
    **f
}

/// The declaration a shared node holds.
pub open spec fn decl_at(d: &DeclRef) -> Decl {
    **d
}

/// The token a shared node holds.
pub open spec fn tok_at(t: &crate::ast::TokenRef) -> crate::tokens::Token {
    **t
}


proof fn kept_weaken(a: StateV, b: StateV)
    requires
        doms_kept(a, b),
    ensures
        doms_kept_but_current(a, b),
{
}

/// Running a declaration preserves the chain and touches, at most, the
/// current scope's domain.
proof fn law_declaration(st: StateV, d: Decl, fuel: nat)
    ensures
        chain_kept(st, eval_declaration(st, d, fuel).0),
        doms_kept_but_current(st, eval_declaration(st, d, fuel).0),
    decreases fuel, decl_size(d), 0int,
{
    match d {
        Decl::Var(vd) => match vd.rhs {
            None => {
                declare_keeps(st, crate::semantics::name_of(vd.identifier), None);
            },
            Some(e) => {
                law_expression(st, expr_at(&e), fuel);
                let (st1, o) = eval_expression(st, expr_at(&e), fuel);
                match o {
                    Outcome::Done(v) => {
                        let name = crate::semantics::name_of(vd.identifier);
                        declare_keeps(st1, name, Some(v));
                        kept_then_current(
                            st,
                            st1,
                            StateV {
                                scopes: declare_scopes(st1.scopes, st1.env, name, Some(v)),
                                ..st1
                            },
                        );
                    },
                    _ => {
                        kept_weaken(st, st1);
                    },
                }
            },
        },
        Decl::Fun(fd) => {
            let cal = ValueV::Callable(
                CallableV {
                    arity: (*fd).params@.len() as usize,
                    call: CallableFunV::Declared(
                        DeclaredFunV { fun: fun_at(&fd), closure: st.env as usize },
                    ),
                },
            );
            declare_keeps(st, crate::semantics::name_of(fun_at(&fd).identifier), Some(cal));
        },
        Decl::Stmt(sd) => {
            law_statement(st, sd.stmt, fuel);
            kept_weaken(st, eval_statement(st, sd.stmt, fuel).0);
        },
    }
}

/// Running a statement preserves the chain and the domain of every
/// scope that already existed: its declarations land only in scopes it
/// makes itself.
proof fn law_statement(st: StateV, s: Stmt, fuel: nat)
    ensures
        chain_kept(st, eval_statement(st, s, fuel).0),
        doms_kept(st, eval_statement(st, s, fuel).0),
    decreases fuel, stmt_size(s), 1int,
{
    match s {
        Stmt::Expression(es) => {
            law_expression(st, expr_at(&es.value), fuel);
        },
        Stmt::Print(ps) => {
            law_expression(st, expr_at(&ps.value), fuel);
        },
        Stmt::Block(bs) => {
            law_block(st, bs, fuel);
        },
        Stmt::If(i) => {
            law_expression(st, expr_at(&i.condition), fuel);
            let (st1, o) = eval_expression(st, expr_at(&i.condition), fuel);
            match o {
                Outcome::Done(ValueV::Bool(c)) => {
                    if c {
                        law_stmt_decl(st1, i.then_b, fuel);
                        kept_trans(st, st1, eval_stmt_decl(st1, i.then_b, fuel).0);
                    } else {
                        match i.else_b {
                            Some(e) => {
                                law_stmt_decl(st1, e, fuel);
                                kept_trans(st, st1, eval_stmt_decl(st1, e, fuel).0);
                            },
                            None => {},
                        }
                    }
                },
                _ => {},
            }
        },
        Stmt::While(w) => {
            law_while(st, *w, fuel);
        },
        Stmt::Break(_) => {},
        Stmt::Return(rs) => match rs.value {
            Some(e) => {
                law_expression(st, expr_at(&e), fuel);
            },
            None => {},
        },
    }
}

proof fn law_stmt_decl(st: StateV, sd: StmtDecl, fuel: nat)
    ensures
        chain_kept(st, eval_stmt_decl(st, sd, fuel).0),
        doms_kept(st, eval_stmt_decl(st, sd, fuel).0),
    decreases fuel, stmt_decl_size(sd), 0int,
{
    law_statement(st, sd.stmt, fuel);
}

proof fn law_while(st: StateV, w: WhileStmt, fuel: nat)
    ensures
        chain_kept(st, eval_while(st, w, fuel).0),
        doms_kept(st, eval_while(st, w, fuel).0),
    decreases fuel, 1 + expression_size(*w.condition) + block_size(w.body), 0int,
{
    law_expression(st, expr_at(&w.condition), fuel);
    let (st1, o) = eval_expression(st, expr_at(&w.condition), fuel);
    match o {
        Outcome::Done(ValueV::Bool(c)) => {
            if c {
                law_block(st1, w.body, fuel);
                let (st2, ob) = eval_block(st1, w.body, fuel);
                kept_trans(st, st1, st2);
                match ob {
                    Outcome::Done(v) => {
                        if !(v is Break) && !(v is Return) && fuel > 0 {
                            law_while(st2, w, (fuel - 1) as nat);
                            kept_trans(st, st2, eval_while(st2, w, (fuel - 1) as nat).0);
                        }
                    },
                    _ => {},
                }
            }
        },
        _ => {},
    }
}

/// Running a block preserves every scope that existed before it: its
/// declarations land in the fresh child scope, and the current scope
/// is restored on every path.
proof fn law_block(st: StateV, b: BlockStmt, fuel: nat)
    ensures
        chain_kept(st, eval_block(st, b, fuel).0),
        doms_kept(st, eval_block(st, b, fuel).0),
    decreases fuel, block_size(b), 0int,
{
    let child = ScopeV {
        parent: Some(st.env as usize),
        bindings: Map::<Seq<char>, Option<ValueV>>::empty(),
    };
    let st1 = StateV { scopes: st.scopes.push(child), env: st.scopes.len() as int, ..st };
    law_decl_seq(st1, b.declarations@, fuel);
    let (st2, o) = eval_decl_seq(st1, b.declarations@, fuel);
    let st3 = StateV { env: st.env, ..st2 };
    assert forall|i: int| 0 <= i < st.scopes.len() implies #[trigger] st3.scopes[i].parent
        == st.scopes[i].parent && st3.scopes[i].bindings.dom() == st.scopes[i].bindings.dom() by {
        assert(st1.scopes[i] == st.scopes[i]);
        assert(st2.scopes[i].parent == st1.scopes[i].parent);
        assert(st2.scopes[i].bindings.dom() == st1.scopes[i].bindings.dom());
    }
}

proof fn law_decl_seq(st: StateV, ds: Seq<DeclRef>, fuel: nat)
    ensures
        chain_kept(st, eval_decl_seq(st, ds, fuel).0),
        doms_kept_but_current(st, eval_decl_seq(st, ds, fuel).0),
    decreases fuel, decls_size(ds), 1int,
{
    if ds.len() == 0 {
    } else {
        law_declaration(st, decl_at(&ds[0]), fuel);
        let (st1, o) = eval_declaration(st, decl_at(&ds[0]), fuel);
        match o {
            Outcome::Done(v) => {
                if !(v is Break) && !(v is Return) {
                    law_decl_seq(st1, ds.drop_first(), fuel);
                    current_trans(st, st1, eval_decl_seq(st1, ds.drop_first(), fuel).0);
                }
            },
            _ => {},
        }
    }
}

proof fn law_expression(st: StateV, e: Expression, fuel: nat)
    ensures
        chain_kept(st, eval_expression(st, e, fuel).0),
        doms_kept(st, eval_expression(st, e, fuel).0),
    decreases fuel, expression_size(e), 0int,
{
    law_expr(st, e.value, fuel);
}

proof fn law_expr(st: StateV, e: Expr, fuel: nat)
    ensures
        chain_kept(st, eval_expr(st, e, fuel).0),
        doms_kept(st, eval_expr(st, e, fuel).0),
    decreases fuel, expr_size(e), 0int,
{
    match e {
        Expr::Literal(_) => {},
        Expr::Grouping(g) => {
            law_expression(st, g.expr, fuel);
        },
        Expr::Unary(u) => {
            law_expression(st, u.expr, fuel);
        },
        Expr::Binary(b) => {
            law_expression(st, b.left, fuel);
            let (st1, o) = eval_expression(st, b.left, fuel);
            match o {
                Outcome::Done(_) => {
                    law_expression(st1, b.right, fuel);
                    kept_trans(st, st1, eval_expression(st1, b.right, fuel).0);
                },
                _ => {},
            }
        },
        Expr::Logical(lg) => {
            law_expression(st, lg.left, fuel);
            let (st1, o) = eval_expression(st, lg.left, fuel);
            match o {
                Outcome::Done(ValueV::Bool(lb)) => {
                    let or_op = tok_at(&lg.operator).ttype is Or;
                    let and_op = tok_at(&lg.operator).ttype is And;
                    if (or_op || and_op) && lb != or_op {
                        law_expression(st1, lg.right, fuel);
                        kept_trans(st, st1, eval_expression(st1, lg.right, fuel).0);
                    }
                },
                _ => {},
            }
        },
        Expr::Assign(a) => {
            let name = crate::semantics::name_of(a.identifier);
            if lookup_scopes(st.scopes, st.env, name) is Some {
                law_expression(st, a.value, fuel);
                let (st1, o) = eval_expression(st, a.value, fuel);
                match o {
                    Outcome::Done(v) => {
                        assign_keeps(st1, name, v);
                        kept_trans(
                            st,
                            st1,
                            StateV { scopes: assign_scopes(st1.scopes, st1.env, name, v), ..st1 },
                        );
                    },
                    _ => {},
                }
            }
        },
        Expr::Call(c) => {
            law_expression(st, c.callee, fuel);
            let (st1, o) = eval_expression(st, c.callee, fuel);
            match o {
                Outcome::Done(cv) => {
                    if cv is Callable {
                        law_args(st1, c.arguments@, fuel);
                        let (st2, ar) = eval_args(st1, c.arguments@, fuel);
                        kept_trans(st, st1, st2);
                        match ar {
                            Ok(args) => {
                                law_invoke(st2, cv, args, fuel);
                                kept_trans(st, st2, eval_invoke(st2, cv, args, fuel).0);
                            },
                            Err(_) => {},
                        }
                    }
                },
                _ => {},
            }
        },
    }
}

proof fn law_args(st: StateV, es: Seq<Expression>, fuel: nat)
    ensures
        chain_kept(st, eval_args(st, es, fuel).0),
        doms_kept(st, eval_args(st, es, fuel).0),
    decreases fuel, exprs_size(es), 1int,
{
    if es.len() == 0 {
    } else {
        law_expression(st, es[0], fuel);
        let (st1, o) = eval_expression(st, es[0], fuel);
        match o {
            Outcome::Done(_) => {
                law_args(st1, es.drop_first(), fuel);
                kept_trans(st, st1, eval_args(st1, es.drop_first(), fuel).0);
            },
            _ => {},
        }
    }
}

proof fn law_invoke(st: StateV, cv: ValueV, args: Seq<ValueV>, fuel: nat)
    ensures
        chain_kept(st, eval_invoke(st, cv, args, fuel).0),
        doms_kept(st, eval_invoke(st, cv, args, fuel).0),
    decreases fuel, 0int, 0int,
{
    match cv {
        ValueV::Callable(cal) => {
            if args.len() == cal.arity {
                match cal.call {
                    CallableFunV::Clock => {},
                    CallableFunV::Declared(d) => {
                        if fuel > 0 {
                            let frame = ScopeV {
                                parent: Some(d.closure),
                                bindings: params_map(param_names(d.fun.params@), args),
                            };
                            let st1 = StateV {
                                scopes: st.scopes.push(frame),
                                env: st.scopes.len() as int,
                                ..st
                            };
                            law_block(st1, d.fun.body, (fuel - 1) as nat);
                            let (st2, o) = eval_block(st1, d.fun.body, (fuel - 1) as nat);
                            let st3 = StateV { env: st.env, ..st2 };
                            assert forall|i: int| 0 <= i < st.scopes.len() implies #[trigger] st3.scopes[i].parent
                                == st.scopes[i].parent && st3.scopes[i].bindings.dom()
                                == st.scopes[i].bindings.dom() by {
                                assert(st1.scopes[i] == st.scopes[i]);
                                assert(st2.scopes[i].parent == st1.scopes[i].parent);
                                assert(st2.scopes[i].bindings.dom() == st1.scopes[i].bindings.dom());
                            }
                        }
                    },
                }
            }
        },
        _ => {},
    }
}

} // verus!

verus! {

/// P1 — scope isolation: a statement leaves the current scope where
/// it was, and a name is visible from it afterwards exactly when it
/// was visible before: whatever a block inside it declared lived in
/// scopes the restored chain never reaches.
pub proof fn lemma_statement_preserves_visibility(st: StateV, sd: StmtDecl, fuel: nat, n: Seq<char>)
    requires
        0 <= st.env < st.scopes.len(),
    ensures
        eval_stmt_decl(st, sd, fuel).0.env == st.env,
        (lookup_scopes(eval_stmt_decl(st, sd, fuel).0.scopes, st.env, n) is Some) == (
        lookup_scopes(st.scopes, st.env, n) is Some),
{
    law_stmt_decl(st, sd, fuel);
    let st2 = eval_stmt_decl(st, sd, fuel).0;
    assert forall|i: int|
        0 <= i < st.scopes.len() implies #[trigger] st2.scopes[i].bindings.contains_key(n)
        == st.scopes[i].bindings.contains_key(n) by {
        assert(st2.scopes[i].bindings.dom() == st.scopes[i].bindings.dom());
    }
    lemma_binder_same(st.scopes, st2.scopes, st.env, n);
}

/// P2 — shadowing stays inside: a block's declarations land only in
/// its own fresh scope: every scope that existed before the block
/// binds exactly the names it bound afterwards (the nearest-mutation
/// law pins the one way a block changes an outer binding's value: an
/// assignment to it), and the current scope is restored on every path.
pub proof fn lemma_block_declarations_stay_inside(st: StateV, b: BlockStmt, fuel: nat)
    ensures
        eval_block(st, b, fuel).0.env == st.env,
        st.scopes.len() <= eval_block(st, b, fuel).0.scopes.len(),
        forall|i: int|
            0 <= i < st.scopes.len() ==> #[trigger] eval_block(st, b, fuel).0.scopes[i].parent
                == st.scopes[i].parent,
        forall|i: int|
            0 <= i < st.scopes.len() ==> #[trigger] eval_block(
                st,
                b,
                fuel,
            ).0.scopes[i].bindings.dom() == st.scopes[i].bindings.dom(),
{
    law_block(st, b, fuel);
}

/// P4 — captured scopes survive: evaluating any expression only ever
/// adds scopes; the scope a closure captured, and its parent link,
/// are still in place afterwards for a later call to walk.
pub proof fn lemma_no_scope_vanishes(st: StateV, e: Expression, fuel: nat)
    ensures
        st.scopes.len() <= eval_expression(st, e, fuel).0.scopes.len(),
        forall|i: int|
            0 <= i < st.scopes.len() ==> #[trigger] eval_expression(st, e, fuel).0.scopes[i].parent
                == st.scopes[i].parent,
{
    law_expression(st, e, fuel);
}

/// Resolution from a scope inside the list never reaches a scope that
/// was appended after it.
proof fn lemma_lookup_in_prefix(ss: Seq<ScopeV>, frame: ScopeV, at: int, n: Seq<char>)
    requires
        at < ss.len(),
    ensures
        binder_of(ss.push(frame), at, n) == binder_of(ss, at, n),
        lookup_scopes(ss.push(frame), at, n) == lookup_scopes(ss, at, n),
    decreases at,
{
    lemma_binder_lookup(ss, at, n);
    if 0 <= at < ss.len() && !ss[at].bindings.contains_key(n) {
        match ss[at].parent {
            Some(p) => {
                if p < at {
                    lemma_lookup_in_prefix(ss, frame, p as int, n);
                }
            },
            None => {},
        }
    }
}

/// P4 — closure capture: the frame a call pushes is a child of the
/// scope captured at the function's definition, so a name the
/// parameters do not bind reads inside the new frame exactly as the
/// captured scope reads it — however much later the call happens, and
/// whether or not the block that made the closure has long finished.
pub proof fn lemma_call_frame_reads_captured(ss: Seq<ScopeV>, frame: ScopeV, c: usize, n: Seq<char>)
    requires
        frame.parent == Some(c),
        (c as int) < ss.len(),
        !frame.bindings.contains_key(n),
    ensures
        lookup_scopes(ss.push(frame), ss.len() as int, n) == lookup_scopes(ss, c as int, n),
{
    lemma_lookup_in_prefix(ss, frame, c as int, n);
    lemma_binder_lookup(ss, c as int, n);
}

/// P7 — return locality at the call: whatever depth of blocks and
/// loops a `Return` climbed out of (the block and loop laws pass it
/// on unchanged), the function call itself consumes the sentinel and
/// yields the returned value.
pub proof fn lemma_call_consumes_return(
    st: StateV,
    cal: CallableV,
    d: DeclaredFunV,
    args: Seq<ValueV>,
    fuel: nat,
    bv: Box<ValueV>,
)
    requires
        cal.call == CallableFunV::Declared(d),
        args.len() == cal.arity,
        fuel > 0,
        ({
            let frame = ScopeV {
                parent: Some(d.closure),
                bindings: params_map(param_names(d.fun.params@), args),
            };
            let st1 = StateV { scopes: st.scopes.push(frame), env: st.scopes.len() as int, ..st };
            eval_block(st1, d.fun.body, (fuel - 1) as nat).1 == Outcome::Done(ValueV::Return(bv))
        }),
    ensures
        eval_invoke(st, ValueV::Callable(cal), args, fuel).1 == Outcome::Done(*bv),
{
}

} // verus!
