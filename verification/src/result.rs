//! Runtime values, including the two sentinel control values that
//! `break` and `return` statements propagate through the traversal.

use vstd::prelude::*;

use std::rc::Rc;

use crate::ast::{BlockStmt, FunDecl};
use crate::shared::rc_clone;
use crate::text::{dec_digits, i64_to_text, int_text, usize_to_text};

verus! {

/// An index naming one scope held by the interpreter.
pub type EnvironmentRef = usize;

/// A callable value: its arity and what runs when it is called.
pub struct LoxCallable {
    pub arity: usize,
    pub call: CallableFun,
}

/// What a callable runs: either a declared function together with the
/// environment captured at its point of definition, or the built-in
/// clock.
pub enum CallableFun {
    Declared(DeclaredFun),
    Clock,
}

/// A closure: the declaration it was made from and the captured
/// definition environment.
pub struct DeclaredFun {
    pub fun: Rc<FunDecl>,
    pub closure: EnvironmentRef,
}

/// A runtime value.  `Break` and `Return` are sentinel control values:
/// they are produced by `break` and `return` statements, propagated
/// upward through the traversal, and never observable by user code.
pub enum IResult {
    Number(i64),
    Str(Rc<String>),
    Bool(bool),
    Nil,
    Break,
    Callable(LoxCallable),
    Return(Rc<IResult>),
}

/// The view of a callable.
pub struct CallableV {
    pub arity: usize,
    pub call: CallableFunV,
}

/// The view of what a callable runs.
pub enum CallableFunV {
    Declared(DeclaredFunV),
    Clock,
}

/// The view of a closure.
pub struct DeclaredFunV {
    pub fun: FunDecl,
    pub closure: EnvironmentRef,
}

/// The view of a runtime value: text is seen as a character sequence.
pub enum ValueV {
    Number(i64),
    Str(Seq<char>),
    Bool(bool),
    Nil,
    Break,
    Callable(CallableV),
    Return(Box<ValueV>),
}

impl View for LoxCallable {
    type V = CallableV;

    open spec fn view(&self) -> CallableV {
        CallableV {
            arity: self.arity,
            call: match self.call {
                CallableFun::Declared(d) => CallableFunV::Declared(
                    DeclaredFunV { fun: *d.fun, closure: d.closure },
                ),
                CallableFun::Clock => CallableFunV::Clock,
            },
        }
    }
}

/// The view of a runtime value.
pub open spec fn value_view(v: IResult) -> ValueV
    decreases v,
{
    match v {
        IResult::Number(n) => ValueV::Number(n),
        IResult::Str(s) => ValueV::Str(s@),
        IResult::Bool(b) => ValueV::Bool(b),
        IResult::Nil => ValueV::Nil,
        IResult::Break => ValueV::Break,
        IResult::Callable(c) => ValueV::Callable(c@),
        IResult::Return(r) => ValueV::Return(Box::new(value_view(*r))),
    }
}

impl View for IResult {
    type V = ValueV;

    open spec fn view(&self) -> ValueV {
        value_view(*self)
    }
}

/// Structural value equality: values of distinct variants compare
/// unequal, and callables never compare equal.
pub open spec fn vals_equal(a: ValueV, b: ValueV) -> bool
    decreases a,
{
    match (a, b) {
        (ValueV::Number(x), ValueV::Number(y)) => x == y,
        (ValueV::Str(x), ValueV::Str(y)) => x == y,
        (ValueV::Bool(x), ValueV::Bool(y)) => x == y,
        (ValueV::Nil, ValueV::Nil) => true,
        (ValueV::Break, ValueV::Break) => true,
        (ValueV::Return(x), ValueV::Return(y)) => vals_equal(*x, *y),
        _ => false,
    }
}

/// The textual form of a value: numbers in decimal, strings verbatim,
/// booleans as `true` or `false`, `nil` as the empty string, callables
/// as a synthetic tag.
pub open spec fn value_text(v: ValueV) -> Seq<char>
    decreases v,
{
    match v {
        ValueV::Number(n) => int_text(n as int),
        ValueV::Str(s) => s,
        ValueV::Bool(b) => if b {
            "true"@
        } else {
            "false"@
        },
        ValueV::Nil => Seq::<char>::empty(),
        ValueV::Break => "break"@,
        ValueV::Callable(c) => "LoxCallable { arity: "@ + dec_digits(c.arity as nat) + ", call: fn }"@,
        ValueV::Return(r) => "<return>"@ + value_text(*r),
    }
}

impl IResult {
    /// Structural equality with another value.
    pub fn eq_value(&self, other: &IResult) -> (r: bool)
        ensures
            r == vals_equal(self@, other@),
        decreases *self,
    {
        match (self, other) {
            (IResult::Number(x), IResult::Number(y)) => *x == *y,
            (IResult::Str(x), IResult::Str(y)) => **x == **y,
            (IResult::Bool(x), IResult::Bool(y)) => *x == *y,
            (IResult::Nil, IResult::Nil) => true,
            (IResult::Break, IResult::Break) => true,
            (IResult::Return(x), IResult::Return(y)) => x.eq_value(y),
            _ => false,
        }
    }

    /// A value equal to this one.
    pub fn duplicate(&self) -> (r: IResult)
        ensures
            r == *self,
        decreases *self,
    {
        match self {
            IResult::Number(n) => IResult::Number(*n),
            IResult::Str(s) => IResult::Str(rc_clone(s)),
            IResult::Bool(b) => IResult::Bool(*b),
            IResult::Nil => IResult::Nil,
            IResult::Break => IResult::Break,
            IResult::Callable(c) => IResult::Callable(
                LoxCallable {
                    arity: c.arity,
                    call: match &c.call {
                        CallableFun::Declared(d) => CallableFun::Declared(
                            DeclaredFun { fun: rc_clone(&d.fun), closure: d.closure },
                        ),
                        CallableFun::Clock => CallableFun::Clock,
                    },
                },
            ),
            IResult::Return(r) => IResult::Return(rc_clone(r)),
        }
    }

    /// The textual form of this value.
    pub fn to_text(&self) -> (s: String)
        ensures
            s@ == value_text(self@),
        decreases *self,
    {
        match self {
            IResult::Number(n) => i64_to_text(*n),
            IResult::Str(s) => (**s).clone(),
            IResult::Bool(b) => if *b {
                String::from_str("true")
            } else {
                String::from_str("false")
            },
            IResult::Nil => String::new(),
            IResult::Break => String::from_str("break"),
            IResult::Callable(c) => {
                let mut s = String::from_str("LoxCallable { arity: ");
                let count = usize_to_text(c.arity);
                s.append(count.as_str());
                s.append(", call: fn }");
                proof {
                    assert(s@ =~= value_text(self@));
                }
                s
            },
            IResult::Return(r) => {
                let mut s = String::from_str("<return>");
                let inner = r.to_text();
                s.append(inner.as_str());
                proof {
                    assert(s@ =~= value_text(self@));
                }
                s
            },
        }
    }
}

} // verus!
