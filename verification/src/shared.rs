//! Shared ownership of immutable values.
//!
//! Syntax-tree nodes and runtime values are shared by reference count:
//! tokens, expressions and declarations are built once by the parser and
//! then held from several places (the tree, closures, environments).

use vstd::prelude::*;

use std::rc::Rc;

verus! {

/// Relies on alloc::rc::Rc::clone: the returned handle refers to the
/// same value as the argument.
#[verifier::external_body]
pub fn rc_clone<T>(rc: &Rc<T>) -> (r: Rc<T>)
    ensures
        r == *rc,
{
    Rc::clone(rc)
}

} // verus!
