//! Type-level boolean assertions: a bound of `Assert<..>: IsTrue` on an impl
//! or function makes a compile-time claim checkable by the type system.

use vstd::prelude::*;

verus! {

/// A marker carrying a type-level boolean.
pub struct Assert<const CHECK: bool> {}

/// Implemented exactly for `Assert<true>`.
pub trait IsTrue {

}

/// Implemented exactly for `Assert<false>`.
pub trait IsFalse {

}

impl IsTrue for Assert<true> {

}

impl IsFalse for Assert<false> {

}

} // verus!
