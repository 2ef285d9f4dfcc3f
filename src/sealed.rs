use vstd::prelude::*;

verus! {

/// Supertrait of `Type`. It lives in a private module, so no other crate can
/// name it, and the set of element types stays closed.
pub trait Sealed {}

} // verus!
