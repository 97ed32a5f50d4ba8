//! Function composition.

use vstd::prelude::*;

verus! {

/// Two functions held together so they can be applied as one.
pub struct Composed<F, G> {
    f: F,
    g: G,
}

impl<F, G> Composed<F, G> {
    /// The function applied first.
    pub closed spec fn func_first(&self) -> F {
        self.f
    }

    /// The function applied second.
    pub closed spec fn func_second(&self) -> G {
        self.g
    }
}

/// Composes two functions; applying the result feeds the first function's
/// output to the second.
pub fn compose<A, B, C, F: Fn(A) -> B, G: Fn(B) -> C>(f: F, g: G) -> (r: Composed<F, G>)
    ensures
        r.func_first() == f,
        r.func_second() == g,
{
    Composed { f, g }
}

impl<F, G> Composed<F, G> {
    /// Applies the composition to one value.
    pub fn apply<A, B, C>(&self, a: A) -> (c: C) where F: Fn(A) -> B, G: Fn(B) -> C
        requires
            call_requires(self.func_first(), (a,)),
            forall|b: B|
                call_ensures(self.func_first(), (a,), b) ==> call_requires(
                    self.func_second(),
                    (b,),
                ),
        ensures
            exists|b: B|
                call_ensures(self.func_first(), (a,), b) && call_ensures(
                    self.func_second(),
                    (b,),
                    c,
                ),
    {
        let b = (self.f)(a);
        (self.g)(b)
    }
}

} // verus!
