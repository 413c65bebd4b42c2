//! The identity function and plain function composition, fully generic over
//! the input and output types.

use vstd::prelude::*;

verus! {

/// The identity function: returns its argument unchanged.
pub fn id<T>(x: T) -> (r: T)
    ensures
        r == x,
{
    x
}

/// Compose `f` and `g` into the function that applies `f` first, then `g`
/// to its result.
///
/// The returned function is callable on any `x` that `f` accepts whose every
/// possible `f`-output `g` accepts, and each of its results is reached by
/// chaining a possible output of `f` through `g`.
pub fn comp<A, B, C, F, G>(f: F, g: G) -> (h: impl Fn(A) -> C) where
    F: Fn(A) -> B,
    G: Fn(B) -> C,

    ensures
        forall|x: A|
            call_requires(f, (x,)) && (forall|y: B|
                call_ensures(f, (x,), y) ==> call_requires(g, (y,)))
                ==> #[trigger] call_requires(h, (x,)),
        forall|x: A, z: C| #[trigger]
            call_ensures(h, (x,), z) ==> exists|y: B|
                call_ensures(f, (x,), y) && call_ensures(g, (y,), z),
{
    (move |x: A| -> (z: C)
        requires
            call_requires(f, (x,)),
            forall|y: B| call_ensures(f, (x,), y) ==> call_requires(g, (y,)),
        ensures
            exists|y: B| call_ensures(f, (x,), y) && call_ensures(g, (y,), z),
        {
            g(f(x))
        })
}

} // verus!
