//! Kleisli-style composition for two effects: a writer effect, where a
//! value carries an accumulated log and composition concatenates the logs,
//! and a partial effect, where a step may produce no result and composition
//! short-circuits on the first absence.

use vstd::prelude::*;
use vstd::string::StringExecFns;

verus! {

/// A value together with the log accumulated while producing it.
pub type Writer<A> = (A, String);

/// Compose two writer steps: apply `m1` first, feed its value to `m2`, and
/// concatenate the two logs in that order.
pub fn comp_writer<A, B, C, F, G>(m1: F, m2: G) -> (h: impl Fn(A) -> Writer<C>) where
    F: Fn(A) -> Writer<B>,
    G: Fn(B) -> Writer<C>,

    ensures
        forall|x: A|
            call_requires(m1, (x,)) && (forall|yw: Writer<B>|
                call_ensures(m1, (x,), yw) ==> call_requires(m2, (yw.0,)))
                ==> #[trigger] call_requires(h, (x,)),
        forall|x: A, zw: Writer<C>| #[trigger]
            call_ensures(h, (x,), zw) ==> exists|yw: Writer<B>, mid: Writer<C>|
                call_ensures(m1, (x,), yw) && call_ensures(m2, (yw.0,), mid) && zw.0 == mid.0
                    && zw.1@ == yw.1@ + mid.1@,
{
    (move |x: A| -> (zw: Writer<C>)
        requires
            call_requires(m1, (x,)),
            forall|yw: Writer<B>| call_ensures(m1, (x,), yw) ==> call_requires(m2, (yw.0,)),
        ensures
            exists|yw: Writer<B>, mid: Writer<C>|
                call_ensures(m1, (x,), yw) && call_ensures(m2, (yw.0,), mid) && zw.0 == mid.0
                    && zw.1@ == yw.1@ + mid.1@,
        {
            let (y, s1) = m1(x);
            let (z, s2) = m2(y);
            (z, s1.concat(s2.as_str()))
        })
}

/// The identity writer step: returns its argument with an empty log.
pub fn id_writer<A>(x: A) -> (w: Writer<A>)
    ensures
        w.0 == x,
        w.1@ == Seq::<char>::empty(),
{
    (x, String::new())
}

/// Compose two partial steps: apply `m1` first and, if it produced a value,
/// feed that value to `m2`; the result is absent as soon as either step's
/// result is.
pub fn comp_partial<A, B, C, F, G>(m1: F, m2: G) -> (h: impl Fn(A) -> Option<C>) where
    F: Fn(A) -> Option<B>,
    G: Fn(B) -> Option<C>,

    ensures
        forall|x: A|
            call_requires(m1, (x,)) && (forall|y: B|
                call_ensures(m1, (x,), Some(y)) ==> call_requires(m2, (y,)))
                ==> #[trigger] call_requires(h, (x,)),
        forall|x: A, z: Option<C>| #[trigger] call_ensures(h, (x,), z) ==> match z {
            Some(zv) => exists|y: B|
                call_ensures(m1, (x,), Some(y)) && call_ensures(m2, (y,), Some(zv)),
            None => call_ensures(m1, (x,), None::<B>) || exists|y: B|
                call_ensures(m1, (x,), Some(y)) && call_ensures(m2, (y,), None::<C>),
        },
{
    (move |x: A| -> (z: Option<C>)
        requires
            call_requires(m1, (x,)),
            forall|y: B| call_ensures(m1, (x,), Some(y)) ==> call_requires(m2, (y,)),
        ensures
            match z {
                Some(zv) => exists|y: B|
                    call_ensures(m1, (x,), Some(y)) && call_ensures(m2, (y,), Some(zv)),
                None => call_ensures(m1, (x,), None::<B>) || exists|y: B|
                    call_ensures(m1, (x,), Some(y)) && call_ensures(m2, (y,), None::<C>),
            },
        {
            if let Some(y) = m1(x) {
                if let Some(z) = m2(y) {
                    return Some(z);
                }
            }
            None
        })
}

/// The identity partial step: always succeeds with its argument.
pub fn id_partial<A>(x: A) -> (r: Option<A>)
    ensures
        r == Some(x),
{
    Some(x)
}

} // verus!
