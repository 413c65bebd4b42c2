//! A memoizing cache: wraps a single-argument computation and stores each
//! result keyed by its input, so that repeated inputs are answered from the
//! store without running the computation again.

use std::collections::HashMap;
use std::hash::Hash;
use std::marker::PhantomData;
use vstd::prelude::*;
use vstd::std_specs::hash::obeys_key_model;

verus! {

/// The value one call returns when the store is `m`, the input is `x`, and
/// the wrapped computation would produce `computed` if it were run: a
/// recorded key is answered from the store, anything else by the fresh
/// computation.
pub open spec fn call_value<A, B>(m: Map<A, B>, x: A, computed: B) -> B {
    if m.contains_key(x) {
        m[x]
    } else {
        computed
    }
}

/// The store after one call with input `x` when the wrapped computation
/// would produce `computed`: unchanged on a recorded key, extended by the
/// fresh result otherwise.
pub open spec fn call_store<A, B>(m: Map<A, B>, x: A, computed: B) -> Map<A, B> {
    if m.contains_key(x) {
        m
    } else {
        m.insert(x, computed)
    }
}

/// A cache owning a computation `calc` and the results recorded so far.
///
/// Once a key has been recorded, every later call with an equal key returns
/// the recorded value; the computation is never re-run for that key.
pub struct Cacher<A, B, F> {
    calc: F,
    map: HashMap<A, B>,
}

impl<A, B, F> Cacher<A, B, F> where
    F: Fn(A) -> B,
    A: Clone + Copy + Eq + Hash,
    B: Copy,
 {
    /// The results recorded so far, as a map from inputs to stored outputs.
    pub closed spec fn entries(&self) -> Map<A, B> {
        self.map@
    }

    /// The wrapped computation.
    pub closed spec fn computation(&self) -> F {
        self.calc
    }

    /// Every recorded value is an output the wrapped computation can
    /// produce for its key.
    pub open spec fn wf(&self) -> bool {
        forall|k: A| #[trigger]
            self.entries().contains_key(k) ==> call_ensures(
                self.computation(),
                (k,),
                self.entries()[k],
            )
    }

    /// A fresh cache around `calc`, with nothing recorded yet.
    pub fn new(calc: F) -> (c: Cacher<A, B, F>)
        ensures
            c.entries() == Map::<A, B>::empty(),
            c.computation() == calc,
            c.wf(),
    {
        Cacher { calc, map: HashMap::new() }
    }

    /// Return the value for `x`: the recorded one if `x` was seen before,
    /// otherwise the freshly computed one, which is recorded first.
    pub fn call(&mut self, x: A) -> (y: B)
        requires
            obeys_key_model::<A>(),
            call_requires(old(self).computation(), (x,)),
            old(self).wf(),
        ensures
            final(self).wf(),
            final(self).computation() == old(self).computation(),
            final(self).entries().contains_key(x) && y == final(self).entries()[x],
            call_ensures(old(self).computation(), (x,), y),
            y == call_value(old(self).entries(), x, y),
            final(self).entries() == call_store(old(self).entries(), x, y),
            old(self).entries().contains_key(x) ==> final(self).entries() == old(self).entries()
                && y == old(self).entries()[x],
    {
        match self.map.get(&x) {
            Some(y) => *y,
            None => {
                let calculated = (self.calc)(x);
                let prior = self.map.insert(x, calculated);
                proof {
                    assert forall|k: A| #[trigger] self.entries().contains_key(k) implies call_ensures(
                        self.computation(),
                        (k,),
                        self.entries()[k],
                    ) by {
                        if k != x {
                            assert(old(self).entries().contains_key(k));
                        }
                    }
                }
                match prior {
                    Some(y) => y,
                    None => calculated,
                }
            },
        }
    }
}

/// Adapt the computation `f` into a memoized callable: a fresh cache whose
/// `call` behaves like `f` except that each input is evaluated at most once.
pub fn memo<A, B, F>(f: F) -> (c: Cacher<A, B, F>) where
    F: Fn(A) -> B,
    A: Clone + Copy + Eq + Hash,
    B: Copy,

    ensures
        c.entries() == Map::<A, B>::empty(),
        c.computation() == f,
        c.wf(),
{
    Cacher::new(f)
}

/// The outcome of one call of a fallible computation when the store is `m`,
/// the input is `x`, and a fresh evaluation would end in `computed`: a
/// recorded key succeeds with the stored value, anything else with whatever
/// the fresh evaluation produced.
pub open spec fn fallible_call_value<A, B, E>(m: Map<A, B>, x: A, computed: Result<B, E>) -> Result<
    B,
    E,
> {
    if m.contains_key(x) {
        Ok(m[x])
    } else {
        computed
    }
}

/// The store after one call of a fallible computation: only a successful
/// fresh evaluation is recorded; a failure leaves the store as it was.
pub open spec fn fallible_call_store<A, B, E>(m: Map<A, B>, x: A, computed: Result<B, E>) -> Map<
    A,
    B,
> {
    if m.contains_key(x) {
        m
    } else {
        match computed {
            Ok(b) => m.insert(x, b),
            Err(_) => m,
        }
    }
}

/// A cache around a computation that can fail. A successful result is
/// recorded exactly as in [`Cacher`]; a failure propagates to the caller
/// unchanged and is never recorded, so a later call with the same key runs
/// the computation again.
pub struct FallibleCacher<A, B, E, F> {
    calc: F,
    map: HashMap<A, B>,
    failure: PhantomData<E>,
}

impl<A, B, E, F> FallibleCacher<A, B, E, F> where
    F: Fn(A) -> Result<B, E>,
    A: Clone + Copy + Eq + Hash,
    B: Copy,
 {
    /// The successful results recorded so far.
    pub closed spec fn entries(&self) -> Map<A, B> {
        self.map@
    }

    /// The wrapped fallible computation.
    pub closed spec fn computation(&self) -> F {
        self.calc
    }

    /// Every recorded value is a success the wrapped computation can
    /// produce for its key.
    pub open spec fn wf(&self) -> bool {
        forall|k: A| #[trigger]
            self.entries().contains_key(k) ==> call_ensures(
                self.computation(),
                (k,),
                Ok::<B, E>(self.entries()[k]),
            )
    }

    /// A fresh cache around `calc`, with nothing recorded yet.
    pub fn new(calc: F) -> (c: FallibleCacher<A, B, E, F>)
        ensures
            c.entries() == Map::<A, B>::empty(),
            c.computation() == calc,
            c.wf(),
    {
        FallibleCacher { calc, map: HashMap::new(), failure: PhantomData }
    }

    /// Return the outcome for `x`: a recorded key succeeds with its stored
    /// value without re-evaluation; otherwise the computation runs once, a
    /// success is recorded and returned, and a failure is returned without
    /// being recorded.
    pub fn call(&mut self, x: A) -> (r: Result<B, E>)
        requires
            obeys_key_model::<A>(),
            call_requires(old(self).computation(), (x,)),
            old(self).wf(),
        ensures
            final(self).wf(),
            final(self).computation() == old(self).computation(),
            call_ensures(old(self).computation(), (x,), r),
            r == fallible_call_value(old(self).entries(), x, r),
            final(self).entries() == fallible_call_store(old(self).entries(), x, r),
            old(self).entries().contains_key(x) ==> final(self).entries() == old(self).entries()
                && r == Ok::<B, E>(old(self).entries()[x]),
            r matches Ok(b) ==> final(self).entries().contains_key(x) && b == final(self).entries()[x],
            r is Err ==> final(self).entries() == old(self).entries() && !old(self).entries().contains_key(x),
    {
        match self.map.get(&x) {
            Some(y) => Ok(*y),
            None => {
                match (self.calc)(x) {
                    Ok(b) => {
                        let prior = self.map.insert(x, b);
                        proof {
                            assert forall|k: A| #[trigger]
                                self.entries().contains_key(k) implies call_ensures(
                                self.computation(),
                                (k,),
                                Ok::<B, E>(self.entries()[k]),
                            ) by {
                                if k != x {
                                    assert(old(self).entries().contains_key(k));
                                }
                            }
                        }
                        match prior {
                            Some(y) => Ok(y),
                            None => Ok(b),
                        }
                    },
                    Err(e) => Err(e),
                }
            },
        }
    }
}

/// A failure records nothing: after a failed first call for a fresh key the
/// store is unchanged, and a later call with that key is decided entirely by
/// its own fresh evaluation rather than by a replayed failure.
pub proof fn lemma_failure_not_cached<A, B, E>(m: Map<A, B>, x: A, e: E, c2: Result<B, E>)
    requires
        !m.contains_key(x),
    ensures
        fallible_call_store(m, x, Err::<B, E>(e)) == m,
        fallible_call_value(fallible_call_store(m, x, Err::<B, E>(e)), x, c2) == c2,
{
}

/// Calling twice with the same input returns the same value both times and
/// the second call leaves the store unchanged, whatever the computation
/// would produce the second time.
pub proof fn lemma_call_idempotent<A, B>(m: Map<A, B>, x: A, c1: B, c2: B)
    ensures
        call_value(call_store(m, x, c1), x, c2) == call_value(m, x, c1),
        call_store(call_store(m, x, c1), x, c2) == call_store(m, x, c1),
{
}

/// For a key not yet recorded, the first call's result is frozen: every
/// later call with that key returns it, however the computation would
/// behave on a re-run.
pub proof fn lemma_first_value_frozen<A, B>(m: Map<A, B>, x: A, c1: B, c2: B)
    requires
        !m.contains_key(x),
    ensures
        call_value(call_store(m, x, c1), x, c2) == c1,
{
}

/// A call on a recorded key consults no fresh computation: the result is
/// the stored value and the store does not change. Together with
/// `lemma_first_value_frozen` this is why a key is evaluated at most once:
/// after the first call the key is recorded, and every later call is a hit.
pub proof fn lemma_hit_is_pure_lookup<A, B>(m: Map<A, B>, x: A, c: B)
    requires
        m.contains_key(x),
    ensures
        call_value(m, x, c) == m[x],
        call_store(m, x, c) == m,
        call_store(m, x, c).contains_key(x),
{
}

/// Distinct keys are independent: recording a result for `x` changes
/// neither the result nor the stored value for any other key `k`.
pub proof fn lemma_distinct_keys_independent<A, B>(m: Map<A, B>, x: A, k: A, c1: B, c2: B)
    requires
        x != k,
    ensures
        call_value(call_store(m, x, c1), k, c2) == call_value(m, k, c2),
        call_store(m, x, c1).contains_key(k) == m.contains_key(k),
        m.contains_key(k) ==> call_store(m, x, c1)[k] == m[k],
{
}

} // verus!
