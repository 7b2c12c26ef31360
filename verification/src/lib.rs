//! Deferred computations: a wrapper that owns a zero-argument thunk and runs
//! it at most once, only when explicitly forced, together with combinators
//! that compose further deferred work without running anything. Composition
//! stays effect-free; forcing is the single, deliberate step of impurity.

use vstd::prelude::*;

pub mod laws;

verus! {

/// A deferred computation: a zero-argument thunk, owned exclusively, that
/// will yield one value of type `T` when forced. Every combinator consumes
/// its input wrapper and returns a brand-new one, and forcing consumes the
/// wrapper too, so the thunk can never run twice: at-most-once execution is
/// guaranteed by ownership alone, with no runtime guard.
#[verifier::reject_recursive_types(T)]
pub struct Action<T, F> where F: FnOnce() -> T {
    f: F,
}

/// The results a deferred computation may force to, as a predicate on values:
/// exactly the postcondition of its stored thunk.
pub open spec fn may_force_to<T, F: FnOnce() -> T>(a: Action<T, F>) -> spec_fn(T) -> bool {
    |t: T| call_ensures(a.thunk(), (), t)
}

/// The step relation of a pure function: it may take `t` to `u` exactly when
/// its postcondition admits `u` for input `t`.
pub open spec fn map_rel<T, U, G: FnOnce(T) -> U>(g: G) -> spec_fn(T, U) -> bool {
    |t: T, u: U| call_ensures(g, (t,), u)
}

/// The step relation of a binder handed to `chain`: it may take `t` to `u`
/// when it may return some deferred computation for `t` that may force to `u`.
pub open spec fn step_rel<T, U, H: FnOnce() -> U, G: FnOnce(T) -> Action<U, H>>(
    g: G,
) -> spec_fn(T, U) -> bool {
    |t: T, u: U|
        exists|m: Action<U, H>| call_ensures(g, (t,), m) && call_ensures(m.thunk(), (), u)
}

/// Composition of a computation's results with one step: what forcing the
/// composed computation may yield.
pub open spec fn bind_rel<T, U>(r: spec_fn(T) -> bool, k: spec_fn(T, U) -> bool) -> spec_fn(
    U,
) -> bool {
    |u: U| exists|t: T| #[trigger] r(t) && k(t, u)
}

/// Sequencing of two steps: the first may take `t` to some `u`, from which the
/// second may reach `v`.
pub open spec fn seq_rel<T, U, V>(k1: spec_fn(T, U) -> bool, k2: spec_fn(U, V) -> bool) -> spec_fn(
    T,
    V,
) -> bool {
    |t: T, v: V| exists|u: U| #[trigger] k1(t, u) && k2(u, v)
}

impl<T, F> Action<T, F> where F: FnOnce() -> T {
    /// The stored thunk, as a spec-level value.
    pub closed spec fn thunk(self) -> F {
        self.f
    }

    /// Wraps a thunk without running it: construction never invokes `f`, it
    /// only stores it, unchanged, for a later force.
    pub fn new(f: F) -> (a: Self)
        ensures
            a.thunk() == f,
    {
        Action { f }
    }

    /// Forces the computation: consumes the wrapper and runs the thunk,
    /// exactly once, returning what it produced. Taking `self` by value
    /// leaves nothing behind to force again, so a second force of the same
    /// action is rejected at compile time. This is the one place a
    /// user-supplied effect happens; every other operation only composes.
    pub fn unwrap(self) -> (t: T)
        requires
            call_requires(self.thunk(), ()),
        ensures
            call_ensures(self.thunk(), (), t),
    {
        (self.f)()
    }

    /// Composes a deferred computation with a pure step: nothing runs now;
    /// forcing the result forces `self` and applies `g` to its value.
    pub fn then_map<G, U>(self, g: G) -> (b: Action<U, impl FnOnce() -> U>) where G: FnOnce(T) -> U
        ensures
            (call_requires(self.thunk(), ()) && (forall|t: T|
                call_ensures(self.thunk(), (), t) ==> call_requires(g, (t,))))
                ==> call_requires(b.thunk(), ()),
            forall|u: U| #[trigger] call_ensures(b.thunk(), (), u) ==> bind_rel(
                may_force_to(self),
                map_rel(g),
            )(u),
    {
        let h = move || -> (u: U)
            requires
                call_requires(self.thunk(), ()),
                forall|t: T| call_ensures(self.thunk(), (), t) ==> call_requires(g, (t,)),
            ensures
                bind_rel(may_force_to(self), map_rel(g))(u),
            {
                let ghost a0 = self;
                let t = (self.f)();
                let u = g(t);
                proof {
                    assert(may_force_to(a0)(t));
                    assert(map_rel(g)(t, u));
                }
                u
            };
        Action::new(h)
    }

    /// Monadic bind: forcing the result forces `self`, hands the value to `g`
    /// to obtain the next deferred computation, and forces that one in full.
    pub fn chain<G, H, U>(self, g: G) -> (b: Action<U, impl FnOnce() -> U>) where
        H: FnOnce() -> U,
        G: FnOnce(T) -> Action<U, H>,

        ensures
            (call_requires(self.thunk(), ()) && (forall|t: T|
                call_ensures(self.thunk(), (), t) ==> call_requires(g, (t,))) && (forall|
                t: T,
                m: Action<U, H>,
            |
                call_ensures(self.thunk(), (), t) && call_ensures(g, (t,), m)
                    ==> call_requires(m.thunk(), ()))) ==> call_requires(b.thunk(), ()),
            forall|u: U| #[trigger] call_ensures(b.thunk(), (), u) ==> bind_rel(
                may_force_to(self),
                step_rel(g),
            )(u),
    {
        let h = move || -> (u: U)
            requires
                call_requires(self.thunk(), ()),
                forall|t: T| call_ensures(self.thunk(), (), t) ==> call_requires(g, (t,)),
                forall|t: T, m: Action<U, H>|
                    call_ensures(self.thunk(), (), t) && call_ensures(g, (t,), m)
                        ==> call_requires(m.thunk(), ()),
            ensures
                bind_rel(may_force_to(self), step_rel(g))(u),
            {
                let ghost a0 = self;
                let t = (self.f)();
                let m = g(t);
                let ghost m0 = m;
                let u = m.unwrap();
                proof {
                    assert(may_force_to(a0)(t));
                    assert(call_ensures(g, (t,), m0) && call_ensures(m0.thunk(), (), u));
                    assert(step_rel(g)(t, u));
                }
                u
            };
        Action::new(h)
    }

    /// Lossless conversion of the eventual value: forcing the result forces
    /// `self` and converts its value through `From`.
    pub fn into<U>(self) -> (b: Action<U, impl FnOnce() -> U>) where U: From<T>
        ensures
            call_requires(self.thunk(), ()) ==> call_requires(b.thunk(), ()),
            forall|u: U| #[trigger] call_ensures(b.thunk(), (), u) ==> bind_rel(
                may_force_to(self),
                map_rel(<U as From<T>>::from),
            )(u),
    {
        let h = move || -> (u: U)
            requires
                call_requires(self.thunk(), ()),
            ensures
                bind_rel(may_force_to(self), map_rel(<U as From<T>>::from))(u),
            {
                let ghost a0 = self;
                let t = (self.f)();
                let u = t.into();
                proof {
                    assert(may_force_to(a0)(t));
                    assert(map_rel(<U as From<T>>::from)(t, u));
                }
                u
            };
        Action::new(h)
    }

    /// Fallible conversion of the eventual value: forcing the result forces
    /// `self` and attempts the conversion, yielding its success or failure as
    /// a value rather than aborting the chain.
    pub fn try_into<U>(self) -> (b: Action<
        Result<U, <U as TryFrom<T>>::Error>,
        impl FnOnce() -> Result<U, <U as TryFrom<T>>::Error>,
    >) where U: TryFrom<T>
        ensures
            call_requires(self.thunk(), ()) ==> call_requires(b.thunk(), ()),
            forall|r: Result<U, <U as TryFrom<T>>::Error>| #[trigger] call_ensures(b.thunk(), (), r)
                ==> bind_rel(may_force_to(self), map_rel(<U as TryFrom<T>>::try_from))(r),
    {
        let h = move || -> (r: Result<U, <U as TryFrom<T>>::Error>)
            requires
                call_requires(self.thunk(), ()),
            ensures
                bind_rel(may_force_to(self), map_rel(<U as TryFrom<T>>::try_from))(r),
            {
                let ghost a0 = self;
                let t = (self.f)();
                let r = t.try_into();
                proof {
                    assert(may_force_to(a0)(t));
                    assert(map_rel(<U as TryFrom<T>>::try_from)(t, r));
                }
                r
            };
        Action::new(h)
    }
}

} // verus!
