use crate::{bind_rel, map_rel, may_force_to, seq_rel, step_rel, Action};
use vstd::prelude::*;
use vstd::std_specs::convert::{FromSpec, TryFromSpec};

verus! {

/// Associativity of relational bind: binding two steps one after the other
/// admits exactly the results of binding their sequencing in one go.
pub proof fn lemma_bind_associative<T, U, V>(
    r: spec_fn(T) -> bool,
    k1: spec_fn(T, U) -> bool,
    k2: spec_fn(U, V) -> bool,
)
    ensures
        forall|v: V| #[trigger] bind_rel(bind_rel(r, k1), k2)(v) <==> bind_rel(
            r,
            seq_rel(k1, k2),
        )(v),
{
    assert forall|v: V| #[trigger] bind_rel(bind_rel(r, k1), k2)(v) implies bind_rel(
        r,
        seq_rel(k1, k2),
    )(v) by {
        let u = choose|u: U| #[trigger] bind_rel(r, k1)(u) && k2(u, v);
        let t = choose|t: T| #[trigger] r(t) && k1(t, u);
        assert(seq_rel(k1, k2)(t, v));
        assert(bind_rel(r, seq_rel(k1, k2))(v));
    }
    assert forall|v: V| #[trigger] bind_rel(r, seq_rel(k1, k2))(v) implies bind_rel(
        bind_rel(r, k1),
        k2,
    )(v) by {
        let t = choose|t: T| #[trigger] r(t) && seq_rel(k1, k2)(t, v);
        let u = choose|u: U| #[trigger] k1(t, u) && k2(u, v);
        assert(bind_rel(r, k1)(u));
        assert(bind_rel(bind_rel(r, k1), k2)(v));
    }
}

/// Monadic-bind associativity for deferred computations: chaining `a` with `f`
/// and then the result with `g` is bounded by exactly the relation that bounds
/// chaining `a` with the one binder that runs `f`'s computation and hands its
/// value to `g`. These are the relations that `Action::chain`'s contract
/// states of its result, so the two ways of nesting `chain` admit the same
/// forced results.
pub proof fn lemma_chain_associative<T, U, V, F, H1, G1, H2, G2>(
    a: Action<T, F>,
    f: G1,
    g: G2,
) where
    F: FnOnce() -> T,
    H1: FnOnce() -> U,
    G1: FnOnce(T) -> Action<U, H1>,
    H2: FnOnce() -> V,
    G2: FnOnce(U) -> Action<V, H2>,

    ensures
        forall|v: V| #[trigger] bind_rel(
            bind_rel(may_force_to(a), step_rel(f)),
            step_rel(g),
        )(v) <==> bind_rel(may_force_to(a), seq_rel(step_rel(f), step_rel(g)))(v),
{
    lemma_bind_associative(may_force_to(a), step_rel(f), step_rel(g));
}

/// Lossless conversion preserves the value: when `From<T>` for `U` meets its
/// specification, anything a computation bounded by converting `r` may force
/// to is exactly the specified conversion of something `r` admits. This is
/// the bound that `Action::into`'s contract states of its result.
pub proof fn lemma_convert_faithful<T, U: From<T>>(r: spec_fn(T) -> bool)
    requires
        <U as FromSpec<T>>::obeys_from_spec(),
    ensures
        forall|u: U| #[trigger] bind_rel(r, map_rel(<U as From<T>>::from))(u) ==> exists|t: T|
            r(t) && u == <U as FromSpec<T>>::from_spec(t),
{
    assert forall|u: U| #[trigger] bind_rel(r, map_rel(<U as From<T>>::from))(u) implies exists|
        t: T,
    |
        r(t) && u == <U as FromSpec<T>>::from_spec(t) by {
        let t = choose|t: T| #[trigger] r(t) && map_rel(<U as From<T>>::from)(t, u);
        assert(call_ensures(<U as From<T>>::from, (t,), u));
        assert(r(t) && u == <U as FromSpec<T>>::from_spec(t));
    }
}

/// A fallible conversion's outcome is a value, never an abort: when
/// `TryFrom<T>` for `U` meets its specification, anything a computation
/// bounded by converting `r` may force to is exactly the specified
/// success-or-failure outcome of the conversion on something `r` admits.
/// This is the bound that `Action::try_into`'s contract states of its result.
pub proof fn lemma_try_convert_outcome<T, U: TryFrom<T>>(r: spec_fn(T) -> bool)
    requires
        <U as TryFromSpec<T>>::obeys_try_from_spec(),
    ensures
        forall|ret: Result<U, <U as TryFrom<T>>::Error>| #[trigger] bind_rel(
            r,
            map_rel(<U as TryFrom<T>>::try_from),
        )(ret) ==> exists|t: T| r(t) && ret == <U as TryFromSpec<T>>::try_from_spec(t),
{
    assert forall|ret: Result<U, <U as TryFrom<T>>::Error>| #[trigger] bind_rel(
        r,
        map_rel(<U as TryFrom<T>>::try_from),
    )(ret) implies exists|t: T| r(t) && ret == <U as TryFromSpec<T>>::try_from_spec(t) by {
        let t = choose|t: T| #[trigger] r(t) && map_rel(<U as TryFrom<T>>::try_from)(t, ret);
        assert(call_ensures(<U as TryFrom<T>>::try_from, (t,), ret));
        assert(r(t) && ret == <U as TryFromSpec<T>>::try_from_spec(t));
    }
}

} // verus!
