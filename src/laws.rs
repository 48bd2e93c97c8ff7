use vstd::prelude::*;

use crate::dispatch::{dispatch, Callback};
use crate::emitter::{bucket_of, registered, registered_all};

verus! {

/// Running `a + b` is running `a`, then, unless a callback of `a` failed,
/// running `b` from the state that `a` left.
pub proof fn lemma_dispatch_append<X, S, F, C: Callback<X, S, F>>(
    a: Seq<C>,
    b: Seq<C>,
    payload: X,
    state: S,
)
    ensures
        dispatch(a + b, payload, state) == ({
            let (mid, failed) = dispatch(a, payload, state);
            if failed is Some {
                (mid, failed)
            } else {
                dispatch(b, payload, mid)
            }
        }),
    decreases a.len(),
{
    if a.len() > 0 {
        assert((a + b).drop_first() =~= a.drop_first() + b);
        assert((a + b)[0] == a[0]);
        let h = a[0];
        if h.failure(payload, state) is None {
            lemma_dispatch_append(a.drop_first(), b, payload, h.effect(payload, state));
        }
    } else {
        assert(a + b =~= b);
    }
}

/// Callbacks run in the order of their position, each on the same payload:
/// when the first `i` callbacks ran without failure, callback `i` runs next,
/// on `payload` and on the state they left, and nothing else runs in between.
pub proof fn law_dispatch_step<X, S, F, C: Callback<X, S, F>>(
    handlers: Seq<C>,
    payload: X,
    state: S,
    i: int,
)
    requires
        0 <= i < handlers.len(),
        dispatch(handlers.take(i), payload, state).1 is None,
    ensures
        ({
            let before = dispatch(handlers.take(i), payload, state).0;
            dispatch(handlers.take(i + 1), payload, state) == (
                handlers[i].effect(payload, before),
                handlers[i].failure(payload, before),
            )
        }),
{
    let one = seq![handlers[i]];
    assert(handlers.take(i + 1) =~= handlers.take(i) + one);
    lemma_dispatch_append(handlers.take(i), one, payload, state);
    let before = dispatch(handlers.take(i), payload, state).0;
    assert(one.drop_first() =~= Seq::<C>::empty());
    assert(one[0] == handlers[i]);
    let next = handlers[i].effect(payload, before);
    assert(dispatch(one.drop_first(), payload, next) == (next, None::<F>));
}

/// Registering callbacks one after another under one key appends them to
/// that key's callbacks in the order of registration.
pub proof fn law_registration_order<C>(table: Map<u64, Seq<C>>, key: u64, callbacks: Seq<C>)
    ensures
        bucket_of(registered_all(table, key, callbacks), key) == bucket_of(table, key)
            + callbacks,
    decreases callbacks.len(),
{
    if callbacks.len() == 0 {
        assert(bucket_of(table, key) + callbacks =~= bucket_of(table, key));
    } else {
        law_registration_order(table, key, callbacks.drop_last());
        assert(bucket_of(table, key) + callbacks =~= (bucket_of(table, key)
            + callbacks.drop_last()).push(callbacks.last()));
    }
}

/// A registration under one kind leaves what triggering another kind does
/// unchanged.
pub proof fn law_isolation_by_kind<X, S, F, C: Callback<X, S, F>>(
    table: Map<u64, Seq<C>>,
    key: u64,
    other: u64,
    callback: C,
    payload: X,
    state: S,
)
    requires
        key != other,
    ensures
        bucket_of(registered(table, key, callback), other) == bucket_of(table, other),
        dispatch(bucket_of(registered(table, key, callback), other), payload, state)
            == dispatch(bucket_of(table, other), payload, state),
{
}

/// Triggering a kind under which nothing was registered succeeds and leaves
/// the state as it was.
pub proof fn law_empty_dispatch<X, S, F, C: Callback<X, S, F>>(
    table: Map<u64, Seq<C>>,
    key: u64,
    payload: X,
    state: S,
)
    requires
        !table.contains_key(key),
    ensures
        dispatch(bucket_of(table, key), payload, state) == (state, None::<F>),
{
}

/// Two registrations under one kind add up: triggering runs the first and
/// then, unless it failed, the second, each once.
pub proof fn law_accumulation<X, S, F, C: Callback<X, S, F>>(
    table: Map<u64, Seq<C>>,
    key: u64,
    first: C,
    second: C,
    payload: X,
    state: S,
)
    requires
        !table.contains_key(key),
    ensures
        ({
            let after = registered(registered(table, key, first), key, second);
            let mid = first.effect(payload, state);
            &&& bucket_of(after, key) == seq![first, second]
            &&& dispatch(bucket_of(after, key), payload, state) == if first.failure(
                payload,
                state,
            ) is Some {
                (mid, first.failure(payload, state))
            } else {
                (second.effect(payload, mid), second.failure(payload, mid))
            }
        }),
{
    let after = registered(registered(table, key, first), key, second);
    let hs = bucket_of(after, key);
    assert(hs =~= seq![first, second]);
    assert(hs.drop_first() =~= seq![second]);
    assert(hs.drop_first().drop_first() =~= Seq::<C>::empty());
    let mid = first.effect(payload, state);
    let last = second.effect(payload, mid);
    assert(dispatch(hs.drop_first().drop_first(), payload, last) == (last, None::<F>));
    assert(hs[0] == first);
    assert(hs.drop_first()[0] == second);
    assert(dispatch(hs.drop_first(), payload, mid) == (last, second.failure(payload, mid)));
}

/// A failure stops the dispatch: when callback `i` fails after the ones
/// before it ran without failure, the dispatch ends with its failure and
/// the state it left, and no later callback runs.
pub proof fn law_fail_fast<X, S, F, C: Callback<X, S, F>>(
    handlers: Seq<C>,
    payload: X,
    state: S,
    i: int,
)
    requires
        0 <= i < handlers.len(),
        dispatch(handlers.take(i), payload, state).1 is None,
        handlers[i].failure(payload, dispatch(handlers.take(i), payload, state).0) is Some,
    ensures
        ({
            let before = dispatch(handlers.take(i), payload, state).0;
            dispatch(handlers, payload, state) == (
                handlers[i].effect(payload, before),
                handlers[i].failure(payload, before),
            )
        }),
{
    law_dispatch_step(handlers, payload, state, i);
    assert(handlers =~= handlers.take(i + 1) + handlers.skip(i + 1));
    lemma_dispatch_append(handlers.take(i + 1), handlers.skip(i + 1), payload, state);
}

} // verus!
