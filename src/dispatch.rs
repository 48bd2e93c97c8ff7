use vstd::prelude::*;

verus! {

/// A unit of behavior run when an event is triggered.
///
/// It is handed a reference to the payload and the state that the caller of
/// `trigger` threads through the dispatch. It may change that state, and it
/// may fail; a failure stops the dispatch and reaches the caller of `trigger`.
pub trait Callback<X, S, F> {
    /// The state after this callback ran on `payload` from `state`.
    spec fn effect(&self, payload: X, state: S) -> S;

    /// The failure this callback raises on `payload` from `state`, if any.
    spec fn failure(&self, payload: X, state: S) -> Option<F>;

    /// Runs the callback.
    fn call(&self, payload: &X, state: &mut S) -> (r: Result<(), F>)
        ensures
            *final(state) == self.effect(*payload, *old(state)),
            r is Ok <==> self.failure(*payload, *old(state)) is None,
            r is Err ==> self.failure(*payload, *old(state)) == Some(r->Err_0),
    ;
}

/// The outcome of running `handlers` in order on `payload` from `state`:
/// the final state, and the failure of the first callback that failed, after
/// which no further callback runs.
pub open spec fn dispatch<X, S, F, C: Callback<X, S, F>>(
    handlers: Seq<C>,
    payload: X,
    state: S,
) -> (S, Option<F>)
    decreases handlers.len(),
{
    if handlers.len() == 0 {
        (state, None)
    } else {
        let h = handlers[0];
        let next = h.effect(payload, state);
        match h.failure(payload, state) {
            Some(f) => (next, Some(f)),
            None => dispatch(handlers.drop_first(), payload, next),
        }
    }
}

} // verus!
