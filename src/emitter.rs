use std::collections::HashMap;
use vstd::prelude::*;
use vstd::std_specs::hash::group_hash_axioms;

use crate::dispatch::{dispatch, Callback};

verus! {

broadcast use group_hash_axioms;

/// An event kind whose payload has type `X`.
///
/// Each kind names itself by a key; two distinct kinds must use two distinct
/// keys, since the emitter keeps one list of callbacks per key.
pub trait Event<X> {
    /// The key of this kind.
    spec fn spec_key() -> u64;

    /// Returns the key of this kind.
    fn key() -> (k: u64)
        ensures
            k == Self::spec_key(),
    ;
}

/// The callbacks that `table` holds under `key`; empty where it holds none.
pub open spec fn bucket_of<C>(table: Map<u64, Seq<C>>, key: u64) -> Seq<C> {
    if table.contains_key(key) {
        table[key]
    } else {
        Seq::empty()
    }
}

/// The table after one registration of `callback` under `key`.
pub open spec fn registered<C>(table: Map<u64, Seq<C>>, key: u64, callback: C) -> Map<u64, Seq<C>> {
    table.insert(key, bucket_of(table, key).push(callback))
}

/// The table after registering each of `callbacks` under `key`, in order.
pub open spec fn registered_all<C>(table: Map<u64, Seq<C>>, key: u64, callbacks: Seq<C>) -> Map<
    u64,
    Seq<C>,
>
    decreases callbacks.len(),
{
    if callbacks.len() == 0 {
        table
    } else {
        registered(
            registered_all(table, key, callbacks.drop_last()),
            key,
            callbacks.last(),
        )
    }
}

/// The event emitter: a table from event keys to the callbacks registered
/// under them, in the order of registration.
pub struct EventEmitter<C> {
    events: HashMap<u64, Vec<C>>,
}

impl<C> View for EventEmitter<C> {
    type V = Map<u64, Seq<C>>;

    closed spec fn view(&self) -> Map<u64, Seq<C>> {
        self.events@.map_values(|b: Vec<C>| b@)
    }
}

impl<C> EventEmitter<C> {
    /// The callbacks registered under `key`, in order; empty where none was.
    pub open spec fn bucket(&self, key: u64) -> Seq<C> {
        bucket_of(self@, key)
    }

    /// An emitter with no callbacks registered.
    pub fn new() -> (r: Self)
        ensures
            r@ == Map::<u64, Seq<C>>::empty(),
    {
        let r = EventEmitter { events: HashMap::new() };
        assert(r@ =~= Map::<u64, Seq<C>>::empty());
        r
    }

    /// Appends `callback` to the callbacks registered under `key`.
    pub fn register(&mut self, key: u64, callback: C)
        ensures
            final(self)@ == registered(old(self)@, key, callback),
    {
        let mut bucket = match self.events.remove(&key) {
            Some(b) => b,
            None => Vec::new(),
        };
        bucket.push(callback);
        self.events.insert(key, bucket);
        assert(self@ =~= old(self)@.insert(key, old(self).bucket(key).push(callback)));
    }

    /// The callbacks registered under `key`, in order of registration;
    /// empty where none was.
    pub fn lookup(&self, key: u64) -> (r: &[C])
        ensures
            r@ == self.bucket(key),
    {
        match self.events.get(&key) {
            Some(handlers) => handlers.as_slice(),
            None => &[],
        }
    }

    /// Runs, in order, the callbacks registered under `key` on `payload`,
    /// stopping at the first that fails and returning its failure.
    pub fn dispatch_key<X, S, F>(&self, key: u64, payload: &X, state: &mut S) -> (r: Result<(), F>)
        where C: Callback<X, S, F>,
        ensures
            *final(state) == dispatch(self.bucket(key), *payload, *old(state)).0,
            r is Ok <==> dispatch(self.bucket(key), *payload, *old(state)).1 is None,
            r is Err ==> dispatch(self.bucket(key), *payload, *old(state)).1 == Some(r->Err_0),
    {
        let handlers = self.lookup(key);
        let ghost hs = self.bucket(key);
        let ghost goal = dispatch(hs, *payload, *old(state));
        assert(hs.skip(0) =~= hs);
        let mut i: usize = 0;
        while i < handlers.len()
            invariant
                handlers@ == hs,
                0 <= i <= hs.len(),
                dispatch(hs.skip(i as int), *payload, *state) == goal,
                goal == dispatch(hs, *payload, *old(state)),
                hs == self.bucket(key),
            decreases hs.len() - i,
        {
            let ghost before = *state;
            assert(hs.skip(i as int).drop_first() =~= hs.skip(i + 1));
            assert(hs.skip(i as int)[0] == hs[i as int]);
            match handlers[i].call(payload, state) {
                Err(f) => {
                    assert(dispatch(hs.skip(i as int), *payload, before) == (*state, Some(f)));
                    return Err(f);
                },
                Ok(()) => {},
            }
            i = i + 1;
        }
        assert(hs.skip(i as int).len() == 0);
        Ok(())
    }
}

/// A host of an event emitter. Any such host gets `on` and `trigger`.
pub trait Eventable<C> {
    /// The emitter this host holds.
    spec fn emitter(&self) -> EventEmitter<C>;

    /// Returns a reference to the enclosed emitter.
    fn events(&self) -> (r: &EventEmitter<C>)
        ensures
            *r == self.emitter(),
    ;

    /// Returns a mutable reference to the enclosed emitter.
    fn events_mut(&mut self) -> (r: &mut EventEmitter<C>)
        ensures
            *r == old(self).emitter(),
            final(self).emitter() == *final(r),
    ;

    /// Registers `callback` to run whenever the kind `K` is triggered.
    /// Callbacks registered earlier under `K` stay, and run first.
    fn on<K: Event<X>, X>(&mut self, callback: C)
        ensures
            final(self).emitter()@ == registered(old(self).emitter()@, K::spec_key(), callback),
    {
        let key = K::key();
        self.events_mut().register(key, callback);
    }

    /// Triggers the kind `K` with `payload`: runs the callbacks registered
    /// under `K` in order of registration, each on `payload`, until one
    /// fails, and returns that failure.
    fn trigger<K: Event<X>, X, S, F>(&self, payload: X, state: &mut S) -> (r: Result<(), F>)
        where C: Callback<X, S, F>,
        ensures
            *final(state) == dispatch(
                self.emitter().bucket(K::spec_key()),
                payload,
                *old(state),
            ).0,
            r is Ok <==> dispatch(
                self.emitter().bucket(K::spec_key()),
                payload,
                *old(state),
            ).1 is None,
            r is Err ==> dispatch(
                self.emitter().bucket(K::spec_key()),
                payload,
                *old(state),
            ).1 == Some(r->Err_0),
    {
        let key = K::key();
        self.events().dispatch_key(key, &payload, state)
    }
}

impl<C> Eventable<C> for EventEmitter<C> {
    open spec fn emitter(&self) -> EventEmitter<C> {
        *self
    }

    fn events(&self) -> (r: &EventEmitter<C>) {
        self
    }

    fn events_mut(&mut self) -> (r: &mut EventEmitter<C>) {
        self
    }
}

} // verus!
