//! A synchronous event emitter for evented code.
//!
//! Callbacks are registered under an event kind and run, in the order in
//! which they were registered, each time that kind is triggered.
use vstd::prelude::*;

mod dispatch;
mod emitter;
mod laws;

pub use dispatch::{dispatch, Callback};
pub use emitter::{bucket_of, registered, registered_all, Event, EventEmitter, Eventable};
pub use laws::{
    lemma_dispatch_append, law_accumulation, law_dispatch_step, law_empty_dispatch,
    law_fail_fast, law_isolation_by_kind, law_registration_order,
};
