//! The three operations of the state machine, and the invariants that hold
//! along any sequence of committed transitions.

use crate::identity::Identity;
use crate::record::{
    Counter, CounterDecremented, CounterError, CounterIncremented, CounterInitialized, Initialize,
    UpdateCounter,
};
use vstd::prelude::*;

verus! {

/// The record that `initialize` creates for a caller.
pub open spec fn initial_record(authority: Identity) -> Counter {
    Counter { count: 0, authority }
}

/// One committed transition: a successful increment or decrement. The count
/// moves by exactly one (as a mathematical integer, so neither bound can be
/// crossed) and the authority stays what it was.
pub open spec fn counter_step(pre: Counter, post: Counter) -> bool {
    &&& post.authority == pre.authority
    &&& (post.count == pre.count + 1 || post.count == pre.count - 1)
}

/// Creates the record for the caller: count zero, the caller as authority.
/// Fails when a record already sits at the derived address, leaving that
/// record alone; a repeated initialize can never silently reset the count.
/// On success the creation notification carries the authority and the zero
/// count.
pub fn initialize(ctx: &Initialize) -> (r: Result<(Counter, CounterInitialized), CounterError>)
    ensures
        ctx.counter is None ==> {
            &&& r matches Ok(created)
            &&& created.0 == initial_record(ctx.authority)
            &&& created.1 == (CounterInitialized { authority: ctx.authority, count: 0 })
        },
        ctx.counter is Some ==> (r matches Err(e) && e == CounterError::AlreadyInitializedError),
{
    match &ctx.counter {
        Some(_) => Err(CounterError::AlreadyInitializedError),
        None => {
            let counter = Counter { count: 0, authority: ctx.authority };
            let event = CounterInitialized { authority: ctx.authority, count: 0 };
            Ok((counter, event))
        },
    }
}

/// Adds one to the record's count. Fails with `AuthorizationError` when the
/// caller is not the record's authority and with `OverflowError` when the
/// count is at the maximum representable value; on any failure the record is
/// left exactly as it was. On success the count grows by exactly one and the
/// notification carries the authority, both counts and the commit timestamp
/// `now` read from the host clock.
pub fn increment(ctx: &mut UpdateCounter, now: i64) -> (r: Result<CounterIncremented, CounterError>)
    ensures
        old(ctx).authority != old(ctx).counter.authority ==> {
            &&& r matches Err(e)
            &&& e == CounterError::AuthorizationError
            &&& *final (ctx) == *old(ctx)
        },
        old(ctx).authority == old(ctx).counter.authority && old(ctx).counter.count == u64::MAX
            ==> {
            &&& r matches Err(e)
            &&& e == CounterError::OverflowError
            &&& *final (ctx) == *old(ctx)
        },
        old(ctx).authority == old(ctx).counter.authority && old(ctx).counter.count < u64::MAX ==> {
            &&& final (ctx).counter.count == old(ctx).counter.count + 1
            &&& final (ctx).counter.authority == old(ctx).counter.authority
            &&& final (ctx).authority == old(ctx).authority
            &&& counter_step(old(ctx).counter, final (ctx).counter)
            &&& r matches Ok(ev) && ev == (CounterIncremented {
                authority: old(ctx).authority,
                old_count: old(ctx).counter.count,
                new_count: final (ctx).counter.count,
                timestamp: now,
            })
        },
{
    if ctx.authority != ctx.counter.authority {
        return Err(CounterError::AuthorizationError);
    }
    if ctx.counter.count == u64::MAX {
        return Err(CounterError::OverflowError);
    }
    let old_count = ctx.counter.count;
    ctx.counter.count = old_count + 1;
    Ok(
        CounterIncremented {
            authority: ctx.authority,
            old_count,
            new_count: ctx.counter.count,
            timestamp: now,
        },
    )
}

/// Takes one from the record's count. Fails with `AuthorizationError` when
/// the caller is not the record's authority and with `UnderflowError` when
/// the count is zero, so the count can never go below zero; on any failure
/// the record is left exactly as it was. On success the count shrinks by
/// exactly one and the notification carries the authority, both counts and
/// the commit timestamp `now` read from the host clock.
pub fn decrement(ctx: &mut UpdateCounter, now: i64) -> (r: Result<CounterDecremented, CounterError>)
    ensures
        old(ctx).authority != old(ctx).counter.authority ==> {
            &&& r matches Err(e)
            &&& e == CounterError::AuthorizationError
            &&& *final (ctx) == *old(ctx)
        },
        old(ctx).authority == old(ctx).counter.authority && old(ctx).counter.count == 0 ==> {
            &&& r matches Err(e)
            &&& e == CounterError::UnderflowError
            &&& *final (ctx) == *old(ctx)
        },
        old(ctx).authority == old(ctx).counter.authority && old(ctx).counter.count > 0 ==> {
            &&& final (ctx).counter.count == old(ctx).counter.count - 1
            &&& final (ctx).counter.authority == old(ctx).counter.authority
            &&& final (ctx).authority == old(ctx).authority
            &&& counter_step(old(ctx).counter, final (ctx).counter)
            &&& r matches Ok(ev) && ev == (CounterDecremented {
                authority: old(ctx).authority,
                old_count: old(ctx).counter.count,
                new_count: final (ctx).counter.count,
                timestamp: now,
            })
        },
{
    if ctx.authority != ctx.counter.authority {
        return Err(CounterError::AuthorizationError);
    }
    if ctx.counter.count == 0 {
        return Err(CounterError::UnderflowError);
    }
    let old_count = ctx.counter.count;
    ctx.counter.count = old_count - 1;
    Ok(
        CounterDecremented {
            authority: ctx.authority,
            old_count,
            new_count: ctx.counter.count,
            timestamp: now,
        },
    )
}

/// Along any trace that starts with a freshly initialized record and advances
/// only by committed transitions, the count never leaves the representable
/// range and the authority never changes from the creating caller.
pub proof fn lemma_trace_invariant(trace: Seq<Counter>, authority: Identity)
    requires
        trace.len() > 0,
        trace[0] == initial_record(authority),
        forall|i: int| 0 <= i < trace.len() - 1 ==> #[trigger] counter_step(trace[i], trace[i + 1]),
    ensures
        forall|i: int|
            0 <= i < trace.len() ==> trace[i].authority == authority && 0 <= trace[i].count
                <= u64::MAX,
    decreases trace.len(),
{
    if trace.len() > 1 {
        let front = trace.drop_last();
        assert forall|i: int| 0 <= i < front.len() - 1 implies #[trigger] counter_step(
            front[i],
            front[i + 1],
        ) by {
            assert(counter_step(trace[i], trace[i + 1]));
        }
        lemma_trace_invariant(front, authority);
        assert forall|i: int| 0 <= i < trace.len() implies trace[i].authority == authority && 0
            <= trace[i].count <= u64::MAX by {
            if i < trace.len() - 1 {
                assert(trace[i] == front[i]);
                assert(front[i].authority == authority);
            } else {
                let j = i - 1;
                assert(trace[j] == front[j]);
                assert(front[j].authority == authority);
                assert(counter_step(trace[j], trace[j + 1]));
            }
        }
    }
}

} // verus!
