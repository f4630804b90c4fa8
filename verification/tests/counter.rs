use counter_program::{
    decrement, increment, initialize, Counter, CounterError, Identity, Initialize, UpdateCounter,
};

fn ident(tag: u64) -> Identity {
    Identity::new(tag, tag.wrapping_mul(3), tag ^ 0xdead_beef, tag + 17)
}

#[test]
fn initialize_creates_zero_record() {
    let a = ident(1);
    let ctx = Initialize { counter: None, authority: a };
    let (record, event) = initialize(&ctx).unwrap();
    assert_eq!(record.count, 0);
    assert_eq!(record.authority, a);
    assert_eq!(event.authority, a);
    assert_eq!(event.count, 0);
}

#[test]
fn initialize_twice_fails_and_keeps_record() {
    let a = ident(2);
    let first = Counter { count: 41, authority: a };
    let ctx = Initialize { counter: Some(first), authority: a };
    let second = initialize(&ctx);
    assert_eq!(second, Err(CounterError::AlreadyInitializedError));
    let kept = ctx.counter.unwrap();
    assert_eq!(kept.count, 41);
    assert_eq!(kept.authority, a);
}

#[test]
fn increment_adds_one_and_notifies() {
    let a = ident(3);
    let mut ctx = UpdateCounter { counter: Counter { count: 0, authority: a }, authority: a };
    let event = increment(&mut ctx, 1_700_000_000).unwrap();
    assert_eq!(ctx.counter.count, 1);
    assert_eq!(ctx.counter.authority, a);
    assert_eq!(event.authority, a);
    assert_eq!(event.old_count, 0);
    assert_eq!(event.new_count, 1);
    assert_eq!(event.timestamp, 1_700_000_000);
}

#[test]
fn decrement_subtracts_one_and_notifies() {
    let a = ident(4);
    let mut ctx = UpdateCounter { counter: Counter { count: 5, authority: a }, authority: a };
    let event = decrement(&mut ctx, 99).unwrap();
    assert_eq!(ctx.counter.count, 4);
    assert_eq!(ctx.counter.authority, a);
    assert_eq!(event.authority, a);
    assert_eq!(event.old_count, 5);
    assert_eq!(event.new_count, 4);
    assert_eq!(event.timestamp, 99);
}

#[test]
fn increment_by_other_identity_rejected() {
    let a = ident(5);
    let b = ident(6);
    assert_ne!(a, b);
    let mut ctx = UpdateCounter { counter: Counter { count: 7, authority: a }, authority: b };
    let result = increment(&mut ctx, 0);
    assert_eq!(result, Err(CounterError::AuthorizationError));
    assert_eq!(ctx.counter.count, 7);
    assert_eq!(ctx.counter.authority, a);
}

#[test]
fn decrement_by_other_identity_rejected() {
    let a = ident(7);
    let b = ident(8);
    let mut ctx = UpdateCounter { counter: Counter { count: 7, authority: a }, authority: b };
    let result = decrement(&mut ctx, 0);
    assert_eq!(result, Err(CounterError::AuthorizationError));
    assert_eq!(ctx.counter.count, 7);
    assert_eq!(ctx.counter.authority, a);
}

#[test]
fn increment_at_maximum_fails_and_keeps_count() {
    let a = ident(9);
    let mut ctx =
        UpdateCounter { counter: Counter { count: u64::MAX, authority: a }, authority: a };
    let result = increment(&mut ctx, 12);
    assert_eq!(result, Err(CounterError::OverflowError));
    assert_eq!(ctx.counter.count, u64::MAX);
    assert_eq!(ctx.counter.authority, a);
}

#[test]
fn decrement_at_zero_fails_and_keeps_count() {
    let a = ident(10);
    let mut ctx = UpdateCounter { counter: Counter { count: 0, authority: a }, authority: a };
    let result = decrement(&mut ctx, 12);
    assert_eq!(result, Err(CounterError::UnderflowError));
    assert_eq!(ctx.counter.count, 0);
    assert_eq!(ctx.counter.authority, a);
}

#[test]
fn counter_walkthrough() {
    let a = ident(11);
    let b = ident(12);

    let (record, created) = initialize(&Initialize { counter: None, authority: a }).unwrap();
    assert_eq!(record, Counter { count: 0, authority: a });
    assert_eq!(created.count, 0);

    let mut ctx = UpdateCounter { counter: record, authority: a };
    let up = increment(&mut ctx, 100).unwrap();
    assert_eq!(ctx.counter.count, 1);
    assert_eq!(up.old_count, 0);
    assert_eq!(up.new_count, 1);

    let mut foreign = UpdateCounter { counter: ctx.counter, authority: b };
    assert_eq!(increment(&mut foreign, 101), Err(CounterError::AuthorizationError));
    assert_eq!(foreign.counter.count, 1);

    let mut ctx = UpdateCounter { counter: foreign.counter, authority: a };
    let down = decrement(&mut ctx, 102).unwrap();
    assert_eq!(ctx.counter.count, 0);
    assert_eq!(down.old_count, 1);
    assert_eq!(down.new_count, 0);

    assert_eq!(decrement(&mut ctx, 103), Err(CounterError::UnderflowError));
    assert_eq!(ctx.counter.count, 0);
}
