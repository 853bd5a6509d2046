use async_actor::error::ActorError;
use async_actor::lazy::LazyInner;
use async_actor::resolver::{AsyncResolvable, Resolver, SyncResolvable};
use async_actor::system::{reply_or_closed, ComponentHandle, ComponentHandleUnique, Envelope, FnTransform};
use tokio::runtime::Runtime;
use tokio::sync::mpsc::UnboundedReceiver;
use tokio::task::JoinHandle;

struct Add {
    resolver: Resolver<i64, i64>,
}

impl Envelope<i64> for Add {
    type Answer = i64;

    fn pack(resolver: Resolver<i64, i64>) -> Self {
        Add { resolver }
    }
}

fn double(message: i64) -> i64 {
    message * 2
}

fn runtime() -> Runtime {
    tokio::runtime::Builder::new_multi_thread().worker_threads(1).build().unwrap()
}

/// A counter actor: each request adds its delta and answers the new total.
fn run_counter(rt: &Runtime, mut mailbox: UnboundedReceiver<Add>) -> JoinHandle<i64> {
    rt.spawn_blocking(move || {
        let mut n: i64 = 0;
        while let Some(env) = mailbox.blocking_recv() {
            let (reply, delta) = env.resolver.split();
            n += delta;
            reply.resolve(n);
        }
        n
    })
}

#[test]
fn counter_answers_in_order() {
    let (mailbox, handle) = ComponentHandle::<Add>::create();
    let rt = runtime();
    let runner = run_counter(&rt, mailbox);
    assert_eq!(handle.dispatch_sync(1).ok(), Some(1));
    assert_eq!(handle.dispatch_sync(2).ok(), Some(3));
    assert_eq!(handle.dispatch_sync(-1).ok(), Some(2));
    drop(handle);
    assert_eq!(rt.block_on(runner).unwrap(), 2);
}

#[test]
fn closed_mailbox_gives_mailbox_closed() {
    let (mailbox, handle) = ComponentHandle::<Add>::create();
    drop(mailbox);
    assert!(matches!(handle.dispatch_sync(1), Err(ActorError::MailboxClosed)));
}

#[test]
fn dropped_resolver_gives_mailbox_closed() {
    let (mut mailbox, handle) = ComponentHandle::<Add>::create();
    let rt = runtime();
    let runner = rt.spawn_blocking(move || {
        let env = mailbox.blocking_recv().unwrap();
        drop(env);
    });
    assert!(matches!(handle.dispatch_sync(4), Err(ActorError::MailboxClosed)));
    rt.block_on(runner).unwrap();
}

#[test]
fn nowait_does_not_block_and_expects_no_answer() {
    let (mut mailbox, handle) = ComponentHandle::<Add>::create();
    handle.dispatch_sync_nowait(1);
    handle.dispatch_sync_nowait(2);
    handle.dispatch_sync_nowait(3);
    let mut seen = Vec::new();
    while let Ok(env) = mailbox.try_recv() {
        assert!(!env.resolver.expects_answer());
        seen.push(*env.resolver.get_meta());
    }
    assert_eq!(seen, vec![1, 2, 3]);
}

#[test]
fn one_handle_delivers_in_send_order() {
    let (mut mailbox, handle) = ComponentHandle::<Add>::create();
    let other = handle.clone();
    for i in 0..10 {
        other.dispatch_sync_nowait(i);
    }
    for i in 0..10 {
        let env = mailbox.try_recv().unwrap();
        assert_eq!(*env.resolver.get_meta(), i);
    }
    drop(handle);
}

#[test]
fn dropping_all_handles_drains_then_closes() {
    let (mut mailbox, handle) = ComponentHandle::<Add>::create();
    let second = handle.clone();
    handle.dispatch_sync_nowait(7);
    second.dispatch_sync_nowait(8);
    drop(handle);
    drop(second);
    assert_eq!(*mailbox.blocking_recv().unwrap().resolver.get_meta(), 7);
    assert_eq!(*mailbox.blocking_recv().unwrap().resolver.get_meta(), 8);
    assert!(mailbox.blocking_recv().is_none());
}

#[test]
fn sender_dispatches_to_its_actor() {
    let (mailbox, handle) = ComponentHandle::<Add>::create();
    let rt = runtime();
    let runner = run_counter(&rt, mailbox);
    let sender = handle.make_sender::<i64>();
    let copy = sender.clone();
    assert_eq!(sender.dispatch_sync(5).ok(), Some(5));
    copy.dispatch_sync_nowait(1);
    assert_eq!(copy.dispatch_sync(0).ok(), Some(6));
    drop(handle);
    drop(sender);
    drop(copy);
    assert_eq!(rt.block_on(runner).unwrap(), 6);
}

#[test]
fn transforming_sender_converts_before_enqueue() {
    let (mailbox, handle) = ComponentHandle::<Add>::create();
    let rt = runtime();
    let runner = run_counter(&rt, mailbox);
    let sender = handle.make_transforming_sender(FnTransform::new(double));
    assert_eq!(sender.dispatch_sync(5).ok(), Some(10));
    assert_eq!(sender.dispatch_sync(-1).ok(), Some(8));
    drop(handle);
    drop(sender);
    assert_eq!(rt.block_on(runner).unwrap(), 8);
}

#[test]
fn unique_handle_dispatches() {
    let (mailbox, handle) = ComponentHandle::<Add>::create();
    let rt = runtime();
    let runner = run_counter(&rt, mailbox);
    let unique = ComponentHandleUnique::from(handle);
    assert_eq!(unique.dispatch_sync(3).ok(), Some(3));
    let sender = unique.make_transforming_sender(FnTransform::new(double));
    assert_eq!(sender.dispatch_sync(1).ok(), Some(5));
    drop(unique);
    drop(sender);
    assert_eq!(rt.block_on(runner).unwrap(), 5);
}

#[test]
fn unique_handle_of_its_own_mailbox() {
    let (mut mailbox, unique) = ComponentHandleUnique::<Add>::create();
    unique.dispatch_sync_nowait(2);
    assert_eq!(*mailbox.try_recv().unwrap().resolver.get_meta(), 2);
    drop(mailbox);
    assert!(matches!(unique.dispatch_sync(1), Err(ActorError::MailboxClosed)));
}

#[test]
fn async_request_is_answered() {
    let (mailbox, handle) = ComponentHandle::<Add>::create();
    let rt = runtime();
    let runner = run_counter(&rt, mailbox);
    let first = handle.request(4);
    let second = handle.make_sender::<i64>().request(6);
    let a = rt.block_on(first.into_receiver()).ok();
    let b = rt.block_on(second.into_receiver()).ok();
    assert_eq!(reply_or_closed(a).ok(), Some(4));
    assert_eq!(reply_or_closed(b).ok(), Some(10));
    drop(handle);
    rt.block_on(runner).unwrap();
}

#[test]
fn reply_or_closed_maps_both_outcomes() {
    assert_eq!(reply_or_closed(Some(3)).ok(), Some(3));
    assert!(matches!(reply_or_closed::<i32>(None), Err(ActorError::MailboxClosed)));
}

#[test]
fn resolver_round_trip_blocking() {
    let (resolvable, resolver) = SyncResolvable::<i32>::new_with_meta("req");
    assert_eq!(*resolver.get_meta(), "req");
    assert!(resolver.expects_answer());
    let rt = runtime();
    let t = rt.spawn_blocking(move || resolver.resolve(10));
    assert_eq!(resolvable.wait(), Some(10));
    rt.block_on(t).unwrap();
}

#[test]
fn dropped_resolver_yields_none() {
    let (resolvable, resolver) = SyncResolvable::<i32>::new();
    drop(resolver);
    assert_eq!(resolvable.wait(), None);
}

#[test]
fn split_keeps_meta_and_reply_slot() {
    let (resolvable, resolver) = SyncResolvable::<i32>::new_with_meta(5u8);
    let (thin, meta) = resolver.split();
    assert_eq!(meta, 5);
    thin.resolve(3);
    assert_eq!(resolvable.wait(), Some(3));
}

#[test]
fn resolve_after_waiting_end_dropped_is_safe() {
    let (resolvable, resolver) = SyncResolvable::<i32>::new();
    drop(resolvable);
    resolver.resolve(1);
    let (resolvable, resolver) = AsyncResolvable::<i32>::new();
    drop(resolvable);
    let (thin, ()) = resolver.split();
    thin.resolve(2);
}

#[test]
fn noop_resolver_discards_the_answer() {
    let r = Resolver::<&str, i32>::noop("m");
    assert!(!r.expects_answer());
    assert_eq!(*r.get_meta(), "m");
    let (thin, meta) = r.split();
    assert_eq!(meta, "m");
    thin.resolve(1);
}

#[test]
fn async_resolvable_receives_answer() {
    let (resolvable, resolver) = AsyncResolvable::<i32>::new_with_meta(1);
    resolver.resolve(11);
    let rt = tokio::runtime::Builder::new_current_thread().build().unwrap();
    assert_eq!(rt.block_on(resolvable.into_receiver()).ok(), Some(11));
}

#[test]
fn lazy_value_reaches_early_and_late_callers() {
    let mut lazy: LazyInner<i32> = LazyInner::new();
    let early = lazy.get();
    let second = lazy.get();
    lazy.set(7);
    let late = lazy.get();
    let rt = tokio::runtime::Builder::new_current_thread().build().unwrap();
    assert_eq!(rt.block_on(early).ok(), Some(7));
    assert_eq!(rt.block_on(second).ok(), Some(7));
    assert_eq!(rt.block_on(late).ok(), Some(7));
}

#[test]
fn lazy_value_tolerates_a_caller_that_left() {
    let mut lazy: LazyInner<String> = LazyInner::new();
    let gone = lazy.get();
    drop(gone);
    let kept = lazy.get();
    lazy.set("v".to_string());
    let rt = tokio::runtime::Builder::new_current_thread().build().unwrap();
    assert_eq!(rt.block_on(kept).ok(), Some("v".to_string()));
}

#[test]
fn transforming_sender_builds_converted_requests() {
    let (mut mailbox, handle) = ComponentHandle::<Add>::create();
    let sender = handle.make_transforming_sender(FnTransform::new(double));
    let discarding = sender.discarding_request(4);
    assert_eq!(*discarding.get_meta(), 8);
    assert!(!discarding.expects_answer());
    let (_waiting, blocking) = sender.blocking_request(5);
    assert_eq!(*blocking.get_meta(), 10);
    assert!(blocking.expects_answer());
    let (_pending, awaited) = sender.awaited_request(6);
    assert_eq!(*awaited.get_meta(), 12);
    assert!(awaited.expects_answer());
    sender.dispatch_sync_nowait(7);
    let env = mailbox.try_recv().unwrap();
    assert_eq!(*env.resolver.get_meta(), 14);
    assert!(!env.resolver.expects_answer());
    assert!(mailbox.try_recv().is_err());
}

#[test]
fn enqueue_puts_the_request_on_the_handles_mailbox() {
    let (mut mailbox, handle) = ComponentHandle::<Add>::create();
    let copy = handle.clone();
    copy.enqueue(Resolver::noop(3));
    let (_waiting, request) = SyncResolvable::new_with_meta(9);
    ComponentHandleUnique::from_shared(handle).enqueue(request);
    assert_eq!(*mailbox.try_recv().unwrap().resolver.get_meta(), 3);
    let second = mailbox.try_recv().unwrap();
    assert_eq!(*second.resolver.get_meta(), 9);
    assert!(second.resolver.expects_answer());
}

#[test]
fn blocking_dispatch_from_inside_a_runtime_does_not_panic() {
    let (mailbox, handle) = ComponentHandle::<Add>::create();
    drop(mailbox);
    let rt = runtime();
    let _inside = rt.enter();
    assert!(matches!(handle.dispatch_sync(1), Err(ActorError::MailboxClosed)));
}
