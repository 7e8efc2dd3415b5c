use futures::channel::oneshot::{self, Sender};
use sprite_anim::completion::{LoadOutcome, PendingCompletion};

type Release<T, E> = Option<(Sender<LoadOutcome<T, E>>, LoadOutcome<T, E>)>;

/// Sends what a fired slot released; reports whether there was anything.
fn send<T, E>(released: Release<T, E>) -> bool {
    match released {
        Some((tx, outcome)) => {
            let _ = tx.send(outcome);
            true
        }
        None => false,
    }
}

#[test]
fn success_then_error_delivers_ready_once() {
    let (tx, mut rx) = oneshot::channel::<LoadOutcome<(), String>>();
    let mut slot = PendingCompletion::new(tx);
    assert!(slot.is_pending());
    assert!(send(slot.succeed(())));
    assert!(!slot.is_pending());
    assert!(!send(slot.fail("late".to_string())));
    match rx.try_recv() {
        Ok(Some(LoadOutcome::Ready(()))) => {}
        other => panic!("unexpected {:?}", other),
    }
}

#[test]
fn error_then_success_delivers_failure_with_host_value() {
    let (tx, mut rx) = oneshot::channel::<LoadOutcome<(), String>>();
    let mut slot = PendingCompletion::new(tx);
    assert!(send(slot.fail("404 rhb.png".to_string())));
    assert!(!send(slot.succeed(())));
    match rx.try_recv() {
        Ok(Some(LoadOutcome::Failed(e))) => assert_eq!(e, "404 rhb.png"),
        other => panic!("unexpected {:?}", other),
    }
}

#[test]
fn released_outcome_is_the_one_fired() {
    let (tx, _rx) = oneshot::channel::<LoadOutcome<u32, u32>>();
    let mut slot = PendingCompletion::new(tx);
    match slot.settle(LoadOutcome::Failed(7)) {
        Some((_, LoadOutcome::Failed(7))) => {}
        other => panic!("unexpected release {:?}", other.map(|(_, o)| o)),
    }
    assert!(slot.settle(LoadOutcome::Ready(1)).is_none());
}

#[test]
fn repeated_firing_is_a_no_op() {
    let (tx, mut rx) = oneshot::channel::<LoadOutcome<u32, u32>>();
    let mut slot = PendingCompletion::new(tx);
    assert!(send(slot.settle(LoadOutcome::Ready(1))));
    assert!(!send(slot.settle(LoadOutcome::Ready(2))));
    assert!(!send(slot.settle(LoadOutcome::Failed(3))));
    match rx.try_recv() {
        Ok(Some(LoadOutcome::Ready(1))) => {}
        other => panic!("unexpected {:?}", other),
    }
}

#[test]
fn firing_after_receiver_left_does_not_fail() {
    let (tx, rx) = oneshot::channel::<LoadOutcome<(), ()>>();
    drop(rx);
    let mut slot = PendingCompletion::new(tx);
    assert!(send(slot.succeed(())));
    assert!(!send(slot.fail(())));
}

#[test]
fn awaiting_receiver_yields_first_outcome() {
    let (tx, rx) = oneshot::channel::<LoadOutcome<&str, &str>>();
    let mut slot = PendingCompletion::new(tx);
    send(slot.fail("decode error"));
    send(slot.succeed("image"));
    match futures::executor::block_on(rx) {
        Ok(LoadOutcome::Failed(e)) => assert_eq!(e, "decode error"),
        other => panic!("unexpected {:?}", other),
    }
}
