use my_redis::executor::{Delay, DelayPoll, MiniTokio, Task};
use my_redis::multiplexer::{Multiplexer, Op, Outcome, SubmitError};

#[test]
fn producers_get_their_own_replies() {
    let mut mux = Multiplexer::new(32);
    let get_id = mux.submit(Op::Get { key: b"foo".to_vec() }).unwrap();
    let set_id = mux
        .submit(Op::Put { key: b"foo".to_vec(), value: b"bar".to_vec() })
        .unwrap();
    assert_ne!(get_id, set_id);

    let first = mux.next_command().unwrap();
    assert_eq!(first.id, get_id);
    // only one command in flight at a time
    assert!(mux.next_command().is_none());
    let reply = mux.complete(Outcome::Value(None)).unwrap();
    assert_eq!(reply.id, get_id);
    assert!(matches!(reply.outcome, Outcome::Value(None)));

    let second = mux.next_command().unwrap();
    assert_eq!(second.id, set_id);
    assert!(matches!(second.op, Op::Put { .. }));
    let reply = mux.complete(Outcome::Stored).unwrap();
    assert_eq!(reply.id, set_id);
    assert!(matches!(reply.outcome, Outcome::Stored));

    assert!(mux.next_command().is_none());
    assert!(mux.complete(Outcome::Failed).is_none());
}

#[test]
fn submit_after_owner_exit_fails() {
    let mut mux = Multiplexer::new(4);
    let a = mux.submit(Op::Get { key: b"a".to_vec() }).unwrap();
    let b = mux.submit(Op::Get { key: b"b".to_vec() }).unwrap();
    let c = mux.next_command().unwrap();
    assert_eq!(c.id, a);
    let left = mux.close();
    assert_eq!(left, vec![a, b]);
    assert!(matches!(
        mux.submit(Op::Get { key: b"c".to_vec() }),
        Err(SubmitError::Closed)
    ));
    assert!(mux.next_command().is_none());
}

#[test]
fn submit_to_full_queue_fails() {
    let mut mux = Multiplexer::new(2);
    assert_eq!(mux.submit(Op::Get { key: b"a".to_vec() }).unwrap(), 0);
    assert_eq!(mux.submit(Op::Get { key: b"b".to_vec() }).unwrap(), 1);
    assert!(matches!(
        mux.submit(Op::Get { key: b"c".to_vec() }),
        Err(SubmitError::Full)
    ));
    let c = mux.next_command().unwrap();
    assert_eq!(c.id, 0);
    assert_eq!(mux.submit(Op::Get { key: b"c".to_vec() }).unwrap(), 2);
}

#[test]
fn delay_waits_for_deadline() {
    let d = Delay { when: 100 };
    assert_eq!(d.poll(0), DelayPoll::Pending { sleep_for: 100 });
    assert_eq!(d.poll(99), DelayPoll::Pending { sleep_for: 1 });
    assert_eq!(d.poll(100), DelayPoll::Ready);
    assert_eq!(d.poll(250), DelayPoll::Ready);
}

#[test]
fn task_on_timer_is_polled_again_only_after_wake() {
    let mut rt = MiniTokio::new();
    let task = rt.spawn();
    assert_eq!(task.id, 0);
    let delay = Delay { when: 10 };

    // first poll happens at once, before the deadline
    let t = rt.next_task().unwrap();
    assert_eq!(t, task);
    assert!(matches!(delay.poll(0), DelayPoll::Pending { .. }));
    rt.finish(t, false);
    // suspended: not scheduled again by itself
    assert!(rt.next_task().is_none());

    // the timer fires: one wake, then a spurious second one
    task.schedule(&mut rt);
    task.schedule(&mut rt);
    let t = rt.next_task().unwrap();
    assert_eq!(t, task);
    assert!(rt.next_task().is_none());
    assert_eq!(delay.poll(10), DelayPoll::Ready);
    rt.finish(t, true);
    // a late wake of a completed task does nothing
    task.schedule(&mut rt);
    assert!(rt.next_task().is_none());
}

#[test]
fn wake_during_poll_requeues_after_poll() {
    let mut rt = MiniTokio::new();
    let a = rt.spawn();
    let b = rt.spawn();
    let t = rt.next_task().unwrap();
    assert_eq!(t, a);
    a.schedule(&mut rt);
    rt.finish(t, false);
    assert_eq!(rt.next_task().unwrap(), b);
    assert_eq!(rt.next_task().unwrap(), a);
    assert!(rt.next_task().is_none());
}

#[test]
fn finish_of_task_not_running_is_ignored() {
    let mut rt = MiniTokio::new();
    let a = rt.spawn();
    rt.finish(a, true);
    assert_eq!(rt.next_task().unwrap(), a);
    rt.finish(Task { id: 7 }, true);
    assert!(rt.next_task().is_none());
}
