use numpty::settle::{Event, Outcome, Settle};

fn quiet<R>(o: &Outcome<R>) -> bool {
    matches!(o, Outcome::Quiet)
}

#[test]
fn quiet_start_replies_at_wait_first() {
    let mut s: Settle<u32> = Settle::new();
    let o = s.step(Event::Request { req: 1, now: 1000, wait_first: 50, wait_more: 50 });
    assert!(quiet(&o));
    assert_eq!(s.deadline(), Some(1050));
    assert!(quiet(&s.step(Event::Tick { now: 1049 })));
    assert!(matches!(s.step(Event::Tick { now: 1050 }), Outcome::Reply(1)));
    assert!(s.pending.is_none());
    assert_eq!(s.deadline(), None);
    assert!(quiet(&s.step(Event::Tick { now: 5000 })));
}

#[test]
fn sustained_output_defers_the_reply() {
    let mut s: Settle<u32> = Settle::new();
    s.step(Event::Request { req: 7, now: 0, wait_first: 50, wait_more: 50 });
    let mut t: u64 = 10;
    while t < 2000 {
        assert!(quiet(&s.step(Event::Output { now: t })));
        assert!(quiet(&s.step(Event::Tick { now: t + 24 })));
        t += 25;
    }
    let last = t - 25;
    assert!(quiet(&s.step(Event::Tick { now: last + 49 })));
    assert!(matches!(s.step(Event::Tick { now: last + 50 }), Outcome::Reply(7)));
}

#[test]
fn latest_request_wins() {
    let mut s: Settle<u32> = Settle::new();
    s.step(Event::Request { req: 1, now: 0, wait_first: 100, wait_more: 10 });
    let o = s.step(Event::Request { req: 2, now: 5, wait_first: 100, wait_more: 10 });
    assert!(matches!(o, Outcome::Dropped(1)));
    assert!(matches!(s.step(Event::Tick { now: 105 }), Outcome::Reply(2)));
    assert!(quiet(&s.step(Event::Tick { now: 500 })));
}

#[test]
fn closed_output_replies_at_once() {
    let mut s: Settle<u32> = Settle::new();
    s.step(Event::Request { req: 3, now: 0, wait_first: 1000, wait_more: 10 });
    assert!(matches!(s.step(Event::OutputClosed), Outcome::Reply(3)));
    assert!(!s.watching_output());
    assert!(quiet(&s.step(Event::OutputClosed)));
}

#[test]
fn output_without_request_arms_nothing() {
    let mut s: Settle<u32> = Settle::new();
    assert!(quiet(&s.step(Event::Output { now: 3 })));
    assert_eq!(s.deadline(), None);
}

#[test]
fn deadline_saturates() {
    let mut s: Settle<u32> = Settle::new();
    s.step(Event::Request { req: 1, now: u64::MAX - 1, wait_first: 10, wait_more: 10 });
    assert_eq!(s.deadline(), Some(u64::MAX));
}
