//! The settle heuristic: deciding, from the arrival times of terminal output,
//! when a pending snapshot request may be answered.
//!
//! Times are milliseconds on a monotonic clock. A request waits at most
//! `wait_first` for output; each chunk of output then pushes the deadline to
//! `wait_more` after it. A newer request supersedes a pending one, which is
//! handed back to be dropped without a reply.
use vstd::prelude::*;

verus! {

/// A request waiting for the terminal to settle.
#[derive(Clone, Debug)]
pub struct Pending<R> {
    pub req: R,
    pub wait_more: u64,
}

/// The coordinator's state: at most one pending request, a deadline (`None`
/// when no deadline is armed) and whether the output source has closed.
#[derive(Clone, Debug)]
pub struct Settle<R> {
    pub pending: Option<Pending<R>>,
    pub deadline: Option<u64>,
    pub output_closed: bool,
}

/// What the coordinator observes.
#[derive(Clone, Debug)]
pub enum Event<R> {
    /// A chunk of output arrived (and has been fed to the terminal).
    Output { now: u64 },
    /// The output source closed: the child's pump has ended.
    OutputClosed,
    /// A new settle request.
    Request { req: R, now: u64, wait_first: u64, wait_more: u64 },
    /// The armed deadline's timer fired.
    Tick { now: u64 },
}

/// What the coordinator asks to be done.
#[derive(Clone, Debug)]
pub enum Outcome<R> {
    /// Capture the screen and answer this request.
    Reply(R),
    /// Drop this request without an answer: a newer one supersedes it.
    Dropped(R),
    /// Nothing to do.
    Quiet,
}

/// `a + b`, or the largest time where that does not fit.
pub open spec fn later(a: u64, b: u64) -> u64 {
    if a + b <= u64::MAX {
        (a + b) as u64
    } else {
        u64::MAX
    }
}

/// The state and outcome that one event leads to.
pub open spec fn step_spec<R>(s: Settle<R>, e: Event<R>) -> (Settle<R>, Outcome<R>) {
    match e {
        Event::Output { now } => match s.pending {
            Some(p) => (Settle { deadline: Some(later(now, p.wait_more)), ..s }, Outcome::Quiet),
            None => (s, Outcome::Quiet),
        },
        Event::OutputClosed => match s.pending {
            Some(p) => (
                Settle { pending: None, deadline: None, output_closed: true },
                Outcome::Reply(p.req),
            ),
            None => (Settle { output_closed: true, ..s }, Outcome::Quiet),
        },
        Event::Request { req, now, wait_first, wait_more } => {
            let next = Settle {
                pending: Some(Pending { req, wait_more }),
                deadline: Some(later(now, wait_first)),
                output_closed: s.output_closed,
            };
            match s.pending {
                Some(p) => (next, Outcome::Dropped(p.req)),
                None => (next, Outcome::Quiet),
            }
        },
        Event::Tick { now } => match s.deadline {
            Some(d) => if now < d {
                (s, Outcome::Quiet)
            } else {
                match s.pending {
                    Some(p) => (
                        Settle { pending: None, deadline: None, output_closed: s.output_closed },
                        Outcome::Reply(p.req),
                    ),
                    None => (Settle { deadline: None, ..s }, Outcome::Quiet),
                }
            },
            None => (s, Outcome::Quiet),
        },
    }
}

/// The state and outcomes that a sequence of events leads to.
pub open spec fn run_spec<R>(s: Settle<R>, es: Seq<Event<R>>) -> (Settle<R>, Seq<Outcome<R>>)
    decreases es.len(),
{
    if es.len() == 0 {
        (s, Seq::empty())
    } else {
        let (s1, o) = step_spec(s, es[0]);
        let (s2, os) = run_spec(s1, es.drop_first());
        (s2, seq![o] + os)
    }
}

fn later_of(a: u64, b: u64) -> (r: u64)
    ensures
        r == later(a, b),
{
    a.saturating_add(b)
}

impl<R> Settle<R> {
    /// A coordinator with nothing pending and no deadline armed.
    pub fn new() -> (r: Self)
        ensures
            r.pending is None,
            r.deadline is None,
            !r.output_closed,
    {
        Settle { pending: None, deadline: None, output_closed: false }
    }

    /// Whether output is still being watched.
    pub fn watching_output(&self) -> (r: bool)
        ensures
            r == !self.output_closed,
    {
        !self.output_closed
    }

    /// The armed deadline, if any.
    pub fn deadline(&self) -> (r: Option<u64>)
        ensures
            r == self.deadline,
    {
        self.deadline
    }

    /// Handles one event and says what is to be done.
    pub fn step(&mut self, e: Event<R>) -> (r: Outcome<R>)
        ensures
            (*final(self), r) == step_spec(*old(self), e),
    {
        match e {
            Event::Output { now } => {
                match &self.pending {
                    Some(p) => {
                        self.deadline = Some(later_of(now, p.wait_more));
                    },
                    None => {},
                }
                Outcome::Quiet
            },
            Event::OutputClosed => {
                self.output_closed = true;
                match self.pending.take() {
                    Some(p) => {
                        self.deadline = None;
                        Outcome::Reply(p.req)
                    },
                    None => Outcome::Quiet,
                }
            },
            Event::Request { req, now, wait_first, wait_more } => {
                self.deadline = Some(later_of(now, wait_first));
                let old_pending = self.pending.take();
                self.pending = Some(Pending { req, wait_more });
                match old_pending {
                    Some(p) => Outcome::Dropped(p.req),
                    None => Outcome::Quiet,
                }
            },
            Event::Tick { now } => {
                match self.deadline {
                    Some(d) => {
                        if now < d {
                            Outcome::Quiet
                        } else {
                            self.deadline = None;
                            match self.pending.take() {
                                Some(p) => Outcome::Reply(p.req),
                                None => Outcome::Quiet,
                            }
                        }
                    },
                    None => Outcome::Quiet,
                }
            },
        }
    }
}


/// With no further event between them, a request followed by the timer at
/// or after `wait_first` is answered, whatever the state before; a timer
/// before then changes nothing.
pub proof fn law_quiet_start<R>(
    s: Settle<R>,
    req: R,
    now: u64,
    wait_first: u64,
    wait_more: u64,
    tick: u64,
)
    ensures
        ({
            let (s1, _) = step_spec(s, Event::Request { req, now, wait_first, wait_more });
            let (s2, o) = step_spec(s1, Event::Tick { now: tick });
            &&& tick >= later(now, wait_first) ==> o == Outcome::Reply(req) && s2.pending is None
            &&& tick < later(now, wait_first) ==> o is Quiet && s2 == s1
        }),
{
}

/// The time of the latest output among the first `i` events, or `t` if none.
pub open spec fn last_output<R>(es: Seq<Event<R>>, i: int, t: u64) -> u64
    decreases i,
{
    if i <= 0 {
        t
    } else if es[i - 1] is Output {
        es[i - 1]->Output_now
    } else {
        last_output(es, i - 1, t)
    }
}

/// Whether each event is output, or a timer that fires sooner than
/// `wait_more` after the latest output (`t` standing for output before them all).
pub open spec fn sustained<R>(es: Seq<Event<R>>, t: u64, wait_more: u64) -> bool {
    forall|i: int|
        0 <= i < es.len() ==> (#[trigger] es[i] is Output || (es[i] is Tick && es[i]->Tick_now
            < later(last_output(es, i, t), wait_more)))
}

proof fn lemma_last_output_shift<R>(es: Seq<Event<R>>, i: int, t: u64)
    requires
        1 <= i <= es.len(),
    ensures
        last_output(es, i, t) == last_output(
            es.drop_first(),
            i - 1,
            if es[0] is Output {
                es[0]->Output_now
            } else {
                t
            },
        ),
    decreases i,
{
    let t1 = if es[0] is Output {
        es[0]->Output_now
    } else {
        t
    };
    if i > 1 {
        lemma_last_output_shift(es, i - 1, t);
        let rest = es.drop_first();
        assert(rest[i - 2] == es[i - 1]);
        if es[i - 1] is Output {
            assert(last_output(rest, i - 1, t1) == rest[i - 2]->Output_now);
        } else {
            assert(last_output(rest, i - 1, t1) == last_output(rest, i - 2, t1));
        }
    } else {
        assert(last_output(es, 0, t) == t);
        assert(last_output(es.drop_first(), 0, t1) == t1);
    }
}

proof fn lemma_sustained<R>(s: Settle<R>, es: Seq<Event<R>>, t: u64)
    requires
        s.pending is Some,
        s.deadline == Some(later(t, s.pending->0.wait_more)),
        sustained(es, t, s.pending->0.wait_more),
    ensures
        run_spec(s, es).0.pending == s.pending,
        forall|k: int|
            0 <= k < run_spec(s, es).1.len() ==> #[trigger] run_spec(s, es).1[k] is Quiet,
        run_spec(s, es).1.len() == es.len(),
    decreases es.len(),
{
    if es.len() > 0 {
        let wm = s.pending->0.wait_more;
        let t1 = if es[0] is Output {
            es[0]->Output_now
        } else {
            t
        };
        assert(es[0] is Output || es[0] is Tick);
        let (s1, o) = step_spec(s, es[0]);
        let rest = es.drop_first();
        assert forall|i: int| 0 <= i < rest.len() implies (#[trigger] rest[i] is Output || (
        rest[i] is Tick && rest[i]->Tick_now < later(last_output(rest, i, t1), wm))) by {
            assert(rest[i] == es[i + 1]);
            lemma_last_output_shift(es, i + 1, t);
        }
        lemma_sustained(s1, rest, t1);
        let (s2, os) = run_spec(s1, rest);
        assert(run_spec(s, es).1 == seq![o] + os);
    }
}

/// Output that keeps arriving sooner than `wait_more` after the previous
/// output never lets a pending request be answered: through any run of
/// such output and timer events, nothing is replied and the request stays
/// pending.
pub proof fn law_sustained_output<R>(s: Settle<R>, es: Seq<Event<R>>)
    requires
        s.pending is Some,
        es.len() > 0,
        es[0] is Output,
        sustained(es, 0, s.pending->0.wait_more),
    ensures
        run_spec(s, es).0.pending == s.pending,
        forall|k: int|
            0 <= k < run_spec(s, es).1.len() ==> #[trigger] run_spec(s, es).1[k] is Quiet,
{
    let wm = s.pending->0.wait_more;
    let t0 = es[0]->Output_now;
    let (s1, o) = step_spec(s, es[0]);
    let rest = es.drop_first();
    assert forall|i: int| 0 <= i < rest.len() implies (#[trigger] rest[i] is Output || (
    rest[i] is Tick && rest[i]->Tick_now < later(last_output(rest, i, t0), wm))) by {
        assert(rest[i] == es[i + 1]);
        assert(es[i + 1] is Output || es[i + 1] is Tick);
        lemma_last_output_shift(es, i + 1, 0);
    }
    lemma_sustained(s1, rest, t0);
    let (s2, os) = run_spec(s1, rest);
    assert(run_spec(s, es).1 == seq![o] + os);
}

proof fn lemma_idle_never_replies<R>(s: Settle<R>, es: Seq<Event<R>>)
    requires
        s.pending is None,
        forall|i: int| 0 <= i < es.len() ==> !(#[trigger] es[i] is Request),
    ensures
        forall|k: int| 0 <= k < run_spec(s, es).1.len() ==> !(#[trigger] run_spec(s, es).1[k] is Reply),
        run_spec(s, es).1.len() == es.len(),
    decreases es.len(),
{
    if es.len() > 0 {
        assert(!(es[0] is Request));
        let (s1, o) = step_spec(s, es[0]);
        let rest = es.drop_first();
        assert forall|i: int| 0 <= i < rest.len() implies !(#[trigger] rest[i] is Request) by {
            assert(rest[i] == es[i + 1]);
        }
        lemma_idle_never_replies(s1, rest);
        let (s2, os) = run_spec(s1, rest);
        assert(run_spec(s, es).1 == seq![o] + os);
    }
}

proof fn lemma_only_pending_replied<R>(s: Settle<R>, b: R, es: Seq<Event<R>>)
    requires
        s.pending is None || s.pending->0.req == b,
        forall|i: int| 0 <= i < es.len() ==> !(#[trigger] es[i] is Request),
    ensures
        forall|k: int|
            0 <= k < run_spec(s, es).1.len() ==> (#[trigger] run_spec(s, es).1[k] is Reply ==> run_spec(
                s,
                es,
            ).1[k] == Outcome::Reply(b)),
        forall|k: int| 0 <= k < run_spec(s, es).1.len() ==> !(#[trigger] run_spec(s, es).1[k] is Dropped),
        forall|k1: int, k2: int|
            0 <= k1 < k2 < run_spec(s, es).1.len() && #[trigger] run_spec(s, es).1[k1] is Reply
                ==> !(#[trigger] run_spec(s, es).1[k2] is Reply),
        run_spec(s, es).1.len() == es.len(),
    decreases es.len(),
{
    if es.len() > 0 {
        assert(!(es[0] is Request));
        let (s1, o) = step_spec(s, es[0]);
        let rest = es.drop_first();
        assert forall|i: int| 0 <= i < rest.len() implies !(#[trigger] rest[i] is Request) by {
            assert(rest[i] == es[i + 1]);
        }
        lemma_only_pending_replied(s1, b, rest);
        let (s2, os) = run_spec(s1, rest);
        let outs = run_spec(s, es).1;
        assert(outs == seq![o] + os);
        if o is Reply {
            assert(s1.pending is None);
            lemma_idle_never_replies(s1, rest);
        }
        assert forall|k1: int, k2: int|
            0 <= k1 < k2 < outs.len() && #[trigger] outs[k1] is Reply implies !(
            #[trigger] outs[k2] is Reply) by {
            assert(outs[k2] == os[k2 - 1]);
            if k1 > 0 {
                assert(outs[k1] == os[k1 - 1]);
            }
        }
    }
}

/// A second request made before the first is answered supersedes it: the
/// first is handed back to be dropped, and whatever events other than
/// requests follow, every reply that comes answers the second, and at most
/// one reply comes.
pub proof fn law_latest_wins<R>(
    s: Settle<R>,
    a: R,
    now_a: u64,
    first_a: u64,
    more_a: u64,
    b: R,
    now_b: u64,
    first_b: u64,
    more_b: u64,
    es: Seq<Event<R>>,
)
    requires
        forall|i: int| 0 <= i < es.len() ==> !(#[trigger] es[i] is Request),
    ensures
        ({
            let (s1, _) = step_spec(
                s,
                Event::Request { req: a, now: now_a, wait_first: first_a, wait_more: more_a },
            );
            let (s2, o2) = step_spec(
                s1,
                Event::Request { req: b, now: now_b, wait_first: first_b, wait_more: more_b },
            );
            let outs = run_spec(s2, es).1;
            &&& o2 == Outcome::Dropped(a)
            &&& forall|k: int| 0 <= k < outs.len() ==> (#[trigger] outs[k] is Reply ==> outs[k] == Outcome::Reply(b))
            &&& forall|k: int| 0 <= k < outs.len() ==> !(#[trigger] outs[k] is Dropped)
            &&& forall|k1: int, k2: int|
                0 <= k1 < k2 < outs.len() && #[trigger] outs[k1] is Reply ==> !(
                #[trigger] outs[k2] is Reply)
        }),
{
    let (s1, _) = step_spec(
        s,
        Event::Request { req: a, now: now_a, wait_first: first_a, wait_more: more_a },
    );
    let (s2, o2) = step_spec(
        s1,
        Event::Request { req: b, now: now_b, wait_first: first_b, wait_more: more_b },
    );
    lemma_only_pending_replied(s2, b, es);
}

} // verus!
