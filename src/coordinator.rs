//! The lifecycle of a set of named subscriptions.
//!
//! The coordinator decides; the caller acts. Each subscription task reports
//! that its stream opened (handing over its teardown action) or that opening
//! failed, and later that it exited. From these events the coordinator says
//! when every stream is live, and during shutdown which teardown to run or
//! which task to wait for next.
use vstd::prelude::*;
use vstd::pervasive::VecAdditionalExecFns;

verus! {

/// How far a subscription got in opening its stream.
#[derive(PartialEq, Eq, Structural, Clone, Copy, Debug)]
pub enum Phase {
    Opening,
    Ready,
    Failed,
}

/// The state of a subscription's teardown action: not yet handed over,
/// handed over and not yet run, or run to completion.
#[derive(PartialEq, Eq, Structural, Clone, Copy, Debug)]
pub enum Teardown {
    Pending,
    Registered,
    Invoked,
}

/// One subscription task.
#[derive(Debug)]
pub struct Subscription {
    pub name: String,
    pub phase: Phase,
    pub teardown: Teardown,
    pub running: bool,
}

/// Whether the caller may go on to consume events.
#[derive(Debug)]
pub enum ReadyStatus {
    Waiting,
    AllReady,
    /// The first subscription whose stream failed to open, and why.
    Failed(usize, String),
}

/// What the caller does next while shutting down.
#[derive(PartialEq, Eq, Structural, Clone, Copy, Debug)]
pub enum ShutdownStep {
    /// Run this subscription's teardown action and wait for it to finish.
    Unsubscribe(usize),
    /// Wait for a subscription that is still opening to report.
    AwaitSignal,
    /// Stop the task of this subscription, still opening, without waiting
    /// for it: a stream has failed to open already.
    Cancel(usize),
    /// Wait for this subscription's task to exit.
    Join(usize),
    /// Nothing is left running and every teardown has run.
    Done,
}

/// The subscriptions and what has been heard of them.
#[derive(Debug)]
pub struct Coordinator {
    pub subscriptions: Vec<Subscription>,
    pub ready_signals: usize,
    pub first_error: Option<(usize, String)>,
    /// The subscriptions in the order their teardowns were handed over.
    pub registered: Vec<usize>,
}

/// The error recorded for a task that exits before its stream opened.
pub const EXITED_BEFORE_OPENING: &'static str = "task ended before its stream opened";

/// How many of the subscriptions have signalled ready.
pub open spec fn ready_count(s: Seq<Subscription>) -> nat
    decreases s.len(),
{
    if s.len() == 0 {
        0
    } else {
        ready_count(s.drop_last()) + if s.last().phase == Phase::Ready {
            1nat
        } else {
            0nat
        }
    }
}

proof fn lemma_ready_count_update(s: Seq<Subscription>, i: int, x: Subscription)
    requires
        0 <= i < s.len(),
    ensures
        ready_count(s.update(i, x)) + (if s[i].phase == Phase::Ready {
            1nat
        } else {
            0nat
        }) == ready_count(s) + (if x.phase == Phase::Ready {
            1nat
        } else {
            0nat
        }),
    decreases s.len(),
{
    if i == s.len() - 1 {
        assert(s.update(i, x).drop_last() =~= s.drop_last());
    } else {
        assert(s.update(i, x).drop_last() =~= s.drop_last().update(i, x));
        lemma_ready_count_update(s.drop_last(), i, x);
    }
}

proof fn lemma_ready_count_full(s: Seq<Subscription>)
    ensures
        ready_count(s) <= s.len(),
        ready_count(s) == s.len() <==> forall|i: int|
            0 <= i < s.len() ==> (#[trigger] s[i]).phase == Phase::Ready,
    decreases s.len(),
{
    if s.len() > 0 {
        let d = s.drop_last();
        lemma_ready_count_full(d);
        if forall|i: int| 0 <= i < s.len() ==> (#[trigger] s[i]).phase == Phase::Ready {
            assert forall|i: int| 0 <= i < d.len() implies (#[trigger] d[i]).phase
                == Phase::Ready by {
                assert(d[i] == s[i]);
            }
            assert(s.last() == s[s.len() - 1]);
        }
        if ready_count(s) == s.len() {
            assert forall|i: int| 0 <= i < s.len() implies (#[trigger] s[i]).phase
                == Phase::Ready by {
                if i < d.len() {
                    assert(d[i] == s[i]);
                }
            }
        }
    }
}

proof fn lemma_ready_count_positive(s: Seq<Subscription>)
    requires
        ready_count(s) > 0,
    ensures
        exists|i: int| 0 <= i < s.len() && (#[trigger] s[i]).phase == Phase::Ready,
    decreases s.len(),
{
    let d = s.drop_last();
    if ready_count(d) > 0 {
        lemma_ready_count_positive(d);
        let i = choose|i: int| 0 <= i < d.len() && (#[trigger] d[i]).phase == Phase::Ready;
        assert(s[i] == d[i]);
    } else {
        assert(s[s.len() - 1] == s.last());
    }
}

impl Coordinator {
    /// The coordinator's invariant: the ready signals counted are those of the
    /// subscriptions in the ready phase; exactly those have handed over a
    /// teardown, and the order of handing over lists each of them once; the
    /// first error names a failed subscription, and there is one exactly when
    /// some subscription failed.
    pub open spec fn wf(&self) -> bool {
        let s = self.subscriptions@;
        let r = self.registered@;
        &&& self.ready_signals == ready_count(s)
        &&& forall|k: int|
            0 <= k < r.len() ==> (#[trigger] r[k]) < s.len() && s[r[k] as int].teardown
                != Teardown::Pending
        &&& forall|k1: int, k2: int|
            0 <= k1 < k2 < r.len() ==> #[trigger] r[k1] != #[trigger] r[k2]
        &&& forall|i: int|
            0 <= i < s.len() && (#[trigger] s[i]).teardown != Teardown::Pending ==> r.contains(
                i as usize,
            )
        &&& forall|i: int|
            0 <= i < s.len() ==> ((#[trigger] s[i]).phase == Phase::Ready <==> s[i].teardown
                != Teardown::Pending)
        &&& match self.first_error {
            Some((k, _)) => k < s.len() && s[k as int].phase == Phase::Failed,
            None => forall|i: int| 0 <= i < s.len() ==> (#[trigger] s[i]).phase != Phase::Failed,
        }
    }

    /// Every stream is live.
    pub open spec fn all_ready(&self) -> bool {
        forall|i: int|
            0 <= i < self.subscriptions@.len() ==> (#[trigger] self.subscriptions@[i]).phase
                == Phase::Ready
    }

    /// Nothing is left to do at shutdown: no task runs and no handed-over
    /// teardown is left unrun.
    pub open spec fn quiescent(&self) -> bool {
        forall|i: int|
            0 <= i < self.subscriptions@.len() ==> !(#[trigger] self.subscriptions@[i]).running
                && self.subscriptions@[i].teardown != Teardown::Registered
    }

    /// Launches the bookkeeping for one task per name, all of them opening.
    pub fn start(names: &Vec<String>) -> (r: Self)
        ensures
            r.wf(),
            r.subscriptions@.len() == names@.len(),
            r.ready_signals == 0,
            r.first_error is None,
            r.registered@ == Seq::<usize>::empty(),
            forall|i: int|
                0 <= i < names@.len() ==> (#[trigger] r.subscriptions@[i]) == (Subscription {
                    name: names@[i],
                    phase: Phase::Opening,
                    teardown: Teardown::Pending,
                    running: true,
                }),
    {
        let mut subscriptions: Vec<Subscription> = Vec::new();
        let mut i: usize = 0;
        while i < names.len()
            invariant
                i <= names@.len(),
                subscriptions@.len() == i,
                forall|j: int|
                    0 <= j < i ==> (#[trigger] subscriptions@[j]) == (Subscription {
                        name: names@[j],
                        phase: Phase::Opening,
                        teardown: Teardown::Pending,
                        running: true,
                    }),
            decreases names@.len() - i,
        {
            subscriptions.push(
                Subscription {
                    name: names[i].clone(),
                    phase: Phase::Opening,
                    teardown: Teardown::Pending,
                    running: true,
                },
            );
            i += 1;
        }
        let r = Coordinator {
            subscriptions,
            ready_signals: 0,
            first_error: None,
            registered: Vec::new(),
        };
        proof {
            let s = r.subscriptions@;
            if ready_count(s) > 0 {
                lemma_ready_count_positive(s);
            }
        }
        r
    }

    /// What the caller is told about readiness: the first failure if any,
    /// else whether every stream is live.
    pub open spec fn status_of(&self) -> ReadyStatus {
        match self.first_error {
            Some((k, e)) => ReadyStatus::Failed(k, e),
            None => if self.ready_signals == self.subscriptions@.len() {
                ReadyStatus::AllReady
            } else {
                ReadyStatus::Waiting
            },
        }
    }

    /// `step` is the shutdown step due: the earliest handed-over teardown not
    /// yet run, in the order of handing over; else, while some running task
    /// is still opening, a wait for its report, or, once a stream has failed
    /// to open, the cancelling of the first such task; else the first task
    /// still running; else nothing.
    pub open spec fn step_fits(&self, step: ShutdownStep) -> bool {
        let s = self.subscriptions@;
        let r = self.registered@;
        let none_registered = forall|j: int|
            0 <= j < s.len() ==> (#[trigger] s[j]).teardown != Teardown::Registered;
        let none_opening = forall|j: int|
            0 <= j < s.len() ==> !((#[trigger] s[j]).running && s[j].phase == Phase::Opening);
        let none_running = forall|j: int| 0 <= j < s.len() ==> !(#[trigger] s[j]).running;
        match step {
            ShutdownStep::Unsubscribe(i) => {
                &&& i < s.len()
                &&& s[i as int].teardown == Teardown::Registered
                &&& exists|k: int|
                    0 <= k < r.len() && #[trigger] r[k] == i && forall|k2: int|
                        0 <= k2 < k ==> s[(#[trigger] r[k2]) as int].teardown
                            != Teardown::Registered
            },
            ShutdownStep::AwaitSignal => none_registered && self.first_error is None
                && !none_opening,
            ShutdownStep::Cancel(i) => {
                &&& none_registered
                &&& self.first_error is Some
                &&& i < s.len()
                &&& s[i as int].running
                &&& s[i as int].phase == Phase::Opening
                &&& forall|j: int|
                    0 <= j < i ==> !((#[trigger] s[j]).running && s[j].phase == Phase::Opening)
            },
            ShutdownStep::Join(i) => {
                &&& none_registered
                &&& none_opening
                &&& i < s.len()
                &&& s[i as int].running
                &&& forall|j: int| 0 <= j < i ==> !(#[trigger] s[j]).running
            },
            ShutdownStep::Done => none_registered && none_opening && none_running,
        }
    }

    /// Records that subscription `i` opened its stream and handed over its
    /// teardown. Only the first report of an opening subscription counts.
    pub fn on_opened(&mut self, i: usize)
        requires
            old(self).wf(),
        ensures
            final(self).wf(),
            if i < old(self).subscriptions@.len() && old(self).subscriptions@[i as int].phase
                == Phase::Opening {
                &&& final(self).subscriptions@ == old(self).subscriptions@.update(
                    i as int,
                    Subscription {
                        phase: Phase::Ready,
                        teardown: Teardown::Registered,
                        ..old(self).subscriptions@[i as int]
                    },
                )
                &&& final(self).ready_signals == old(self).ready_signals + 1
                &&& final(self).first_error == old(self).first_error
                &&& final(self).registered@ == old(self).registered@.push(i)
            } else {
                *final(self) == *old(self)
            },
    {
        if i < self.subscriptions.len() && self.subscriptions[i].phase == Phase::Opening {
            let sub = Subscription {
                name: self.subscriptions[i].name.clone(),
                phase: Phase::Ready,
                teardown: Teardown::Registered,
                running: self.subscriptions[i].running,
            };
            proof {
                lemma_ready_count_update(self.subscriptions@, i as int, sub);
                lemma_ready_count_full(self.subscriptions@.update(i as int, sub));
            }
            proof {
                let r = self.registered@;
                assert forall|k: int| 0 <= k < r.len() implies r[k] != i by {}
            }
            self.subscriptions.set(i, sub);
            self.ready_signals = self.ready_signals + 1;
            self.registered.push(i);
            proof {
                let s = self.subscriptions@;
                let r = self.registered@;
                assert forall|j: int|
                    0 <= j < s.len() && (#[trigger] s[j]).teardown != Teardown::Pending implies r.contains(
                    j as usize,
                ) by {
                    if j == i {
                        assert(r[r.len() - 1] == i);
                    } else {
                        assert(old(self).registered@.contains(j as usize));
                        let k = choose|k: int|
                            0 <= k < old(self).registered@.len() && old(self).registered@[k]
                                == j as usize;
                        assert(r[k] == j as usize);
                    }
                }
            }
        }
    }

    /// Records that subscription `i` failed to open its stream. The first
    /// failure heard is the one reported to the caller.
    pub fn on_open_failed(&mut self, i: usize, error: String)
        requires
            old(self).wf(),
        ensures
            final(self).wf(),
            if i < old(self).subscriptions@.len() && old(self).subscriptions@[i as int].phase
                == Phase::Opening {
                &&& final(self).subscriptions@ == old(self).subscriptions@.update(
                    i as int,
                    Subscription { phase: Phase::Failed, ..old(self).subscriptions@[i as int] },
                )
                &&& final(self).ready_signals == old(self).ready_signals
                &&& final(self).first_error == match old(self).first_error {
                    Some(e) => Some(e),
                    None => Some((i, error)),
                }
                &&& final(self).registered == old(self).registered
            } else {
                *final(self) == *old(self)
            },
    {
        if i < self.subscriptions.len() && self.subscriptions[i].phase == Phase::Opening {
            self.mark_failed(i, error);
        }
    }

    fn mark_failed(&mut self, i: usize, error: String)
        requires
            old(self).wf(),
            i < old(self).subscriptions@.len(),
            old(self).subscriptions@[i as int].phase == Phase::Opening,
        ensures
            final(self).wf(),
            final(self).subscriptions@ == old(self).subscriptions@.update(
                i as int,
                Subscription { phase: Phase::Failed, ..old(self).subscriptions@[i as int] },
            ),
            final(self).ready_signals == old(self).ready_signals,
            final(self).first_error == match old(self).first_error {
                Some(e) => Some(e),
                None => Some((i, error)),
            },
            final(self).registered == old(self).registered,
    {
        let sub = Subscription {
            name: self.subscriptions[i].name.clone(),
            phase: Phase::Failed,
            teardown: self.subscriptions[i].teardown,
            running: self.subscriptions[i].running,
        };
        proof {
            lemma_ready_count_update(self.subscriptions@, i as int, sub);
        }
        self.subscriptions.set(i, sub);
        if self.first_error.is_none() {
            self.first_error = Some((i, error));
        }
    }

    /// Records that the teardown of subscription `i` ran to completion.
    pub fn on_teardown_done(&mut self, i: usize)
        requires
            old(self).wf(),
        ensures
            final(self).wf(),
            if i < old(self).subscriptions@.len() && old(self).subscriptions@[i as int].teardown
                == Teardown::Registered {
                &&& final(self).subscriptions@ == old(self).subscriptions@.update(
                    i as int,
                    Subscription { teardown: Teardown::Invoked, ..old(self).subscriptions@[i as int] },
                )
                &&& final(self).ready_signals == old(self).ready_signals
                &&& final(self).first_error == old(self).first_error
                &&& final(self).registered == old(self).registered
            } else {
                *final(self) == *old(self)
            },
    {
        if i < self.subscriptions.len() && self.subscriptions[i].teardown == Teardown::Registered {
            let sub = Subscription {
                name: self.subscriptions[i].name.clone(),
                phase: self.subscriptions[i].phase,
                teardown: Teardown::Invoked,
                running: self.subscriptions[i].running,
            };
            proof {
                lemma_ready_count_update(self.subscriptions@, i as int, sub);
            }
            self.subscriptions.set(i, sub);
        }
    }

    /// Records that the task of subscription `i` exited. A task that exits
    /// before its stream opened has failed to open it.
    pub fn on_task_exited(&mut self, i: usize)
        requires
            old(self).wf(),
        ensures
            final(self).wf(),
            i < old(self).subscriptions@.len() ==> {
                &&& final(self).subscriptions@.len() == old(self).subscriptions@.len()
                &&& final(self).subscriptions@[i as int] == (Subscription {
                    running: false,
                    phase: if old(self).subscriptions@[i as int].phase == Phase::Opening {
                        Phase::Failed
                    } else {
                        old(self).subscriptions@[i as int].phase
                    },
                    ..old(self).subscriptions@[i as int]
                })
                &&& forall|j: int|
                    0 <= j < old(self).subscriptions@.len() && j != i ==> (
                    #[trigger] final(self).subscriptions@[j]) == old(self).subscriptions@[j]
                &&& final(self).ready_signals == old(self).ready_signals
                &&& final(self).registered == old(self).registered
                &&& match old(self).first_error {
                    Some(e) => final(self).first_error == Some(e),
                    None => if old(self).subscriptions@[i as int].phase == Phase::Opening {
                        &&& final(self).first_error is Some
                        &&& final(self).first_error.unwrap().0 == i
                        &&& final(self).first_error.unwrap().1@ == EXITED_BEFORE_OPENING@
                    } else {
                        final(self).first_error is None
                    },
                }
            },
            i >= old(self).subscriptions@.len() ==> *final(self) == *old(self),
    {
        if i < self.subscriptions.len() {
            if self.subscriptions[i].phase == Phase::Opening {
                self.mark_failed(i, EXITED_BEFORE_OPENING.to_owned());
            }
            let sub = Subscription {
                name: self.subscriptions[i].name.clone(),
                phase: self.subscriptions[i].phase,
                teardown: self.subscriptions[i].teardown,
                running: false,
            };
            proof {
                lemma_ready_count_update(self.subscriptions@, i as int, sub);
            }
            self.subscriptions.set(i, sub);
        }
    }

    /// Whether the caller may go on: the first failure, or all streams live,
    /// or not yet.
    pub fn ready_status(&self) -> (r: ReadyStatus)
        ensures
            r == self.status_of(),
    {
        match &self.first_error {
            Some((k, e)) => ReadyStatus::Failed(*k, e.clone()),
            None => if self.ready_signals == self.subscriptions.len() {
                ReadyStatus::AllReady
            } else {
                ReadyStatus::Waiting
            },
        }
    }

    /// The next step of an orderly shutdown.
    pub fn next_shutdown_step(&self) -> (r: ShutdownStep)
        requires
            self.wf(),
        ensures
            self.step_fits(r),
    {
        let s = &self.subscriptions;
        let order = &self.registered;
        let mut k: usize = 0;
        while k < order.len()
            invariant
                k <= order@.len(),
                s@ == self.subscriptions@,
                order@ == self.registered@,
                self.wf(),
                forall|k2: int|
                    0 <= k2 < k ==> s@[(#[trigger] order@[k2]) as int].teardown
                        != Teardown::Registered,
            decreases order@.len() - k,
        {
            let i = order[k];
            if s[i].teardown == Teardown::Registered {
                assert(order@[k as int] == i);
                assert(self.step_fits(ShutdownStep::Unsubscribe(i)));
                return ShutdownStep::Unsubscribe(i);
            }
            k += 1;
        }
        let n: usize = s.len();
        proof {
            assert forall|j: int| 0 <= j < s@.len() implies (#[trigger] s@[j]).teardown
                != Teardown::Registered by {
                assert(j < n);
                if s@[j].teardown == Teardown::Registered {
                    assert(self.subscriptions@[j].teardown != Teardown::Pending);
                    assert(self.registered@.contains(j as usize));
                    let k2 = choose|k2: int|
                        0 <= k2 < order@.len() && order@[k2] == j as usize;
                    assert(k2 < k);
                    assert(s@[(order@[k2]) as int].teardown != Teardown::Registered);
                    assert((order@[k2]) as int == j);
                }
            }
        }
        let mut i: usize = 0;
        while i < s.len()
            invariant
                i <= s@.len(),
                s@ == self.subscriptions@,
                forall|j: int| 0 <= j < s@.len() ==> (#[trigger] s@[j]).teardown != Teardown::Registered,
                forall|j: int|
                    0 <= j < i ==> !((#[trigger] s@[j]).running && s@[j].phase == Phase::Opening),
            decreases s@.len() - i,
        {
            if s[i].running && s[i].phase == Phase::Opening {
                assert(s@[i as int].running && s@[i as int].phase == Phase::Opening);
                match &self.first_error {
                    Some(_) => {
                        assert(self.step_fits(ShutdownStep::Cancel(i)));
                        return ShutdownStep::Cancel(i);
                    },
                    None => {
                        assert(self.step_fits(ShutdownStep::AwaitSignal));
                        return ShutdownStep::AwaitSignal;
                    },
                }
            }
            i += 1;
        }
        let mut i: usize = 0;
        while i < s.len()
            invariant
                i <= s@.len(),
                s@ == self.subscriptions@,
                forall|j: int| 0 <= j < s@.len() ==> (#[trigger] s@[j]).teardown != Teardown::Registered,
                forall|j: int|
                    0 <= j < s@.len() ==> !((#[trigger] s@[j]).running && s@[j].phase == Phase::Opening),
                forall|j: int| 0 <= j < i ==> !(#[trigger] s@[j]).running,
            decreases s@.len() - i,
        {
            if s[i].running {
                assert(self.step_fits(ShutdownStep::Join(i)));
                return ShutdownStep::Join(i);
            }
            i += 1;
        }
        ShutdownStep::Done
    }
}

/// The caller is let go only once every subscription has signalled ready,
/// one signal each, so that the signals counted equal the subscriptions
/// requested; a failure to open any stream is reported at once instead,
/// without waiting for the others.
pub proof fn ready_only_after_every_signal(c: Coordinator)
    requires
        c.wf(),
    ensures
        c.ready_signals <= c.subscriptions@.len(),
        c.ready_signals == c.subscriptions@.len() <==> c.all_ready(),
        c.status_of() is AllReady <==> (c.first_error is None && c.all_ready()),
        c.first_error is Some ==> c.status_of() is Failed,
{
    lemma_ready_count_full(c.subscriptions@);
}

/// When shutdown has nothing left to do, no task is running and every
/// teardown that was handed over has run, whether or not any event was ever
/// received.
pub proof fn shutdown_leaves_nothing_running(c: Coordinator)
    requires
        c.wf(),
        c.step_fits(ShutdownStep::Done),
    ensures
        c.quiescent(),
        forall|i: int|
            0 <= i < c.subscriptions@.len() && (#[trigger] c.subscriptions@[i]).phase
                == Phase::Ready ==> c.subscriptions@[i].teardown == Teardown::Invoked,
{
}

/// Teardowns run in the order they were handed over: when one is due, every
/// teardown handed over before it has run already.
pub proof fn teardowns_run_in_handover_order(c: Coordinator, i: usize)
    requires
        c.wf(),
        c.step_fits(ShutdownStep::Unsubscribe(i)),
    ensures
        exists|k: int|
            0 <= k < c.registered@.len() && #[trigger] c.registered@[k] == i && forall|k2: int|
                0 <= k2 < k ==> c.subscriptions@[(#[trigger] c.registered@[k2]) as int].teardown
                    == Teardown::Invoked,
{
    let k = choose|k: int|
        0 <= k < c.registered@.len() && #[trigger] c.registered@[k] == i && forall|k2: int|
            0 <= k2 < k ==> c.subscriptions@[(#[trigger] c.registered@[k2]) as int].teardown
                != Teardown::Registered;
    assert forall|k2: int| 0 <= k2 < k implies c.subscriptions@[(
    #[trigger] c.registered@[k2]) as int].teardown == Teardown::Invoked by {}
}

/// A teardown that has run is never due again, so each runs at most once.
pub proof fn teardown_runs_once(c: Coordinator, i: usize)
    requires
        c.wf(),
        i < c.subscriptions@.len(),
        c.subscriptions@[i as int].teardown == Teardown::Invoked,
    ensures
        !c.step_fits(ShutdownStep::Unsubscribe(i)),
{
}

} // verus!
