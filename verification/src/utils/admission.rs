//! Admission control: a pool of permits with a queue of waiters.
//!
//! A request takes a ticket and waits in the queue. Permits are granted to the
//! tickets in the order of their arrival, as long as fewer than
//! `max_concurrent` are held. The controller only decides: the caller parks
//! the request until its ticket is granted, and releases the permit when the
//! work is done, on every path.

use vstd::prelude::*;

verus! {

/// The number of permits of the default pool.
pub const DEFAULT_MAX_CONCURRENT: usize = 5;

/// The controller as plain values.
pub struct AdmissionView {
    /// The size of the permit pool.
    pub max_concurrent: nat,
    /// The permits that are held.
    pub processing: nat,
    /// The tickets that wait, the oldest first.
    pub waiting: Seq<u64>,
    /// The tickets handed out so far; also the number of the next ticket.
    pub issued: nat,
    /// The requests that have left: permits released and tickets withdrawn.
    pub finished: nat,
}

/// What can happen to a controller.
pub enum AdmissionEvent {
    /// A request arrives and takes a ticket.
    Enqueue,
    /// The oldest waiter is granted a permit, if one is free.
    Grant,
    /// A permit is released.
    Release,
    /// A waiter gives up its ticket.
    Withdraw(u64),
}

impl AdmissionView {
    /// A controller with `max_concurrent` permits and no request.
    pub open spec fn initial(max_concurrent: nat) -> AdmissionView {
        AdmissionView { max_concurrent, processing: 0, waiting: seq![], issued: 0, finished: 0 }
    }

    /// The permits that are free.
    pub open spec fn available(self) -> nat {
        (self.max_concurrent - self.processing) as nat
    }

    /// The requests that have arrived and not left yet.
    pub open spec fn in_flight(self) -> nat {
        (self.issued - self.finished) as nat
    }

    /// Whether a ticket can be handed out: the numbers have not run out.
    pub open spec fn can_enqueue(self) -> bool {
        self.issued < u64::MAX
    }

    /// Whether the oldest waiter can be granted a permit.
    pub open spec fn can_grant(self) -> bool {
        self.processing < self.max_concurrent && self.waiting.len() > 0
    }

    /// What holds of every controller: no more permits are held than the pool
    /// has; every request in flight either waits or holds a permit; and the
    /// waiters stand in the order of their tickets.
    pub open spec fn valid(self) -> bool {
        &&& self.processing <= self.max_concurrent
        &&& self.issued <= u64::MAX
        &&& self.waiting.len() + self.processing + self.finished == self.issued
        &&& forall|i: int| 0 <= i < self.waiting.len() ==> self.waiting[i] < self.issued
        &&& forall|i: int, j: int|
            0 <= i < j < self.waiting.len() ==> self.waiting[i] < self.waiting[j]
    }

    /// The controller after an event. An event that cannot take place changes
    /// nothing.
    pub open spec fn apply(self, event: AdmissionEvent) -> AdmissionView {
        match event {
            AdmissionEvent::Enqueue => if self.can_enqueue() {
                AdmissionView {
                    waiting: self.waiting.push(self.issued as u64),
                    issued: self.issued + 1,
                    ..self
                }
            } else {
                self
            },
            AdmissionEvent::Grant => if self.can_grant() {
                AdmissionView {
                    waiting: self.waiting.drop_first(),
                    processing: self.processing + 1,
                    ..self
                }
            } else {
                self
            },
            AdmissionEvent::Release => if self.processing > 0 {
                AdmissionView {
                    processing: (self.processing - 1) as nat,
                    finished: self.finished + 1,
                    ..self
                }
            } else {
                self
            },
            AdmissionEvent::Withdraw(ticket) => if self.waiting.contains(ticket) {
                AdmissionView {
                    waiting: self.waiting.remove(self.waiting.index_of(ticket)),
                    finished: self.finished + 1,
                    ..self
                }
            } else {
                self
            },
        }
    }

    /// The controller after a run of events.
    pub open spec fn replay(self, events: Seq<AdmissionEvent>) -> AdmissionView
        decreases events.len(),
    {
        if events.len() == 0 {
            self
        } else {
            self.replay(events.drop_last()).apply(events.last())
        }
    }
}

/// No event breaks what holds of a controller.
pub proof fn lemma_apply_keeps_valid(view: AdmissionView, event: AdmissionEvent)
    requires
        view.valid(),
    ensures
        view.apply(event).valid(),
{
    let after = view.apply(event);
    match event {
        AdmissionEvent::Withdraw(ticket) => {
            if view.waiting.contains(ticket) {
                let at = view.waiting.index_of(ticket);
                assert forall|i: int| 0 <= i < after.waiting.len() implies after.waiting[i]
                    < after.issued by {
                    if i < at {
                        assert(after.waiting[i] == view.waiting[i]);
                    } else {
                        assert(after.waiting[i] == view.waiting[i + 1]);
                    }
                }
                assert forall|i: int, j: int|
                    0 <= i < j < after.waiting.len() implies after.waiting[i]
                    < after.waiting[j] by {
                    let oi = if i < at {
                        i
                    } else {
                        i + 1
                    };
                    let oj = if j < at {
                        j
                    } else {
                        j + 1
                    };
                    assert(after.waiting[i] == view.waiting[oi]);
                    assert(after.waiting[j] == view.waiting[oj]);
                }
            }
        },
        _ => {},
    }
}

/// Whatever happens, in whatever order: at most `max_concurrent` permits are
/// held at any time, and the requests that wait or hold a permit are exactly
/// the requests in flight, so that their number never exceeds it.
pub proof fn lemma_permits_bounded(max_concurrent: nat, events: Seq<AdmissionEvent>)
    ensures
        AdmissionView::initial(max_concurrent).replay(events).valid(),
        AdmissionView::initial(max_concurrent).replay(events).max_concurrent == max_concurrent,
        AdmissionView::initial(max_concurrent).replay(events).processing <= max_concurrent,
        AdmissionView::initial(max_concurrent).replay(events).waiting.len()
            + AdmissionView::initial(max_concurrent).replay(events).processing
            <= AdmissionView::initial(max_concurrent).replay(events).in_flight(),
    decreases events.len(),
{
    if events.len() > 0 {
        lemma_permits_bounded(max_concurrent, events.drop_last());
        lemma_apply_keeps_valid(
            AdmissionView::initial(max_concurrent).replay(events.drop_last()),
            events.last(),
        );
    }
}

/// A permit cannot be given back twice: a release that finds no permit held
/// changes nothing.
pub proof fn lemma_release_without_permit(view: AdmissionView)
    requires
        view.processing == 0,
    ensures
        view.apply(AdmissionEvent::Release) == view,
{
}

/// Permits are granted in the order of arrival: of two waiters the one with
/// the older ticket stands first, and the ticket that is granted a permit is older
/// than every ticket that stays behind.
pub proof fn lemma_first_come_first_served(view: AdmissionView)
    requires
        view.valid(),
        view.can_grant(),
    ensures
        forall|i: int|
            0 <= i < view.apply(AdmissionEvent::Grant).waiting.len() ==> view.waiting[0]
                < view.apply(AdmissionEvent::Grant).waiting[i],
{
    let after = view.apply(AdmissionEvent::Grant);
    assert forall|i: int| 0 <= i < after.waiting.len() implies view.waiting[0]
        < after.waiting[i] by {
        assert(after.waiting[i] == view.waiting[i + 1]);
    }
}

/// A point-in-time summary of a controller.
#[derive(Debug, Clone, Copy, PartialEq, Eq, Structural)]
pub struct AdmissionStatus {
    pub max: usize,
    pub waiting: usize,
    pub processing: usize,
    pub available: usize,
}

#[derive(Debug)]
struct Pool {
    max_concurrent: usize,
    processing: usize,
    queue: Vec<u64>,
    issued: u64,
    finished: u64,
}

impl Pool {
    spec fn view(&self) -> AdmissionView {
        AdmissionView {
            max_concurrent: self.max_concurrent as nat,
            processing: self.processing as nat,
            waiting: self.queue@,
            issued: self.issued as nat,
            finished: self.finished as nat,
        }
    }

    fn new(max_concurrent: usize) -> (pool: Self)
        ensures
            pool@ == AdmissionView::initial(max_concurrent as nat),
    {
        let pool = Pool { max_concurrent, processing: 0, queue: Vec::new(), issued: 0, finished: 0 };
        assert(pool@.waiting =~= seq![]);
        pool
    }
}

fn find_ticket(queue: &Vec<u64>, ticket: u64) -> (at: Option<usize>)
    ensures
        match at {
            Some(i) => i < queue.len() && queue@[i as int] == ticket,
            None => !queue@.contains(ticket),
        },
{
    let mut i: usize = 0;
    while i < queue.len()
        invariant
            i <= queue.len(),
            forall|k: int| 0 <= k < i ==> queue@[k] != ticket,
        decreases queue.len() - i,
    {
        if queue[i] == ticket {
            return Some(i);
        }
        i += 1;
    }
    None
}

/// The admission controller.
#[derive(Debug)]
pub struct AdmissionController {
    pool: Pool,
}

impl AdmissionController {
    #[verifier::type_invariant]
    spec fn well_formed(self) -> bool {
        self.pool@.valid()
    }

    /// The controller as plain values.
    pub closed spec fn view(&self) -> AdmissionView {
        self.pool@
    }

    /// A controller with `max_concurrent` permits and no request.
    pub fn new(max_concurrent: usize) -> (controller: Self)
        ensures
            controller@ == AdmissionView::initial(max_concurrent as nat),
    {
        AdmissionController { pool: Pool::new(max_concurrent) }
    }

    fn take_pool(&mut self) -> (pool: Pool)
        ensures
            pool == old(self).pool,
            pool@.valid(),
    {
        proof {
            use_type_invariant(&*self);
        }
        let mut pool = Pool::new(0);
        core::mem::swap(&mut self.pool, &mut pool);
        pool
    }

    /// Takes a ticket for a request that arrives and puts it at the end of the
    /// queue. `None`, and nothing changes, once the ticket numbers have run
    /// out.
    pub fn enqueue(&mut self) -> (ticket: Option<u64>)
        ensures
            final(self)@ == old(self)@.apply(AdmissionEvent::Enqueue),
            final(self)@.valid(),
            match ticket {
                Some(t) => old(self)@.can_enqueue() && t == old(self)@.issued,
                None => !old(self)@.can_enqueue(),
            },
    {
        let mut pool = self.take_pool();
        let ticket = if pool.issued == u64::MAX {
            None
        } else {
            let ticket = pool.issued;
            pool.queue.push(ticket);
            pool.issued = pool.issued + 1;
            Some(ticket)
        };
        proof {
            lemma_apply_keeps_valid(old(self)@, AdmissionEvent::Enqueue);
        }
        self.pool = pool;
        ticket
    }

    /// Grants a permit to the oldest waiter and gives its ticket. `None`, and
    /// nothing changes, where no permit is free or nobody waits.
    pub fn grant(&mut self) -> (ticket: Option<u64>)
        ensures
            final(self)@ == old(self)@.apply(AdmissionEvent::Grant),
            final(self)@.valid(),
            match ticket {
                Some(t) => old(self)@.can_grant() && t == old(self)@.waiting[0],
                None => !old(self)@.can_grant(),
            },
    {
        let mut pool = self.take_pool();
        let ticket = if pool.processing < pool.max_concurrent && pool.queue.len() > 0 {
            let ticket = pool.queue.remove(0);
            pool.processing = pool.processing + 1;
            assert(pool.queue@ =~= old(self)@.waiting.drop_first());
            Some(ticket)
        } else {
            None
        };
        proof {
            lemma_apply_keeps_valid(old(self)@, AdmissionEvent::Grant);
        }
        self.pool = pool;
        ticket
    }

    /// Releases a permit. `false`, and nothing changes, where none is held: a
    /// permit cannot be released twice.
    pub fn release(&mut self) -> (released: bool)
        ensures
            final(self)@ == old(self)@.apply(AdmissionEvent::Release),
            final(self)@.valid(),
            released == (old(self)@.processing > 0),
    {
        let mut pool = self.take_pool();
        let released = if pool.processing > 0 {
            pool.processing = pool.processing - 1;
            pool.finished = pool.finished + 1;
            true
        } else {
            false
        };
        proof {
            lemma_apply_keeps_valid(old(self)@, AdmissionEvent::Release);
        }
        self.pool = pool;
        released
    }

    /// Takes a waiter that gives up out of the queue. `false`, and nothing
    /// changes, where the ticket does not wait.
    pub fn withdraw(&mut self, ticket: u64) -> (withdrawn: bool)
        ensures
            final(self)@ == old(self)@.apply(AdmissionEvent::Withdraw(ticket)),
            final(self)@.valid(),
            withdrawn == old(self)@.waiting.contains(ticket),
    {
        let mut pool = self.take_pool();
        let ghost waiting = pool.queue@;
        let withdrawn = match find_ticket(&pool.queue, ticket) {
            Some(at) => {
                proof {
                    let chosen = waiting.index_of(ticket);
                    assert(waiting.contains(ticket));
                    assert(waiting[chosen] == ticket);
                    assert(chosen == at);
                }
                let _ = pool.queue.remove(at);
                pool.finished = pool.finished + 1;
                true
            },
            None => false,
        };
        proof {
            lemma_apply_keeps_valid(old(self)@, AdmissionEvent::Withdraw(ticket));
        }
        self.pool = pool;
        withdrawn
    }

    /// A summary of the controller at this moment.
    pub fn status(&self) -> (status: AdmissionStatus)
        ensures
            status.max == self@.max_concurrent,
            status.waiting == self@.waiting.len(),
            status.processing == self@.processing,
            status.available == self@.available(),
            status.processing <= status.max,
            status.processing + status.available == status.max,
            self@.valid(),
    {
        proof {
            use_type_invariant(self);
        }
        AdmissionStatus {
            max: self.pool.max_concurrent,
            waiting: self.pool.queue.len(),
            processing: self.pool.processing,
            available: self.pool.max_concurrent - self.pool.processing,
        }
    }
}

} // verus!
