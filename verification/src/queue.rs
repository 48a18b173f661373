//! Concurrency gate: the session slots and the FIFO queue in front of them.
//!
//! The `Gate` is a state machine. Waiting itself happens outside: a request that
//! is queued waits until the `Gate` hands it a slot, and tells the `Gate` when it
//! gives up.

use std::collections::VecDeque;
use tokio::sync::Semaphore;
use vstd::prelude::*;

use crate::errors::GatewayError;
use crate::errors::GatewayErrorView;

verus! {

// ---------------------------------------------------------------------------
// Slots
// ---------------------------------------------------------------------------

/// The counting semaphore of `tokio`, whose permits are the session slots.
#[verifier::external_type_specification]
#[verifier::external_body]
pub struct ExSemaphore(tokio::sync::Semaphore);

/// The permits that a semaphore holds; `None` once it is closed. A `Gate` owns
/// its semaphore, so they change through a mutable borrow only.
pub uninterp spec fn permits(semaphore: Semaphore) -> Option<nat>;

/// The most permits that a semaphore can hold.
pub open spec fn max_permits() -> nat {
    (usize::MAX / 8) as nat
}

/// `Semaphore::new`: an open semaphore that holds `n` permits. It panics above
/// `Semaphore::MAX_PERMITS`, an eighth of the range of `usize`.
#[verifier::external_body]
fn new_semaphore(n: usize) -> (r: Semaphore)
    requires
        n <= max_permits(),
    ensures
        permits(r) == Some(n as nat),
{
    Semaphore::new(n)
}

/// `Semaphore::available_permits`: the permits that the semaphore holds.
#[verifier::external_body]
fn available_permits(semaphore: &Semaphore) -> (r: usize)
    requires
        permits(*semaphore) is Some,
    ensures
        permits(*semaphore) == Some(r as nat),
{
    semaphore.available_permits()
}

/// `Semaphore::try_acquire`: takes a permit where there is one. The permit is
/// forgotten, so that it comes back by `add_permits` only.
#[verifier::external_body]
fn take_permit(semaphore: &mut Semaphore) -> (r: bool)
    requires
        permits(*old(semaphore)) is Some,
    ensures
        r <==> permits(*old(semaphore))->0 > 0,
        permits(*final(semaphore)) == Some(
            (permits(*old(semaphore))->0 - if r {
                1int
            } else {
                0int
            }) as nat,
        ),
{
    match semaphore.try_acquire() {
        Ok(permit) => {
            permit.forget();
            true
        },
        Err(_) => false,
    }
}

/// `Semaphore::add_permits`: puts one permit back. It panics above
/// `Semaphore::MAX_PERMITS`.
#[verifier::external_body]
fn put_permit(semaphore: &mut Semaphore)
    requires
        permits(*old(semaphore)) is Some,
        permits(*old(semaphore))->0 < max_permits(),
    ensures
        permits(*final(semaphore)) == Some((permits(*old(semaphore))->0 + 1) as nat),
{
    semaphore.add_permits(1);
}

// ---------------------------------------------------------------------------
// States and transitions
// ---------------------------------------------------------------------------

/// The state of a `Gate`: slots that are free, and the sessions in the queue in
/// the order of their arrival. The first `handed` of these have been handed a
/// slot and have not taken it up yet: they keep their place in the queue until
/// they do. The others wait.
pub struct GateView {
    pub max_sessions: nat,
    pub max_queue: nat,
    pub free: nat,
    pub queue: Seq<u128>,
    pub handed: nat,
}

impl GateView {
    /// No more slots are free or handed than there are, the queue keeps its
    /// limit, a session waits only while no slot is free, and no session is
    /// queued twice.
    pub open spec fn wf(self) -> bool {
        &&& self.free + self.handed <= self.max_sessions <= max_permits()
        &&& self.handed <= self.queue.len() <= self.max_queue
        &&& self.handed < self.queue.len() ==> self.free == 0
        &&& self.queue.no_duplicates()
    }

    /// Slots that are taken, those that are handed included.
    pub open spec fn active(self) -> nat {
        (self.max_sessions - self.free) as nat
    }

    /// Slots that sessions hold.
    pub open spec fn held(self) -> int {
        self.max_sessions - self.free - self.handed
    }

    /// The sessions that wait, in the order in which they will be served.
    pub open spec fn waiting(self) -> Seq<u128> {
        self.queue.skip(self.handed as int)
    }

    /// The session has been handed a slot and has not taken it up yet.
    pub open spec fn is_handed(self, id: u128) -> bool {
        self.queue.take(self.handed as int).contains(id)
    }

    /// A new request would be admitted: a slot or a queue place is free.
    pub open spec fn has_capacity(self) -> bool {
        self.free > 0 || self.queue.len() < self.max_queue
    }

    /// The session `id` arrives.
    pub open spec fn arrive(self, id: u128) -> (GateView, Admission) {
        if self.free > 0 {
            (GateView { free: (self.free - 1) as nat, ..self }, Admission::Granted)
        } else if self.queue.len() < self.max_queue {
            (GateView { queue: self.queue.push(id), ..self }, Admission::Queued)
        } else {
            (self, Admission::QueueFull)
        }
    }

    /// A slot is given back. It is handed to the session that waits longest,
    /// which is returned, or becomes free.
    pub open spec fn give_back(self) -> (GateView, Option<u128>) {
        if self.handed < self.queue.len() {
            (GateView { handed: self.handed + 1, ..self }, Some(self.queue[self.handed as int]))
        } else {
            (GateView { free: self.free + 1, ..self }, None)
        }
    }

    /// A session takes up the slot that it was handed, and leaves the queue.
    pub open spec fn take_up(self, id: u128) -> GateView {
        GateView {
            queue: self.queue.remove(self.queue.index_of(id)),
            handed: (self.handed - 1) as nat,
            ..self
        }
    }

    /// A queued session gives up: it leaves the queue and, when it was handed a
    /// slot in the meantime, gives that slot back.
    pub open spec fn give_up(self, id: u128) -> (GateView, Option<u128>) {
        if self.is_handed(id) {
            self.take_up(id).give_back()
        } else {
            (GateView { queue: self.queue.remove(self.queue.index_of(id)), ..self }, None)
        }
    }
}

/// What becomes of a request that arrives.
#[derive(Clone, Copy, Debug, PartialEq, Eq, Structural)]
pub enum Admission {
    /// It has a slot.
    Granted,
    /// It waits in the queue.
    Queued,
    /// It is refused: the queue is full.
    QueueFull,
}

/// How a wait in the queue ends.
#[derive(Clone, Copy, Debug, PartialEq, Eq, Structural)]
pub enum WaitOutcome {
    /// A slot was handed over.
    Granted,
    /// The queue timeout is over.
    TimedOut,
    /// The server shuts down.
    ShutDown,
}

/// Concurrency gate combining the active session limit and the FIFO queue.
/// Sessions are told apart by their identifier.
pub struct Gate {
    slots: Semaphore,
    queue: VecDeque<u128>,
    handed: usize,
    max_sessions: usize,
    max_queue: usize,
}

impl View for Gate {
    type V = GateView;

    closed spec fn view(&self) -> GateView {
        GateView {
            max_sessions: self.max_sessions as nat,
            max_queue: self.max_queue as nat,
            free: permits(self.slots)->0,
            queue: self.queue@,
            handed: self.handed as nat,
        }
    }
}

impl Gate {
    /// It is in one of its proper states.
    pub closed spec fn wf(&self) -> bool {
        permits(self.slots) is Some && self@.wf()
    }

    /// A gate in a proper state has a proper view, so that what holds of views
    /// holds of it.
    pub proof fn law_wf(&self)
        requires
            self.wf(),
        ensures
            self@.wf(),
            self@.max_sessions <= usize::MAX,
            self@.max_queue <= usize::MAX,
    {
    }

    /// A gate with all slots free and nobody in the queue.
    pub fn new(max_sessions: usize, max_queue: usize) -> (r: Gate)
        requires
            max_sessions <= max_permits(),
        ensures
            r.wf(),
            r@ == fresh(max_sessions as nat, max_queue as nat),
    {
        Gate {
            slots: new_semaphore(max_sessions),
            queue: VecDeque::new(),
            handed: 0,
            max_sessions,
            max_queue,
        }
    }

    /// Number of slots currently taken (sessions starting or active, and slots
    /// that are handed to a queued session).
    pub fn active_sessions(&self) -> (r: usize)
        requires
            self.wf(),
        ensures
            r == self@.active(),
    {
        self.max_sessions - available_permits(&self.slots)
    }

    /// Number of slots that sessions hold.
    pub fn held_slots(&self) -> (r: usize)
        requires
            self.wf(),
        ensures
            r == self@.held(),
    {
        self.max_sessions - available_permits(&self.slots) - self.handed
    }

    /// Number of sessions in the queue. One that was handed a slot counts until
    /// it takes the slot up.
    pub fn queued_sessions(&self) -> (r: usize)
        ensures
            r == self@.queue.len(),
    {
        self.queue.len()
    }

    pub fn max_sessions(&self) -> (r: usize)
        ensures
            r == self@.max_sessions,
    {
        self.max_sessions
    }

    pub fn max_queue(&self) -> (r: usize)
        ensures
            r == self@.max_queue,
    {
        self.max_queue
    }

    /// True when a new request would be admitted right now (free slot or free
    /// queue place).
    pub fn has_capacity(&self) -> (r: bool)
        requires
            self.wf(),
        ensures
            r == self@.has_capacity(),
    {
        available_permits(&self.slots) > 0 || self.queue.len() < self.max_queue
    }

    /// Whether the session is in the queue.
    pub fn is_queued(&self, id: u128) -> (r: bool)
        ensures
            r == self@.queue.contains(id),
    {
        self.position(id).is_some()
    }

    /// Whether the session has been handed a slot and has not taken it up yet.
    pub fn is_handed(&self, id: u128) -> (r: bool)
        requires
            self.wf(),
        ensures
            r == self@.is_handed(id),
    {
        match self.position(id) {
            Some(i) => {
                proof {
                    lemma_handed(self@, id, i as int);
                }
                i < self.handed
            },
            None => {
                proof {
                    lemma_not_queued(self@, id);
                }
                false
            },
        }
    }

    /// Where the session stands in the queue.
    fn position(&self, id: u128) -> (r: Option<usize>)
        ensures
            match r {
                Some(i) => i < self.queue@.len() && self.queue@[i as int] == id,
                None => !self.queue@.contains(id),
            },
    {
        let mut i: usize = 0;
        while i < self.queue.len()
            invariant
                i <= self.queue@.len(),
                forall|j: int| 0 <= j < i ==> self.queue@[j] != id,
            decreases self.queue@.len() - i,
        {
            if self.queue[i] == id {
                return Some(i);
            }
            i += 1;
        }
        None
    }

    /// Acquires a slot for the session `id`, or a place in the queue when no
    /// slot is free. A full queue refuses it at once.
    pub fn acquire(&mut self, id: u128) -> (r: Admission)
        requires
            old(self).wf(),
            !old(self)@.queue.contains(id),
        ensures
            final(self).wf(),
            (final(self)@, r) == old(self)@.arrive(id),
    {
        let ghost before = self.queue@;
        if take_permit(&mut self.slots) {
            return Admission::Granted;
        }
        if self.queue.len() >= self.max_queue {
            return Admission::QueueFull;
        }
        self.queue.push_back(id);
        proof {
            lemma_push_distinct(before, id);
        }
        Admission::Queued
    }

    /// Gives a slot back that a session held, and returns the session that it
    /// is handed to, the one that waits longest, if any waits.
    pub fn release(&mut self) -> (r: Option<u128>)
        requires
            old(self).wf(),
            old(self)@.held() > 0,
        ensures
            final(self).wf(),
            (final(self)@, r) == old(self)@.give_back(),
    {
        if self.handed < self.queue.len() {
            let id: u128 = self.queue[self.handed];
            self.handed = self.handed + 1;
            Some(id)
        } else {
            put_permit(&mut self.slots);
            None
        }
    }

    /// Lets the session `id` take up the slot that it was handed: it leaves the
    /// queue and holds the slot.
    pub fn claim(&mut self, id: u128)
        requires
            old(self).wf(),
            old(self)@.is_handed(id),
        ensures
            final(self).wf(),
            final(self)@ == old(self)@.take_up(id),
    {
        let ghost before = self@;
        if let Some(i) = self.position(id) {
            proof {
                lemma_handed(before, id, i as int);
                lemma_remove_distinct(before.queue, i as int);
            }
            self.queue.remove(i);
            self.handed = self.handed - 1;
        } else {
            proof {
                lemma_not_queued(before, id);
            }
        }
    }

    /// Takes out the session `id`, which is queued: out of the queue and, where
    /// it was handed a slot in the meantime, out of that slot. Returns the
    /// session that such a slot is handed to, if any waits.
    pub fn abandon(&mut self, id: u128) -> (r: Option<u128>)
        requires
            old(self).wf(),
            old(self)@.queue.contains(id),
        ensures
            final(self).wf(),
            (final(self)@, r) == old(self)@.give_up(id),
    {
        let ghost before = self@;
        if self.is_handed(id) {
            self.claim(id);
            self.release()
        } else {
            if let Some(i) = self.position(id) {
                proof {
                    lemma_handed(before, id, i as int);
                    lemma_remove_distinct(before.queue, i as int);
                }
                self.queue.remove(i);
            }
            None
        }
    }
}

/// How a wait in the queue is answered.
pub open spec fn wait_answer(outcome: WaitOutcome) -> Result<(), GatewayErrorView> {
    match outcome {
        WaitOutcome::Granted => Ok(()),
        WaitOutcome::TimedOut => Err(GatewayErrorView::QueueTimeout),
        WaitOutcome::ShutDown => Err(GatewayErrorView::ShuttingDown),
    }
}

impl Admission {
    /// The error of a request that is refused at once.
    pub fn refusal(self) -> (r: Option<GatewayError>)
        ensures
            match r {
                Some(e) => self == Admission::QueueFull && e@ == GatewayErrorView::QueueFull,
                None => self != Admission::QueueFull,
            },
    {
        match self {
            Admission::QueueFull => Some(GatewayError::QueueFull),
            Admission::Granted | Admission::Queued => None,
        }
    }
}

impl WaitOutcome {
    /// How a wait in the queue is answered.
    pub fn answer(self) -> (r: Result<(), GatewayError>)
        ensures
            match r {
                Ok(_) => wait_answer(self) is Ok,
                Err(e) => wait_answer(self) == Err::<(), GatewayErrorView>(e@),
            },
    {
        match self {
            WaitOutcome::Granted => Ok(()),
            WaitOutcome::TimedOut => Err(GatewayError::QueueTimeout),
            WaitOutcome::ShutDown => Err(GatewayError::ShuttingDown),
        }
    }
}

// ---------------------------------------------------------------------------
// Sequences without duplicates
// ---------------------------------------------------------------------------

proof fn lemma_push_distinct(s: Seq<u128>, id: u128)
    requires
        s.no_duplicates(),
        !s.contains(id),
    ensures
        s.push(id).no_duplicates(),
{
    assert forall|i: int, j: int|
        0 <= i < s.push(id).len() && 0 <= j < s.push(id).len() && i != j implies s.push(id)[i]
        != s.push(id)[j] by {
        assert(i < s.len() ==> s.contains(s[i]));
        assert(j < s.len() ==> s.contains(s[j]));
    }
}

/// A session is handed a slot exactly when it stands among the first ones.
proof fn lemma_handed(g: GateView, id: u128, i: int)
    requires
        g.queue.no_duplicates(),
        g.handed <= g.queue.len(),
        0 <= i < g.queue.len(),
        g.queue[i] == id,
    ensures
        g.queue.contains(id),
        g.queue.index_of(id) == i,
        g.is_handed(id) <==> i < g.handed,
{
    let first = g.queue.take(g.handed as int);
    assert(g.queue[g.queue.index_of(id)] == id);
    if i < g.handed {
        assert(first[i] == id);
    }
    if first.contains(id) {
        let k = choose|k: int| 0 <= k < first.len() && first[k] == id;
        assert(g.queue[k] == id);
    }
}

/// A session that is not queued is not handed a slot.
proof fn lemma_not_queued(g: GateView, id: u128)
    requires
        g.handed <= g.queue.len(),
        !g.queue.contains(id),
    ensures
        !g.is_handed(id),
{
    let first = g.queue.take(g.handed as int);
    if first.contains(id) {
        let k = choose|k: int| 0 <= k < first.len() && first[k] == id;
        assert(g.queue[k] == id);
    }
}

proof fn lemma_remove_distinct(s: Seq<u128>, k: int)
    requires
        s.no_duplicates(),
        0 <= k < s.len(),
    ensures
        s.remove(k).no_duplicates(),
{
    assert forall|i: int, j: int|
        0 <= i < s.remove(k).len() && 0 <= j < s.remove(k).len() && i != j implies s.remove(k)[i]
        != s.remove(k)[j] by {
        let a = if i < k {
            i
        } else {
            i + 1
        };
        let b = if j < k {
            j
        } else {
            j + 1
        };
        assert(s.remove(k)[i] == s[a] && s.remove(k)[j] == s[b]);
    }
}

// ---------------------------------------------------------------------------
// Laws
// ---------------------------------------------------------------------------

/// What can happen at a `Gate`.
pub enum GateEvent {
    /// A session arrives.
    Arrive(u128),
    /// A session with a slot ends.
    Release,
    /// A session takes up the slot that it was handed.
    TakeUp(u128),
    /// A session that is queued gives up.
    GiveUp(u128),
}

impl GateView {
    /// The event can happen now: only a session that is not queued arrives,
    /// only a slot that is held is given back, only a slot that was handed is
    /// taken up, and only a queued session gives up.
    pub open spec fn allows(self, event: GateEvent) -> bool {
        match event {
            GateEvent::Arrive(id) => !self.queue.contains(id),
            GateEvent::Release => self.held() > 0,
            GateEvent::TakeUp(id) => self.is_handed(id),
            GateEvent::GiveUp(id) => self.queue.contains(id),
        }
    }

    /// The state after the event.
    pub open spec fn after(self, event: GateEvent) -> GateView {
        match event {
            GateEvent::Arrive(id) => self.arrive(id).0,
            GateEvent::Release => self.give_back().0,
            GateEvent::TakeUp(id) => self.take_up(id),
            GateEvent::GiveUp(id) => self.give_up(id).0,
        }
    }

    /// The waiting session that the event hands a slot to.
    pub open spec fn serves(self, event: GateEvent) -> Option<u128> {
        match event {
            GateEvent::Arrive(_) => None,
            GateEvent::Release => self.give_back().1,
            GateEvent::TakeUp(_) => None,
            GateEvent::GiveUp(id) => self.give_up(id).1,
        }
    }

    /// The state after a series of events.
    pub open spec fn after_all(self, events: Seq<GateEvent>) -> GateView
        decreases events.len(),
    {
        if events.len() == 0 {
            self
        } else {
            self.after_all(events.drop_last()).after(events.last())
        }
    }

    /// Each event of a series can happen when its turn comes.
    pub open spec fn allows_all(self, events: Seq<GateEvent>) -> bool {
        forall|k: int|
            0 <= k < events.len() ==> (#[trigger] self.after_all(events.take(k))).allows(events[k])
    }
}

/// The state of a new gate.
pub open spec fn fresh(max_sessions: nat, max_queue: nat) -> GateView {
    GateView { max_sessions, max_queue, free: max_sessions, queue: Seq::empty(), handed: 0 }
}

/// A queued session can be taken out of the queue.
proof fn lemma_leave(g: GateView, id: u128)
    requires
        g.wf(),
        g.queue.contains(id),
    ensures
        0 <= g.queue.index_of(id) < g.queue.len(),
        g.queue[g.queue.index_of(id)] == id,
        g.is_handed(id) <==> g.queue.index_of(id) < g.handed,
        g.queue.remove(g.queue.index_of(id)).no_duplicates(),
        g.is_handed(id) ==> g.take_up(id).wf() && g.take_up(id).held() == g.held() + 1
            && g.take_up(id).waiting() == g.waiting(),
{
    let i = choose|i: int| 0 <= i < g.queue.len() && g.queue[i] == id;
    lemma_handed(g, id, i);
    lemma_remove_distinct(g.queue, i);
    if g.is_handed(id) {
        assert(g.take_up(id).waiting() =~= g.waiting());
    }
}

/// A session that is handed a slot is queued.
proof fn lemma_handed_is_queued(g: GateView, id: u128)
    requires
        g.handed <= g.queue.len(),
        g.is_handed(id),
    ensures
        g.queue.contains(id),
{
    let first = g.queue.take(g.handed as int);
    let k = choose|k: int| 0 <= k < first.len() && first[k] == id;
    assert(g.queue[k] == id);
}

/// One event keeps a proper state proper and the limits as they are.
pub proof fn law_event_keeps_limits(g: GateView, event: GateEvent)
    requires
        g.wf(),
        g.allows(event),
    ensures
        g.after(event).wf(),
        g.after(event).max_sessions == g.max_sessions,
        g.after(event).max_queue == g.max_queue,
{
    match event {
        GateEvent::Arrive(id) => {
            lemma_push_distinct(g.queue, id);
        },
        GateEvent::Release => {},
        GateEvent::TakeUp(id) => {
            lemma_handed_is_queued(g, id);
            lemma_leave(g, id);
        },
        GateEvent::GiveUp(id) => {
            lemma_leave(g, id);
        },
    }
}

/// Whatever happens at a gate, there are never more active sessions than
/// slots nor more queued sessions than queue places, and nobody waits while
/// a slot is free.
pub proof fn law_limits_hold(max_sessions: nat, max_queue: nat, events: Seq<GateEvent>)
    requires
        max_sessions <= max_permits(),
        fresh(max_sessions, max_queue).allows_all(events),
    ensures
        ({
            let g = fresh(max_sessions, max_queue).after_all(events);
            &&& g.wf()
            &&& g.max_sessions == max_sessions
            &&& g.max_queue == max_queue
            &&& g.active() <= max_sessions
            &&& g.queue.len() <= max_queue
            &&& g.waiting().len() > 0 ==> g.active() == max_sessions
        }),
    decreases events.len(),
{
    let start = fresh(max_sessions, max_queue);
    if events.len() > 0 {
        let rest = events.drop_last();
        assert forall|k: int| 0 <= k < rest.len() implies (#[trigger] start.after_all(
            rest.take(k),
        )).allows(rest[k]) by {
            assert(rest.take(k) =~= events.take(k));
        }
        law_limits_hold(max_sessions, max_queue, rest);
        assert(events.take(events.len() - 1) =~= rest);
        law_event_keeps_limits(start.after_all(rest), events.last());
    }
}

/// A request is refused exactly when all slots are taken and the queue is
/// full, which `has_capacity` tells beforehand; a refusal changes nothing.
pub proof fn law_refused_when_full(g: GateView, id: u128)
    requires
        g.wf(),
    ensures
        g.arrive(id).1 == Admission::QueueFull <==> g.active() == g.max_sessions && g.queue.len()
            == g.max_queue,
        g.arrive(id).1 == Admission::QueueFull <==> !g.has_capacity(),
        g.arrive(id).1 == Admission::QueueFull ==> g.arrive(id).0 == g,
{
}

/// A session that was handed a slot keeps its place in the queue until it takes
/// the slot up: handing it over changes neither the number of queued sessions
/// nor that of active ones, and taking it up frees the place alone.
pub proof fn law_place_kept_until_taken_up(g: GateView, id: u128)
    requires
        g.wf(),
    ensures
        g.waiting().len() > 0 ==> g.give_back().0.queue == g.queue && g.give_back().0.active()
            == g.active() && g.give_back().0.is_handed(g.waiting().first()),
        g.is_handed(id) ==> g.take_up(id).queue.len() == g.queue.len() - 1 && g.take_up(id).active()
            == g.active() && g.take_up(id).waiting() == g.waiting() && !g.take_up(
            id,
        ).queue.contains(id),
{
    if g.waiting().len() > 0 {
        let first = g.give_back().0.queue.take(g.handed as int + 1);
        assert(first[g.handed as int] == g.waiting().first());
    }
    if g.is_handed(id) {
        lemma_handed_is_queued(g, id);
        lemma_leave(g, id);
        lemma_removed(g.queue, g.queue.index_of(id));
    }
}

/// What is taken out of a sequence without duplicates is no longer in it.
proof fn lemma_removed(s: Seq<u128>, k: int)
    requires
        s.no_duplicates(),
        0 <= k < s.len(),
    ensures
        !s.remove(k).contains(s[k]),
{
    let v = s.remove(k);
    assert forall|j: int| 0 <= j < v.len() implies v[j] != s[k] by {
        assert(v[j] == s[if j < k {
            j
        } else {
            j + 1
        }]);
    }
}

/// The state after sessions arrive one after the other and none leaves.
pub open spec fn after_arrivals(g: GateView, ids: Seq<u128>) -> GateView
    decreases ids.len(),
{
    if ids.len() == 0 {
        g
    } else {
        after_arrivals(g, ids.drop_last()).arrive(ids.last()).0
    }
}

/// Of requests that come one after the other while none ends, the first get
/// the slots, the next the queue places in the order of their arrival, and
/// all further ones are refused: with 10 slots and a queue of 20, the 31st.
pub proof fn law_concurrent_requests(
    max_sessions: nat,
    max_queue: nat,
    ids: Seq<u128>,
    next: u128,
)
    ensures
        ({
            let n = ids.len();
            let g = after_arrivals(fresh(max_sessions, max_queue), ids);
            &&& g.max_sessions == max_sessions
            &&& g.max_queue == max_queue
            &&& g.free <= max_sessions
            &&& g.handed == 0
            &&& g.active() == if n < max_sessions {
                n
            } else {
                max_sessions
            }
            &&& g.queue == if n <= max_sessions {
                Seq::<u128>::empty()
            } else if n <= max_sessions + max_queue {
                ids.skip(max_sessions as int)
            } else {
                ids.subrange(max_sessions as int, (max_sessions + max_queue) as int)
            }
            &&& g.arrive(next).1 == if n < max_sessions {
                Admission::Granted
            } else if n < max_sessions + max_queue {
                Admission::Queued
            } else {
                Admission::QueueFull
            }
        }),
    decreases ids.len(),
{
    let n = ids.len();
    let s = max_sessions as int;
    let q = max_queue as int;
    let g = after_arrivals(fresh(max_sessions, max_queue), ids);
    if n > 0 {
        let rest = ids.drop_last();
        law_concurrent_requests(max_sessions, max_queue, rest, ids.last());
        if n <= s {
            assert(g.queue =~= Seq::<u128>::empty());
        } else if n <= s + q {
            if n == s + 1 {
                assert(rest.len() == s);
                assert(g.queue =~= ids.skip(s));
            } else {
                assert(rest.skip(s).push(ids.last()) =~= ids.skip(s));
            }
        } else if n == s + q + 1 {
            if q > 0 {
                assert(rest.skip(s) =~= ids.subrange(s, s + q));
            } else {
                assert(g.queue =~= ids.subrange(s, s + q));
            }
        } else {
            assert(rest.subrange(s, s + q) =~= ids.subrange(s, s + q));
        }
    }
}

/// A slot that is given back is handed to the session that waits longest, and
/// becomes free only when none waits; either way it is given back once.
pub proof fn law_release_serves_first(g: GateView)
    requires
        g.wf(),
        g.held() > 0,
    ensures
        g.waiting().len() > 0 ==> g.give_back().1 == Some(g.waiting().first())
            && g.give_back().0.active() == g.active() && g.give_back().0.waiting()
            == g.waiting().drop_first(),
        g.waiting().len() == 0 ==> g.give_back().1 is None && g.give_back().0.active() == g.active()
            - 1 && g.give_back().0.queue == g.queue,
        g.give_back().0.held() == g.held() - 1,
{
    if g.waiting().len() > 0 {
        assert(g.give_back().0.waiting() =~= g.waiting().drop_first());
    }
}

/// A session that gets a slot and ends leaves everything as it was.
pub proof fn law_release_undoes_acquire(g: GateView, id: u128)
    requires
        g.wf(),
        g.arrive(id).1 == Admission::Granted,
    ensures
        g.arrive(id).0.give_back() == (g, None::<u128>),
{
}

/// A session that is queued and gives up leaves everything as it was.
pub proof fn law_abandon_undoes_queueing(g: GateView, id: u128)
    requires
        g.wf(),
        !g.queue.contains(id),
        g.arrive(id).1 == Admission::Queued,
    ensures
        g.arrive(id).0.give_up(id) == (g, None::<u128>),
{
    let h = g.arrive(id).0;
    law_event_keeps_limits(g, GateEvent::Arrive(id));
    lemma_handed(h, id, g.queue.len() as int);
    assert(h.queue.remove(g.queue.len() as int) =~= g.queue);
}

/// `a` waits, and `b` does not wait in front of it.
pub open spec fn ahead(waiting: Seq<u128>, a: u128, b: u128) -> bool {
    exists|i: int|
        0 <= i < waiting.len() && #[trigger] waiting[i] == a && forall|j: int|
            0 <= j <= i ==> waiting[j] != b
}

/// The sessions that wait are distinct.
proof fn lemma_waiting_distinct(g: GateView)
    requires
        g.wf(),
    ensures
        g.waiting().no_duplicates(),
{
    let w = g.waiting();
    assert forall|i: int, j: int| 0 <= i < w.len() && 0 <= j < w.len() && i != j implies w[i]
        != w[j] by {
        assert(w[i] == g.queue[g.handed + i] && w[j] == g.queue[g.handed + j]);
    }
}

/// The sessions that wait after a slot is given back.
proof fn lemma_waiting_after_give_back(g: GateView)
    requires
        g.wf(),
    ensures
        g.waiting().len() > 0 ==> g.give_back().0.waiting() == g.waiting().drop_first()
            && g.give_back().1 == Some(g.waiting().first()),
        g.waiting().len() == 0 ==> g.give_back().0.waiting() == g.waiting() && g.give_back().1
            is None,
{
    if g.waiting().len() > 0 {
        assert(g.give_back().0.waiting() =~= g.waiting().drop_first());
    }
}

/// One event does not change who is ahead of whom, and hands no slot to a
/// session that another one is ahead of.
proof fn lemma_order_kept(g: GateView, event: GateEvent, a: u128, b: u128)
    requires
        g.wf(),
        g.allows(event),
        ahead(g.waiting(), a, b),
        g.after(event).waiting().contains(a),
    ensures
        ahead(g.after(event).waiting(), a, b),
        g.serves(event) != Some(b),
{
    let w = g.waiting();
    let v = g.after(event).waiting();
    lemma_waiting_distinct(g);
    let i = choose|i: int|
        0 <= i < w.len() && #[trigger] w[i] == a && forall|j: int| 0 <= j <= i ==> w[j] != b;
    let k = choose|k: int| 0 <= k < v.len() && v[k] == a;
    match event {
        GateEvent::Arrive(id) => {
            assert(v[i] == a);
            assert forall|j: int| 0 <= j <= i implies v[j] != b by {
                assert(v[j] == w[j]);
            }
        },
        GateEvent::Release => {
            lemma_waiting_after_give_back(g);
            lemma_order_kept_by_drop(w, i, k, a, b);
        },
        GateEvent::TakeUp(id) => {
            lemma_handed_is_queued(g, id);
            lemma_leave(g, id);
            assert(v == w);
        },
        GateEvent::GiveUp(id) => {
            lemma_leave(g, id);
            if g.is_handed(id) {
                lemma_waiting_after_give_back(g.take_up(id));
                lemma_order_kept_by_drop(w, i, k, a, b);
            } else {
                let m = g.queue.index_of(id) - g.handed;
                assert(v =~= w.remove(m));
                lemma_order_kept_by_remove(w, m, i, k, a, b);
            }
        },
    }
}

proof fn lemma_order_kept_by_remove(w: Seq<u128>, m: int, i: int, k: int, a: u128, b: u128)
    requires
        w.no_duplicates(),
        0 <= m < w.len(),
        0 <= i < w.len(),
        w[i] == a,
        forall|j: int| 0 <= j <= i ==> w[j] != b,
        0 <= k < w.remove(m).len(),
        w.remove(m)[k] == a,
    ensures
        ahead(w.remove(m), a, b),
{
    let v = w.remove(m);
    let origin = if k < m {
        k
    } else {
        k + 1
    };
    assert(v[k] == w[origin]);
    assert(origin == i);
    assert forall|j: int| 0 <= j <= k implies v[j] != b by {
        assert(v[j] == w[if j < m {
            j
        } else {
            j + 1
        }]);
    }
}

proof fn lemma_order_kept_by_drop(w: Seq<u128>, i: int, k: int, a: u128, b: u128)
    requires
        w.no_duplicates(),
        0 <= i < w.len(),
        w[i] == a,
        forall|j: int| 0 <= j <= i ==> w[j] != b,
        0 <= k < w.drop_first().len(),
        w.drop_first()[k] == a,
    ensures
        ahead(w.drop_first(), a, b),
        w.first() != b,
{
    let v = w.drop_first();
    assert(w[k + 1] == a);
    assert(k + 1 == i);
    assert(v[k] == a);
    assert forall|j: int| 0 <= j <= k implies v[j] != b by {
        assert(v[j] == w[j + 1]);
    }
    assert(w[0] != b);
}

/// The queue is first in, first out and cannot be bypassed: as long as a
/// session waits, none that came to the queue after it is handed a slot,
/// whatever else happens.
pub proof fn law_fifo(g: GateView, events: Seq<GateEvent>, a: u128, b: u128, n: int)
    requires
        g.wf(),
        g.allows_all(events),
        ahead(g.waiting(), a, b),
        0 <= n < events.len(),
        forall|k: int|
            0 <= k <= n + 1 ==> (#[trigger] g.after_all(events.take(k))).waiting().contains(a),
    ensures
        g.after_all(events.take(n)).serves(events[n]) != Some(b),
        g.after_all(events.take(n + 1)).wf(),
        ahead(g.after_all(events.take(n + 1)).waiting(), a, b),
    decreases n,
{
    let before = g.after_all(events.take(n));
    if n > 0 {
        law_fifo(g, events, a, b, n - 1);
    } else {
        assert(events.take(0) =~= Seq::<GateEvent>::empty());
        assert(before == g);
    }
    let upto = events.take(n + 1);
    assert(upto.drop_last() =~= events.take(n));
    assert(upto.last() == events[n]);
    assert(g.after_all(upto) == before.after(events[n]));
    assert(before.allows(events[n]));
    assert(g.after_all(events.take(n + 1)).waiting().contains(a));
    law_event_keeps_limits(before, events[n]);
    lemma_order_kept(before, events[n], a, b);
}

/// A session that gives up while it waits is out of the queue, and all others
/// that wait stay so in their order.
pub proof fn law_abandon_keeps_others(g: GateView, id: u128, a: u128, b: u128)
    requires
        g.wf(),
        g.waiting().contains(id),
        g.waiting().contains(a),
        a != id,
    ensures
        ({
            let after = g.give_up(id).0;
            &&& !after.queue.contains(id)
            &&& after.waiting().contains(a)
            &&& after.queue.len() == g.queue.len() - 1
            &&& after.active() == g.active()
            &&& ahead(g.waiting(), a, b) ==> ahead(after.waiting(), a, b)
        }),
{
    let w = g.waiting();
    let at = choose|k: int| 0 <= k < w.len() && w[k] == id;
    let m = at + g.handed;
    assert(g.queue[m] == id);
    lemma_handed(g, id, m);
    lemma_removed(g.queue, m);
    let v = g.give_up(id).0.waiting();
    assert(v =~= w.remove(at));
    let i = choose|i: int| 0 <= i < w.len() && w[i] == a;
    assert(v[if i < at {
        i
    } else {
        i - 1
    }] == a);
    if ahead(w, a, b) {
        assert(g.allows(GateEvent::GiveUp(id)));
        lemma_order_kept(g, GateEvent::GiveUp(id), a, b);
    }
}

/// A full queue is answered 429 at once, a wait that takes too long 504, and a
/// wait that the shutdown of the server ends 503.
pub proof fn law_queue_answers(outcome: WaitOutcome)
    ensures
        GatewayErrorView::QueueFull.status() == 429,
        wait_answer(outcome) is Ok <==> outcome == WaitOutcome::Granted,
        wait_answer(outcome) matches Err(e) ==> e.status() == if outcome == WaitOutcome::TimedOut {
            504u16
        } else {
            503u16
        },
{
}

/// Every slot is free, handed or held; the sessions that wait are those behind
/// the ones that were handed a slot; there is room exactly where a slot or a place
/// is free.
pub proof fn law_slots_add_up(g: GateView, id: u128, i: int)
    requires
        g.wf(),
    ensures
        g.free + g.handed + g.held() == g.max_sessions,
        g.free + g.active() == g.max_sessions,
        0 <= g.held() <= g.active() <= g.max_sessions,
        g.handed + g.waiting().len() == g.queue.len(),
        0 <= i < g.waiting().len() ==> g.waiting()[i] == g.queue[g.handed + i],
        g.is_handed(id) <==> exists|k: int| 0 <= k < g.handed && #[trigger] g.queue[k] == id,
        g.has_capacity() <==> g.active() < g.max_sessions || g.queue.len() < g.max_queue,
        max_permits() == (usize::MAX / 8) as nat,
{
    let first = g.queue.take(g.handed as int);
    if first.contains(id) {
        let k = choose|k: int| 0 <= k < first.len() && first[k] == id;
        assert(g.queue[k] == id);
    }
    if exists|k: int| 0 <= k < g.handed && #[trigger] g.queue[k] == id {
        let k = choose|k: int| 0 <= k < g.handed && #[trigger] g.queue[k] == id;
        assert(first[k] == id);
    }
}

/// A session that arrives takes a free slot and nothing else, or else the last
/// place of the queue and nothing else, or else changes nothing.
pub proof fn law_arrival(g: GateView, id: u128)
    requires
        g.wf(),
    ensures
        ({
            let (after, r) = g.arrive(id);
            &&& r == Admission::Granted <==> g.active() < g.max_sessions
            &&& r == Admission::Queued <==> g.active() == g.max_sessions && g.queue.len()
                < g.max_queue
            &&& r == Admission::Granted ==> after.active() == g.active() + 1 && after.queue
                == g.queue
            &&& r == Admission::Queued ==> after.active() == g.active() && after.queue
                == g.queue + seq![id]
            &&& after.handed == g.handed && after.max_sessions == g.max_sessions
                && after.max_queue == g.max_queue
        }),
{
    assert(g.queue.push(id) =~= g.queue + seq![id]);
}

/// A session that was handed a slot and gives up leaves the queue, and its slot
/// goes to the session that waits longest, or becomes free when none waits. One
/// that still waits takes no slot with it and hands none on.
pub proof fn law_giving_up(g: GateView, id: u128)
    requires
        g.wf(),
        g.queue.contains(id),
    ensures
        ({
            let (after, next) = g.give_up(id);
            &&& after.queue == g.queue.remove(g.queue.index_of(id))
            &&& after.max_sessions == g.max_sessions && after.max_queue == g.max_queue
            &&& !g.is_handed(id) ==> next is None && after.free == g.free && after.handed
                == g.handed
            &&& g.is_handed(id) && g.waiting().len() > 0 ==> next == Some(g.waiting().first())
                && after.free == g.free && after.handed == g.handed && after.is_handed(
                g.waiting().first(),
            )
            &&& g.is_handed(id) && g.waiting().len() == 0 ==> next is None && after.free == g.free
                + 1 && after.handed == g.handed - 1
        }),
{
    lemma_leave(g, id);
    if g.is_handed(id) {
        let up = g.take_up(id);
        assert(up.waiting() == g.waiting());
        lemma_waiting_after_give_back(up);
        if g.waiting().len() > 0 {
            let after = g.give_up(id).0;
            let first = after.queue.take(after.handed as int);
            assert(first[after.handed - 1] == up.waiting().first());
        }
    }
}

/// Taking up a slot turns a handed slot into a held one and takes the session, and
/// no other, out of the queue.
pub proof fn law_taking_up(g: GateView, id: u128)
    requires
        g.wf(),
        g.is_handed(id),
    ensures
        g.take_up(id).queue == g.queue.remove(g.queue.index_of(id)),
        g.take_up(id).handed == g.handed - 1,
        g.take_up(id).held() == g.held() + 1,
        g.take_up(id).free == g.free,
        g.take_up(id).max_sessions == g.max_sessions,
        g.take_up(id).max_queue == g.max_queue,
{
    lemma_handed_is_queued(g, id);
    lemma_leave(g, id);
}

/// A wait is answered by how it ended, and a new gate is empty.
pub proof fn law_waits_and_beginnings(max_sessions: nat, max_queue: nat)
    ensures
        wait_answer(WaitOutcome::Granted) == Ok::<(), GatewayErrorView>(()),
        wait_answer(WaitOutcome::TimedOut) == Err::<(), GatewayErrorView>(
            GatewayErrorView::QueueTimeout,
        ),
        wait_answer(WaitOutcome::ShutDown) == Err::<(), GatewayErrorView>(
            GatewayErrorView::ShuttingDown,
        ),
        fresh(max_sessions, max_queue).max_sessions == max_sessions,
        fresh(max_sessions, max_queue).max_queue == max_queue,
        fresh(max_sessions, max_queue).active() == 0,
        fresh(max_sessions, max_queue).queue.len() == 0,
        fresh(max_sessions, max_queue).handed == 0,
{
}

} // verus!
