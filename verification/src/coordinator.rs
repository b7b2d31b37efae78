//! Scheduling of concurrent animations: a priority queue of waiting
//! animations, a cap on how many run at once, interruption and pausing.

use vstd::prelude::*;
use crate::animation::Animate;

verus! {

/// Identifier of a scheduled animation. Each scheduler numbers its
/// animations from 0, so an identifier names an animation only in the
/// scheduler that issued it.
#[derive(Debug, Clone, Copy, PartialEq, Eq, Hash, Structural)]
pub struct AnimationId(u64);

impl AnimationId {
    /// The number behind the identifier.
    pub closed spec fn value(self) -> u64 {
        self.0
    }

    /// Takes the next identifier from `counter` and advances it.
    fn new(counter: &mut u64) -> (id: Self)
        requires
            *old(counter) < u64::MAX,
        ensures
            id.value() == *old(counter),
            *final(counter) == *old(counter) + 1,
    {
        let id = AnimationId(*counter);
        *counter = *counter + 1;
        id
    }
}

/// Priority levels for animations, lowest first.
#[derive(Debug, Clone, Copy, PartialEq, Eq, PartialOrd, Ord, Structural)]
pub enum AnimationPriority {
    Low,
    Normal,
    High,
    Critical,
}

/// The rank of a priority: 0 for `Low` up to 3 for `Critical`.
pub open spec fn rank(p: AnimationPriority) -> nat {
    match p {
        AnimationPriority::Low => 0,
        AnimationPriority::Normal => 1,
        AnimationPriority::High => 2,
        AnimationPriority::Critical => 3,
    }
}

impl AnimationPriority {
    /// The rank of the priority (see `rank`).
    pub fn level(&self) -> (r: u8)
        ensures
            r == rank(*self),
    {
        match self {
            AnimationPriority::Low => 0,
            AnimationPriority::Normal => 1,
            AnimationPriority::High => 2,
            AnimationPriority::Critical => 3,
        }
    }
}

/// Lifecycle state of a scheduled animation.
#[derive(Debug, Clone, Copy, PartialEq, Eq, Structural)]
pub enum AnimationState {
    Queued,
    Running,
    Paused,
    Completed,
    Interrupted,
}

/// What an animation animates.
#[derive(Debug, Clone, PartialEq, Eq, Hash)]
pub enum AnimationTarget {
    LeftSidebar,
    RightSidebar,
    Component(String),
    Custom(String),
}

/// Two targets name the same thing.
pub open spec fn same_target(a: AnimationTarget, b: AnimationTarget) -> bool {
    match (a, b) {
        (AnimationTarget::LeftSidebar, AnimationTarget::LeftSidebar) => true,
        (AnimationTarget::RightSidebar, AnimationTarget::RightSidebar) => true,
        (AnimationTarget::Component(x), AnimationTarget::Component(y)) => x@ == y@,
        (AnimationTarget::Custom(x), AnimationTarget::Custom(y)) => x@ == y@,
        _ => false,
    }
}

impl AnimationTarget {
    /// Whether `self` and `other` name the same thing.
    pub fn same_as(&self, other: &AnimationTarget) -> (b: bool)
        ensures
            b == same_target(*self, *other),
    {
        match (self, other) {
            (AnimationTarget::LeftSidebar, AnimationTarget::LeftSidebar) => true,
            (AnimationTarget::RightSidebar, AnimationTarget::RightSidebar) => true,
            (AnimationTarget::Component(x), AnimationTarget::Component(y)) => x.eq(y),
            (AnimationTarget::Custom(x), AnimationTarget::Custom(y)) => x.eq(y),
            _ => false,
        }
    }
}

/// The name of a target as a value: its kind and, for components and custom
/// targets, the name it carries.
pub open spec fn target_name(t: AnimationTarget) -> (int, Seq<char>) {
    match t {
        AnimationTarget::LeftSidebar => (0, Seq::empty()),
        AnimationTarget::RightSidebar => (1, Seq::empty()),
        AnimationTarget::Component(x) => (2, x@),
        AnimationTarget::Custom(x) => (3, x@),
    }
}

/// Two targets are the same exactly when they are of one kind with equal
/// names; so an animation on another target is never displaced by one that
/// starts at once, and never counts for `has_animations_for_target`.
pub proof fn law_same_target_is_equality<A>(
    a: AnimationTarget,
    b: AnimationTarget,
    e: ManagedAnimation<A>,
    p: AnimationPriority,
)
    ensures
        same_target(a, b) <==> target_name(a) == target_name(b),
        !same_target(e.target, b) ==> !displaced_by(e, b, p),
{
}

/// A scheduled animation and its bookkeeping.
pub struct ManagedAnimation<A> {
    pub id: AnimationId,
    pub animation: A,
    pub priority: AnimationPriority,
    pub state: AnimationState,
    pub target: AnimationTarget,
    pub interruptible: bool,
}

/// Statistics about the scheduled animations.
#[derive(Debug, Clone)]
pub struct AnimationStats {
    pub total: usize,
    pub queued: usize,
    pub running: usize,
    pub paused: usize,
    pub completed: usize,
    pub interrupted: usize,
}

impl Default for AnimationStats {
    fn default() -> (s: Self)
        ensures
            s.total == 0 && s.queued == 0 && s.running == 0 && s.paused == 0 && s.completed == 0
                && s.interrupted == 0,
    {
        AnimationStats { total: 0, queued: 0, running: 0, paused: 0, completed: 0, interrupted: 0 }
    }
}

/// How many entries are in state `st`.
pub open spec fn count_state<A>(s: Seq<ManagedAnimation<A>>, st: AnimationState) -> nat
    decreases s.len(),
{
    if s.len() == 0 {
        0
    } else {
        count_state(s.drop_last(), st) + (if s.last().state == st { 1nat } else { 0nat })
    }
}

/// Position at which an entry of priority `p` joins the queue `q`: after
/// every entry of at least its priority.
pub open spec fn join_position(q: Seq<(AnimationId, AnimationPriority)>, p: AnimationPriority) -> int
    decreases q.len(),
{
    if q.len() == 0 {
        0
    } else if rank(q[0].1) < rank(p) {
        0
    } else {
        1 + join_position(q.drop_first(), p)
    }
}

/// `q` with `(id, p)` placed at its join position.
pub open spec fn enqueue(q: Seq<(AnimationId, AnimationPriority)>, id: AnimationId, p: AnimationPriority) -> Seq<(AnimationId, AnimationPriority)> {
    q.insert(join_position(q, p), (id, p))
}

/// The queue is ordered by priority, highest first.
pub open spec fn queue_sorted(q: Seq<(AnimationId, AnimationPriority)>) -> bool {
    forall|i: int, j: int| 0 <= i < j < q.len() ==> rank(#[trigger] q[i].1) >= rank(#[trigger] q[j].1)
}

/// Entry `i` of `e` becomes `n`, keeping its identity, priority, target and
/// interruptibility.
pub open spec fn same_identity<A>(a: ManagedAnimation<A>, b: ManagedAnimation<A>) -> bool {
    &&& a.id == b.id
    &&& a.priority == b.priority
    &&& a.target == b.target
    &&& a.interruptible == b.interruptible
}

/// One round of starting queued animations: while fewer than `max` run and
/// the queue is not empty, the head of the queue starts and leaves the queue.
pub open spec fn start_step<A: Animate>(
    e0: Seq<ManagedAnimation<A>>,
    q0: Seq<(AnimationId, AnimationPriority)>,
    max: usize,
    e1: Seq<ManagedAnimation<A>>,
    q1: Seq<(AnimationId, AnimationPriority)>,
) -> bool {
    if count_state(e0, AnimationState::Running) >= max || q0.len() == 0 {
        e1 == e0 && q1 == q0
    } else {
        &&& q1 == q0.drop_first()
        &&& e1.len() == e0.len()
        &&& exists|i: int|
            0 <= i < e0.len() && #[trigger] e0[i].id == q0[0].0 && same_identity(e0[i], e1[i])
                && e1[i].state == AnimationState::Running && e1[i].animation.running() && forall|
                j: int,
            | 0 <= j < e0.len() && j != i ==> #[trigger] e1[j] == e0[j]
    }
}

/// `e` has a waiting entry `id` of priority `p`.
pub open spec fn holds_queued<A>(e: Seq<ManagedAnimation<A>>, id: AnimationId, p: AnimationPriority) -> bool {
    exists|i: int|
        0 <= i < e.len() && #[trigger] e[i].id == id && e[i].state == AnimationState::Queued
            && e[i].priority == p
}

/// The queue `q` holds `id`.
pub open spec fn queue_holds(q: Seq<(AnimationId, AnimationPriority)>, id: AnimationId) -> bool {
    exists|k: int| 0 <= k < q.len() && #[trigger] q[k].0 == id
}

/// The position at which `p` joins a sorted queue is the first one whose
/// priority ranks below `p`.
proof fn lemma_join_position(q: Seq<(AnimationId, AnimationPriority)>, p: AnimationPriority, k: int)
    requires
        0 <= k <= q.len(),
        forall|j: int| 0 <= j < k ==> rank(#[trigger] q[j].1) >= rank(p),
        k < q.len() ==> rank(q[k].1) < rank(p),
    ensures
        join_position(q, p) == k,
    decreases q.len(),
{
    if q.len() > 0 && k > 0 {
        let r = q.drop_first();
        assert forall|j: int| 0 <= j < k - 1 implies rank(#[trigger] r[j].1) >= rank(p) by {
            assert(r[j] == q[j + 1]);
        }
        if k - 1 < r.len() {
            assert(r[k - 1] == q[k]);
        }
        lemma_join_position(r, p, k - 1);
    }
}

/// `e1` is `e0` with entry `i` changed to a new state, keeping its identity.
pub open spec fn changed_at<A>(e0: Seq<ManagedAnimation<A>>, e1: Seq<ManagedAnimation<A>>, i: int) -> bool {
    &&& 0 <= i < e0.len()
    &&& e1.len() == e0.len()
    &&& same_identity(e0[i], e1[i])
    &&& forall|j: int| 0 <= j < e0.len() && j != i ==> #[trigger] e1[j] == e0[j]
}

/// Position of `id` in the queue `q` (meaningful when `queue_holds(q, id)`).
pub open spec fn queue_index_of(q: Seq<(AnimationId, AnimationPriority)>, id: AnimationId) -> int {
    choose|k: int| 0 <= k < q.len() && #[trigger] q[k].0 == id
}

/// The queue without `id`.
pub open spec fn dequeue(q: Seq<(AnimationId, AnimationPriority)>, id: AnimationId) -> Seq<(AnimationId, AnimationPriority)> {
    if queue_holds(q, id) {
        q.remove(queue_index_of(q, id))
    } else {
        q
    }
}

/// `e` is running for `target` and may be interrupted by an animation of
/// priority `p`.
pub open spec fn displaced_by<A>(e: ManagedAnimation<A>, target: AnimationTarget, p: AnimationPriority) -> bool {
    &&& same_target(e.target, target)
    &&& e.state == AnimationState::Running
    &&& e.interruptible
    &&& rank(e.priority) < rank(p)
}

/// A running entry whose animation has stopped on its own.
pub open spec fn finished<A: Animate>(e: ManagedAnimation<A>) -> bool {
    e.state == AnimationState::Running && !e.animation.running()
}

/// `e` without its finished entries among the first `c`.
pub open spec fn sweep<A: Animate>(e: Seq<ManagedAnimation<A>>, c: int) -> Seq<ManagedAnimation<A>>
    decreases e.len(),
{
    if e.len() == 0 {
        e
    } else {
        let rest = sweep(e.drop_last(), c);
        if e.len() - 1 < c && finished(e.last()) {
            rest
        } else {
            rest.push(e.last())
        }
    }
}

/// Identifiers of the finished entries among the first `c` of `e`, in order.
pub open spec fn swept_ids<A: Animate>(e: Seq<ManagedAnimation<A>>, c: int) -> Seq<AnimationId>
    decreases e.len(),
{
    if e.len() == 0 {
        Seq::empty()
    } else {
        let rest = swept_ids(e.drop_last(), c);
        if e.len() - 1 < c && finished(e.last()) {
            rest.push(e.last().id)
        } else {
            rest
        }
    }
}

/// Whether an update that examined the first `c` entries asks for a redraw:
/// when it stopped early, or when one of them is still animating.
pub open spec fn redraw_needed<A: Animate>(e: Seq<ManagedAnimation<A>>, c: int) -> bool {
    c < e.len() || exists|i: int|
        0 <= i < c && (#[trigger] e[i]).state == AnimationState::Running && e[i].animation.running()
}

/// What survives a sweep comes from the swept sequence, unfinished.
proof fn lemma_sweep_from<A: Animate>(e: Seq<ManagedAnimation<A>>, c: int)
    ensures
        forall|y: int|
            0 <= y < sweep(e, c).len() ==> exists|x: int|
                0 <= x < e.len() && #[trigger] sweep(e, c)[y] == #[trigger] e[x] && !(x < c
                    && finished(e[x])),
    decreases e.len(),
{
    if e.len() > 0 {
        let d = e.drop_last();
        lemma_sweep_from(d, c);
        let r = sweep(d, c);
        assert forall|y: int| 0 <= y < sweep(e, c).len() implies exists|x: int|
            0 <= x < e.len() && #[trigger] sweep(e, c)[y] == #[trigger] e[x] && !(x < c && finished(e[x])) by {
            if y < r.len() {
                assert(sweep(e, c)[y] == r[y]);
                let x = choose|x: int| 0 <= x < d.len() && #[trigger] r[y] == #[trigger] d[x] && !(x < c && finished(d[x]));
                assert(d[x] == e[x]);
            } else {
                assert(sweep(e, c)[y] == e[e.len() - 1]);
            }
        }
    }
}

/// Every entry that is not swept survives.
proof fn lemma_sweep_keeps<A: Animate>(e: Seq<ManagedAnimation<A>>, c: int, x: int)
    requires
        0 <= x < e.len(),
        !(x < c && finished(e[x])),
    ensures
        exists|y: int| 0 <= y < sweep(e, c).len() && #[trigger] sweep(e, c)[y] == e[x],
    decreases e.len(),
{
    let d = e.drop_last();
    let r = sweep(d, c);
    if x < d.len() {
        assert(e[x] == d[x]);
        lemma_sweep_keeps(d, c, x);
        let y = choose|y: int| 0 <= y < r.len() && #[trigger] r[y] == d[x];
        if e.len() - 1 < c && finished(e.last()) {
            assert(sweep(e, c) == r);
        } else {
            assert(sweep(e, c) == r.push(e.last()));
            assert(sweep(e, c)[y] == r[y]);
        }
    } else {
        assert(sweep(e, c) == r.push(e.last()));
        assert(sweep(e, c)[r.len() as int] == e[x]);
    }
}

/// A sweep keeps identifiers unique.
proof fn lemma_sweep_unique<A: Animate>(e: Seq<ManagedAnimation<A>>, c: int)
    requires
        forall|i: int, j: int| 0 <= i < j < e.len() ==> #[trigger] e[i].id != #[trigger] e[j].id,
    ensures
        forall|i: int, j: int|
            0 <= i < j < sweep(e, c).len() ==> #[trigger] sweep(e, c)[i].id != #[trigger] sweep(e, c)[j].id,
    decreases e.len(),
{
    if e.len() > 0 {
        let d = e.drop_last();
        assert forall|i: int, j: int| 0 <= i < j < d.len() implies #[trigger] d[i].id != #[trigger] d[j].id by {
            assert(d[i] == e[i] && d[j] == e[j]);
        }
        lemma_sweep_unique(d, c);
        lemma_sweep_from(d, c);
        let r = sweep(d, c);
        let s = sweep(e, c);
        assert forall|i: int, j: int| 0 <= i < j < s.len() implies #[trigger] s[i].id != #[trigger] s[j].id by {
            if j < r.len() {
                assert(s[i] == r[i] && s[j] == r[j]);
            } else {
                assert(s[i] == r[i]);
                assert(s[j] == e.last());
                let x = choose|x: int| 0 <= x < d.len() && #[trigger] r[i] == #[trigger] d[x] && !(x < c && finished(d[x]));
                assert(d[x] == e[x]);
            }
        }
    }
}

/// Where the cut lies past the end, its exact position does not matter.
proof fn lemma_sweep_past_end<A: Animate>(e: Seq<ManagedAnimation<A>>, c1: int, c2: int)
    requires
        c1 >= e.len(),
        c2 >= e.len(),
    ensures
        sweep(e, c1) == sweep(e, c2),
        swept_ids(e, c1) == swept_ids(e, c2),
    decreases e.len(),
{
    if e.len() > 0 {
        lemma_sweep_past_end(e.drop_last(), c1, c2);
    }
}

impl<A: Animate> Default for AnimationCoordinator<A> {
    fn default() -> (c: Self)
        ensures
            c.wf(),
            c.entries().len() == 0,
            c.waiting().len() == 0,
            c.max_concurrent_spec() == 5,
            c.frame_budget_spec() == 16,
            c.next_id_spec() == 0,
    {
        AnimationCoordinator::new()
    }
}

/// Result of one update of the scheduler.
pub struct UpdateOutcome {
    /// Whether a redraw is needed
    pub needs_redraw: bool,
    /// Animations that finished and were removed, for their completion actions
    pub completed: Vec<AnimationId>,
    /// For each entry, the nanoseconds since the frame started as read from
    /// the clock before it was examined (none where it was not read).
    pub readings: Ghost<Seq<Option<u128>>>,
}

/// The earliest of the frame times `times` reported for the running entries
/// among the first `k` of `e` (entry `j` reports `times[j]`; missing or none
/// reports nothing), folding in order and keeping the earlier of two.
pub open spec fn earliest_frame<A>(
    e: Seq<ManagedAnimation<A>>,
    times: Seq<Option<std::time::Instant>>,
    k: int,
) -> Option<std::time::Instant>
    decreases k,
{
    if k <= 0 {
        None
    } else {
        let acc = earliest_frame(e, times, k - 1);
        let j = k - 1;
        if j < e.len() && e[j].state == AnimationState::Running && j < times.len() && times[j] is Some {
            let next = times[j]->0;
            match acc {
                Some(a) => Some(if crate::animation::instant_before(next, a) { next } else { a }),
                None => Some(next),
            }
        } else {
            acc
        }
    }
}

/// Whether `elapsed_nanos` since the frame started is over a budget of
/// `budget_ms` whole milliseconds.
pub open spec fn exceeds(elapsed_nanos: u128, budget_ms: u64) -> bool {
    elapsed_nanos / 1_000_000 > budget_ms
}

/// Decides whether the frame budget is spent (see `exceeds`).
pub fn over_budget(elapsed_nanos: u128, budget_ms: u64) -> (b: bool)
    ensures
        b == exceeds(elapsed_nanos, budget_ms),
{
    elapsed_nanos / 1_000_000 > budget_ms as u128
}

/// An update that stopped at entry `c` of `e` stopped because of the clock:
/// every running entry before `c` was read within `budget_ms`, and the one at
/// `c`, if any, was read over it.
pub open spec fn stopped_by_clock<A>(
    e: Seq<ManagedAnimation<A>>,
    readings: Seq<Option<u128>>,
    c: int,
    budget_ms: u64,
) -> bool {
    &&& readings.len() == e.len()
    &&& forall|j: int|
        0 <= j < c && (#[trigger] e[j]).state == AnimationState::Running ==> (readings[j] matches Some(ns)
            && !exceeds(ns, budget_ms))
    &&& c < e.len() ==> (readings[c] matches Some(ns) && exceeds(ns, budget_ms))
}

/// Scheduler of animations of type `A`.
pub struct AnimationCoordinator<A> {
    animations: Vec<ManagedAnimation<A>>,
    queue: Vec<(AnimationId, AnimationPriority)>,
    max_concurrent: usize,
    frame_budget_ms: u64,
    next_id: u64,
}

impl<A: Animate> AnimationCoordinator<A> {
    /// The scheduled animations, oldest first.
    pub closed spec fn entries(&self) -> Seq<ManagedAnimation<A>> {
        self.animations@
    }

    /// The waiting animations with their priorities, in the order they start.
    pub closed spec fn waiting(&self) -> Seq<(AnimationId, AnimationPriority)> {
        self.queue@
    }

    pub closed spec fn max_concurrent_spec(&self) -> usize {
        self.max_concurrent
    }

    pub closed spec fn frame_budget_spec(&self) -> u64 {
        self.frame_budget_ms
    }

    /// The next identifier to hand out.
    pub closed spec fn next_id_spec(&self) -> u64 {
        self.next_id
    }

    /// `id` is scheduled.
    pub open spec fn has(&self, id: AnimationId) -> bool {
        exists|i: int| 0 <= i < self.entries().len() && #[trigger] self.entries()[i].id == id
    }

    /// The state of `id`, if it is scheduled.
    pub open spec fn state_of(&self, id: AnimationId) -> Option<AnimationState> {
        if self.has(id) {
            Some(self.entries()[self.index_of(id)].state)
        } else {
            None
        }
    }

    /// The scheduler's invariant: identifiers are unique and below the next
    /// one; the queue holds exactly the waiting animations, once each, with
    /// their priorities, highest priority first.
    pub open spec fn wf(&self) -> bool {
        let e = self.entries();
        let q = self.waiting();
        &&& forall|i: int, j: int| 0 <= i < j < e.len() ==> #[trigger] e[i].id != #[trigger] e[j].id
        &&& forall|i: int| 0 <= i < e.len() ==> (#[trigger] e[i].id).value() < self.next_id_spec()
        &&& forall|k: int, l: int| 0 <= k < l < q.len() ==> #[trigger] q[k].0 != #[trigger] q[l].0
        &&& forall|k: int| 0 <= k < q.len() ==> holds_queued(e, #[trigger] q[k].0, q[k].1)
        &&& forall|i: int|
            0 <= i < e.len() && (#[trigger] e[i]).state == AnimationState::Queued ==> queue_holds(
                q,
                e[i].id,
            )
        &&& queue_sorted(q)
        &&& forall|i: int| 0 <= i < e.len() ==> (#[trigger] e[i]).state != AnimationState::Completed
    }

    /// `after` is this scheduler once `id` has been asked to move from state
    /// `from` to state `to`, with answer `r`: it moves (its animation left as
    /// it is) exactly when it is scheduled and in state `from`; otherwise
    /// nothing changes.
    pub open spec fn moved_as(
        &self,
        id: AnimationId,
        from: AnimationState,
        to: AnimationState,
        r: bool,
        after: &Self,
    ) -> bool {
        &&& r == (self.state_of(id) == Some(from))
        &&& r ==> {
            &&& changed_at(self.entries(), after.entries(), self.index_of(id))
            &&& after.entries()[self.index_of(id)].state == to
            &&& after.entries()[self.index_of(id)].animation == self.entries()[self.index_of(id)].animation
        }
        &&& !r ==> after.entries() == self.entries()
        &&& after.waiting() == self.waiting()
    }

    /// `after` is this scheduler once `id` has been paused, with answer `r`.
    pub open spec fn paused_as(&self, id: AnimationId, r: bool, after: &Self) -> bool {
        self.moved_as(id, AnimationState::Running, AnimationState::Paused, r, after)
    }

    /// `after` is this scheduler once `id` has been resumed, with answer `r`.
    pub open spec fn resumed_as(&self, id: AnimationId, r: bool, after: &Self) -> bool {
        self.moved_as(id, AnimationState::Paused, AnimationState::Running, r, after)
    }

    /// Index of the entry with identifier `id` (meaningful when `has(id)`).
    pub open spec fn index_of(&self, id: AnimationId) -> int {
        choose|i: int| 0 <= i < self.entries().len() && #[trigger] self.entries()[i].id == id
    }

    /// The invariant depends only on the entries, the queue and the next
    /// identifier.
    proof fn lemma_wf_same(a: &Self, b: &Self)
        requires
            a.wf(),
            a.entries() == b.entries(),
            a.waiting() == b.waiting(),
            a.next_id_spec() == b.next_id_spec(),
        ensures
            b.wf(),
    {
    }

    /// An empty scheduler running at most five animations at once with a
    /// 16 ms frame budget.
    pub fn new() -> (c: Self)
        ensures
            c.wf(),
            c.entries().len() == 0,
            c.waiting().len() == 0,
            c.max_concurrent_spec() == 5,
            c.frame_budget_spec() == 16,
            c.next_id_spec() == 0,
    {
        AnimationCoordinator {
            animations: Vec::new(),
            queue: Vec::new(),
            max_concurrent: 5,
            frame_budget_ms: 16,
            next_id: 0,
        }
    }

    /// The identifier the next scheduled animation gets.
    pub fn next_id(&self) -> (n: u64)
        ensures
            n == self.next_id_spec(),
    {
        self.next_id
    }

    /// Sets how many animations may run at once.
    pub fn set_max_concurrent(&mut self, max: usize)
        requires
            old(self).wf(),
        ensures
            final(self).wf(),
            final(self).max_concurrent_spec() == max,
            final(self).entries() == old(self).entries(),
            final(self).waiting() == old(self).waiting(),
            final(self).frame_budget_spec() == old(self).frame_budget_spec(),
            final(self).next_id_spec() == old(self).next_id_spec(),
    {
        self.max_concurrent = max;
        proof {
            Self::lemma_wf_same(old(self), self);
        }
    }

    /// Sets the time budget of one update, in milliseconds.
    pub fn set_frame_budget_ms(&mut self, budget_ms: u64)
        requires
            old(self).wf(),
        ensures
            final(self).wf(),
            final(self).frame_budget_spec() == budget_ms,
            final(self).entries() == old(self).entries(),
            final(self).waiting() == old(self).waiting(),
            final(self).max_concurrent_spec() == old(self).max_concurrent_spec(),
            final(self).next_id_spec() == old(self).next_id_spec(),
    {
        self.frame_budget_ms = budget_ms;
        proof {
            Self::lemma_wf_same(old(self), self);
        }
    }

    /// Index of the entry with identifier `id`.
    fn position(&self, id: AnimationId) -> (r: Option<usize>)
        ensures
            match r {
                Some(i) => i < self.entries().len() && self.entries()[i as int].id == id,
                None => !self.has(id),
            },
    {
        let mut i: usize = 0;
        while i < self.animations.len()
            invariant
                i <= self.animations@.len(),
                forall|j: int| 0 <= j < i ==> self.animations@[j].id != id,
            decreases self.animations@.len() - i,
        {
            if self.animations[i].id == id {
                return Some(i);
            }
            i = i + 1;
        }
        None
    }

    /// Where an animation of priority `p` joins the queue.
    fn join_index(&self, p: AnimationPriority) -> (k: usize)
        requires
            queue_sorted(self.waiting()),
        ensures
            k == join_position(self.waiting(), p),
            k <= self.waiting().len(),
            forall|j: int| 0 <= j < k ==> rank(#[trigger] self.waiting()[j].1) >= rank(p),
            forall|j: int| k <= j < self.waiting().len() ==> rank(#[trigger] self.waiting()[j].1) < rank(p),
    {
        let lp = p.level();
        let mut i: usize = 0;
        while i < self.queue.len() && self.queue[i].1.level() >= lp
            invariant
                i <= self.queue@.len(),
                lp == rank(p),
                forall|j: int| 0 <= j < i ==> rank(#[trigger] self.queue@[j].1) >= rank(p),
            decreases self.queue@.len() - i,
        {
            i = i + 1;
        }
        proof {
            lemma_join_position(self.queue@, p, i as int);
            assert forall|j: int| i <= j < self.queue@.len() implies rank(#[trigger] self.queue@[j].1) < rank(p) by {
                if j > i {
                    assert(rank(self.queue@[i as int].1) >= rank(self.queue@[j].1));
                }
            }
        }
        i
    }

    /// Starts the head of the queue if fewer than the maximum run.
    fn process_queue(&mut self)
        requires
            old(self).wf(),
        ensures
            final(self).wf(),
            start_step(
                old(self).entries(),
                old(self).waiting(),
                old(self).max_concurrent_spec(),
                final(self).entries(),
                final(self).waiting(),
            ),
            final(self).max_concurrent_spec() == old(self).max_concurrent_spec(),
            final(self).frame_budget_spec() == old(self).frame_budget_spec(),
            final(self).next_id_spec() == old(self).next_id_spec(),
    {
        let running = self.running_count();
        if running >= self.max_concurrent {
            return;
        }
        if self.queue.len() == 0 {
            return;
        }
        let ghost e0 = self.animations@;
        let ghost q0 = self.queue@;
        let head = self.queue.remove(0);
        let id = head.0;
        proof {
            assert(holds_queued(e0, q0[0].0, q0[0].1));
        }
        match self.position(id) {
            Some(i) => {
                let mut e = self.animations.remove(i);
                e.state = AnimationState::Running;
                e.animation.start(true);
                self.animations.insert(i, e);
                proof {
                    let e1 = self.animations@;
                    let q1 = self.queue@;
                    assert(q1 =~= q0.drop_first());
                    assert forall|j: int| 0 <= j < e0.len() && j != i implies #[trigger] e1[j] == e0[j] by {
                        if j < i {
                            assert(e1[j] == e0[j]);
                        } else {
                            assert(e1[j] == e0[j]);
                        }
                    }
                    assert(e0[i as int].id == q0[0].0);
                    assert(e0[i as int].state == AnimationState::Queued) by {
                        let w = choose|w: int| 0 <= w < e0.len() && #[trigger] e0[w].id == q0[0].0
                            && e0[w].state == AnimationState::Queued && e0[w].priority == q0[0].1;
                        assert(w == i);
                    }
                    assert forall|k: int| 0 <= k < q1.len() implies holds_queued(e1, #[trigger] q1[k].0, q1[k].1) by {
                        assert(q1[k] == q0[k + 1]);
                        assert(holds_queued(e0, q0[k + 1].0, q0[k + 1].1));
                        let w = choose|w: int| 0 <= w < e0.len() && #[trigger] e0[w].id == q0[k + 1].0
                            && e0[w].state == AnimationState::Queued && e0[w].priority == q0[k + 1].1;
                        assert(w != i);
                        assert(e1[w] == e0[w]);
                    }
                    assert forall|j: int| 0 <= j < e1.len() && (#[trigger] e1[j]).state == AnimationState::Queued
                        implies queue_holds(q1, e1[j].id) by {
                        assert(j != i);
                        assert(e1[j] == e0[j]);
                        assert(queue_holds(q0, e0[j].id));
                        let k = choose|k: int| 0 <= k < q0.len() && #[trigger] q0[k].0 == e0[j].id;
                        assert(k != 0);
                        assert(q1[k - 1] == q0[k]);
                    }
                    assert forall|a: int, b: int| 0 <= a < b < q1.len() implies #[trigger] q1[a].0 != #[trigger] q1[b].0 by {
                        assert(q1[a] == q0[a + 1] && q1[b] == q0[b + 1]);
                    }
                    assert forall|a: int, b: int| 0 <= a < b < q1.len() implies rank(#[trigger] q1[a].1) >= rank(#[trigger] q1[b].1) by {
                        assert(q1[a] == q0[a + 1] && q1[b] == q0[b + 1]);
                    }
                    assert forall|a: int, b: int| 0 <= a < b < e1.len() implies #[trigger] e1[a].id != #[trigger] e1[b].id by {
                        assert(e1[a].id == e0[a].id && e1[b].id == e0[b].id);
                    }
                    assert forall|a: int| 0 <= a < e1.len() implies (#[trigger] e1[a].id).value() < self.next_id by {
                        assert(e1[a].id == e0[a].id);
                    }
                    assert forall|a: int| 0 <= a < e1.len() implies (#[trigger] e1[a]).state != AnimationState::Completed by {
                        if a != i {
                            assert(e1[a] == e0[a]);
                        }
                    }
                }
            },
            None => {
                proof {
                    let w = choose|w: int| 0 <= w < e0.len() && #[trigger] e0[w].id == q0[0].0
                        && e0[w].state == AnimationState::Queued && e0[w].priority == q0[0].1;
                    assert(self.entries()[w].id == id);
                }
            },
        }
    }

    /// Schedules `animation`: it waits in the queue behind every animation of
    /// at least its priority, then the head of the queue starts if fewer than
    /// the maximum run.
    pub fn queue_animation(
        &mut self,
        animation: A,
        target: AnimationTarget,
        priority: AnimationPriority,
        interruptible: bool,
    ) -> (id: AnimationId)
        requires
            old(self).wf(),
            old(self).next_id_spec() < u64::MAX,
        ensures
            final(self).wf(),
            id.value() == old(self).next_id_spec(),
            !old(self).has(id),
            final(self).next_id_spec() == old(self).next_id_spec() + 1,
            start_step(
                old(self).entries().push(
                    ManagedAnimation {
                        id,
                        animation,
                        priority,
                        state: AnimationState::Queued,
                        target,
                        interruptible,
                    },
                ),
                enqueue(old(self).waiting(), id, priority),
                old(self).max_concurrent_spec(),
                final(self).entries(),
                final(self).waiting(),
            ),
            final(self).max_concurrent_spec() == old(self).max_concurrent_spec(),
            final(self).frame_budget_spec() == old(self).frame_budget_spec(),
    {
        let ghost e0 = self.animations@;
        let ghost q0 = self.queue@;
        let id = AnimationId::new(&mut self.next_id);
        let pos = self.join_index(priority);
        self.animations.push(
            ManagedAnimation {
                id,
                animation,
                priority,
                state: AnimationState::Queued,
                target,
                interruptible,
            },
        );
        self.queue.insert(pos, (id, priority));
        proof {
            let e1 = self.animations@;
            let q1 = self.queue@;
            let n = e0.len() as int;
            assert forall|i: int| 0 <= i < e0.len() implies #[trigger] e0[i].id != id by {
                assert(e0[i].id.value() < id.value());
            }
            assert forall|k: int| 0 <= k < q0.len() implies #[trigger] q0[k].0 != id by {
                assert(holds_queued(e0, q0[k].0, q0[k].1));
                let w = choose|w: int| 0 <= w < e0.len() && #[trigger] e0[w].id == q0[k].0
                    && e0[w].state == AnimationState::Queued && e0[w].priority == q0[k].1;
                assert(e0[w].id != id);
            }
            assert forall|a: int, b: int| 0 <= a < b < e1.len() implies #[trigger] e1[a].id != #[trigger] e1[b].id by {
                if b == n {
                    assert(e1[a] == e0[a]);
                } else {
                    assert(e1[a] == e0[a] && e1[b] == e0[b]);
                }
            }
            assert forall|a: int| 0 <= a < e1.len() implies (#[trigger] e1[a].id).value() < self.next_id by {
                if a < n {
                    assert(e1[a] == e0[a]);
                }
            }
            assert forall|a: int| 0 <= a < e1.len() implies (#[trigger] e1[a]).state != AnimationState::Completed by {
                if a < n {
                    assert(e1[a] == e0[a]);
                }
            }
            assert forall|a: int, b: int| 0 <= a < b < q1.len() implies #[trigger] q1[a].0 != #[trigger] q1[b].0 by {
                if a < pos && b < pos {
                    assert(q1[a] == q0[a] && q1[b] == q0[b]);
                } else if a < pos && b == pos {
                    assert(q1[a] == q0[a]);
                } else if a < pos {
                    assert(q1[a] == q0[a] && q1[b] == q0[b - 1]);
                } else if a == pos {
                    assert(q1[b] == q0[b - 1]);
                } else {
                    assert(q1[a] == q0[a - 1] && q1[b] == q0[b - 1]);
                }
            }
            assert forall|a: int, b: int| 0 <= a < b < q1.len() implies rank(#[trigger] q1[a].1) >= rank(#[trigger] q1[b].1) by {
                if a < pos && b < pos {
                    assert(q1[a] == q0[a] && q1[b] == q0[b]);
                } else if a < pos && b == pos {
                    assert(q1[a] == q0[a]);
                } else if a < pos {
                    assert(q1[a] == q0[a] && q1[b] == q0[b - 1]);
                } else if a == pos {
                    assert(q1[b] == q0[b - 1]);
                } else {
                    assert(q1[a] == q0[a - 1] && q1[b] == q0[b - 1]);
                }
            }
            assert forall|k: int| 0 <= k < q1.len() implies holds_queued(e1, #[trigger] q1[k].0, q1[k].1) by {
                if k == pos {
                    assert(e1[n].id == id);
                } else {
                    let k0 = if k < pos { k } else { k - 1 };
                    assert(q1[k] == q0[k0]);
                    assert(holds_queued(e0, q0[k0].0, q0[k0].1));
                    let w = choose|w: int| 0 <= w < e0.len() && #[trigger] e0[w].id == q0[k0].0
                        && e0[w].state == AnimationState::Queued && e0[w].priority == q0[k0].1;
                    assert(e1[w] == e0[w]);
                }
            }
            assert forall|j: int| 0 <= j < e1.len() && (#[trigger] e1[j]).state == AnimationState::Queued
                implies queue_holds(q1, e1[j].id) by {
                if j == n {
                    assert(q1[pos as int].0 == id);
                } else {
                    assert(e1[j] == e0[j]);
                    assert(queue_holds(q0, e0[j].id));
                    let k = choose|k: int| 0 <= k < q0.len() && #[trigger] q0[k].0 == e0[j].id;
                    if k < pos {
                        assert(q1[k] == q0[k]);
                    } else {
                        assert(q1[k + 1] == q0[k]);
                    }
                }
            }
            assert(q1 == enqueue(q0, id, priority));
        }
        self.process_queue();
        id
    }

    /// Changing the state of one entry between states other than `Queued`
    /// and `Completed` keeps the invariant.
    proof fn lemma_wf_change(a: &Self, b: &Self, i: int)
        requires
            a.wf(),
            changed_at(a.entries(), b.entries(), i),
            a.entries()[i].state != AnimationState::Queued,
            a.entries()[i].state != AnimationState::Completed,
            b.entries()[i].state != AnimationState::Queued,
            b.entries()[i].state != AnimationState::Completed,
            a.waiting() == b.waiting(),
            a.next_id_spec() == b.next_id_spec(),
        ensures
            b.wf(),
    {
        let e0 = a.entries();
        let e1 = b.entries();
        let q = a.waiting();
        assert forall|x: int, y: int| 0 <= x < y < e1.len() implies #[trigger] e1[x].id != #[trigger] e1[y].id by {
            assert(e1[x].id == e0[x].id && e1[y].id == e0[y].id);
        }
        assert forall|x: int| 0 <= x < e1.len() implies (#[trigger] e1[x].id).value() < b.next_id_spec() by {
            assert(e1[x].id == e0[x].id);
        }
        assert forall|x: int| 0 <= x < e1.len() implies (#[trigger] e1[x]).state != AnimationState::Completed by {
            if x != i {
                assert(e1[x] == e0[x]);
            }
        }
        assert forall|k: int| 0 <= k < q.len() implies holds_queued(e1, #[trigger] q[k].0, q[k].1) by {
            assert(holds_queued(e0, q[k].0, q[k].1));
            let w = choose|w: int| 0 <= w < e0.len() && #[trigger] e0[w].id == q[k].0
                && e0[w].state == AnimationState::Queued && e0[w].priority == q[k].1;
            assert(w != i);
            assert(e1[w] == e0[w]);
        }
        assert forall|x: int| 0 <= x < e1.len() && (#[trigger] e1[x]).state == AnimationState::Queued
            implies queue_holds(q, e1[x].id) by {
            assert(x != i);
            assert(e1[x] == e0[x]);
        }
    }

    /// The index of a scheduled identifier is the one where it sits.
    proof fn lemma_index_of(&self, id: AnimationId, i: int)
        requires
            self.wf(),
            0 <= i < self.entries().len(),
            self.entries()[i].id == id,
        ensures
            self.has(id),
            self.index_of(id) == i,
    {
        assert(self.entries()[i].id == id);
        let j = self.index_of(id);
        if j != i {
            if j < i {
                assert(self.entries()[j].id != self.entries()[i].id);
            } else {
                assert(self.entries()[i].id != self.entries()[j].id);
            }
        }
    }

    /// Sets the state of entry `i`, stopping its animation if asked.
    fn set_state_at(&mut self, i: usize, state: AnimationState, stop: bool)
        requires
            i < old(self).entries().len(),
        ensures
            changed_at(old(self).entries(), final(self).entries(), i as int),
            final(self).entries()[i as int].state == state,
            stop ==> !final(self).entries()[i as int].animation.running(),
            !stop ==> final(self).entries()[i as int].animation == old(self).entries()[i as int].animation,
            final(self).waiting() == old(self).waiting(),
            final(self).max_concurrent_spec() == old(self).max_concurrent_spec(),
            final(self).frame_budget_spec() == old(self).frame_budget_spec(),
            final(self).next_id_spec() == old(self).next_id_spec(),
    {
        let ghost e0 = self.animations@;
        let mut e = self.animations.remove(i);
        e.state = state;
        if stop {
            e.animation.stop();
        }
        self.animations.insert(i, e);
        proof {
            let e1 = self.animations@;
            assert forall|j: int| 0 <= j < e0.len() && j != i implies #[trigger] e1[j] == e0[j] by {
                if j < i {
                    assert(e1[j] == e0[j]);
                } else {
                    assert(e1[j] == e0[j]);
                }
            }
        }
    }

    /// Interrupts a running, interruptible animation and stops it.
    /// Returns whether it did.
    pub fn interrupt_animation(&mut self, id: AnimationId) -> (r: bool)
        requires
            old(self).wf(),
        ensures
            final(self).wf(),
            r == (old(self).has(id) && old(self).entries()[old(self).index_of(id)].state
                == AnimationState::Running && old(self).entries()[old(self).index_of(id)].interruptible),
            r ==> changed_at(old(self).entries(), final(self).entries(), old(self).index_of(id))
                && final(self).entries()[old(self).index_of(id)].state == AnimationState::Interrupted
                && !final(self).entries()[old(self).index_of(id)].animation.running(),
            !r ==> final(self).entries() == old(self).entries(),
            final(self).waiting() == old(self).waiting(),
            final(self).max_concurrent_spec() == old(self).max_concurrent_spec(),
            final(self).frame_budget_spec() == old(self).frame_budget_spec(),
            final(self).next_id_spec() == old(self).next_id_spec(),
    {
        match self.position(id) {
            Some(i) => {
                proof {
                    self.lemma_index_of(id, i as int);
                }
                if self.animations[i].interruptible && self.animations[i].state == AnimationState::Running {
                    self.set_state_at(i, AnimationState::Interrupted, true);
                    proof {
                        Self::lemma_wf_change(old(self), self, i as int);
                    }
                    true
                } else {
                    false
                }
            },
            None => false,
        }
    }

    /// Pauses a running animation. Returns whether it did.
    pub fn pause_animation(&mut self, id: AnimationId) -> (r: bool)
        requires
            old(self).wf(),
        ensures
            final(self).wf(),
            old(self).paused_as(id, r, final(self)),
            final(self).waiting() == old(self).waiting(),
            final(self).max_concurrent_spec() == old(self).max_concurrent_spec(),
            final(self).frame_budget_spec() == old(self).frame_budget_spec(),
            final(self).next_id_spec() == old(self).next_id_spec(),
    {
        match self.position(id) {
            Some(i) => {
                proof {
                    self.lemma_index_of(id, i as int);
                }
                if self.animations[i].state == AnimationState::Running {
                    self.set_state_at(i, AnimationState::Paused, false);
                    proof {
                        Self::lemma_wf_change(old(self), self, i as int);
                    }
                    true
                } else {
                    false
                }
            },
            None => false,
        }
    }

    /// Resumes a paused animation. Returns whether it did.
    pub fn resume_animation(&mut self, id: AnimationId) -> (r: bool)
        requires
            old(self).wf(),
        ensures
            final(self).wf(),
            old(self).resumed_as(id, r, final(self)),
            final(self).waiting() == old(self).waiting(),
            final(self).max_concurrent_spec() == old(self).max_concurrent_spec(),
            final(self).frame_budget_spec() == old(self).frame_budget_spec(),
            final(self).next_id_spec() == old(self).next_id_spec(),
    {
        match self.position(id) {
            Some(i) => {
                proof {
                    self.lemma_index_of(id, i as int);
                }
                if self.animations[i].state == AnimationState::Paused {
                    self.set_state_at(i, AnimationState::Running, false);
                    proof {
                        Self::lemma_wf_change(old(self), self, i as int);
                    }
                    true
                } else {
                    false
                }
            },
            None => false,
        }
    }

    /// The state of `id`, if it is scheduled.
    pub fn get_animation_state(&self, id: AnimationId) -> (r: Option<AnimationState>)
        requires
            self.wf(),
        ensures
            r == self.state_of(id),
    {
        match self.position(id) {
            Some(i) => {
                proof {
                    self.lemma_index_of(id, i as int);
                }
                Some(self.animations[i].state)
            },
            None => None,
        }
    }

    /// Whether `id` is running.
    pub fn is_animation_running(&self, id: AnimationId) -> (r: bool)
        requires
            self.wf(),
        ensures
            r == (self.state_of(id) == Some(AnimationState::Running)),
    {
        match self.get_animation_state(id) {
            Some(st) => st == AnimationState::Running,
            None => false,
        }
    }

    /// Whether some running animation animates `target`.
    pub fn has_animations_for_target(&self, target: &AnimationTarget) -> (r: bool)
        ensures
            r == exists|i: int|
                0 <= i < self.entries().len() && same_target(#[trigger] self.entries()[i].target, *target)
                    && self.entries()[i].state == AnimationState::Running,
    {
        let mut i: usize = 0;
        while i < self.animations.len()
            invariant
                i <= self.animations@.len(),
                forall|j: int|
                    0 <= j < i ==> !(same_target(#[trigger] self.animations@[j].target, *target)
                        && self.animations@[j].state == AnimationState::Running),
            decreases self.animations@.len() - i,
        {
            if self.animations[i].target.same_as(target) && self.animations[i].state == AnimationState::Running {
                return true;
            }
            i = i + 1;
        }
        false
    }

    /// Removes completed animations (none are ever kept, so nothing changes).
    pub fn clear_completed(&mut self)
        requires
            old(self).wf(),
        ensures
            final(self).wf(),
            final(self).entries() == old(self).entries(),
            final(self).waiting() == old(self).waiting(),
            final(self).max_concurrent_spec() == old(self).max_concurrent_spec(),
            final(self).frame_budget_spec() == old(self).frame_budget_spec(),
            final(self).next_id_spec() == old(self).next_id_spec(),
    {
        let mut i: usize = 0;
        while i < self.animations.len()
            invariant
                i <= self.animations@.len(),
                self.animations@ == old(self).animations@,
                self.queue@ == old(self).queue@,
                self.max_concurrent == old(self).max_concurrent,
                self.frame_budget_ms == old(self).frame_budget_ms,
                self.next_id == old(self).next_id,
                old(self).wf(),
            decreases self.animations@.len() - i,
        {
            if self.animations[i].state == AnimationState::Completed {
                proof {
                    assert(old(self).entries()[i as int].state != AnimationState::Completed);
                }
                self.animations.remove(i);
            } else {
                i = i + 1;
            }
        }
        proof {
            Self::lemma_wf_same(old(self), self);
        }
    }

    /// Counts of the scheduled animations by state.
    pub fn get_stats(&self) -> (s: AnimationStats)
        ensures
            s.total == self.entries().len(),
            s.queued == count_state(self.entries(), AnimationState::Queued),
            s.running == count_state(self.entries(), AnimationState::Running),
            s.paused == count_state(self.entries(), AnimationState::Paused),
            s.completed == count_state(self.entries(), AnimationState::Completed),
            s.interrupted == count_state(self.entries(), AnimationState::Interrupted),
    {
        let mut s = AnimationStats::default();
        let mut i: usize = 0;
        while i < self.animations.len()
            invariant
                i <= self.animations@.len(),
                s.queued == count_state(self.animations@.subrange(0, i as int), AnimationState::Queued),
                s.running == count_state(self.animations@.subrange(0, i as int), AnimationState::Running),
                s.paused == count_state(self.animations@.subrange(0, i as int), AnimationState::Paused),
                s.completed == count_state(self.animations@.subrange(0, i as int), AnimationState::Completed),
                s.interrupted == count_state(self.animations@.subrange(0, i as int), AnimationState::Interrupted),
                s.queued <= i && s.running <= i && s.paused <= i && s.completed <= i && s.interrupted <= i,
            decreases self.animations@.len() - i,
        {
            proof {
                assert(self.animations@.subrange(0, i + 1).drop_last() =~= self.animations@.subrange(0, i as int));
            }
            match self.animations[i].state {
                AnimationState::Queued => s.queued = s.queued + 1,
                AnimationState::Running => s.running = s.running + 1,
                AnimationState::Paused => s.paused = s.paused + 1,
                AnimationState::Completed => s.completed = s.completed + 1,
                AnimationState::Interrupted => s.interrupted = s.interrupted + 1,
            }
            i = i + 1;
        }
        proof {
            assert(self.animations@.subrange(0, i as int) =~= self.animations@);
        }
        s.total = self.animations.len();
        s
    }

    /// Position of `id` in the queue.
    fn queue_position(&self, id: AnimationId) -> (r: Option<usize>)
        ensures
            match r {
                Some(k) => k < self.waiting().len() && self.waiting()[k as int].0 == id,
                None => !queue_holds(self.waiting(), id),
            },
    {
        let mut k: usize = 0;
        while k < self.queue.len()
            invariant
                k <= self.queue@.len(),
                forall|j: int| 0 <= j < k ==> self.queue@[j].0 != id,
            decreases self.queue@.len() - k,
        {
            if self.queue[k].0 == id {
                return Some(k);
            }
            k = k + 1;
        }
        None
    }

    /// Removes `id` from the queue and from the scheduled animations.
    /// Returns whether it was scheduled.
    pub fn cancel_animation(&mut self, id: AnimationId) -> (r: bool)
        requires
            old(self).wf(),
        ensures
            final(self).wf(),
            r == old(self).has(id),
            r ==> final(self).entries() == old(self).entries().remove(old(self).index_of(id)),
            !r ==> final(self).entries() == old(self).entries(),
            final(self).waiting() == dequeue(old(self).waiting(), id),
            !final(self).has(id),
            final(self).max_concurrent_spec() == old(self).max_concurrent_spec(),
            final(self).frame_budget_spec() == old(self).frame_budget_spec(),
            final(self).next_id_spec() == old(self).next_id_spec(),
    {
        let ghost e0 = self.animations@;
        let ghost q0 = self.queue@;
        let qk = self.queue_position(id);
        match qk {
            Some(k) => {
                self.queue.remove(k);
                proof {
                    assert(queue_holds(q0, id));
                    let c = queue_index_of(q0, id);
                    if c != k {
                        if c < k {
                            assert(q0[c].0 != q0[k as int].0);
                        } else {
                            assert(q0[k as int].0 != q0[c].0);
                        }
                    }
                }
            },
            None => {},
        }
        let ghost q1 = self.queue@;
        proof {
            assert(q1 == dequeue(q0, id));
        }
        let found = self.position(id);
        match found {
            Some(i) => {
                proof {
                    old(self).lemma_index_of(id, i as int);
                }
                self.animations.remove(i);
            },
            None => {},
        }
        proof {
            let e1 = self.animations@;
            // facts about the queue after removal
            assert forall|a: int| 0 <= a < q1.len() implies #[trigger] q1[a].0 != id by {
                match qk {
                    Some(k) => {
                        let b = if a < k { a } else { a + 1 };
                        assert(q1[a] == q0[b]);
                        assert(q0[b].0 != q0[k as int].0);
                    },
                    None => {
                        assert(q1[a] == q0[a]);
                    },
                }
            }
            assert forall|x: int, y: int| 0 <= x < y < q1.len() implies #[trigger] q1[x].0 != #[trigger] q1[y].0 by {
                match qk {
                    Some(k) => {
                        let bx = if x < k { x } else { x + 1 };
                        let by_ = if y < k { y } else { y + 1 };
                        assert(q1[x] == q0[bx] && q1[y] == q0[by_]);
                    },
                    None => {},
                }
            }
            assert forall|x: int, y: int| 0 <= x < y < q1.len() implies rank(#[trigger] q1[x].1) >= rank(#[trigger] q1[y].1) by {
                match qk {
                    Some(k) => {
                        let bx = if x < k { x } else { x + 1 };
                        let by_ = if y < k { y } else { y + 1 };
                        assert(q1[x] == q0[bx] && q1[y] == q0[by_]);
                    },
                    None => {},
                }
            }
            assert forall|x: int, y: int| 0 <= x < y < e1.len() implies #[trigger] e1[x].id != #[trigger] e1[y].id by {
                match found {
                    Some(i) => {
                        let bx = if x < i { x } else { x + 1 };
                        let by_ = if y < i { y } else { y + 1 };
                        assert(e1[x] == e0[bx] && e1[y] == e0[by_]);
                    },
                    None => {},
                }
            }
            assert forall|x: int| 0 <= x < e1.len() implies (#[trigger] e1[x].id).value() < self.next_id by {
                match found {
                    Some(i) => {
                        let bx = if x < i { x } else { x + 1 };
                        assert(e1[x] == e0[bx]);
                    },
                    None => {},
                }
            }
            assert forall|x: int| 0 <= x < e1.len() implies (#[trigger] e1[x]).state != AnimationState::Completed by {
                match found {
                    Some(i) => {
                        let bx = if x < i { x } else { x + 1 };
                        assert(e1[x] == e0[bx]);
                    },
                    None => {},
                }
            }
            assert forall|a: int| 0 <= a < q1.len() implies holds_queued(e1, #[trigger] q1[a].0, q1[a].1) by {
                let b = match qk { Some(k) => if a < k { a } else { a + 1 }, None => a };
                assert(q1[a] == q0[b]);
                assert(holds_queued(e0, q0[b].0, q0[b].1));
                let w = choose|w: int| 0 <= w < e0.len() && #[trigger] e0[w].id == q0[b].0
                    && e0[w].state == AnimationState::Queued && e0[w].priority == q0[b].1;
                assert(q1[a].0 != id);
                match found {
                    Some(i) => {
                        assert(w != i);
                        let w1 = if w < i { w } else { w - 1 };
                        assert(e1[w1] == e0[w]);
                    },
                    None => {
                        assert(e1[w] == e0[w]);
                    },
                }
            }
            assert forall|x: int| 0 <= x < e1.len() && (#[trigger] e1[x]).state == AnimationState::Queued
                implies queue_holds(q1, e1[x].id) by {
                let bx = match found { Some(i) => if x < i { x } else { x + 1 }, None => x };
                assert(e1[x] == e0[bx]);
                assert(queue_holds(q0, e0[bx].id));
                let c = choose|c: int| 0 <= c < q0.len() && #[trigger] q0[c].0 == e0[bx].id;
                match found {
                    Some(i) => {
                        assert(bx != i);
                        assert(e0[bx].id != e0[i as int].id);
                    },
                    None => {},
                }
                assert(e0[bx].id != id);
                match qk {
                    Some(k) => {
                        assert(c != k);
                        let c1 = if c < k { c } else { c - 1 };
                        assert(q1[c1] == q0[c]);
                    },
                    None => {
                        assert(q1[c] == q0[c]);
                    },
                }
            }
            match found {
                Some(i) => {
                    assert(e1 == e0.remove(i as int));
                },
                None => {},
            }
            assert forall|x: int| 0 <= x < e1.len() implies #[trigger] e1[x].id != id by {
                match found {
                    Some(i) => {
                        let bx = if x < i { x } else { x + 1 };
                        assert(e1[x] == e0[bx]);
                        assert(e0[bx].id != e0[i as int].id);
                    },
                    None => {
                        assert(e1[x] == e0[x]);
                    },
                }
            }
        }
        found.is_some()
    }

    /// Starts `animation` at once, bypassing the queue and the cap, after
    /// interrupting every running, interruptible animation of the same target
    /// with a lower priority. The new animation cannot be interrupted.
    pub fn start_immediate(
        &mut self,
        animation: A,
        target: AnimationTarget,
        priority: AnimationPriority,
    ) -> (id: AnimationId)
        requires
            old(self).wf(),
            old(self).next_id_spec() < u64::MAX,
        ensures
            final(self).wf(),
            id.value() == old(self).next_id_spec(),
            !old(self).has(id),
            final(self).next_id_spec() == old(self).next_id_spec() + 1,
            final(self).entries().len() == old(self).entries().len() + 1,
            forall|j: int|
                0 <= j < old(self).entries().len() ==> if displaced_by(
                    #[trigger] old(self).entries()[j],
                    target,
                    priority,
                ) {
                    same_identity(final(self).entries()[j], old(self).entries()[j])
                        && final(self).entries()[j].state == AnimationState::Interrupted
                        && !final(self).entries()[j].animation.running()
                } else {
                    final(self).entries()[j] == old(self).entries()[j]
                },
            ({
                let n = final(self).entries().last();
                &&& n.id == id
                &&& n.priority == priority
                &&& n.target == target
                &&& n.state == AnimationState::Running
                &&& !n.interruptible
                &&& n.animation.running()
            }),
            final(self).waiting() == old(self).waiting(),
            final(self).max_concurrent_spec() == old(self).max_concurrent_spec(),
            final(self).frame_budget_spec() == old(self).frame_budget_spec(),
    {
        let ghost e0 = self.animations@;
        let lp = priority.level();
        let mut i: usize = 0;
        while i < self.animations.len()
            invariant
                self.wf(),
                i <= self.animations@.len(),
                lp == rank(priority),
                self.animations@.len() == e0.len(),
                self.queue@ == old(self).queue@,
                self.next_id == old(self).next_id,
                self.max_concurrent == old(self).max_concurrent,
                self.frame_budget_ms == old(self).frame_budget_ms,
                forall|j: int|
                    0 <= j < i ==> if displaced_by(#[trigger] e0[j], target, priority) {
                        same_identity(self.animations@[j], e0[j])
                            && self.animations@[j].state == AnimationState::Interrupted
                            && !self.animations@[j].animation.running()
                    } else {
                        self.animations@[j] == e0[j]
                    },
                forall|j: int| i <= j < e0.len() ==> #[trigger] self.animations@[j] == e0[j],
            decreases e0.len() - i,
        {
            let ghost before = self.animations@;
            if self.animations[i].target.same_as(&target)
                && self.animations[i].state == AnimationState::Running
                && self.animations[i].interruptible
                && self.animations[i].priority.level() < lp
            {
                let ghost snapshot = *self;
                self.set_state_at(i, AnimationState::Interrupted, true);
                proof {
                    Self::lemma_wf_change(&snapshot, self, i as int);
                    assert forall|j: int| 0 <= j < e0.len() && j != i implies #[trigger] self.animations@[j] == before[j] by {
                        assert(self.entries()[j] == snapshot.entries()[j]);
                    }
                }
            }
            i = i + 1;
        }
        let ghost e1 = self.animations@;
        let id = AnimationId::new(&mut self.next_id);
        let mut anim = animation;
        anim.start(true);
        self.animations.push(
            ManagedAnimation {
                id,
                animation: anim,
                priority,
                state: AnimationState::Running,
                target,
                interruptible: false,
            },
        );
        proof {
            let e2 = self.animations@;
            let n = e1.len() as int;
            let q = self.queue@;
            assert forall|j: int| 0 <= j < n implies #[trigger] e2[j] == e1[j] by {}
            assert forall|j: int| 0 <= j < e0.len() implies #[trigger] e0[j].id != id by {
                assert(e0[j].id.value() < id.value());
            }
            assert forall|j: int| 0 <= j < n implies #[trigger] e1[j].id != id by {
                assert(e1[j].id.value() < id.value());
            }
            assert forall|x: int, y: int| 0 <= x < y < e2.len() implies #[trigger] e2[x].id != #[trigger] e2[y].id by {
                if y == n {
                    assert(e2[x] == e1[x]);
                } else {
                    assert(e2[x] == e1[x] && e2[y] == e1[y]);
                }
            }
            assert forall|x: int| 0 <= x < e2.len() implies (#[trigger] e2[x].id).value() < self.next_id by {
                if x < n {
                    assert(e2[x] == e1[x]);
                }
            }
            assert forall|x: int| 0 <= x < e2.len() implies (#[trigger] e2[x]).state != AnimationState::Completed by {
                if x < n {
                    assert(e2[x] == e1[x]);
                }
            }
            assert forall|k: int| 0 <= k < q.len() implies holds_queued(e2, #[trigger] q[k].0, q[k].1) by {
                let w = choose|w: int| 0 <= w < e1.len() && #[trigger] e1[w].id == q[k].0
                    && e1[w].state == AnimationState::Queued && e1[w].priority == q[k].1;
                assert(e2[w] == e1[w]);
            }
            assert forall|x: int| 0 <= x < e2.len() && (#[trigger] e2[x]).state == AnimationState::Queued
                implies queue_holds(q, e2[x].id) by {
                assert(x != n);
                assert(e2[x] == e1[x]);
            }
        }
        id
    }

    /// Sweeping finished animations keeps the invariant.
    proof fn lemma_sweep_wf(a: &Self, b: &Self, c: int)
        requires
            a.wf(),
            b.entries() == sweep(a.entries(), c),
            b.waiting() == a.waiting(),
            b.next_id_spec() == a.next_id_spec(),
        ensures
            b.wf(),
    {
        let e0 = a.entries();
        let e1 = b.entries();
        let q = a.waiting();
        lemma_sweep_from(e0, c);
        lemma_sweep_unique(e0, c);
        assert forall|x: int| 0 <= x < e1.len() implies (#[trigger] e1[x].id).value() < b.next_id_spec() by {
            let w = choose|w: int| 0 <= w < e0.len() && #[trigger] sweep(e0, c)[x] == #[trigger] e0[w] && !(w < c && finished(e0[w]));
        }
        assert forall|x: int| 0 <= x < e1.len() implies (#[trigger] e1[x]).state != AnimationState::Completed by {
            let w = choose|w: int| 0 <= w < e0.len() && #[trigger] sweep(e0, c)[x] == #[trigger] e0[w] && !(w < c && finished(e0[w]));
        }
        assert forall|k: int| 0 <= k < q.len() implies holds_queued(e1, #[trigger] q[k].0, q[k].1) by {
            assert(holds_queued(e0, q[k].0, q[k].1));
            let w = choose|w: int| 0 <= w < e0.len() && #[trigger] e0[w].id == q[k].0
                && e0[w].state == AnimationState::Queued && e0[w].priority == q[k].1;
            assert(!finished(e0[w]));
            lemma_sweep_keeps(e0, c, w);
            let y = choose|y: int| 0 <= y < sweep(e0, c).len() && #[trigger] sweep(e0, c)[y] == e0[w];
            assert(e1[y].id == q[k].0);
        }
        assert forall|x: int| 0 <= x < e1.len() && (#[trigger] e1[x]).state == AnimationState::Queued
            implies queue_holds(q, e1[x].id) by {
            let w = choose|w: int| 0 <= w < e0.len() && #[trigger] sweep(e0, c)[x] == #[trigger] e0[w] && !(w < c && finished(e0[w]));
            assert(e0[w].state == AnimationState::Queued);
        }
    }

    /// Removes the running animations that have finished, examining them in
    /// order until the frame budget is spent, then starts the head of the
    /// queue if there is room. Before each running entry it reads the clock;
    /// it stops at the first entry read over the budget (`c`), and
    /// `r.readings` holds what it read.
    pub fn update(&mut self) -> (r: UpdateOutcome)
        requires
            old(self).wf(),
        ensures
            final(self).wf(),
            exists|c: int|
                0 <= c <= old(self).entries().len() && (c < old(self).entries().len()
                    ==> old(self).entries()[c].state == AnimationState::Running) && stopped_by_clock(
                    old(self).entries(),
                    r.readings@,
                    c,
                    old(self).frame_budget_spec(),
                ) && r.completed@
                    == swept_ids(old(self).entries(), c) && r.needs_redraw == redraw_needed(
                    old(self).entries(),
                    c,
                ) && start_step(
                    sweep(old(self).entries(), c),
                    old(self).waiting(),
                    old(self).max_concurrent_spec(),
                    final(self).entries(),
                    final(self).waiting(),
                ),
            final(self).max_concurrent_spec() == old(self).max_concurrent_spec(),
            final(self).frame_budget_spec() == old(self).frame_budget_spec(),
            final(self).next_id_spec() == old(self).next_id_spec(),
    {
        let ghost e0 = self.animations@;
        let ghost n = e0.len() as int;
        let frame_start = crate::animation::instant_now();
        let budget = self.frame_budget_ms;
        let mut pending: Vec<ManagedAnimation<A>> = Vec::new();
        std::mem::swap(&mut pending, &mut self.animations);
        let mut completed: Vec<AnimationId> = Vec::new();
        let mut needs_redraw = false;
        let mut cut = false;
        let ghost mut c: int = n;
        let ghost mut i: int = 0;
        let ghost mut readings: Seq<Option<u128>> = Seq::new(n as nat, |j: int| None);
        while pending.len() > 0
            invariant
                0 <= i <= n,
                readings.len() == n,
                forall|j: int|
                    0 <= j < i && j < c && (#[trigger] e0[j]).state == AnimationState::Running ==> (
                    readings[j] matches Some(ns) && !exceeds(ns, budget)),
                cut ==> (readings[c] matches Some(ns) && exceeds(ns, budget)),
                budget == old(self).frame_budget_ms,
                n == e0.len(),
                e0 == old(self).animations@,
                self.queue@ == old(self).queue@,
                self.next_id == old(self).next_id,
                self.max_concurrent == old(self).max_concurrent,
                self.frame_budget_ms == old(self).frame_budget_ms,
                pending@ == e0.subrange(i, n),
                cut ==> 0 <= c < i && e0[c].state == AnimationState::Running,
                !cut ==> c == n,
                self.animations@ == sweep(e0.subrange(0, i), c),
                completed@ == swept_ids(e0.subrange(0, i), c),
                needs_redraw == (cut || exists|j: int|
                    0 <= j < i && (#[trigger] e0[j]).state == AnimationState::Running
                        && e0[j].animation.running()),
            decreases pending@.len(),
        {
            let ghost before = e0.subrange(0, i);
            let e = pending.remove(0);
            proof {
                assert(e == e0[i]);
                assert(e0.subrange(0, i + 1).drop_last() =~= before);
                assert(e0.subrange(0, i + 1).last() == e0[i]);
            }
            if !cut && e.state == AnimationState::Running {
                let elapsed = crate::animation::instant_elapsed(&frame_start);
                let ns = crate::animation::duration_nanos(&elapsed);
                proof {
                    readings = readings.update(i, Some(ns));
                }
                if over_budget(ns, budget) {
                    needs_redraw = true;
                    cut = true;
                    proof {
                        lemma_sweep_past_end(before, n, i);
                        c = i;
                    }
                    self.animations.push(e);
                } else if !e.animation.is_animating() {
                    completed.push(e.id);
                } else {
                    needs_redraw = true;
                    self.animations.push(e);
                }
            } else {
                self.animations.push(e);
            }
            proof {
                i = i + 1;
                assert(pending@ =~= e0.subrange(i, n));
            }
        }
        proof {
            assert(e0.subrange(0, n) =~= e0);
            assert(i == n);
            if !cut {
                assert(needs_redraw == redraw_needed(e0, c));
            } else {
                assert(needs_redraw == redraw_needed(e0, c));
            }
            Self::lemma_sweep_wf(old(self), self, c);
        }
        let ghost mid_e = self.animations@;
        let ghost mid_q = self.queue@;
        self.process_queue();
        proof {
            assert(mid_e == sweep(e0, c));
            assert(start_step(sweep(e0, c), old(self).waiting(), old(self).max_concurrent_spec(), self.entries(), self.waiting()));
            assert(completed@ == swept_ids(e0, c));
        }
        proof {
            assert(stopped_by_clock(e0, readings, c, budget));
        }
        UpdateOutcome { needs_redraw, completed, readings: Ghost(readings) }
    }

    /// When the next frame is due: the earliest of the frame times that the
    /// running animations report, `frame_times[i]` being what entry `i`'s
    /// animation reports (from its easing curve); none when no running
    /// animation reports one.
    pub fn get_next_frame_time(&self, frame_times: &Vec<Option<std::time::Instant>>) -> (t: Option<
        std::time::Instant,
    >)
        ensures
            t == earliest_frame(self.entries(), frame_times@, self.entries().len() as int),
    {
        let mut earliest: Option<std::time::Instant> = None;
        let mut i: usize = 0;
        while i < self.animations.len()
            invariant
                i <= self.animations@.len(),
                earliest == earliest_frame(self.entries(), frame_times@, i as int),
            decreases self.animations@.len() - i,
        {
            if self.animations[i].state == AnimationState::Running && i < frame_times.len() {
                match frame_times[i] {
                    Some(next) => {
                        earliest = match earliest {
                            Some(a) => Some(if crate::animation::instant_lt(&next, &a) { next } else { a }),
                            None => Some(next),
                        };
                    },
                    None => {},
                }
            }
            i = i + 1;
        }
        earliest
    }

    /// Number of running animations.
    fn running_count(&self) -> (n: usize)
        ensures
            n == count_state(self.entries(), AnimationState::Running),
    {
        let mut n: usize = 0;
        let mut i: usize = 0;
        while i < self.animations.len()
            invariant
                i <= self.animations@.len(),
                n == count_state(self.animations@.subrange(0, i as int), AnimationState::Running),
                n <= i,
            decreases self.animations@.len() - i,
        {
            proof {
                assert(self.animations@.subrange(0, i + 1).drop_last() =~= self.animations@.subrange(0, i as int));
            }
            if self.animations[i].state == AnimationState::Running {
                n = n + 1;
            }
            i = i + 1;
        }
        proof {
            assert(self.animations@.subrange(0, i as int) =~= self.animations@);
        }
        n
    }
}


/// Entries with the same states are counted alike.
proof fn lemma_count_same<A>(e0: Seq<ManagedAnimation<A>>, e1: Seq<ManagedAnimation<A>>, st: AnimationState)
    requires
        e0.len() == e1.len(),
        forall|j: int| 0 <= j < e0.len() ==> #[trigger] e1[j].state == e0[j].state,
    ensures
        count_state(e1, st) == count_state(e0, st),
    decreases e0.len(),
{
    if e0.len() > 0 {
        lemma_count_same(e0.drop_last(), e1.drop_last(), st);
    }
}

/// Changing the state of one entry moves it from one count to another.
proof fn lemma_count_change<A>(
    e0: Seq<ManagedAnimation<A>>,
    e1: Seq<ManagedAnimation<A>>,
    i: int,
    st: AnimationState,
)
    requires
        e0.len() == e1.len(),
        0 <= i < e0.len(),
        forall|j: int| 0 <= j < e0.len() && j != i ==> #[trigger] e1[j].state == e0[j].state,
    ensures
        count_state(e1, st) + (if e0[i].state == st { 1int } else { 0int }) == count_state(e0, st)
            + (if e1[i].state == st { 1int } else { 0int }),
    decreases e0.len(),
{
    let d0 = e0.drop_last();
    let d1 = e1.drop_last();
    if i == e0.len() - 1 {
        lemma_count_same(d0, d1, st);
    } else {
        lemma_count_change(d0, d1, i, st);
    }
}

/// The counts of the five states add up to the number of entries.
proof fn lemma_counts_sum<A>(e: Seq<ManagedAnimation<A>>)
    ensures
        count_state(e, AnimationState::Queued) + count_state(e, AnimationState::Running)
            + count_state(e, AnimationState::Paused) + count_state(e, AnimationState::Completed)
            + count_state(e, AnimationState::Interrupted) == e.len(),
    decreases e.len(),
{
    if e.len() > 0 {
        lemma_counts_sum(e.drop_last());
    }
}

/// A state that no entry is in counts zero.
proof fn lemma_count_absent<A>(e: Seq<ManagedAnimation<A>>, st: AnimationState)
    requires
        forall|j: int| 0 <= j < e.len() ==> (#[trigger] e[j]).state != st,
    ensures
        count_state(e, st) == 0,
    decreases e.len(),
{
    if e.len() > 0 {
        assert(e[e.len() - 1].state != st);
        lemma_count_absent(e.drop_last(), st);
    }
}

/// Every scheduled animation is counted in exactly one state of the
/// statistics, and none is ever counted as completed: finished animations
/// leave the scheduler.
pub proof fn law_stats_account_for_every_animation<A: Animate>(c: &AnimationCoordinator<A>)
    requires
        c.wf(),
    ensures
        count_state(c.entries(), AnimationState::Queued) + count_state(c.entries(), AnimationState::Running)
            + count_state(c.entries(), AnimationState::Paused) + count_state(c.entries(), AnimationState::Completed)
            + count_state(c.entries(), AnimationState::Interrupted) == c.entries().len(),
        count_state(c.entries(), AnimationState::Completed) == 0,
{
    lemma_counts_sum(c.entries());
    lemma_count_absent(c.entries(), AnimationState::Completed);
}

/// Starting queued animations never makes more than the cap run at once,
/// when no more than the cap ran before.
pub proof fn law_start_respects_cap<A: Animate>(
    e0: Seq<ManagedAnimation<A>>,
    q0: Seq<(AnimationId, AnimationPriority)>,
    max: usize,
    e1: Seq<ManagedAnimation<A>>,
    q1: Seq<(AnimationId, AnimationPriority)>,
)
    requires
        start_step(e0, q0, max, e1, q1),
        count_state(e0, AnimationState::Running) <= max,
    ensures
        count_state(e1, AnimationState::Running) <= max,
{
    if !(count_state(e0, AnimationState::Running) >= max || q0.len() == 0) {
        let i = choose|i: int|
            0 <= i < e0.len() && #[trigger] e0[i].id == q0[0].0 && same_identity(e0[i], e1[i])
                && e1[i].state == AnimationState::Running && e1[i].animation.running() && forall|
                j: int,
            | 0 <= j < e0.len() && j != i ==> #[trigger] e1[j] == e0[j];
        assert forall|j: int| 0 <= j < e0.len() && j != i implies #[trigger] e1[j].state == e0[j].state by {
            assert(e1[j] == e0[j]);
        }
        lemma_count_change(e0, e1, i, AnimationState::Running);
    }
}

/// The animation that starts is a waiting one of the highest waiting
/// priority.
pub proof fn law_highest_priority_starts_first<A: Animate>(
    c: &AnimationCoordinator<A>,
    e1: Seq<ManagedAnimation<A>>,
    q1: Seq<(AnimationId, AnimationPriority)>,
)
    requires
        c.wf(),
        start_step(c.entries(), c.waiting(), c.max_concurrent_spec(), e1, q1),
        count_state(c.entries(), AnimationState::Running) < c.max_concurrent_spec(),
        c.waiting().len() > 0,
    ensures
        exists|i: int|
            0 <= i < c.entries().len() && (#[trigger] c.entries()[i]).state == AnimationState::Queued
                && e1[i].state == AnimationState::Running && forall|k: int|
                0 <= k < c.waiting().len() ==> rank(c.entries()[i].priority) >= rank(
                    #[trigger] c.waiting()[k].1,
                ),
{
    let e0 = c.entries();
    let q0 = c.waiting();
    let i = choose|i: int|
        0 <= i < e0.len() && #[trigger] e0[i].id == q0[0].0 && same_identity(e0[i], e1[i])
            && e1[i].state == AnimationState::Running && e1[i].animation.running() && forall|
            j: int,
        | 0 <= j < e0.len() && j != i ==> #[trigger] e1[j] == e0[j];
    assert(holds_queued(e0, q0[0].0, q0[0].1));
    let w = choose|w: int|
        0 <= w < e0.len() && #[trigger] e0[w].id == q0[0].0 && e0[w].state == AnimationState::Queued
            && e0[w].priority == q0[0].1;
    if w != i {
        if w < i {
            assert(e0[w].id != e0[i].id);
        } else {
            assert(e0[i].id != e0[w].id);
        }
    }
    assert forall|k: int| 0 <= k < q0.len() implies rank(e0[i].priority) >= rank(#[trigger] q0[k].1) by {
        if k > 0 {
            assert(rank(q0[0].1) >= rank(q0[k].1));
        }
    }
}

/// Pausing a running animation and then resuming it leaves the scheduled
/// animations as they were.
pub proof fn law_pause_then_resume<A: Animate>(
    c0: &AnimationCoordinator<A>,
    c1: &AnimationCoordinator<A>,
    c2: &AnimationCoordinator<A>,
    id: AnimationId,
    r1: bool,
    r2: bool,
)
    requires
        c0.wf(),
        c1.wf(),
        c0.state_of(id) == Some(AnimationState::Running),
        c0.paused_as(id, r1, c1),
        c1.resumed_as(id, r2, c2),
    ensures
        r1,
        r2,
        c2.entries() == c0.entries(),
        c2.waiting() == c0.waiting(),
{
    let i = c0.index_of(id);
    assert(c1.entries()[i].id == id);
    c1.lemma_index_of(id, i);
    assert(c2.entries().len() == c0.entries().len());
    assert forall|j: int| 0 <= j < c0.entries().len() implies #[trigger] c2.entries()[j] == c0.entries()[j] by {
        if j != i {
            assert(c1.entries()[j] == c0.entries()[j]);
        }
    }
    assert(c2.entries() =~= c0.entries());
}


/// Everything before the join position ranks at least `p`; the entry at it
/// (if any) ranks below.
proof fn lemma_join_position_bounds(q: Seq<(AnimationId, AnimationPriority)>, p: AnimationPriority)
    ensures
        0 <= join_position(q, p) <= q.len(),
        forall|j: int| 0 <= j < join_position(q, p) ==> rank(#[trigger] q[j].1) >= rank(p),
        join_position(q, p) < q.len() ==> rank(q[join_position(q, p)].1) < rank(p),
    decreases q.len(),
{
    if q.len() > 0 && rank(q[0].1) >= rank(p) {
        let r = q.drop_first();
        lemma_join_position_bounds(r, p);
        assert forall|j: int| 0 <= j < join_position(q, p) implies rank(#[trigger] q[j].1) >= rank(p) by {
            if j > 0 {
                assert(q[j] == r[j - 1]);
            }
        }
        if join_position(q, p) < q.len() {
            assert(q[join_position(q, p)] == r[join_position(r, p)]);
        }
    }
}

/// Queueing keeps the queue ordered by priority, and a newly queued
/// animation waits behind every waiting one of at least its priority (first
/// come, first served among equals) and ahead of every one of lower priority.
pub proof fn law_queue_order(q: Seq<(AnimationId, AnimationPriority)>, id: AnimationId, p: AnimationPriority)
    requires
        queue_sorted(q),
    ensures
        queue_sorted(enqueue(q, id, p)),
        enqueue(q, id, p).len() == q.len() + 1,
        enqueue(q, id, p)[join_position(q, p)] == (id, p),
        forall|k: int| 0 <= k < q.len() && rank(#[trigger] q[k].1) >= rank(p) ==> k < join_position(q, p)
            && enqueue(q, id, p)[k] == q[k],
        forall|k: int| 0 <= k < q.len() && rank(#[trigger] q[k].1) < rank(p) ==> join_position(q, p) <= k
            && enqueue(q, id, p)[k + 1] == q[k],
{
    lemma_join_position_bounds(q, p);
    let jp = join_position(q, p);
    let e = enqueue(q, id, p);
    assert forall|k: int| 0 <= k < q.len() && rank(#[trigger] q[k].1) >= rank(p) implies k < jp && e[k] == q[k] by {
        if k >= jp {
            assert(rank(q[jp].1) >= rank(q[k].1));
        }
    }
    assert forall|k: int| 0 <= k < q.len() && rank(#[trigger] q[k].1) < rank(p) implies jp <= k && e[k + 1] == q[k] by {
        if k < jp {
            assert(rank(q[k].1) >= rank(p));
        }
    }
    assert forall|a: int, b: int| 0 <= a < b < e.len() implies rank(#[trigger] e[a].1) >= rank(#[trigger] e[b].1) by {
        if a < jp && b < jp {
            assert(e[a] == q[a] && e[b] == q[b]);
        } else if a < jp && b == jp {
            assert(e[a] == q[a]);
        } else if a < jp {
            assert(e[a] == q[a] && e[b] == q[b - 1]);
        } else if a == jp {
            assert(e[b] == q[b - 1]);
        } else {
            assert(e[a] == q[a - 1] && e[b] == q[b - 1]);
        }
    }
}

} // verus!
