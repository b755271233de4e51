//! The single mutable model of progress: visit counters, the scheduled set
//! and commit histories, candidate pools, per-kingdom stashes, and the
//! randomized commit operations.

use vstd::prelude::*;
use crate::draw::DrawSource;
use crate::kingdom::{all_kingdoms, spec_all_kingdoms, KingdomName, Kingdoms, KINGDOM_COUNT};
use crate::moon::{MoonID, Moons, MAX_MOONS};

verus! {

/// Every id of `s` lies below `n`.
pub open spec fn ids_below(s: Seq<MoonID>, n: int) -> bool {
    forall|i: int| 0 <= i < s.len() ==> (#[trigger] s[i]) < n
}

/// `s` with every occurrence of `x` removed, order otherwise kept.
pub open spec fn seq_without<A>(s: Seq<A>, x: A) -> Seq<A>
    decreases s.len(),
{
    if s.len() == 0 {
        s
    } else {
        let rest = seq_without(s.drop_last(), x);
        if s.last() == x {
            rest
        } else {
            rest.push(s.last())
        }
    }
}

/// Membership in `seq_without`: exactly the members of `s` other than `x`.
pub proof fn lemma_without_members<A>(s: Seq<A>, x: A)
    ensures
        forall|y: A| #[trigger] seq_without(s, x).contains(y) <==> (s.contains(y) && y != x),
    decreases s.len(),
{
    let r = seq_without(s, x);
    if s.len() == 0 {
        assert forall|y: A| #[trigger] r.contains(y) implies false by {
            let j = choose|j: int| 0 <= j < r.len() && r[j] == y;
        }
        assert forall|y: A| #[trigger] s.contains(y) implies false by {
            let j = choose|j: int| 0 <= j < s.len() && s[j] == y;
        }
    } else {
        let s0 = s.drop_last();
        let last = s.last();
        let r0 = seq_without(s0, x);
        lemma_without_members(s0, x);
        assert forall|y: A| #[trigger] s.contains(y) implies s0.contains(y) || y == last by {
            let j = choose|j: int| 0 <= j < s.len() && s[j] == y;
            if j < s0.len() {
                assert(s0[j] == y);
            }
        }
        assert forall|y: A| #[trigger] s0.contains(y) implies s.contains(y) by {
            let j = choose|j: int| 0 <= j < s0.len() && s0[j] == y;
            assert(s[j] == y);
        }
        assert(s.contains(last)) by {
            assert(s[s.len() - 1] == last);
        }
        if last == x {
            assert(r == r0);
            assert forall|y: A| (#[trigger] r.contains(y)) == (s.contains(y) && y != x) by {
                if r.contains(y) {
                    assert(s0.contains(y));
                }
                if s.contains(y) && y != x {
                    assert(s0.contains(y));
                    assert(r0.contains(y));
                }
            }
        } else {
            assert(r == r0.push(last));
            assert forall|y: A| #[trigger] r.contains(y) implies r0.contains(y) || y == last by {
                let j = choose|j: int| 0 <= j < r.len() && r[j] == y;
                if j < r0.len() {
                    assert(r0[j] == y);
                }
            }
            assert forall|y: A| #[trigger] r0.contains(y) implies r.contains(y) by {
                let j = choose|j: int| 0 <= j < r0.len() && r0[j] == y;
                assert(r[j] == y);
            }
            assert(r.contains(last)) by {
                assert(r[r.len() - 1] == last);
            }
            assert forall|y: A| (#[trigger] r.contains(y)) == (s.contains(y) && y != x) by {
                if r.contains(y) && y != last {
                    assert(r0.contains(y));
                }
                if s.contains(y) && y != x && y != last {
                    assert(s0.contains(y));
                    assert(r0.contains(y));
                }
            }
        }
    }
}

pub struct State {
    current_kingdom: KingdomName,
    total_kingdom_moons: u16,
    total_moons: u16,
    moons_to_schedule: Vec<MoonID>,
    moons_stored_queue: Vec<Vec<MoonID>>,
    moons_ordered: Vec<MoonID>,
    kingdoms_to_schedule: Vec<KingdomName>,
    kingdoms_ordered: Vec<KingdomName>,
    kingdoms_scheduled: Vec<usize>,
    kingdoms_completed: Vec<bool>,
    completed_main_game: bool,
}

impl State {
    /// The kingdom the schedule currently stands in.
    pub closed spec fn spec_current(self) -> KingdomName {
        self.current_kingdom
    }

    /// Reward total committed during the current visit.
    pub closed spec fn spec_visit_moons(self) -> int {
        self.total_kingdom_moons as int
    }

    /// Reward total committed overall.
    pub closed spec fn spec_total_moons(self) -> int {
        self.total_moons as int
    }

    /// The pending-moon candidate pool (current kingdom only).
    pub closed spec fn spec_pending_moons(self) -> Seq<MoonID> {
        self.moons_to_schedule@
    }

    /// The stash of unconsumed pending moons of the kingdom at index `k`.
    pub closed spec fn spec_stash_at(self, k: int) -> Seq<MoonID> {
        self.moons_stored_queue@[k]@
    }

    /// The stash of unconsumed pending moons of kingdom `k`.
    pub open spec fn spec_stash(self, k: KingdomName) -> Seq<MoonID> {
        self.spec_stash_at(k.as_index())
    }

    /// The ordered moon-commit history.
    pub closed spec fn spec_history(self) -> Seq<MoonID> {
        self.moons_ordered@
    }

    /// The pending-kingdom candidate pool.
    pub closed spec fn spec_pending_kingdoms(self) -> Seq<KingdomName> {
        self.kingdoms_to_schedule@
    }

    /// The ordered kingdom-visit history.
    pub closed spec fn spec_kingdom_history(self) -> Seq<KingdomName> {
        self.kingdoms_ordered@
    }

    /// Visit counter of the kingdom at index `k`.
    pub closed spec fn spec_visits_at(self, k: int) -> int {
        self.kingdoms_scheduled@[k] as int
    }

    /// Visit counter of kingdom `k`.
    pub open spec fn spec_visits(self, k: KingdomName) -> int {
        self.spec_visits_at(k.as_index())
    }

    /// Whether the catalog of the kingdom at index `k` has been exhausted.
    pub closed spec fn spec_completed_at(self, k: int) -> bool {
        self.kingdoms_completed@[k]
    }

    /// Whether the catalog of kingdom `k` has been exhausted.
    pub open spec fn spec_completed(self, k: KingdomName) -> bool {
        self.spec_completed_at(k.as_index())
    }

    /// Whether the designated terminal kingdom has been visited.
    pub closed spec fn spec_main_done(self) -> bool {
        self.completed_main_game
    }

    /// Whether moon `m` has been committed.
    pub open spec fn spec_scheduled(self, m: MoonID) -> bool {
        self.spec_history().contains(m)
    }

    /// Whether moon `m` is anywhere in the state: committed, pending, or
    /// stashed.
    pub open spec fn spec_claims(self, m: MoonID) -> bool {
        ||| self.spec_history().contains(m)
        ||| self.spec_pending_moons().contains(m)
        ||| exists|k: int|
            0 <= k < KINGDOM_COUNT && (#[trigger] self.spec_stash_at(k)).contains(m)
    }

    /// Every moon id in the state lies below the catalog size `n`.
    pub open spec fn compat(self, n: int) -> bool {
        &&& ids_below(self.spec_history(), n)
        &&& ids_below(self.spec_pending_moons(), n)
        &&& (forall|k: int| 0 <= k < KINGDOM_COUNT ==> ids_below(#[trigger] self.spec_stash_at(k), n))
    }

    pub closed spec fn wf(self) -> bool {
        // table shapes
        &&& self.moons_stored_queue@.len() == KINGDOM_COUNT
        &&& self.kingdoms_scheduled@.len() == KINGDOM_COUNT
        &&& self.kingdoms_completed@.len() == KINGDOM_COUNT
        // a moon id is claimed at most once, anywhere
        &&& self.moons_ordered@.no_duplicates()
        &&& self.moons_to_schedule@.no_duplicates()
        &&& (forall|k: int|
            0 <= k < KINGDOM_COUNT ==> (#[trigger] self.moons_stored_queue@[k])@.no_duplicates())
        &&& (forall|m: MoonID|
            #[trigger] self.moons_to_schedule@.contains(m) ==> !self.moons_ordered@.contains(m))
        &&& (forall|k: int, m: MoonID|
            0 <= k < KINGDOM_COUNT && #[trigger] self.moons_stored_queue@[k]@.contains(m)
                ==> !self.moons_ordered@.contains(m) && !self.moons_to_schedule@.contains(m))
        &&& (forall|k1: int, k2: int, m: MoonID|
            0 <= k1 < KINGDOM_COUNT && 0 <= k2 < KINGDOM_COUNT && k1 != k2
                && #[trigger] self.moons_stored_queue@[k1]@.contains(m)
                ==> !(#[trigger] self.moons_stored_queue@[k2]@.contains(m)))
        // the current kingdom is never a candidate for its own next visit
        &&& !self.kingdoms_to_schedule@.contains(self.current_kingdom)
        // totals are bounded by the commit history
        &&& self.total_kingdom_moons <= self.total_moons
        &&& self.total_moons as int <= 3 * self.moons_ordered@.len()
        &&& (forall|k: int|
            0 <= k < KINGDOM_COUNT ==> (#[trigger] self.kingdoms_scheduled@[k]) as int
                <= self.kingdoms_ordered@.len())
    }

    /// The no-duplication invariant, as a fact about the observable model:
    /// no moon id ever appears twice in the commit history, and a committed
    /// moon is never pending or stashed again.
    pub proof fn lemma_claims_unique(self)
        requires
            self.wf(),
        ensures
            self.spec_history().no_duplicates(),
            self.spec_pending_moons().no_duplicates(),
            forall|m: MoonID|
                #[trigger] self.spec_pending_moons().contains(m) ==> !self.spec_history().contains(
                    m,
                ),
            forall|k: int|
                0 <= k < KINGDOM_COUNT ==> (#[trigger] self.spec_stash_at(k)).no_duplicates(),
    {
    }

    pub fn new() -> (s: State)
        ensures
            s.wf(),
            s.spec_current() == KingdomName::Darker,
            s.spec_visit_moons() == 0,
            s.spec_total_moons() == 0,
            s.spec_pending_moons() == Seq::<MoonID>::empty(),
            s.spec_history() == Seq::<MoonID>::empty(),
            s.spec_pending_kingdoms() == Seq::<KingdomName>::empty(),
            s.spec_kingdom_history() == Seq::<KingdomName>::empty(),
            forall|k: int| 0 <= k < KINGDOM_COUNT ==> (#[trigger] s.spec_stash_at(k)).len() == 0,
            forall|k: int| 0 <= k < KINGDOM_COUNT ==> (#[trigger] s.spec_visits_at(k)) == 0,
            forall|k: int| 0 <= k < KINGDOM_COUNT ==> !(#[trigger] s.spec_completed_at(k)),
            !s.spec_main_done(),
            forall|m: MoonID| !s.spec_claims(m),
            forall|n: int| s.compat(n),
    {
        let mut stored: Vec<Vec<MoonID>> = Vec::new();
        let mut scheduled: Vec<usize> = Vec::new();
        let mut completed: Vec<bool> = Vec::new();
        let mut i: usize = 0;
        while i < KINGDOM_COUNT
            invariant
                0 <= i <= KINGDOM_COUNT,
                stored@.len() == i,
                scheduled@.len() == i,
                completed@.len() == i,
                forall|j: int| 0 <= j < i ==> (#[trigger] stored@[j])@.len() == 0,
                forall|j: int| 0 <= j < i ==> (#[trigger] scheduled@[j]) == 0,
                forall|j: int| 0 <= j < i ==> !(#[trigger] completed@[j]),
            decreases KINGDOM_COUNT - i,
        {
            stored.push(Vec::new());
            scheduled.push(0);
            completed.push(false);
            i = i + 1;
        }
        State {
            current_kingdom: KingdomName::Darker,
            total_kingdom_moons: 0,
            total_moons: 0,
            moons_to_schedule: Vec::new(),
            moons_stored_queue: stored,
            moons_ordered: Vec::new(),
            kingdoms_to_schedule: Vec::new(),
            kingdoms_ordered: Vec::new(),
            kingdoms_scheduled: scheduled,
            kingdoms_completed: completed,
            completed_main_game: false,
        }
    }

    pub fn current_kingdom(&self) -> (k: KingdomName)
        ensures
            k == self.spec_current(),
    {
        self.current_kingdom
    }

    pub fn total_kingdom_moons(&self) -> (t: u16)
        ensures
            t == self.spec_visit_moons(),
    {
        self.total_kingdom_moons
    }

    pub fn total_moons(&self) -> (t: u16)
        ensures
            t == self.spec_total_moons(),
    {
        self.total_moons
    }

    pub fn completed_main_game(&self) -> (b: bool)
        ensures
            b == self.spec_main_done(),
    {
        self.completed_main_game
    }

    /// How many surfaced moons are pending in the current kingdom.
    pub fn moons_to_schedule(&self) -> (n: usize)
        ensures
            n == self.spec_pending_moons().len(),
    {
        self.moons_to_schedule.len()
    }

    /// The ordered moon-commit history.
    pub fn moon_order(&self) -> (r: &Vec<MoonID>)
        ensures
            r@ == self.spec_history(),
    {
        &self.moons_ordered
    }

    /// The ordered kingdom-visit history.
    pub fn kingdom_order(&self) -> (r: &Vec<KingdomName>)
        ensures
            r@ == self.spec_kingdom_history(),
    {
        &self.kingdoms_ordered
    }

    /// Whether `moon` has been committed.
    pub fn moon_scheduled(&self, moon: MoonID) -> (r: bool)
        ensures
            r == self.spec_scheduled(moon),
    {
        let mut i: usize = 0;
        while i < self.moons_ordered.len()
            invariant
                0 <= i <= self.moons_ordered@.len(),
                forall|j: int| 0 <= j < i ==> (#[trigger] self.moons_ordered@[j]) != moon,
            decreases self.moons_ordered@.len() - i,
        {
            if self.moons_ordered[i] == moon {
                return true;
            }
            i = i + 1;
        }
        false
    }

    /// Whether `kingdom` has been visited at least `visited` times.
    pub fn kingdom_scheduled(&self, kingdom: KingdomName, visited: u8) -> (r: bool)
        requires
            self.wf(),
        ensures
            r == (self.spec_visits(kingdom) >= visited),
    {
        let i = kingdom.index();
        self.kingdoms_scheduled[i] >= visited as usize
    }

    /// Mark the catalog of `id` as exhausted.
    pub fn complete_kingdom(&mut self, id: KingdomName)
        requires
            old(self).wf(),
        ensures
            final(self).wf(),
            final(self).spec_completed_at(id.as_index()),
            forall|k: int|
                0 <= k < KINGDOM_COUNT && k != id.as_index() ==> final(self).spec_completed_at(k)
                    == old(self).spec_completed_at(k),
            final(self).spec_current() == old(self).spec_current(),
            final(self).spec_visit_moons() == old(self).spec_visit_moons(),
            final(self).spec_total_moons() == old(self).spec_total_moons(),
            final(self).spec_pending_moons() == old(self).spec_pending_moons(),
            final(self).spec_history() == old(self).spec_history(),
            final(self).spec_pending_kingdoms() == old(self).spec_pending_kingdoms(),
            final(self).spec_kingdom_history() == old(self).spec_kingdom_history(),
            forall|k: int|
                0 <= k < KINGDOM_COUNT ==> (#[trigger] final(self).spec_stash_at(k)) == old(
                    self,
                ).spec_stash_at(k),
            forall|k: int|
                0 <= k < KINGDOM_COUNT ==> (#[trigger] final(self).spec_visits_at(k)) == old(
                    self,
                ).spec_visits_at(k),
            final(self).spec_main_done() == old(self).spec_main_done(),
    {
        let i = id.index();
        self.kingdoms_completed[i] = true;
    }

    /// Whether `k` may enter the pending-kingdom pool: never the current
    /// kingdom, and never an exhausted kingdom whose stash is empty.
    pub open spec fn spec_addable(self, k: KingdomName) -> bool {
        &&& k != self.spec_current()
        &&& (self.spec_completed(k) ==> self.spec_stash(k).len() > 0)
    }

    /// Register `id` as a candidate for the next kingdom commit.  Duplicates
    /// are allowed: they raise the kingdom's selection probability.
    pub fn add_kingdom_to_schedule(&mut self, id: KingdomName)
        requires
            old(self).wf(),
        ensures
            final(self).wf(),
            old(self).spec_addable(id) ==> final(self).spec_pending_kingdoms() == old(
                self,
            ).spec_pending_kingdoms().push(id),
            !old(self).spec_addable(id) ==> final(self).spec_pending_kingdoms() == old(
                self,
            ).spec_pending_kingdoms(),
            final(self).spec_current() == old(self).spec_current(),
            final(self).spec_visit_moons() == old(self).spec_visit_moons(),
            final(self).spec_total_moons() == old(self).spec_total_moons(),
            final(self).spec_pending_moons() == old(self).spec_pending_moons(),
            final(self).spec_history() == old(self).spec_history(),
            final(self).spec_kingdom_history() == old(self).spec_kingdom_history(),
            forall|k: int|
                0 <= k < KINGDOM_COUNT ==> (#[trigger] final(self).spec_stash_at(k)) == old(
                    self,
                ).spec_stash_at(k),
            forall|k: int|
                0 <= k < KINGDOM_COUNT ==> (#[trigger] final(self).spec_visits_at(k)) == old(
                    self,
                ).spec_visits_at(k),
            forall|k: int|
                0 <= k < KINGDOM_COUNT ==> (#[trigger] final(self).spec_completed_at(k)) == old(
                    self,
                ).spec_completed_at(k),
            final(self).spec_main_done() == old(self).spec_main_done(),
            forall|m: MoonID| final(self).spec_claims(m) == old(self).spec_claims(m),
    {
        if id == self.current_kingdom {
            return ;
        }
        let i = id.index();
        if self.kingdoms_completed[i] {
            if self.moons_stored_queue[i].is_empty() {
                return ;
            }
        }
        self.kingdoms_to_schedule.push(id);
        proof {
            lemma_claims_same(*old(self), *self);
            assert(!self.kingdoms_to_schedule@.contains(self.current_kingdom)) by {
                if self.kingdoms_to_schedule@.contains(self.current_kingdom) {
                    let j = choose|j: int|
                        0 <= j < self.kingdoms_to_schedule@.len()
                            && self.kingdoms_to_schedule@[j] == self.current_kingdom;
                    if j < old(self).kingdoms_to_schedule@.len() {
                        assert(old(self).kingdoms_to_schedule@[j] == self.current_kingdom);
                    }
                }
            }
        }
    }

    /// Register a newly surfaced moon in the pending pool.  The caller (the
    /// catalog scan) guarantees that each moon id is offered at most once.
    pub fn add_moon_to_schedule(&mut self, id: MoonID)
        requires
            old(self).wf(),
            !old(self).spec_claims(id),
        ensures
            final(self).wf(),
            final(self).spec_pending_moons() == old(self).spec_pending_moons().push(id),
            final(self).spec_current() == old(self).spec_current(),
            final(self).spec_visit_moons() == old(self).spec_visit_moons(),
            final(self).spec_total_moons() == old(self).spec_total_moons(),
            final(self).spec_history() == old(self).spec_history(),
            final(self).spec_pending_kingdoms() == old(self).spec_pending_kingdoms(),
            final(self).spec_kingdom_history() == old(self).spec_kingdom_history(),
            forall|k: int|
                0 <= k < KINGDOM_COUNT ==> (#[trigger] final(self).spec_stash_at(k)) == old(
                    self,
                ).spec_stash_at(k),
            forall|k: int|
                0 <= k < KINGDOM_COUNT ==> (#[trigger] final(self).spec_visits_at(k)) == old(
                    self,
                ).spec_visits_at(k),
            forall|k: int|
                0 <= k < KINGDOM_COUNT ==> (#[trigger] final(self).spec_completed_at(k)) == old(
                    self,
                ).spec_completed_at(k),
            final(self).spec_main_done() == old(self).spec_main_done(),
            forall|m: MoonID|
                #[trigger] final(self).spec_claims(m) <==> (old(self).spec_claims(m) || m == id),
    {
        self.moons_to_schedule.push(id);
        proof {
            let p0 = old(self).moons_to_schedule@;
            let p1 = self.moons_to_schedule@;
            assert forall|m: MoonID| #[trigger] p1.contains(m) implies p0.contains(m) || m == id by {
                let j = choose|j: int| 0 <= j < p1.len() && p1[j] == m;
                if j < p0.len() {
                    assert(p0[j] == m);
                }
            }
            assert forall|m: MoonID| #[trigger] p0.contains(m) implies p1.contains(m) by {
                let j = choose|j: int| 0 <= j < p0.len() && p0[j] == m;
                assert(p1[j] == m);
            }
            assert(p1[p1.len() - 1] == id);
            assert(p1.contains(id));
            assert(!p0.contains(id));
            assert forall|a: int, b: int| 0 <= a < b < p1.len() implies p1[a] != p1[b] by {
                if b == p1.len() - 1 {
                    assert(p1[a] == p0[a]);
                    assert(p0.contains(p0[a]));
                }
            }
            assert(self.moons_stored_queue == old(self).moons_stored_queue);
            assert(self.moons_ordered == old(self).moons_ordered);
            assert(!self.moons_ordered@.contains(id));
            assert forall|k: int|
                0 <= k < KINGDOM_COUNT implies !(#[trigger] self.moons_stored_queue@[k]@.contains(
                id,
            )) by {
                if self.moons_stored_queue@[k]@.contains(id) {
                    assert(old(self).spec_stash_at(k).contains(id));
                    assert(old(self).spec_claims(id));
                }
            }
            assert forall|k: int, m: MoonID|
                0 <= k < KINGDOM_COUNT && #[trigger] self.moons_stored_queue@[k]@.contains(m)
                    implies !self.moons_to_schedule@.contains(m) by {
                if p1.contains(m) {
                    assert(p0.contains(m) || m == id);
                }
            }
            assert forall|m: MoonID| old(self).spec_claims(m) implies self.spec_claims(m) by {
                if old(self).spec_history().contains(m) {
                } else if p0.contains(m) {
                } else {
                    let k = choose|k: int|
                        0 <= k < KINGDOM_COUNT && (#[trigger] old(self).spec_stash_at(k)).contains(
                            m,
                        );
                    assert(self.spec_stash_at(k).contains(m));
                }
            }
            assert forall|m: MoonID| #[trigger] self.spec_claims(m) implies old(self).spec_claims(m)
                || m == id by {
                if self.spec_history().contains(m) {
                } else if p1.contains(m) {
                } else {
                    let k = choose|k: int|
                        0 <= k < KINGDOM_COUNT && (#[trigger] self.spec_stash_at(k)).contains(m);
                    assert(old(self).spec_stash_at(k).contains(m));
                }
            }
        }
    }

    /// Whether every per-kingdom stash is empty.
    pub fn stashes_empty(&self) -> (b: bool)
        requires
            self.wf(),
        ensures
            b == (forall|k: int|
                0 <= k < KINGDOM_COUNT ==> (#[trigger] self.spec_stash_at(k)).len() == 0),
    {
        let mut i: usize = 0;
        while i < KINGDOM_COUNT
            invariant
                self.wf(),
                0 <= i <= KINGDOM_COUNT,
                forall|k: int| 0 <= k < i ==> (#[trigger] self.spec_stash_at(k)).len() == 0,
            decreases KINGDOM_COUNT - i,
        {
            if self.moons_stored_queue[i].len() > 0 {
                proof {
                    assert(self.spec_stash_at(i as int).len() > 0);
                }
                return false;
            }
            i = i + 1;
        }
        true
    }

    /// Whether an advance is permitted right now: after the main progression
    /// is complete one committed moon suffices, before that the current
    /// kingdom's exit rule decides.
    pub open spec fn spec_leave_ok(self, kingdoms: Kingdoms) -> bool {
        if self.spec_main_done() {
            self.spec_visit_moons() >= 1
        } else {
            kingdoms.spec_kingdom(self.spec_current()).spec_can_leave(self)
        }
    }

    /// The kingdoms considered for the next visit: the whole graph once the
    /// main progression is complete, otherwise the current kingdom's
    /// successor edges.
    pub open spec fn spec_candidate_list(self, kingdoms: Kingdoms) -> Seq<KingdomName> {
        if self.spec_main_done() {
            spec_all_kingdoms()
        } else {
            kingdoms.spec_kingdom(self.spec_current()).spec_next()
        }
    }

    /// The members of `list` that are reachable and admissible, in order.
    pub open spec fn spec_candidates_of(self, kingdoms: Kingdoms, list: Seq<KingdomName>) -> Seq<
        KingdomName,
    >
        decreases list.len(),
    {
        if list.len() == 0 {
            Seq::empty()
        } else {
            let rest = self.spec_candidates_of(kingdoms, list.drop_last());
            if kingdoms.spec_kingdom(list.last()).spec_available(self) && self.spec_addable(
                list.last(),
            ) {
                rest.push(list.last())
            } else {
                rest
            }
        }
    }

    /// Exactly what `next_kingdom` appends to the pending-kingdom pool: the
    /// candidate list filtered by reachability and by the pool's admission
    /// rule — nothing at all if no advance is permitted.
    pub open spec fn spec_next_candidates(self, kingdoms: Kingdoms) -> Seq<KingdomName> {
        if !self.spec_leave_ok(kingdoms) {
            Seq::empty()
        } else {
            self.spec_candidates_of(kingdoms, self.spec_candidate_list(kingdoms))
        }
    }

    /// Register every reachable, admissible next kingdom, provided the
    /// current kingdom may be exited at all.
    pub fn next_kingdom(&mut self, kingdoms: &Kingdoms)
        requires
            old(self).wf(),
            kingdoms.wf(),
        ensures
            final(self).wf(),
            final(self).spec_pending_kingdoms() == old(self).spec_pending_kingdoms() + old(
                self,
            ).spec_next_candidates(*kingdoms),
            final(self).spec_current() == old(self).spec_current(),
            final(self).spec_visit_moons() == old(self).spec_visit_moons(),
            final(self).spec_total_moons() == old(self).spec_total_moons(),
            final(self).spec_pending_moons() == old(self).spec_pending_moons(),
            final(self).spec_history() == old(self).spec_history(),
            final(self).spec_kingdom_history() == old(self).spec_kingdom_history(),
            forall|k: int|
                0 <= k < KINGDOM_COUNT ==> (#[trigger] final(self).spec_stash_at(k)) == old(
                    self,
                ).spec_stash_at(k),
            forall|k: int|
                0 <= k < KINGDOM_COUNT ==> (#[trigger] final(self).spec_visits_at(k)) == old(
                    self,
                ).spec_visits_at(k),
            forall|k: int|
                0 <= k < KINGDOM_COUNT ==> (#[trigger] final(self).spec_completed_at(k)) == old(
                    self,
                ).spec_completed_at(k),
            final(self).spec_main_done() == old(self).spec_main_done(),
            forall|m: MoonID| final(self).spec_claims(m) == old(self).spec_claims(m),
    {
        if self.completed_main_game {
            if self.total_kingdom_moons() < 1 {
                // we can't leave yet
                proof {
                    assert(old(self).spec_pending_kingdoms() + old(self).spec_next_candidates(
                        *kingdoms,
                    ) =~= old(self).spec_pending_kingdoms());
                }
                return ;
            }
            let all = all_kingdoms();
            let ghost list = spec_all_kingdoms();
            let mut i: usize = 0;
            while i < all.len()
                invariant
                    self.wf(),
                    kingdoms.wf(),
                    all@ == list,
                    0 <= i <= list.len(),
                    self.spec_pending_kingdoms() == old(self).spec_pending_kingdoms() + old(
                        self,
                    ).spec_candidates_of(*kingdoms, list.take(i as int)),
                    self.spec_current() == old(self).spec_current(),
                    self.spec_visit_moons() == old(self).spec_visit_moons(),
                    self.spec_total_moons() == old(self).spec_total_moons(),
                    self.spec_pending_moons() == old(self).spec_pending_moons(),
                    self.spec_history() == old(self).spec_history(),
                    self.spec_kingdom_history() == old(self).spec_kingdom_history(),
                    forall|k: int|
                        0 <= k < KINGDOM_COUNT ==> (#[trigger] self.spec_stash_at(k)) == old(
                            self,
                        ).spec_stash_at(k),
                    forall|k: int|
                        0 <= k < KINGDOM_COUNT ==> (#[trigger] self.spec_visits_at(k)) == old(
                            self,
                        ).spec_visits_at(k),
                    forall|k: int|
                        0 <= k < KINGDOM_COUNT ==> (#[trigger] self.spec_completed_at(k)) == old(
                            self,
                        ).spec_completed_at(k),
                    self.spec_main_done() == old(self).spec_main_done(),
                    forall|m: MoonID| self.spec_claims(m) == old(self).spec_claims(m),
                decreases list.len() - i,
            {
                let kk = all[i];
                let reachable = kingdoms.kingdom(kk).available(self);
                proof {
                    assert(kingdoms.spec_kingdom(kk).spec_available(*self)
                        == kingdoms.spec_kingdom(kk).spec_available(*old(self)));
                    assert(self.spec_addable(kk) == old(self).spec_addable(kk));
                }
                if reachable {
                    self.add_kingdom_to_schedule(kk);
                }
                proof {
                    let prefix1 = list.take(i + 1);
                    assert(prefix1.drop_last() =~= list.take(i as int));
                    assert(prefix1.last() == kk);
                    if kingdoms.spec_kingdom(kk).spec_available(*old(self)) && old(
                        self,
                    ).spec_addable(kk) {
                        assert(old(self).spec_candidates_of(*kingdoms, prefix1) == old(
                            self,
                        ).spec_candidates_of(*kingdoms, list.take(i as int)).push(kk));
                        assert(self.spec_pending_kingdoms() =~= old(self).spec_pending_kingdoms()
                            + old(self).spec_candidates_of(*kingdoms, prefix1));
                    } else {
                        assert(old(self).spec_candidates_of(*kingdoms, prefix1) == old(
                            self,
                        ).spec_candidates_of(*kingdoms, list.take(i as int)));
                    }
                }
                i = i + 1;
            }
            proof {
                assert(list.take(list.len() as int) =~= list);
            }
        } else {
            if !kingdoms.kingdom(self.current_kingdom).can_leave(self) {
                // can't leave yet
                proof {
                    assert(old(self).spec_pending_kingdoms() + old(self).spec_next_candidates(
                        *kingdoms,
                    ) =~= old(self).spec_pending_kingdoms());
                }
                return ;
            }
            let cur = self.current_kingdom;
            let n = kingdoms.kingdom(cur).next().len();
            let ghost list = kingdoms.spec_kingdom(cur).spec_next();
            let mut i: usize = 0;
            while i < n
                invariant
                    self.wf(),
                    kingdoms.wf(),
                    cur == old(self).spec_current(),
                    list == kingdoms.spec_kingdom(cur).spec_next(),
                    n == list.len(),
                    0 <= i <= list.len(),
                    self.spec_pending_kingdoms() == old(self).spec_pending_kingdoms() + old(
                        self,
                    ).spec_candidates_of(*kingdoms, list.take(i as int)),
                    self.spec_current() == old(self).spec_current(),
                    self.spec_visit_moons() == old(self).spec_visit_moons(),
                    self.spec_total_moons() == old(self).spec_total_moons(),
                    self.spec_pending_moons() == old(self).spec_pending_moons(),
                    self.spec_history() == old(self).spec_history(),
                    self.spec_kingdom_history() == old(self).spec_kingdom_history(),
                    forall|k: int|
                        0 <= k < KINGDOM_COUNT ==> (#[trigger] self.spec_stash_at(k)) == old(
                            self,
                        ).spec_stash_at(k),
                    forall|k: int|
                        0 <= k < KINGDOM_COUNT ==> (#[trigger] self.spec_visits_at(k)) == old(
                            self,
                        ).spec_visits_at(k),
                    forall|k: int|
                        0 <= k < KINGDOM_COUNT ==> (#[trigger] self.spec_completed_at(k)) == old(
                            self,
                        ).spec_completed_at(k),
                    self.spec_main_done() == old(self).spec_main_done(),
                    forall|m: MoonID| self.spec_claims(m) == old(self).spec_claims(m),
                decreases list.len() - i,
            {
                let kk = kingdoms.kingdom(cur).next()[i];
                let reachable = kingdoms.kingdom(kk).available(self);
                proof {
                    assert(kingdoms.spec_kingdom(kk).spec_available(*self)
                        == kingdoms.spec_kingdom(kk).spec_available(*old(self)));
                    assert(self.spec_addable(kk) == old(self).spec_addable(kk));
                }
                if reachable {
                    self.add_kingdom_to_schedule(kk);
                }
                proof {
                    let prefix1 = list.take(i + 1);
                    assert(prefix1.drop_last() =~= list.take(i as int));
                    assert(prefix1.last() == kk);
                    if kingdoms.spec_kingdom(kk).spec_available(*old(self)) && old(
                        self,
                    ).spec_addable(kk) {
                        assert(old(self).spec_candidates_of(*kingdoms, prefix1) == old(
                            self,
                        ).spec_candidates_of(*kingdoms, list.take(i as int)).push(kk));
                        assert(self.spec_pending_kingdoms() =~= old(self).spec_pending_kingdoms()
                            + old(self).spec_candidates_of(*kingdoms, prefix1));
                    } else {
                        assert(old(self).spec_candidates_of(*kingdoms, prefix1) == old(
                            self,
                        ).spec_candidates_of(*kingdoms, list.take(i as int)));
                    }
                }
                i = i + 1;
            }
            proof {
                assert(list.take(list.len() as int) =~= list);
            }
        }
    }

    /// What one moon commit does, when the draw picks index `i` of the
    /// pending pool: the moon moves from the pool to the scheduled set and
    /// the commit history, and its reward weight is added to both counters.
    pub open spec fn spec_moon_commit(self, post: State, moons: Moons, i: int) -> bool {
        let id = self.spec_pending_moons()[i];
        &&& post.spec_pending_moons() == self.spec_pending_moons().remove(i)
        &&& post.spec_history() == self.spec_history().push(id)
        &&& post.spec_total_moons() == self.spec_total_moons() + moons.spec_count(id as int)
        &&& post.spec_visit_moons() == self.spec_visit_moons() + moons.spec_count(id as int)
    }

    /// Commit one pending moon, chosen uniformly at random; fails only when
    /// the pending pool is empty.
    pub fn schedule_moon<D: DrawSource>(&mut self, moons: &Moons, draw: &mut D) -> (r: bool)
        requires
            old(self).wf(),
            moons.wf(),
            old(self).compat(moons.spec_len()),
        ensures
            final(self).wf(),
            final(self).compat(moons.spec_len()),
            r == (old(self).spec_pending_moons().len() > 0),
            !r ==> *final(self) == *old(self),
            r ==> exists|i: int|
                0 <= i < old(self).spec_pending_moons().len() && old(self).spec_moon_commit(
                    *final(self),
                    *moons,
                    i,
                ),
            final(self).spec_current() == old(self).spec_current(),
            final(self).spec_pending_kingdoms() == old(self).spec_pending_kingdoms(),
            final(self).spec_kingdom_history() == old(self).spec_kingdom_history(),
            forall|k: int|
                0 <= k < KINGDOM_COUNT ==> (#[trigger] final(self).spec_stash_at(k)) == old(
                    self,
                ).spec_stash_at(k),
            forall|k: int|
                0 <= k < KINGDOM_COUNT ==> (#[trigger] final(self).spec_visits_at(k)) == old(
                    self,
                ).spec_visits_at(k),
            forall|k: int|
                0 <= k < KINGDOM_COUNT ==> (#[trigger] final(self).spec_completed_at(k)) == old(
                    self,
                ).spec_completed_at(k),
            final(self).spec_main_done() == old(self).spec_main_done(),
            forall|m: MoonID| old(self).spec_scheduled(m) ==> final(self).spec_scheduled(m),
            forall|m: MoonID| final(self).spec_claims(m) == old(self).spec_claims(m),
    {
        if self.moons_to_schedule.is_empty() {
            return false;
        }
        let random = draw.draw(self.moons_to_schedule.len());
        let id = self.moons_to_schedule.remove(random);
        proof {
            let p0 = old(self).moons_to_schedule@;
            let p1 = self.moons_to_schedule@;
            assert(id == p0[random as int]);
            assert(ids_below(p0, moons.spec_len()));
            assert(id < moons.spec_len());
        }
        let count = moons.moon(id).count();
        self.moons_ordered.push(id);
        proof {
            let p0 = old(self).moons_to_schedule@;
            let p1 = self.moons_to_schedule@;
            let h0 = old(self).moons_ordered@;
            let h1 = self.moons_ordered@;
            assert(p0.contains(id));
            assert(!h0.contains(id));
            // the new history has no duplicates and stays below the catalog size
            assert forall|m: MoonID| #[trigger] h1.contains(m) implies h0.contains(m) || m
                == id by {
                let j = choose|j: int| 0 <= j < h1.len() && h1[j] == m;
                if j < h0.len() {
                    assert(h0[j] == m);
                }
            }
            assert forall|a: int, b: int| 0 <= a < b < h1.len() implies h1[a] != h1[b] by {
                if b == h1.len() - 1 {
                    assert(h1[a] == h0[a]);
                    assert(h0.contains(h0[a]));
                }
            }
            assert(ids_below(h1, moons.spec_len()));
            lemma_nodup_bounded_len(h1, moons.spec_len());
            assert(h1.len() <= MAX_MOONS);
            // the remaining pool: every member was in the old pool, and the
            // picked id is gone
            assert forall|m: MoonID| #[trigger] p1.contains(m) implies p0.contains(m) by {
                let j = choose|j: int| 0 <= j < p1.len() && p1[j] == m;
                if j < random {
                    assert(p0[j] == m);
                } else {
                    assert(p0[j + 1] == m);
                }
            }
            assert forall|a: int, b: int| 0 <= a < b < p1.len() implies p1[a] != p1[b] by {
                let a0: int = if a < random { a } else { a + 1 };
                let b0: int = if b < random { b } else { b + 1 };
                assert(p1[a] == p0[a0]);
                assert(p1[b] == p0[b0]);
            }
            assert(!p1.contains(id)) by {
                if p1.contains(id) {
                    let j = choose|j: int| 0 <= j < p1.len() && p1[j] == id;
                    let j0: int = if j < random {
                        j
                    } else {
                        j + 1
                    };
                    assert(p0[j0] == id);
                    assert(p0[random as int] == id);
                }
            }
        }
        self.total_kingdom_moons = self.total_kingdom_moons + count;
        self.total_moons = self.total_moons + count;
        proof {
            assert(old(self).spec_moon_commit(*self, *moons, random as int));
            let p0 = old(self).moons_to_schedule@;
            let p1 = self.moons_to_schedule@;
            let h0 = old(self).moons_ordered@;
            let h1 = self.moons_ordered@;
            assert forall|m: MoonID| #[trigger] h0.contains(m) implies h1.contains(m) by {
                let j = choose|j: int| 0 <= j < h0.len() && h0[j] == m;
                assert(h1[j] == m);
            }
            assert(self.compat(moons.spec_len())) by {
                assert forall|j: int| 0 <= j < h1.len() implies (#[trigger] h1[j]) < moons.spec_len() by {
                    if j < h0.len() {
                        assert(h0[j] < moons.spec_len());
                    }
                }
                lemma_ids_below_via_contains(p1, p0, moons.spec_len());
                assert forall|k: int|
                    0 <= k < KINGDOM_COUNT implies ids_below(
                    #[trigger] self.spec_stash_at(k),
                    moons.spec_len(),
                ) by {
                    assert(self.spec_stash_at(k) == old(self).spec_stash_at(k));
                    assert(ids_below(old(self).spec_stash_at(k), moons.spec_len()));
                }
            }
            assert forall|m: MoonID| #[trigger] self.spec_claims(m) implies old(self).spec_claims(
                m,
            ) by {
                if self.spec_history().contains(m) {
                    assert(h0.contains(m) || m == id);
                } else if p1.contains(m) {
                } else {
                    let k = choose|k: int|
                        0 <= k < KINGDOM_COUNT && (#[trigger] self.spec_stash_at(k)).contains(m);
                    assert(old(self).spec_stash_at(k).contains(m));
                }
            }
            assert forall|m: MoonID| old(self).spec_claims(m) implies self.spec_claims(m) by {
                if h0.contains(m) {
                    assert(h1.contains(m));
                } else if p0.contains(m) {
                    if m == id {
                        assert(h1[h1.len() - 1] == id);
                        assert(h1.contains(id));
                    } else {
                        let j0 = choose|j0: int| 0 <= j0 < p0.len() && p0[j0] == m;
                        if j0 < random {
                            assert(p1[j0] == m);
                        } else {
                            assert(p0[random as int] == id);
                            assert(p1[j0 - 1] == m);
                        }
                        assert(p1.contains(m));
                    }
                } else if old(self).spec_claims(m) {
                    let k = choose|k: int|
                        0 <= k < KINGDOM_COUNT && (#[trigger] old(self).spec_stash_at(k)).contains(
                            m,
                        );
                    assert(self.spec_stash_at(k).contains(m));
                }
            }
        }
        true
    }

    /// What one kingdom commit does, when the draw picks index `i` of the
    /// pending pool: the picked kingdom becomes current with its visit
    /// counter raised by one, every remaining copy of it leaves the pool
    /// (so the new current kingdom is never its own candidate), the
    /// interrupted kingdom's unconsumed pending moons move to its stash,
    /// and the new kingdom's stash is pulled back into the pending pool.
    pub open spec fn spec_kingdom_commit(self, post: State, i: int) -> bool {
        let id = self.spec_pending_kingdoms()[i];
        let cur = self.spec_current().as_index();
        let tgt = id.as_index();
        &&& id != self.spec_current()
        &&& post.spec_current() == id
        &&& post.spec_pending_kingdoms() == seq_without(
            self.spec_pending_kingdoms().remove(i),
            id,
        )
        &&& post.spec_kingdom_history() == self.spec_kingdom_history().push(id)
        &&& post.spec_visits_at(tgt) == self.spec_visits_at(tgt) + 1
        &&& (forall|k: int|
            0 <= k < KINGDOM_COUNT && k != tgt ==> (#[trigger] post.spec_visits_at(k))
                == self.spec_visits_at(k))
        &&& post.spec_visit_moons() == 0
        &&& post.spec_main_done() == (self.spec_main_done() || id == KingdomName::Mushroom)
        &&& post.spec_pending_moons() == self.spec_stash_at(tgt)
        &&& post.spec_stash_at(tgt) == Seq::<MoonID>::empty()
        &&& post.spec_stash_at(cur) == self.spec_stash_at(cur) + self.spec_pending_moons()
        &&& (forall|k: int|
            0 <= k < KINGDOM_COUNT && k != cur && k != tgt ==> (#[trigger] post.spec_stash_at(k))
                == self.spec_stash_at(k))
        &&& post.spec_history() == self.spec_history()
        &&& post.spec_total_moons() == self.spec_total_moons()
        &&& (forall|k: int|
            0 <= k < KINGDOM_COUNT ==> (#[trigger] post.spec_completed_at(k))
                == self.spec_completed_at(k))
    }

    /// Commit one pending kingdom, chosen uniformly at random; fails only
    /// when the pending pool is empty.
    pub fn schedule_kingdom<D: DrawSource>(&mut self, draw: &mut D) -> (r: bool)
        requires
            old(self).wf(),
        ensures
            final(self).wf(),
            r == (old(self).spec_pending_kingdoms().len() > 0),
            !r ==> *final(self) == *old(self),
            r ==> exists|i: int|
                0 <= i < old(self).spec_pending_kingdoms().len() && old(self).spec_kingdom_commit(
                    *final(self),
                    i,
                ),
            forall|k: int|
                0 <= k < KINGDOM_COUNT ==> (#[trigger] final(self).spec_visits_at(k)) >= old(
                    self,
                ).spec_visits_at(k),
            final(self).spec_history() == old(self).spec_history(),
            final(self).spec_total_moons() == old(self).spec_total_moons(),
            forall|m: MoonID| final(self).spec_claims(m) == old(self).spec_claims(m),
            forall|n: int| old(self).compat(n) ==> final(self).compat(n),
    {
        if self.kingdoms_to_schedule.is_empty() {
            return false;
        }
        let random = draw.draw(self.kingdoms_to_schedule.len());
        let id = self.kingdoms_to_schedule.remove(random);
        proof {
            assert(old(self).kingdoms_to_schedule@.contains(
                old(self).kingdoms_to_schedule@[random as int],
            ));
            assert(id != self.current_kingdom);
        }
        // strip every remaining copy of the picked kingdom from the pool:
        // the new current kingdom must not stay its own candidate
        let ghost pool1 = self.kingdoms_to_schedule@;
        let mut kept: Vec<KingdomName> = Vec::new();
        let mut x: usize = 0;
        proof {
            assert(kept@ =~= seq_without(pool1.take(0), id));
        }
        while x < self.kingdoms_to_schedule.len()
            invariant
                0 <= x <= pool1.len(),
                self.kingdoms_to_schedule@ == pool1,
                kept@ == seq_without(pool1.take(x as int), id),
            decreases pool1.len() - x,
        {
            let k = self.kingdoms_to_schedule[x];
            proof {
                assert(pool1.take(x + 1).drop_last() =~= pool1.take(x as int));
                assert(pool1.take(x + 1).last() == k);
            }
            if k != id {
                kept.push(k);
            }
            x = x + 1;
        }
        proof {
            assert(pool1.take(pool1.len() as int) =~= pool1);
        }
        self.kingdoms_to_schedule = kept;
        self.kingdoms_ordered.push(id);
        let n = self.kingdoms_ordered.len();
        let i = id.index();
        let c = self.kingdoms_scheduled[i];
        proof {
            assert(c as int <= old(self).kingdoms_ordered@.len());
            assert(n as int == old(self).kingdoms_ordered@.len() + 1);
        }
        self.kingdoms_scheduled[i] = c + 1;
        let cur = self.current_kingdom.index();
        proof {
            crate::kingdom::lemma_index_injective(id, old(self).spec_current());
            assert(i != cur);
        }
        self.moons_stored_queue[cur].append(&mut self.moons_to_schedule);
        let ghost mid = *self;
        self.current_kingdom = id;
        self.total_kingdom_moons = 0;
        if id == KingdomName::Mushroom {
            self.completed_main_game = true;
        }
        self.moons_to_schedule.append(&mut self.moons_stored_queue[i]);
        proof {
            let pre = *old(self);
            let post = *self;
            let s0 = pre.moons_stored_queue@[cur as int]@;
            let p0 = pre.moons_to_schedule@;
            let s1 = s0 + p0;
            // origin of every element of the merged stash
            assert forall|m: MoonID| #[trigger] s1.contains(m) implies s0.contains(m)
                || p0.contains(m) by {
                let j = choose|j: int| 0 <= j < s1.len() && s1[j] == m;
                if j < s0.len() {
                    assert(s0[j] == m);
                } else {
                    assert(p0[j - s0.len()] == m);
                }
            }
            assert forall|m: MoonID| s0.contains(m) || p0.contains(m) implies #[trigger] s1.contains(
                m,
            ) by {
                if s0.contains(m) {
                    let j = choose|j: int| 0 <= j < s0.len() && s0[j] == m;
                    assert(s1[j] == m);
                } else {
                    let j = choose|j: int| 0 <= j < p0.len() && p0[j] == m;
                    assert(s1[s0.len() + j] == m);
                }
            }
            assert(s1.no_duplicates()) by {
                assert forall|a: int, b: int|
                    0 <= a < s0.len() && 0 <= b < p0.len() implies s0[a] != p0[b] by {
                    assert(s0.contains(s0[a]));
                    assert(!p0.contains(s0[a]));
                }
                vstd::seq_lib::lemma_no_dup_in_concat(s0, p0);
            }
            // the merged stash sits at index `cur` after the first append
            assert(mid.moons_stored_queue@[cur as int]@ == s1);
            assert(mid.moons_to_schedule@.len() == 0);
            assert forall|k: int|
                0 <= k < KINGDOM_COUNT && k != cur implies (#[trigger] mid.moons_stored_queue@[k]@)
                    == pre.moons_stored_queue@[k]@ by {}
            // after the second append the picked kingdom's stash is empty and
            // the pending pool holds exactly what that stash held
            assert(post.moons_to_schedule@ == mid.moons_stored_queue@[i as int]@);
            assert(post.moons_stored_queue@[i as int]@ == Seq::<MoonID>::empty());
            assert forall|k: int|
                0 <= k < KINGDOM_COUNT && k != i implies (#[trigger] post.moons_stored_queue@[k]@)
                    == mid.moons_stored_queue@[k]@ by {}
            assert(post.kingdoms_to_schedule@ == seq_without(pool1, id));
            assert(pre.spec_kingdom_commit(post, random as int));
            assert(!post.kingdoms_to_schedule@.contains(post.current_kingdom)) by {
                lemma_without_members(pool1, id);
            }
            assert(post.wf()) by {
                assert forall|k: int, m: MoonID|
                    0 <= k < KINGDOM_COUNT && #[trigger] post.moons_stored_queue@[k]@.contains(m)
                        implies !post.moons_ordered@.contains(m)
                        && !post.moons_to_schedule@.contains(m) by {
                    if k == cur && cur != i {
                        assert(post.moons_stored_queue@[k]@ == s1);
                        assert(s0.contains(m) || p0.contains(m));
                        assert(post.moons_to_schedule@ == pre.moons_stored_queue@[i as int]@);
                    } else if k != i {
                        assert(post.moons_stored_queue@[k]@ == pre.moons_stored_queue@[k]@);
                        assert(post.moons_to_schedule@ == mid.moons_stored_queue@[i as int]@);
                        if cur == i {
                            assert(post.moons_to_schedule@ == s1);
                        } else {
                            assert(post.moons_to_schedule@ == pre.moons_stored_queue@[i as int]@);
                        }
                    }
                }
                assert forall|k1: int, k2: int, m: MoonID|
                    0 <= k1 < KINGDOM_COUNT && 0 <= k2 < KINGDOM_COUNT && k1 != k2
                        && #[trigger] post.moons_stored_queue@[k1]@.contains(m) implies !(
                    #[trigger] post.moons_stored_queue@[k2]@.contains(m)) by {
                    if k1 != i && k2 != i {
                        if k1 == cur {
                            assert(s0.contains(m) || p0.contains(m));
                        }
                    }
                }
                assert(post.moons_to_schedule@.no_duplicates()) by {
                    if cur == i {
                        assert(post.moons_to_schedule@ == s1);
                    } else {
                        assert(post.moons_to_schedule@ == pre.moons_stored_queue@[i as int]@);
                    }
                }
            }
            assert forall|m: MoonID| post.spec_claims(m) == pre.spec_claims(m) by {
                if post.spec_claims(m) {
                    if post.moons_to_schedule@.contains(m) {
                        if cur == i {
                            assert(pre.spec_stash_at(cur as int).contains(m) || pre.spec_pending_moons().contains(m));
                        } else {
                            assert(pre.spec_stash_at(i as int).contains(m));
                        }
                        assert(pre.spec_claims(m));
                    } else if post.spec_history().contains(m) {
                        assert(pre.spec_claims(m));
                    } else if exists|k: int|
                        0 <= k < KINGDOM_COUNT && (#[trigger] post.spec_stash_at(k)).contains(m) {
                        let k = choose|k: int|
                            0 <= k < KINGDOM_COUNT && (#[trigger] post.spec_stash_at(k)).contains(
                                m,
                            );
                        if k == cur && cur != i {
                            assert(s0.contains(m) || p0.contains(m));
                            assert(pre.spec_stash_at(cur as int).contains(m)
                                || pre.spec_pending_moons().contains(m));
                        } else {
                            assert(k != i);
                            assert(post.spec_stash_at(k) == pre.spec_stash_at(k));
                        }
                        assert(pre.spec_claims(m));
                    }
                }
                if pre.spec_claims(m) {
                    if pre.spec_history().contains(m) {
                        assert(post.spec_claims(m));
                    } else if pre.moons_to_schedule@.contains(m) {
                        assert(s1.contains(m));
                        if cur == i {
                            assert(post.moons_to_schedule@.contains(m));
                        } else {
                            assert(post.spec_stash_at(cur as int).contains(m));
                        }
                        assert(post.spec_claims(m));
                    } else {
                        let k = choose|k: int|
                            0 <= k < KINGDOM_COUNT && (#[trigger] pre.spec_stash_at(k)).contains(m);
                        if k == i {
                            assert(post.moons_to_schedule@.contains(m)) by {
                                if cur == i {
                                    assert(s1.contains(m));
                                } else {
                                    assert(post.moons_to_schedule@ == pre.moons_stored_queue@[i as int]@);
                                }
                            }
                        } else if k == cur {
                            assert(s1.contains(m));
                            assert(post.spec_stash_at(cur as int).contains(m));
                        } else {
                            assert(post.spec_stash_at(k).contains(m));
                        }
                        assert(post.spec_claims(m));
                    }
                }
            }
            assert forall|nn: int| pre.compat(nn) implies post.compat(nn) by {
                assert forall|j: int|
                    0 <= j < post.moons_to_schedule@.len() implies (
                #[trigger] post.moons_to_schedule@[j]) < nn by {
                    let m = post.moons_to_schedule@[j];
                    assert(post.moons_to_schedule@.contains(m));
                    assert(post.spec_claims(m));
                    assert(pre.spec_claims(m));
                    claims_below(pre, m, nn);
                }
                assert forall|k: int, j: int|
                    0 <= k < KINGDOM_COUNT && 0 <= j < post.moons_stored_queue@[k]@.len() implies (
                #[trigger] post.moons_stored_queue@[k]@[j]) < nn by {
                    let m = post.moons_stored_queue@[k]@[j];
                    assert(post.moons_stored_queue@[k]@.contains(m));
                    assert(post.spec_stash_at(k).contains(m));
                    assert(post.spec_claims(m));
                    assert(pre.spec_claims(m));
                    claims_below(pre, m, nn);
                }
            }
        }
        true
    }
}

/// Two states with the same commit history, pending pool, and stashes claim
/// the same moon ids.
pub proof fn lemma_claims_same(a: State, b: State)
    requires
        a.spec_history() == b.spec_history(),
        a.spec_pending_moons() == b.spec_pending_moons(),
        forall|k: int|
            0 <= k < KINGDOM_COUNT ==> (#[trigger] a.spec_stash_at(k)) == b.spec_stash_at(k),
    ensures
        forall|m: MoonID| a.spec_claims(m) == b.spec_claims(m),
{
    assert forall|m: MoonID| a.spec_claims(m) == b.spec_claims(m) by {
        if a.spec_claims(m) && !a.spec_history().contains(m) && !a.spec_pending_moons().contains(m) {
            let k = choose|k: int|
                0 <= k < KINGDOM_COUNT && (#[trigger] a.spec_stash_at(k)).contains(m);
            assert(b.spec_stash_at(k).contains(m));
        }
        if b.spec_claims(m) && !b.spec_history().contains(m) && !b.spec_pending_moons().contains(m) {
            let k = choose|k: int|
                0 <= k < KINGDOM_COUNT && (#[trigger] b.spec_stash_at(k)).contains(m);
            assert(a.spec_stash_at(k).contains(m));
        }
    }
}

/// Ids of a sequence included (element-wise) in one whose ids lie below `n`
/// lie below `n` themselves.
pub proof fn lemma_ids_below_via_contains(a: Seq<MoonID>, b: Seq<MoonID>, n: int)
    requires
        forall|m: MoonID| #[trigger] a.contains(m) ==> b.contains(m),
        ids_below(b, n),
    ensures
        ids_below(a, n),
{
    assert forall|j: int| 0 <= j < a.len() implies (#[trigger] a[j]) < n by {
        let m = a[j];
        assert(a.contains(m));
        let j2 = choose|j2: int| 0 <= j2 < b.len() && b[j2] == m;
        assert(b[j2] < n);
    }
}

/// When no member of `list` is both reachable and admissible under `s`,
/// the candidate selection over `list` comes up empty.
pub proof fn lemma_candidates_of_all_fail(s: State, kingdoms: Kingdoms, list: Seq<KingdomName>)
    requires
        forall|j: int|
            0 <= j < list.len() ==> !(kingdoms.spec_kingdom(#[trigger] list[j]).spec_available(s)
                && s.spec_addable(list[j])),
    ensures
        s.spec_candidates_of(kingdoms, list).len() == 0,
    decreases list.len(),
{
    if list.len() > 0 {
        let rest = list.drop_last();
        assert forall|j: int| 0 <= j < rest.len() implies !(kingdoms.spec_kingdom(
            #[trigger] rest[j],
        ).spec_available(s) && s.spec_addable(rest[j])) by {
            assert(rest[j] == list[j]);
        }
        lemma_candidates_of_all_fail(s, kingdoms, rest);
        assert(list[list.len() - 1] == list.last());
    }
}

/// A claimed moon id is below `n` whenever the state is `compat(n)`.
pub proof fn claims_below(s: State, m: MoonID, n: int)
    requires
        s.compat(n),
        s.spec_claims(m),
    ensures
        m < n,
{
    if s.spec_history().contains(m) {
        let j = choose|j: int| 0 <= j < s.spec_history().len() && s.spec_history()[j] == m;
        assert(s.spec_history()[j] < n);
    } else if s.spec_pending_moons().contains(m) {
        let j = choose|j: int|
            0 <= j < s.spec_pending_moons().len() && s.spec_pending_moons()[j] == m;
        assert(s.spec_pending_moons()[j] < n);
    } else {
        let k = choose|k: int|
            0 <= k < KINGDOM_COUNT && (#[trigger] s.spec_stash_at(k)).contains(m);
        let j = choose|j: int| 0 <= j < s.spec_stash_at(k).len() && s.spec_stash_at(k)[j] == m;
        assert(ids_below(s.spec_stash_at(k), n));
        assert(s.spec_stash_at(k)[j] < n);
    }
}

/// A sequence of distinct ids all below `n` has at most `n` elements.
pub proof fn lemma_nodup_bounded_len(s: Seq<MoonID>, n: int)
    requires
        s.no_duplicates(),
        ids_below(s, n),
        0 <= n,
    ensures
        s.len() <= n,
    decreases n,
{
    if s.len() == 0 {
    } else if n == 0 {
        assert(s[0] < 0);
    } else {
        if exists|i: int| 0 <= i < s.len() && s[i] == n - 1 {
            let i = choose|i: int| 0 <= i < s.len() && s[i] == n - 1;
            let s2 = s.remove(i);
            assert forall|j: int| 0 <= j < i implies s2[j] == s[j] by {}
            assert forall|j: int| i <= j < s2.len() implies s2[j] == s[j + 1] by {}
            assert(s2.no_duplicates()) by {
                assert forall|a: int, b: int| 0 <= a < b < s2.len() implies s2[a] != s2[b] by {
                    let a0: int = if a < i { a } else { a + 1 };
                    let b0: int = if b < i { b } else { b + 1 };
                    assert(s2[a] == s[a0]);
                    assert(s2[b] == s[b0]);
                }
            }
            assert(ids_below(s2, n - 1)) by {
                assert forall|j: int| 0 <= j < s2.len() implies (#[trigger] s2[j]) < n - 1 by {
                    let j0: int = if j < i { j } else { j + 1 };
                    assert(s2[j] == s[j0]);
                    assert(s[j0] != s[i]);
                }
            }
            lemma_nodup_bounded_len(s2, n - 1);
        } else {
            assert(ids_below(s, n - 1)) by {
                assert forall|j: int| 0 <= j < s.len() implies (#[trigger] s[j]) < n - 1 by {
                    if s[j] == n - 1 {
                    }
                }
            }
            lemma_nodup_bounded_len(s, n - 1);
        }
    }
}

} // verus!
