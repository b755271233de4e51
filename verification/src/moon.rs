//! The objective catalog: moons, their prerequisites, and the per-kingdom
//! windows over which the availability scan runs.

use vstd::prelude::*;
use crate::kingdom::{KingdomName, KINGDOM_COUNT};
use crate::state::State;

verus! {

/// Identity of a moon: its index into the catalog.
pub type MoonID = usize;

/// Capacity bound on a catalog; keeps every reward total far below `u16::MAX`.
pub const MAX_MOONS: usize = 4096;

/// A single collectible moon with its reward weight and prerequisites.
pub struct Moon {
    name: &'static str,
    count: u16,
    kingdom: KingdomName,
    prerequisite_kingdoms: Vec<(KingdomName, u8)>,
    prerequisite_moons: Vec<MoonID>,
}

impl Moon {
    pub closed spec fn spec_name(self) -> Seq<char> {
        self.name@
    }

    pub closed spec fn spec_kingdom(self) -> KingdomName {
        self.kingdom
    }

    pub closed spec fn spec_count(self) -> int {
        self.count as int
    }

    pub closed spec fn spec_prereq_kingdoms(self) -> Seq<(KingdomName, u8)> {
        self.prerequisite_kingdoms@
    }

    pub closed spec fn spec_prereq_moons(self) -> Seq<MoonID> {
        self.prerequisite_moons@
    }

    /// A moon's reward weight is a single moon or a bundled triple.
    pub open spec fn wf(self) -> bool {
        self.spec_count() == 1 || self.spec_count() == 3
    }

    /// A single moon worth one reward.
    pub fn new(name: &'static str, kingdom: KingdomName) -> (m: Moon)
        ensures
            m.wf(),
            m.spec_name() == name@,
            m.spec_kingdom() == kingdom,
            m.spec_count() == 1,
            m.spec_prereq_kingdoms() == Seq::<(KingdomName, u8)>::empty(),
            m.spec_prereq_moons() == Seq::<MoonID>::empty(),
    {
        Moon {
            name,
            count: 1,
            kingdom,
            prerequisite_kingdoms: Vec::new(),
            prerequisite_moons: Vec::new(),
        }
    }

    /// A bundled moon worth three rewards.
    pub fn new_multi(name: &'static str, kingdom: KingdomName) -> (m: Moon)
        ensures
            m.wf(),
            m.spec_name() == name@,
            m.spec_kingdom() == kingdom,
            m.spec_count() == 3,
            m.spec_prereq_kingdoms() == Seq::<(KingdomName, u8)>::empty(),
            m.spec_prereq_moons() == Seq::<MoonID>::empty(),
    {
        Moon {
            name,
            count: 3,
            kingdom,
            prerequisite_kingdoms: Vec::new(),
            prerequisite_moons: Vec::new(),
        }
    }

    /// Require one visit to `kingdom` before this moon can surface.
    pub fn add_prereq_kingdom(&mut self, kingdom: KingdomName)
        ensures
            final(self).spec_prereq_kingdoms() == old(self).spec_prereq_kingdoms().push(
                (kingdom, 1u8),
            ),
            final(self).spec_prereq_moons() == old(self).spec_prereq_moons(),
            final(self).spec_name() == old(self).spec_name(),
            final(self).spec_kingdom() == old(self).spec_kingdom(),
            final(self).spec_count() == old(self).spec_count(),
    {
        self.prerequisite_kingdoms.push((kingdom, 1));
    }

    /// Require `visited` visits to `kingdom` before this moon can surface.
    pub fn add_prereq_kingdom_count(&mut self, kingdom: KingdomName, visited: u8)
        ensures
            final(self).spec_prereq_kingdoms() == old(self).spec_prereq_kingdoms().push(
                (kingdom, visited),
            ),
            final(self).spec_prereq_moons() == old(self).spec_prereq_moons(),
            final(self).spec_name() == old(self).spec_name(),
            final(self).spec_kingdom() == old(self).spec_kingdom(),
            final(self).spec_count() == old(self).spec_count(),
    {
        self.prerequisite_kingdoms.push((kingdom, visited));
    }

    /// Require `moon` to be scheduled before this moon can surface.
    pub fn add_prereq_moon(&mut self, moon: MoonID)
        ensures
            final(self).spec_prereq_moons() == old(self).spec_prereq_moons().push(moon),
            final(self).spec_prereq_kingdoms() == old(self).spec_prereq_kingdoms(),
            final(self).spec_name() == old(self).spec_name(),
            final(self).spec_kingdom() == old(self).spec_kingdom(),
            final(self).spec_count() == old(self).spec_count(),
    {
        self.prerequisite_moons.push(moon);
    }

    /// Whether this moon can surface now: the schedule stands in its
    /// kingdom, every prerequisite kingdom has been visited often enough,
    /// and every prerequisite moon is already scheduled.
    pub open spec fn spec_available(self, state: State) -> bool {
        &&& state.spec_current() == self.spec_kingdom()
        &&& (forall|i: int|
            0 <= i < self.spec_prereq_kingdoms().len() ==> state.spec_visits(
                (#[trigger] self.spec_prereq_kingdoms()[i]).0,
            ) >= self.spec_prereq_kingdoms()[i].1)
        &&& (forall|i: int|
            0 <= i < self.spec_prereq_moons().len() ==> state.spec_scheduled(
                #[trigger] self.spec_prereq_moons()[i],
            ))
    }

    pub fn available(&self, state: &State) -> (r: bool)
        requires
            state.wf(),
        ensures
            r == self.spec_available(*state),
    {
        if state.current_kingdom() != self.kingdom {
            return false;
        }
        let mut i: usize = 0;
        while i < self.prerequisite_kingdoms.len()
            invariant
                state.wf(),
                0 <= i <= self.prerequisite_kingdoms@.len(),
                forall|j: int|
                    0 <= j < i ==> state.spec_visits(
                        (#[trigger] self.prerequisite_kingdoms@[j]).0,
                    ) >= self.prerequisite_kingdoms@[j].1,
            decreases self.prerequisite_kingdoms@.len() - i,
        {
            let (p, c) = self.prerequisite_kingdoms[i];
            if !state.kingdom_scheduled(p, c) {
                proof {
                    assert(self.spec_prereq_kingdoms()[i as int] == (p, c));
                }
                return false;
            }
            i = i + 1;
        }
        let mut j: usize = 0;
        while j < self.prerequisite_moons.len()
            invariant
                0 <= j <= self.prerequisite_moons@.len(),
                forall|x: int|
                    0 <= x < j ==> state.spec_scheduled(#[trigger] self.prerequisite_moons@[x]),
            decreases self.prerequisite_moons@.len() - j,
        {
            if !state.moon_scheduled(self.prerequisite_moons[j]) {
                proof {
                    assert(self.spec_prereq_moons()[j as int] == self.prerequisite_moons@[j as int]);
                }
                return false;
            }
            j = j + 1;
        }
        true
    }

    pub fn name(&self) -> (r: &str)
        ensures
            r@ == self.spec_name(),
    {
        self.name
    }

    pub fn kingdom(&self) -> (k: KingdomName)
        ensures
            k == self.spec_kingdom(),
    {
        self.kingdom
    }

    pub fn count(&self) -> (c: u16)
        ensures
            c == self.spec_count(),
    {
        self.count
    }
}

/// The ids of `w` whose moons (looked up in `moons`) are available under
/// `state`, in order.
pub open spec fn available_in(moons: Seq<Moon>, state: State, w: Seq<MoonID>) -> Seq<MoonID>
    decreases w.len(),
{
    if w.len() == 0 {
        Seq::empty()
    } else {
        let rest = available_in(moons, state, w.drop_last());
        if moons[w.last() as int].spec_available(state) {
            rest.push(w.last())
        } else {
            rest
        }
    }
}

/// The arrangement of a window after the scan has examined its first `x`
/// entries: every available entry is swapped onto the end of the surfaced
/// prefix (whose length is the count of available entries seen so far),
/// displacing the unavailable entry that stood there.
pub open spec fn spec_scan_permuted(
    moons: Seq<Moon>,
    state: State,
    w: Seq<MoonID>,
    x: int,
) -> Seq<MoonID>
    decreases x,
{
    if x <= 0 {
        w
    } else {
        let prev = spec_scan_permuted(moons, state, w, x - 1);
        let sp = available_in(moons, state, w.take(x - 1)).len() as int;
        if moons[w[x - 1] as int].spec_available(state) {
            prev.update(x - 1, prev[sp]).update(sp, prev[x - 1])
        } else {
            prev
        }
    }
}

/// Membership in the available sub-sequence, and its freedom from
/// duplicates.
pub proof fn lemma_available_in_members(moons: Seq<Moon>, state: State, w: Seq<MoonID>)
    ensures
        forall|m: MoonID|
            #[trigger] available_in(moons, state, w).contains(m) <==> (w.contains(m)
                && moons[m as int].spec_available(state)),
        w.no_duplicates() ==> available_in(moons, state, w).no_duplicates(),
    decreases w.len(),
{
    let r = available_in(moons, state, w);
    if w.len() == 0 {
        assert forall|m: MoonID| #[trigger] r.contains(m) implies false by {
            let j = choose|j: int| 0 <= j < r.len() && r[j] == m;
        }
        assert forall|m: MoonID| #[trigger] w.contains(m) implies false by {
            let j = choose|j: int| 0 <= j < w.len() && w[j] == m;
        }
    } else {
        let w0 = w.drop_last();
        let last = w.last();
        let r0 = available_in(moons, state, w0);
        lemma_available_in_members(moons, state, w0);
        assert forall|m: MoonID| #[trigger] w.contains(m) implies w0.contains(m) || m == last by {
            let j = choose|j: int| 0 <= j < w.len() && w[j] == m;
            if j < w0.len() {
                assert(w0[j] == m);
            }
        }
        assert forall|m: MoonID| #[trigger] w0.contains(m) implies w.contains(m) by {
            let j = choose|j: int| 0 <= j < w0.len() && w0[j] == m;
            assert(w[j] == m);
        }
        assert(w.contains(last)) by {
            assert(w[w.len() - 1] == last);
        }
        if moons[last as int].spec_available(state) {
            assert(r == r0.push(last));
            assert forall|m: MoonID| #[trigger] r.contains(m) implies r0.contains(m) || m
                == last by {
                let j = choose|j: int| 0 <= j < r.len() && r[j] == m;
                if j < r0.len() {
                    assert(r0[j] == m);
                }
            }
            assert forall|m: MoonID| #[trigger] r0.contains(m) implies r.contains(m) by {
                let j = choose|j: int| 0 <= j < r0.len() && r0[j] == m;
                assert(r[j] == m);
            }
            assert(r.contains(last)) by {
                assert(r[r.len() - 1] == last);
            }
            assert forall|m: MoonID|
                (#[trigger] r.contains(m)) == (w.contains(m) && moons[m as int].spec_available(
                    state,
                )) by {
                if r.contains(m) && m != last {
                    assert(r0.contains(m));
                }
                if w.contains(m) && moons[m as int].spec_available(state) && m != last {
                    assert(w0.contains(m));
                    assert(r0.contains(m));
                }
            }
            if w.no_duplicates() {
                assert(w0.no_duplicates()) by {
                    assert forall|a: int, b: int| 0 <= a < b < w0.len() implies w0[a] != w0[b] by {
                        assert(w[a] == w0[a] && w[b] == w0[b]);
                    }
                }
                assert(!w0.contains(last)) by {
                    if w0.contains(last) {
                        let j = choose|j: int| 0 <= j < w0.len() && w0[j] == last;
                        assert(w[j] == last && w[w.len() - 1] == last);
                    }
                }
                assert(!r0.contains(last));
                assert forall|a: int, b: int| 0 <= a < b < r.len() implies r[a] != r[b] by {
                    if b == r.len() - 1 {
                        assert(r[a] == r0[a]);
                        assert(r0.contains(r0[a]));
                    }
                }
            }
        } else {
            assert(r == r0);
            assert forall|m: MoonID|
                (#[trigger] r.contains(m)) == (w.contains(m) && moons[m as int].spec_available(
                    state,
                )) by {
                if r.contains(m) {
                    assert(w0.contains(m));
                }
                if w.contains(m) && moons[m as int].spec_available(state) {
                    assert(m != last);
                    assert(w0.contains(m));
                    assert(r0.contains(m));
                }
            }
            if w.no_duplicates() {
                assert(w0.no_duplicates()) by {
                    assert forall|a: int, b: int| 0 <= a < b < w0.len() implies w0[a] != w0[b] by {
                        assert(w[a] == w0[a] && w[b] == w0[b]);
                    }
                }
            }
        }
    }
}

/// The immutable-content catalog of all moons, with one half-open window
/// `[start, end)` per kingdom over the `ids` array.  Moons inside a window
/// have not been surfaced yet; surfaced moons leave the window permanently.
pub struct Moons {
    moons: Vec<Moon>,
    offset: Vec<(usize, usize)>,
    ids: Vec<MoonID>,
}

/// Conditions under which a moon table and its per-kingdom windows form a
/// well-formed catalog.
pub open spec fn parts_ok(moons: Seq<Moon>, offset: Seq<(usize, usize)>) -> bool {
    &&& offset.len() == KINGDOM_COUNT
    &&& moons.len() <= MAX_MOONS
    &&& (forall|i: int| 0 <= i < moons.len() ==> (#[trigger] moons[i]).wf())
    &&& (forall|k: int|
        0 <= k < KINGDOM_COUNT ==> (#[trigger] offset[k]).0 <= offset[k].1 <= moons.len())
    &&& (forall|k1: int, k2: int|
        0 <= k1 < KINGDOM_COUNT && 0 <= k2 < KINGDOM_COUNT && k1 != k2 ==> ((
        #[trigger] offset[k1]).1 <= (#[trigger] offset[k2]).0 || offset[k2].1 <= offset[k1].0))
}

impl Moons {
    pub closed spec fn spec_moons(self) -> Seq<Moon> {
        self.moons@
    }

    pub open spec fn spec_len(self) -> int {
        self.spec_moons().len() as int
    }

    pub open spec fn spec_moon(self, id: int) -> Moon {
        self.spec_moons()[id]
    }

    pub open spec fn spec_count(self, id: int) -> int {
        self.spec_moon(id).spec_count()
    }

    pub closed spec fn spec_offset(self) -> Seq<(usize, usize)> {
        self.offset@
    }

    pub closed spec fn spec_ids(self) -> Seq<MoonID> {
        self.ids@
    }

    /// The not-yet-surfaced moon ids of kingdom `k`.
    pub open spec fn spec_window(self, k: int) -> Seq<MoonID> {
        self.spec_ids().subrange(self.spec_offset()[k].0 as int, self.spec_offset()[k].1 as int)
    }

    /// Whether moon `m` is still inside some kingdom's window.
    pub open spec fn in_windows(self, m: MoonID) -> bool {
        exists|k: int| 0 <= k < KINGDOM_COUNT && (#[trigger] self.spec_window(k)).contains(m)
    }

    pub open spec fn wf(self) -> bool {
        &&& parts_ok(self.spec_moons(), self.spec_offset())
        &&& self.spec_ids().no_duplicates()
        &&& (forall|k: int|
            0 <= k < KINGDOM_COUNT ==> (#[trigger] self.spec_offset()[k]).1
                <= self.spec_ids().len())
        &&& (forall|i: int|
            0 <= i < self.spec_ids().len() ==> (#[trigger] self.spec_ids()[i])
                < self.spec_moons().len())
    }

    /// What a scan of the current kingdom returns under `state`: the
    /// available entries of that kingdom's window, in window order.
    pub open spec fn spec_scan_result(self, state: State) -> Seq<MoonID> {
        available_in(
            self.spec_moons(),
            state,
            self.spec_window(state.spec_current().as_index()),
        )
    }

    /// Look up a moon by id.
    pub fn moon(&self, id: MoonID) -> (m: &Moon)
        requires
            0 <= id < self.spec_len(),
        ensures
            *m == self.spec_moon(id as int),
    {
        &self.moons[id]
    }

    /// Scan the current kingdom's window against `state`: available entries
    /// are surfaced (returned) and leave the window permanently; an already
    /// empty window marks the kingdom as exhausted in `state` instead.
    ///
    /// Each moon is surfaced at most once over the catalog's lifetime, the
    /// returned moons were all available under `state` when surfaced, and a
    /// second scan with an unchanged state returns nothing.
    pub fn return_available(&mut self, state: &mut State) -> (r: Vec<MoonID>)
        requires
            old(self).wf(),
            old(state).wf(),
        ensures
            final(self).wf(),
            final(state).wf(),
            final(self).spec_moons() == old(self).spec_moons(),
            // the result is exactly the available part of the window
            r@ == old(self).spec_scan_result(*old(state)),
            r@.no_duplicates(),
            forall|i: int|
                0 <= i < r@.len() ==> old(self).spec_window(
                    old(state).spec_current().as_index(),
                ).contains(#[trigger] r@[i]) && old(self).spec_moon(r@[i] as int).spec_available(
                    *old(state),
                ) && r@[i] < old(self).spec_len(),
            // windows of other kingdoms are untouched
            forall|k: int|
                0 <= k < KINGDOM_COUNT && k != old(state).spec_current().as_index() ==> (
                #[trigger] final(self).spec_window(k)) == old(self).spec_window(k),
            // the window keeps exactly its unavailable part
            forall|m: MoonID|
                final(self).spec_window(old(state).spec_current().as_index()).contains(m) <==> (old(
                    self,
                ).spec_window(old(state).spec_current().as_index()).contains(m) && !old(
                    self,
                ).spec_moon(m as int).spec_available(*old(state))),
            // a surfaced moon has left the windows for good
            forall|i: int| 0 <= i < r@.len() ==> !final(self).in_windows(#[trigger] r@[i]),
            forall|m: MoonID| final(self).in_windows(m) ==> old(self).in_windows(m),
            // the ids array keeps its length, is untouched outside the
            // window, and inside the window is arranged exactly as the
            // partition's swaps leave it: the surfaced moons in scan order,
            // then the displaced unavailable remainder
            final(self).spec_ids().len() == old(self).spec_ids().len(),
            ({
                let cur = old(state).spec_current().as_index();
                forall|j: int|
                    0 <= j < old(self).spec_ids().len() && !(old(self).spec_offset()[cur].0 <= j
                        < old(self).spec_offset()[cur].1) ==> final(self).spec_ids()[j] == old(
                        self,
                    ).spec_ids()[j]
            }),
            ({
                let cur = old(state).spec_current().as_index();
                let lo = old(self).spec_offset()[cur].0 as int;
                let hi = old(self).spec_offset()[cur].1 as int;
                let w0 = old(self).spec_window(cur);
                final(self).spec_ids().subrange(lo, hi) == spec_scan_permuted(
                    old(self).spec_moons(),
                    *old(state),
                    w0,
                    w0.len() as int,
                )
            }),
            ({
                let cur = old(state).spec_current().as_index();
                let w0 = old(self).spec_window(cur);
                spec_scan_permuted(old(self).spec_moons(), *old(state), w0, w0.len() as int).take(
                    r@.len() as int,
                ) == r@
            }),
            // the window's start advances by exactly the surfaced count
            ({
                let cur = old(state).spec_current().as_index();
                final(self).spec_offset()[cur].0 == old(self).spec_offset()[cur].0 + r@.len()
                    && final(self).spec_offset()[cur].1 == old(self).spec_offset()[cur].1
            }),
            // an immediate rescan surfaces nothing
            final(self).spec_scan_result(*final(state)) == Seq::<MoonID>::empty(),
            // the state is untouched, except that an empty window marks the
            // kingdom exhausted
            final(state).spec_current() == old(state).spec_current(),
            final(state).spec_visit_moons() == old(state).spec_visit_moons(),
            final(state).spec_total_moons() == old(state).spec_total_moons(),
            final(state).spec_pending_moons() == old(state).spec_pending_moons(),
            final(state).spec_history() == old(state).spec_history(),
            final(state).spec_pending_kingdoms() == old(state).spec_pending_kingdoms(),
            final(state).spec_kingdom_history() == old(state).spec_kingdom_history(),
            forall|k: int|
                0 <= k < KINGDOM_COUNT ==> (#[trigger] final(state).spec_stash_at(k)) == old(
                    state,
                ).spec_stash_at(k),
            forall|k: int|
                0 <= k < KINGDOM_COUNT ==> (#[trigger] final(state).spec_visits_at(k)) == old(
                    state,
                ).spec_visits_at(k),
            final(state).spec_main_done() == old(state).spec_main_done(),
            forall|m: MoonID| final(state).spec_claims(m) == old(state).spec_claims(m),
            old(self).spec_window(old(state).spec_current().as_index()).len() > 0 ==> *final(state)
                == *old(state),
            old(self).spec_window(old(state).spec_current().as_index()).len() > 0 ==> final(state).spec_completed_at(
                old(state).spec_current().as_index(),
            ) == old(state).spec_completed_at(old(state).spec_current().as_index()),
            old(self).spec_window(old(state).spec_current().as_index()).len() == 0 ==> (*final(self)
                == *old(self) && r@.len() == 0 && final(state).spec_completed_at(
                old(state).spec_current().as_index(),
            )),
            forall|k: int|
                0 <= k < KINGDOM_COUNT && k != old(state).spec_current().as_index() ==> (
                #[trigger] final(state).spec_completed_at(k)) == old(state).spec_completed_at(k),
    {
        let kingdom = state.current_kingdom();
        let ki = kingdom.index();
        let (s, e) = self.offset[ki];
        let ghost s0 = self.spec_ids();
        let ghost w = self.spec_window(ki as int);
        if s == e {
            // no moons left in kingdom
            state.complete_kingdom(kingdom);
            proof {
                assert(w.len() == 0);
                assert(self.spec_scan_result(*old(state)) =~= Seq::<MoonID>::empty());
                assert(self.spec_scan_result(*state) =~= Seq::<MoonID>::empty()) by {
                    assert(self.spec_window(state.spec_current().as_index()) == w);
                }
                crate::state::lemma_claims_same(*old(state), *state);
                assert(spec_scan_permuted(self.spec_moons(), *old(state), w, w.len() as int)
                    == w);
                assert(w.take(0) =~= Seq::<MoonID>::empty());
            }
            return Vec::new();
        }
        // go from start to end, check availability
        let mut ret: Vec<MoonID> = Vec::new();
        let mut swap_point: usize = s;
        let mut x: usize = s;
        proof {
            assert(self.spec_ids().subrange(s as int, s as int) =~= ret@);
            assert(s0.subrange(s as int, s as int).len() == 0);
            assert(ret@ == available_in(self.spec_moons(), *state, s0.subrange(s as int, s as int)));
            assert forall|j: int| s <= j < e implies w.contains(#[trigger] s0[j]) by {
                assert(w[j - s] == s0[j]);
            }
            assert(self.spec_ids().subrange(s as int, e as int) == spec_scan_permuted(
                self.spec_moons(),
                *state,
                w,
                0,
            ));
        }
        while x < e
            invariant
                self.wf(),
                state.wf(),
                *state == *old(state),
                self.moons@ == old(self).moons@,
                self.offset@ == old(self).offset@,
                0 <= ki < KINGDOM_COUNT,
                ki == old(state).spec_current().as_index(),
                self.spec_offset()[ki as int].0 == s && self.spec_offset()[ki as int].1 == e,
                s <= swap_point <= x <= e,
                e <= self.spec_ids().len(),
                self.spec_ids().len() == s0.len(),
                w == s0.subrange(s as int, e as int),
                w.len() > 0,
                forall|j: int|
                    0 <= j < s0.len() && !(s <= j < e) ==> (#[trigger] self.spec_ids()[j]) == s0[j],
                forall|j: int| x <= j < e ==> (#[trigger] self.spec_ids()[j]) == s0[j],
                self.spec_ids().subrange(s as int, swap_point as int) == ret@,
                ret@ == available_in(self.spec_moons(), *state, s0.subrange(s as int, x as int)),
                forall|j: int|
                    swap_point <= j < x ==> !self.spec_moon(
                        (#[trigger] self.spec_ids()[j]) as int,
                    ).spec_available(*state),
                forall|j: int| s <= j < e ==> w.contains(#[trigger] self.spec_ids()[j]),
                forall|m: MoonID|
                    #[trigger] w.contains(m) ==> self.spec_ids().subrange(s as int, e as int)
                        .contains(m),
                self.spec_ids().subrange(s as int, e as int) == spec_scan_permuted(
                    self.spec_moons(),
                    *state,
                    w,
                    x - s,
                ),
            decreases e - x,
        {
            let id = self.ids[x];
            proof {
                assert(self.spec_ids()[x as int] == s0[x as int]);
                assert(w.contains(id));
                assert(id < self.spec_moons().len());
            }
            let ghost a = self.spec_ids();
            let avail = self.moons[id].available(state);
            proof {
                assert(s0.subrange(s as int, x as int + 1).drop_last() =~= s0.subrange(
                    s as int,
                    x as int,
                ));
                assert(s0.subrange(s as int, x as int + 1).last() == s0[x as int]);
            }
            if avail {
                ret.push(id);
                // swap x with the partition point
                let prev = self.ids[swap_point];
                self.ids[x] = prev;
                self.ids[swap_point] = id;
                proof {
                    let b = self.spec_ids();
                    assert forall|j: int| 0 <= j < b.len() implies (#[trigger] b[j]) == (if j
                        == swap_point {
                        a[x as int]
                    } else if j == x {
                        a[swap_point as int]
                    } else {
                        a[j]
                    }) by {}
                    assert(b.no_duplicates()) by {
                        assert forall|i1: int, j1: int|
                            0 <= i1 < j1 < b.len() implies b[i1] != b[j1] by {}
                    }
                    assert(b.subrange(s as int, swap_point as int + 1) =~= ret@);
                    assert(ret@ == available_in(
                        self.spec_moons(),
                        *state,
                        s0.subrange(s as int, x as int + 1),
                    ));
                    assert forall|j: int|
                        s <= j < e implies w.contains(#[trigger] b[j]) by {}
                    assert forall|m: MoonID| #[trigger] w.contains(m) implies b.subrange(
                        s as int,
                        e as int,
                    ).contains(m) by {
                        let j = choose|j: int|
                            0 <= j < a.subrange(s as int, e as int).len() && a.subrange(
                                s as int,
                                e as int,
                            )[j] == m;
                        let j2: int = if j + s == x {
                            swap_point as int
                        } else if j + s == swap_point {
                            x as int
                        } else {
                            j + s
                        };
                        assert(b[j2] == m);
                        assert(b.subrange(s as int, e as int)[j2 - s] == m);
                    }
                    // the region after the swap matches the arrangement spec
                    assert(w[x - s] == s0[x as int]);
                    assert(w.take(x - s) =~= s0.subrange(s as int, x as int));
                    let prevr = spec_scan_permuted(self.spec_moons(), *state, w, x - s);
                    assert(a.subrange(s as int, e as int) == prevr);
                    let sp = available_in(self.spec_moons(), *state, w.take(x - s)).len() as int;
                    assert(sp == swap_point - s) by {
                        assert(a.subrange(s as int, swap_point as int).len() == swap_point - s);
                    }
                    assert(prevr[sp] == a[swap_point as int]);
                    assert(prevr[x - s] == a[x as int]);
                    assert(b.subrange(s as int, e as int) =~= prevr.update(x - s, prevr[sp]).update(
                        sp,
                        prevr[x - s],
                    ));
                    assert(b.subrange(s as int, e as int) == spec_scan_permuted(
                        self.spec_moons(),
                        *state,
                        w,
                        x - s + 1,
                    ));
                }
                swap_point = swap_point + 1;
            } else {
                proof {
                    assert(ret@ == available_in(
                        self.spec_moons(),
                        *state,
                        s0.subrange(s as int, x as int + 1),
                    ));
                    assert(w[x - s] == s0[x as int]);
                    assert(self.spec_ids().subrange(s as int, e as int) == spec_scan_permuted(
                        self.spec_moons(),
                        *state,
                        w,
                        x - s + 1,
                    ));
                }
            }
            x = x + 1;
        }
        // finally update start by the amount copied out
        let new_s = swap_point;
        self.offset[ki] = (new_s, e);
        proof {
            let idsf = self.spec_ids();
            let cur = ki as int;
            assert(self.spec_offset()[cur] == (new_s, e));
            assert forall|k: int|
                0 <= k < KINGDOM_COUNT && k != cur implies (#[trigger] self.spec_offset()[k]) == old(
                self,
            ).spec_offset()[k] by {}
            assert(self.wf()) by {
                assert forall|k1: int, k2: int|
                    0 <= k1 < KINGDOM_COUNT && 0 <= k2 < KINGDOM_COUNT && k1 != k2 implies ((
                #[trigger] self.spec_offset()[k1]).1 <= (#[trigger] self.spec_offset()[k2]).0
                    || self.spec_offset()[k2].1 <= self.spec_offset()[k1].0) by {
                    assert(old(self).spec_offset()[k1].1 <= old(self).spec_offset()[k2].0 || old(
                        self,
                    ).spec_offset()[k2].1 <= old(self).spec_offset()[k1].0);
                }
            }
            // other windows are untouched
            assert forall|k: int|
                0 <= k < KINGDOM_COUNT && k != cur implies (#[trigger] self.spec_window(k)) == old(
                self,
            ).spec_window(k) by {
                let lo = old(self).spec_offset()[k].0 as int;
                let hi = old(self).spec_offset()[k].1 as int;
                assert(hi <= s || e <= lo);
                assert forall|j: int| lo <= j < hi implies idsf[j] == s0[j] by {}
                assert(idsf.subrange(lo, hi) =~= s0.subrange(lo, hi));
            }
            // the result is the available part of the whole window
            assert(s0.subrange(s as int, e as int) =~= w);
            assert(ret@ == available_in(self.spec_moons(), *state, w));
            assert(old(self).spec_window(cur) == w);
            assert(old(self).spec_scan_result(*old(state)) == ret@);
            // the region is the arrangement of the whole window, and its
            // prefix is the result
            assert(w.len() == e - s);
            assert(idsf.subrange(s as int, e as int) == spec_scan_permuted(
                self.spec_moons(),
                *state,
                w,
                w.len() as int,
            ));
            assert(new_s as int == s + ret@.len());
            assert(spec_scan_permuted(self.spec_moons(), *state, w, w.len() as int).take(
                ret@.len() as int,
            ) =~= ret@) by {
                let region = idsf.subrange(s as int, e as int);
                assert forall|j: int| 0 <= j < ret@.len() implies region.take(ret@.len() as int)[j]
                    == ret@[j] by {
                    assert(region[j] == idsf[s + j]);
                    assert(idsf.subrange(s as int, new_s as int)[j] == idsf[s + j]);
                }
            }
            lemma_available_in_members(self.spec_moons(), *state, w);
            assert(w.no_duplicates()) by {
                assert forall|a1: int, b1: int| 0 <= a1 < b1 < w.len() implies w[a1] != w[b1] by {
                    assert(w[a1] == s0[s + a1] && w[b1] == s0[s + b1]);
                }
            }
            // membership in the remaining window
            let win2 = self.spec_window(cur);
            assert(win2 == idsf.subrange(new_s as int, e as int));
            assert forall|m: MoonID| #[trigger] win2.contains(m) implies (w.contains(m)
                && !self.spec_moon(m as int).spec_available(*state)) by {
                let j = choose|j: int| 0 <= j < win2.len() && win2[j] == m;
                assert(idsf[new_s + j] == m);
            }
            assert forall|m: MoonID|
                w.contains(m) && !self.spec_moon(m as int).spec_available(*state) implies
                #[trigger] win2.contains(m) by {
                assert(idsf.subrange(s as int, e as int).contains(m));
                let j = choose|j: int|
                    0 <= j < idsf.subrange(s as int, e as int).len() && idsf.subrange(
                        s as int,
                        e as int,
                    )[j] == m;
                assert(idsf[s + j] == m);
                if s + j < new_s {
                    assert(idsf.subrange(s as int, new_s as int)[j] == m);
                    assert(ret@.contains(m));
                    assert(self.spec_moon(m as int).spec_available(*state));
                } else {
                    assert(win2[s + j - new_s] == m);
                }
            }
            // surfaced moons are gone from every window
            assert forall|i: int| 0 <= i < ret@.len() implies !self.in_windows(
                #[trigger] ret@[i],
            ) by {
                let m = ret@[i];
                assert(ret@.contains(m));
                assert(self.spec_moon(m as int).spec_available(*state));
                assert(idsf[s + i] == m);
                if self.in_windows(m) {
                    let k = choose|k: int|
                        0 <= k < KINGDOM_COUNT && (#[trigger] self.spec_window(k)).contains(m);
                    if k == cur {
                        assert(!self.spec_moon(m as int).spec_available(*state));
                    } else {
                        let lo = self.spec_offset()[k].0 as int;
                        let hi = self.spec_offset()[k].1 as int;
                        let j = choose|j: int|
                            0 <= j < self.spec_window(k).len() && self.spec_window(k)[j] == m;
                        assert(idsf[lo + j] == m);
                        assert(hi <= s || e <= lo);
                        assert(lo + j != s + i);
                    }
                }
            }
            // windows only ever shrink
            assert forall|m: MoonID| self.in_windows(m) implies old(self).in_windows(m) by {
                let k = choose|k: int|
                    0 <= k < KINGDOM_COUNT && (#[trigger] self.spec_window(k)).contains(m);
                assert(old(self).spec_window(k).contains(m));
            }
            // an immediate rescan returns nothing
            assert(self.spec_scan_result(*state) =~= Seq::<MoonID>::empty()) by {
                assert(self.spec_window(state.spec_current().as_index()) == win2);
                lemma_available_in_members(self.spec_moons(), *state, win2);
                let r2 = available_in(self.spec_moons(), *state, win2);
                if r2.len() > 0 {
                    assert(r2.contains(r2[0]));
                    assert(win2.contains(r2[0]));
                }
            }
        }
        ret
    }

    /// Whether every window is empty: the whole catalog has been surfaced.
    pub fn all_surfaced(&self) -> (b: bool)
        requires
            self.wf(),
        ensures
            b == (forall|k: int|
                0 <= k < KINGDOM_COUNT ==> (#[trigger] self.spec_window(k)).len() == 0),
    {
        let mut i: usize = 0;
        while i < KINGDOM_COUNT
            invariant
                self.wf(),
                0 <= i <= KINGDOM_COUNT,
                forall|k: int| 0 <= k < i ==> (#[trigger] self.spec_window(k)).len() == 0,
            decreases KINGDOM_COUNT - i,
        {
            let (s, e) = self.offset[i];
            if s != e {
                proof {
                    assert(self.spec_window(i as int).len() == e - s);
                }
                return false;
            }
            i = i + 1;
        }
        true
    }

    /// Build a catalog from a moon table and per-kingdom windows, after
    /// checking that they are well formed; the windows initially cover the
    /// whole table in identity order.
    pub fn from_parts(moons: Vec<Moon>, offset: Vec<(usize, usize)>) -> (r: Option<Moons>)
        ensures
            r is Some <==> parts_ok(moons@, offset@),
            (match r {
                Some(m) => {
                    &&& m.wf()
                    &&& m.spec_moons() == moons@
                    &&& m.spec_offset() == offset@
                    &&& m.spec_ids() == Seq::new(moons@.len(), |i: int| i as MoonID)
                },
                None => true,
            }),
    {
        if offset.len() != KINGDOM_COUNT {
            return None;
        }
        if moons.len() > MAX_MOONS {
            return None;
        }
        let mut i: usize = 0;
        while i < moons.len()
            invariant
                0 <= i <= moons@.len(),
                forall|j: int| 0 <= j < i ==> (#[trigger] moons@[j]).wf(),
            decreases moons@.len() - i,
        {
            let c = moons[i].count();
            if !(c == 1 || c == 3) {
                return None;
            }
            i = i + 1;
        }
        let mut k: usize = 0;
        while k < KINGDOM_COUNT
            invariant
                0 <= k <= KINGDOM_COUNT,
                offset@.len() == KINGDOM_COUNT,
                forall|j: int|
                    0 <= j < k ==> (#[trigger] offset@[j]).0 <= offset@[j].1 <= moons@.len(),
            decreases KINGDOM_COUNT - k,
        {
            let (s, e) = offset[k];
            if s > e || e > moons.len() {
                return None;
            }
            k = k + 1;
        }
        let mut k1: usize = 0;
        while k1 < KINGDOM_COUNT
            invariant
                0 <= k1 <= KINGDOM_COUNT,
                offset@.len() == KINGDOM_COUNT,
                forall|a: int, b: int|
                    0 <= a < k1 && 0 <= b < KINGDOM_COUNT && a != b ==> ((#[trigger] offset@[a]).1
                        <= (#[trigger] offset@[b]).0 || offset@[b].1 <= offset@[a].0),
            decreases KINGDOM_COUNT - k1,
        {
            let mut k2: usize = 0;
            while k2 < KINGDOM_COUNT
                invariant
                    0 <= k1 < KINGDOM_COUNT,
                    0 <= k2 <= KINGDOM_COUNT,
                    offset@.len() == KINGDOM_COUNT,
                    forall|a: int, b: int|
                        0 <= a < k1 && 0 <= b < KINGDOM_COUNT && a != b ==> ((
                        #[trigger] offset@[a]).1 <= (#[trigger] offset@[b]).0 || offset@[b].1
                            <= offset@[a].0),
                    forall|b: int|
                        0 <= b < k2 && k1 != b ==> ((#[trigger] offset@[k1 as int]).1 <= (
                        #[trigger] offset@[b]).0 || offset@[b].1 <= offset@[k1 as int].0),
                decreases KINGDOM_COUNT - k2,
            {
                if k1 != k2 {
                    let (s1, e1) = offset[k1];
                    let (s2, e2) = offset[k2];
                    if !(e1 <= s2 || e2 <= s1) {
                        return None;
                    }
                }
                k2 = k2 + 1;
            }
            k1 = k1 + 1;
        }
        let mut ids: Vec<MoonID> = Vec::new();
        let mut x: usize = 0;
        while x < moons.len()
            invariant
                0 <= x <= moons@.len(),
                ids@.len() == x,
                forall|j: int| 0 <= j < x ==> (#[trigger] ids@[j]) == j,
            decreases moons@.len() - x,
        {
            ids.push(x);
            x = x + 1;
        }
        proof {
            assert(ids@ =~= Seq::new(moons@.len(), |i: int| i as MoonID));
            assert forall|a: int, b: int|
                0 <= a < b < ids@.len() implies ids@[a] != ids@[b] by {}
        }
        Some(Moons { moons, offset, ids })
    }
}

} // verus!
