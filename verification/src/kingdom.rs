//! The progression graph: kingdoms, their thresholds, and the pure
//! reachability / exit predicates evaluated against a scheduler state.

use vstd::prelude::*;
use crate::moon::MoonID;
use crate::state::State;

verus! {

/// Number of kingdoms in the progression graph.
pub const KINGDOM_COUNT: usize = 17;

/// Identity of a kingdom in the progression graph.
#[derive(Clone, Copy, Debug, Eq, Hash, PartialEq, Structural)]
pub enum KingdomName {
    Cap,
    Cascade,
    Sand,
    Lake,
    Wooded,
    Cloud,
    Lost,
    Metro,
    Snow,
    Seaside,
    Luncheon,
    Ruined,
    Bowser,
    Moon,
    Mushroom,
    Dark,
    Darker,
}

impl KingdomName {
    /// Position of this kingdom in any per-kingdom table.
    pub open spec fn as_index(self) -> int {
        match self {
            KingdomName::Cap => 0,
            KingdomName::Cascade => 1,
            KingdomName::Sand => 2,
            KingdomName::Lake => 3,
            KingdomName::Wooded => 4,
            KingdomName::Cloud => 5,
            KingdomName::Lost => 6,
            KingdomName::Metro => 7,
            KingdomName::Snow => 8,
            KingdomName::Seaside => 9,
            KingdomName::Luncheon => 10,
            KingdomName::Ruined => 11,
            KingdomName::Bowser => 12,
            KingdomName::Moon => 13,
            KingdomName::Mushroom => 14,
            KingdomName::Dark => 15,
            KingdomName::Darker => 16,
        }
    }

    /// Index of this kingdom into a per-kingdom table.
    pub fn index(self) -> (i: usize)
        ensures
            i == self.as_index(),
            i < KINGDOM_COUNT,
    {
        match self {
            KingdomName::Cap => 0,
            KingdomName::Cascade => 1,
            KingdomName::Sand => 2,
            KingdomName::Lake => 3,
            KingdomName::Wooded => 4,
            KingdomName::Cloud => 5,
            KingdomName::Lost => 6,
            KingdomName::Metro => 7,
            KingdomName::Snow => 8,
            KingdomName::Seaside => 9,
            KingdomName::Luncheon => 10,
            KingdomName::Ruined => 11,
            KingdomName::Bowser => 12,
            KingdomName::Moon => 13,
            KingdomName::Mushroom => 14,
            KingdomName::Dark => 15,
            KingdomName::Darker => 16,
        }
    }
}

/// Table positions identify kingdoms: two kingdoms share an index only if
/// they are the same kingdom.
pub proof fn lemma_index_injective(a: KingdomName, b: KingdomName)
    ensures
        (a.as_index() == b.as_index()) <==> (a == b),
{
}

/// All kingdoms, in table order.
pub open spec fn spec_all_kingdoms() -> Seq<KingdomName> {
    seq![
        KingdomName::Cap,
        KingdomName::Cascade,
        KingdomName::Sand,
        KingdomName::Lake,
        KingdomName::Wooded,
        KingdomName::Cloud,
        KingdomName::Lost,
        KingdomName::Metro,
        KingdomName::Snow,
        KingdomName::Seaside,
        KingdomName::Luncheon,
        KingdomName::Ruined,
        KingdomName::Bowser,
        KingdomName::Moon,
        KingdomName::Mushroom,
        KingdomName::Dark,
        KingdomName::Darker,
    ]
}

/// All kingdoms, in table order.
pub fn all_kingdoms() -> (v: Vec<KingdomName>)
    ensures
        v@ == spec_all_kingdoms(),
{
    let v: Vec<KingdomName> = vec![
        KingdomName::Cap,
        KingdomName::Cascade,
        KingdomName::Sand,
        KingdomName::Lake,
        KingdomName::Wooded,
        KingdomName::Cloud,
        KingdomName::Lost,
        KingdomName::Metro,
        KingdomName::Snow,
        KingdomName::Seaside,
        KingdomName::Luncheon,
        KingdomName::Ruined,
        KingdomName::Bowser,
        KingdomName::Moon,
        KingdomName::Mushroom,
        KingdomName::Dark,
        KingdomName::Darker,
    ];
    assert(v@ =~= spec_all_kingdoms());
    v
}

/// One kingdom of the progression graph: its thresholds, prerequisite and
/// successor edges, and its optional mandatory exit moon.
pub struct Kingdom {
    name: &'static str,
    moons_to_leave: u16,
    moons_to_unlock: u16,
    prerequisite_kingdoms: Vec<KingdomName>,
    next_kingdoms: Vec<KingdomName>,
    exit_moon: Option<MoonID>,
}

impl Kingdom {
    pub closed spec fn spec_name(self) -> Seq<char> {
        self.name@
    }

    pub closed spec fn spec_moons_to_leave(self) -> int {
        self.moons_to_leave as int
    }

    pub closed spec fn spec_moons_to_unlock(self) -> int {
        self.moons_to_unlock as int
    }

    pub closed spec fn spec_prereqs(self) -> Seq<KingdomName> {
        self.prerequisite_kingdoms@
    }

    pub closed spec fn spec_next(self) -> Seq<KingdomName> {
        self.next_kingdoms@
    }

    pub closed spec fn spec_exit_moon(self) -> Option<MoonID> {
        self.exit_moon
    }

    pub fn new(name: &'static str, moons_to_leave: u16, moons_to_unlock: u16) -> (k: Kingdom)
        ensures
            k.spec_name() == name@,
            k.spec_moons_to_leave() == moons_to_leave,
            k.spec_moons_to_unlock() == moons_to_unlock,
            k.spec_prereqs() == Seq::<KingdomName>::empty(),
            k.spec_next() == Seq::<KingdomName>::empty(),
            k.spec_exit_moon() is None,
    {
        Kingdom {
            name,
            moons_to_leave,
            moons_to_unlock,
            prerequisite_kingdoms: Vec::new(),
            next_kingdoms: Vec::new(),
            exit_moon: None,
        }
    }

    /// Require one visit to `id` before this kingdom becomes reachable.
    pub fn add_prerequisite(&mut self, id: KingdomName)
        ensures
            final(self).spec_prereqs() == old(self).spec_prereqs().push(id),
            final(self).spec_next() == old(self).spec_next(),
            final(self).spec_name() == old(self).spec_name(),
            final(self).spec_moons_to_leave() == old(self).spec_moons_to_leave(),
            final(self).spec_moons_to_unlock() == old(self).spec_moons_to_unlock(),
            final(self).spec_exit_moon() == old(self).spec_exit_moon(),
    {
        self.prerequisite_kingdoms.push(id);
    }

    /// Add `id` as a successor edge.
    pub fn link_next(&mut self, id: KingdomName)
        ensures
            final(self).spec_next() == old(self).spec_next().push(id),
            final(self).spec_prereqs() == old(self).spec_prereqs(),
            final(self).spec_name() == old(self).spec_name(),
            final(self).spec_moons_to_leave() == old(self).spec_moons_to_leave(),
            final(self).spec_moons_to_unlock() == old(self).spec_moons_to_unlock(),
            final(self).spec_exit_moon() == old(self).spec_exit_moon(),
    {
        self.next_kingdoms.push(id);
    }

    pub fn name(&self) -> (r: &str)
        ensures
            r@ == self.spec_name(),
    {
        self.name
    }

    /// The successor edges, verbatim; callers filter by reachability.
    pub fn next(&self) -> (r: &Vec<KingdomName>)
        ensures
            r@ == self.spec_next(),
    {
        &self.next_kingdoms
    }

    pub fn moons_to_leave(&self) -> (r: u16)
        ensures
            r == self.spec_moons_to_leave(),
    {
        self.moons_to_leave
    }

    /// Require `moon` to be scheduled before this kingdom can be exited.
    pub fn set_exit_moon(&mut self, moon: MoonID)
        ensures
            final(self).spec_exit_moon() == Some(moon),
            final(self).spec_prereqs() == old(self).spec_prereqs(),
            final(self).spec_next() == old(self).spec_next(),
            final(self).spec_name() == old(self).spec_name(),
            final(self).spec_moons_to_leave() == old(self).spec_moons_to_leave(),
            final(self).spec_moons_to_unlock() == old(self).spec_moons_to_unlock(),
    {
        self.exit_moon = Some(moon);
    }

    /// Exit is allowed when enough moons were committed during the current
    /// visit and the mandatory exit moon, if any, is scheduled.
    pub open spec fn spec_can_leave(self, state: State) -> bool {
        &&& state.spec_visit_moons() >= self.spec_moons_to_leave()
        &&& (match self.spec_exit_moon() {
            Some(m) => state.spec_scheduled(m),
            None => true,
        })
    }

    pub fn can_leave(&self, state: &State) -> (r: bool)
        ensures
            r == self.spec_can_leave(*state),
    {
        // can leave if the total kingdom moons are enough
        if state.total_kingdom_moons() < self.moons_to_leave {
            return false;
        }
        // can leave if the required moon ID has been scheduled
        match self.exit_moon {
            Some(m) => {
                if !state.moon_scheduled(m) {
                    return false;
                }
            },
            None => {},
        }
        true
    }

    /// Reachable when every prerequisite kingdom has been visited and the
    /// global moon total meets the unlock threshold.
    pub open spec fn spec_available(self, state: State) -> bool {
        &&& (forall|i: int|
            0 <= i < self.spec_prereqs().len() ==> state.spec_visits(
                #[trigger] self.spec_prereqs()[i],
            ) >= 1)
        &&& state.spec_total_moons() >= self.spec_moons_to_unlock()
    }

    pub fn available(&self, state: &State) -> (r: bool)
        requires
            state.wf(),
        ensures
            r == self.spec_available(*state),
    {
        // available if all prerequisites are scheduled
        let mut i: usize = 0;
        while i < self.prerequisite_kingdoms.len()
            invariant
                state.wf(),
                0 <= i <= self.prerequisite_kingdoms@.len(),
                forall|j: int|
                    0 <= j < i ==> state.spec_visits(#[trigger] self.prerequisite_kingdoms@[j])
                        >= 1,
            decreases self.prerequisite_kingdoms@.len() - i,
        {
            if !state.kingdom_scheduled(self.prerequisite_kingdoms[i], 1) {
                proof {
                    assert(self.spec_prereqs()[i as int] == self.prerequisite_kingdoms@[i as int]);
                }
                return false;
            }
            i = i + 1;
        }
        // available if total moons is enough
        if state.total_moons() < self.moons_to_unlock {
            return false;
        }
        true
    }
}

/// The immutable progression graph: one [`Kingdom`] per [`KingdomName`].
pub struct Kingdoms {
    kingdoms: Vec<Kingdom>,
}

impl Kingdoms {
    pub closed spec fn spec_kingdoms(self) -> Seq<Kingdom> {
        self.kingdoms@
    }

    pub open spec fn wf(self) -> bool {
        self.spec_kingdoms().len() == KINGDOM_COUNT
    }

    pub open spec fn spec_kingdom(self, id: KingdomName) -> Kingdom {
        self.spec_kingdoms()[id.as_index()]
    }

    pub fn kingdom(&self, id: KingdomName) -> (k: &Kingdom)
        requires
            self.wf(),
        ensures
            *k == self.spec_kingdom(id),
    {
        let i = id.index();
        &self.kingdoms[i]
    }

    pub fn kingdom_mut(&mut self, id: KingdomName) -> (k: &mut Kingdom)
        requires
            old(self).wf(),
        ensures
            *k == old(self).spec_kingdom(id),
            final(self).wf(),
            final(self).spec_kingdoms() == old(self).spec_kingdoms().update(
                id.as_index(),
                *final(k),
            ),
    {
        let i = id.index();
        &mut self.kingdoms[i]
    }

    /// Build a graph from one kingdom per name, in table order.
    pub fn from_vec(kingdoms: Vec<Kingdom>) -> (r: Option<Kingdoms>)
        ensures
            r is Some <==> kingdoms@.len() == KINGDOM_COUNT,
            (match r {
                Some(g) => g.wf() && g.spec_kingdoms() == kingdoms@,
                None => true,
            }),
    {
        if kingdoms.len() != KINGDOM_COUNT {
            return None;
        }
        Some(Kingdoms { kingdoms })
    }

    /// The fixed progression graph of the main game.
    pub fn new() -> (g: Kingdoms)
        ensures
            g.wf(),
            g.spec_kingdom(KingdomName::Cap).spec_name() == "Cap Kingdom"@,
            g.spec_kingdom(KingdomName::Cap).spec_moons_to_leave() == 0,
            g.spec_kingdom(KingdomName::Cap).spec_moons_to_unlock() == 0,
            g.spec_kingdom(KingdomName::Cap).spec_next() == seq![KingdomName::Cascade],
            g.spec_kingdom(KingdomName::Cap).spec_prereqs() == Seq::<KingdomName>::empty(),
            g.spec_kingdom(KingdomName::Cap).spec_exit_moon() is None,
            g.spec_kingdom(KingdomName::Cascade).spec_name() == "Cascade Kingdom"@,
            g.spec_kingdom(KingdomName::Cascade).spec_moons_to_leave() == 5,
            g.spec_kingdom(KingdomName::Cascade).spec_moons_to_unlock() == 0,
            g.spec_kingdom(KingdomName::Cascade).spec_next() == seq![KingdomName::Sand],
            g.spec_kingdom(KingdomName::Cascade).spec_prereqs() == seq![KingdomName::Cap],
            g.spec_kingdom(KingdomName::Cascade).spec_exit_moon() is None,
            g.spec_kingdom(KingdomName::Sand).spec_name() == "Sand Kingdom"@,
            g.spec_kingdom(KingdomName::Sand).spec_moons_to_leave() == 16,
            g.spec_kingdom(KingdomName::Sand).spec_moons_to_unlock() == 0,
            g.spec_kingdom(KingdomName::Sand).spec_next() == seq![KingdomName::Lake, KingdomName::Wooded],
            g.spec_kingdom(KingdomName::Sand).spec_prereqs() == seq![KingdomName::Cascade],
            g.spec_kingdom(KingdomName::Sand).spec_exit_moon() is None,
            g.spec_kingdom(KingdomName::Lake).spec_name() == "Lake Kingdom"@,
            g.spec_kingdom(KingdomName::Lake).spec_moons_to_leave() == 8,
            g.spec_kingdom(KingdomName::Lake).spec_moons_to_unlock() == 0,
            g.spec_kingdom(KingdomName::Lake).spec_next() == seq![KingdomName::Cloud],
            g.spec_kingdom(KingdomName::Lake).spec_prereqs() == seq![KingdomName::Sand],
            g.spec_kingdom(KingdomName::Lake).spec_exit_moon() is None,
            g.spec_kingdom(KingdomName::Wooded).spec_name() == "Wooded Kingdom"@,
            g.spec_kingdom(KingdomName::Wooded).spec_moons_to_leave() == 16,
            g.spec_kingdom(KingdomName::Wooded).spec_moons_to_unlock() == 0,
            g.spec_kingdom(KingdomName::Wooded).spec_next() == seq![KingdomName::Cloud],
            g.spec_kingdom(KingdomName::Wooded).spec_prereqs() == seq![KingdomName::Sand],
            g.spec_kingdom(KingdomName::Wooded).spec_exit_moon() is None,
            g.spec_kingdom(KingdomName::Cloud).spec_name() == "Cloud Kingdom"@,
            g.spec_kingdom(KingdomName::Cloud).spec_moons_to_leave() == 0,
            g.spec_kingdom(KingdomName::Cloud).spec_moons_to_unlock() == 0,
            g.spec_kingdom(KingdomName::Cloud).spec_next() == seq![KingdomName::Lost],
            g.spec_kingdom(KingdomName::Cloud).spec_prereqs() == seq![KingdomName::Lake, KingdomName::Wooded],
            g.spec_kingdom(KingdomName::Cloud).spec_exit_moon() is None,
            g.spec_kingdom(KingdomName::Lost).spec_name() == "Lost Kingdom"@,
            g.spec_kingdom(KingdomName::Lost).spec_moons_to_leave() == 10,
            g.spec_kingdom(KingdomName::Lost).spec_moons_to_unlock() == 0,
            g.spec_kingdom(KingdomName::Lost).spec_next() == seq![KingdomName::Metro],
            g.spec_kingdom(KingdomName::Lost).spec_prereqs() == seq![KingdomName::Cloud],
            g.spec_kingdom(KingdomName::Lost).spec_exit_moon() is None,
            g.spec_kingdom(KingdomName::Metro).spec_name() == "Metro Kingdom"@,
            g.spec_kingdom(KingdomName::Metro).spec_moons_to_leave() == 20,
            g.spec_kingdom(KingdomName::Metro).spec_moons_to_unlock() == 0,
            g.spec_kingdom(KingdomName::Metro).spec_next() == seq![KingdomName::Snow, KingdomName::Seaside],
            g.spec_kingdom(KingdomName::Metro).spec_prereqs() == seq![KingdomName::Lost],
            g.spec_kingdom(KingdomName::Metro).spec_exit_moon() is None,
            g.spec_kingdom(KingdomName::Snow).spec_name() == "Snow Kingdom"@,
            g.spec_kingdom(KingdomName::Snow).spec_moons_to_leave() == 10,
            g.spec_kingdom(KingdomName::Snow).spec_moons_to_unlock() == 0,
            g.spec_kingdom(KingdomName::Snow).spec_next() == seq![KingdomName::Luncheon],
            g.spec_kingdom(KingdomName::Snow).spec_prereqs() == seq![KingdomName::Metro],
            g.spec_kingdom(KingdomName::Snow).spec_exit_moon() is None,
            g.spec_kingdom(KingdomName::Seaside).spec_name() == "Seaside Kingdom"@,
            g.spec_kingdom(KingdomName::Seaside).spec_moons_to_leave() == 10,
            g.spec_kingdom(KingdomName::Seaside).spec_moons_to_unlock() == 0,
            g.spec_kingdom(KingdomName::Seaside).spec_next() == seq![KingdomName::Luncheon],
            g.spec_kingdom(KingdomName::Seaside).spec_prereqs() == seq![KingdomName::Metro],
            g.spec_kingdom(KingdomName::Seaside).spec_exit_moon() is None,
            g.spec_kingdom(KingdomName::Luncheon).spec_name() == "Luncheon Kingdom"@,
            g.spec_kingdom(KingdomName::Luncheon).spec_moons_to_leave() == 18,
            g.spec_kingdom(KingdomName::Luncheon).spec_moons_to_unlock() == 0,
            g.spec_kingdom(KingdomName::Luncheon).spec_next() == seq![KingdomName::Ruined],
            g.spec_kingdom(KingdomName::Luncheon).spec_prereqs() == seq![KingdomName::Snow, KingdomName::Seaside],
            g.spec_kingdom(KingdomName::Luncheon).spec_exit_moon() is None,
            g.spec_kingdom(KingdomName::Ruined).spec_name() == "Ruined Kingdom"@,
            g.spec_kingdom(KingdomName::Ruined).spec_moons_to_leave() == 3,
            g.spec_kingdom(KingdomName::Ruined).spec_moons_to_unlock() == 0,
            g.spec_kingdom(KingdomName::Ruined).spec_next() == seq![KingdomName::Bowser],
            g.spec_kingdom(KingdomName::Ruined).spec_prereqs() == seq![KingdomName::Metro],
            g.spec_kingdom(KingdomName::Ruined).spec_exit_moon() is None,
            g.spec_kingdom(KingdomName::Bowser).spec_name() == "Bowser's Kingdom"@,
            g.spec_kingdom(KingdomName::Bowser).spec_moons_to_leave() == 8,
            g.spec_kingdom(KingdomName::Bowser).spec_moons_to_unlock() == 0,
            g.spec_kingdom(KingdomName::Bowser).spec_next() == seq![KingdomName::Moon],
            g.spec_kingdom(KingdomName::Bowser).spec_prereqs() == seq![KingdomName::Ruined],
            g.spec_kingdom(KingdomName::Bowser).spec_exit_moon() is None,
            g.spec_kingdom(KingdomName::Moon).spec_name() == "Moon Kingdom"@,
            g.spec_kingdom(KingdomName::Moon).spec_moons_to_leave() == 1,
            g.spec_kingdom(KingdomName::Moon).spec_moons_to_unlock() == 0,
            g.spec_kingdom(KingdomName::Moon).spec_next() == seq![KingdomName::Mushroom],
            g.spec_kingdom(KingdomName::Moon).spec_prereqs() == seq![KingdomName::Bowser],
            g.spec_kingdom(KingdomName::Moon).spec_exit_moon() is None,
            g.spec_kingdom(KingdomName::Mushroom).spec_name() == "Mushroom Kingdom"@,
            g.spec_kingdom(KingdomName::Mushroom).spec_moons_to_leave() == 1,
            g.spec_kingdom(KingdomName::Mushroom).spec_moons_to_unlock() == 0,
            g.spec_kingdom(KingdomName::Mushroom).spec_next() == Seq::<KingdomName>::empty(),
            g.spec_kingdom(KingdomName::Mushroom).spec_prereqs() == seq![KingdomName::Moon],
            g.spec_kingdom(KingdomName::Mushroom).spec_exit_moon() is None,
            g.spec_kingdom(KingdomName::Dark).spec_name() == "Dark Side"@,
            g.spec_kingdom(KingdomName::Dark).spec_moons_to_leave() == 4,
            g.spec_kingdom(KingdomName::Dark).spec_moons_to_unlock() == 250,
            g.spec_kingdom(KingdomName::Dark).spec_next() == Seq::<KingdomName>::empty(),
            g.spec_kingdom(KingdomName::Dark).spec_prereqs() == Seq::<KingdomName>::empty(),
            g.spec_kingdom(KingdomName::Dark).spec_exit_moon() is None,
            g.spec_kingdom(KingdomName::Darker).spec_name() == "Darker Side"@,
            g.spec_kingdom(KingdomName::Darker).spec_moons_to_leave() == 3,
            g.spec_kingdom(KingdomName::Darker).spec_moons_to_unlock() == 500,
            g.spec_kingdom(KingdomName::Darker).spec_next() == Seq::<KingdomName>::empty(),
            g.spec_kingdom(KingdomName::Darker).spec_prereqs() == Seq::<KingdomName>::empty(),
            g.spec_kingdom(KingdomName::Darker).spec_exit_moon() is None,
    {
        let mut kingdoms: Vec<Kingdom> = Vec::new();

        // main game
        kingdoms.push(Kingdom::new("Cap Kingdom", 0, 0));
        kingdoms.push(Kingdom::new("Cascade Kingdom", 5, 0));
        kingdoms.push(Kingdom::new("Sand Kingdom", 16, 0));
        kingdoms.push(Kingdom::new("Lake Kingdom", 8, 0));
        kingdoms.push(Kingdom::new("Wooded Kingdom", 16, 0));
        kingdoms.push(Kingdom::new("Cloud Kingdom", 0, 0));
        kingdoms.push(Kingdom::new("Lost Kingdom", 10, 0));
        kingdoms.push(Kingdom::new("Metro Kingdom", 20, 0));
        kingdoms.push(Kingdom::new("Snow Kingdom", 10, 0));
        kingdoms.push(Kingdom::new("Seaside Kingdom", 10, 0));
        kingdoms.push(Kingdom::new("Luncheon Kingdom", 18, 0));
        kingdoms.push(Kingdom::new("Ruined Kingdom", 3, 0));
        kingdoms.push(Kingdom::new("Bowser's Kingdom", 8, 0));
        kingdoms.push(Kingdom::new("Moon Kingdom", 1, 0));
        kingdoms.push(Kingdom::new("Mushroom Kingdom", 1, 0));
        kingdoms.push(Kingdom::new("Dark Side", 4, 250));
        kingdoms.push(Kingdom::new("Darker Side", 3, 500));

        // link up main game
        let mut g = Kingdoms { kingdoms };
        g.kingdom_mut(KingdomName::Cap).link_next(KingdomName::Cascade);
        g.kingdom_mut(KingdomName::Cascade).link_next(KingdomName::Sand);
        g.kingdom_mut(KingdomName::Cascade).add_prerequisite(KingdomName::Cap);
        g.kingdom_mut(KingdomName::Sand).link_next(KingdomName::Lake);
        g.kingdom_mut(KingdomName::Sand).link_next(KingdomName::Wooded);
        g.kingdom_mut(KingdomName::Sand).add_prerequisite(KingdomName::Cascade);
        g.kingdom_mut(KingdomName::Lake).link_next(KingdomName::Cloud);
        g.kingdom_mut(KingdomName::Lake).add_prerequisite(KingdomName::Sand);
        g.kingdom_mut(KingdomName::Wooded).link_next(KingdomName::Cloud);
        g.kingdom_mut(KingdomName::Wooded).add_prerequisite(KingdomName::Sand);
        g.kingdom_mut(KingdomName::Cloud).link_next(KingdomName::Lost);
        g.kingdom_mut(KingdomName::Cloud).add_prerequisite(KingdomName::Lake);
        g.kingdom_mut(KingdomName::Cloud).add_prerequisite(KingdomName::Wooded);
        g.kingdom_mut(KingdomName::Lost).link_next(KingdomName::Metro);
        g.kingdom_mut(KingdomName::Lost).add_prerequisite(KingdomName::Cloud);
        g.kingdom_mut(KingdomName::Metro).link_next(KingdomName::Snow);
        g.kingdom_mut(KingdomName::Metro).link_next(KingdomName::Seaside);
        g.kingdom_mut(KingdomName::Metro).add_prerequisite(KingdomName::Lost);
        g.kingdom_mut(KingdomName::Snow).link_next(KingdomName::Luncheon);
        g.kingdom_mut(KingdomName::Snow).add_prerequisite(KingdomName::Metro);
        g.kingdom_mut(KingdomName::Seaside).link_next(KingdomName::Luncheon);
        g.kingdom_mut(KingdomName::Seaside).add_prerequisite(KingdomName::Metro);
        g.kingdom_mut(KingdomName::Luncheon).link_next(KingdomName::Ruined);
        g.kingdom_mut(KingdomName::Luncheon).add_prerequisite(KingdomName::Snow);
        g.kingdom_mut(KingdomName::Luncheon).add_prerequisite(KingdomName::Seaside);
        g.kingdom_mut(KingdomName::Ruined).link_next(KingdomName::Bowser);
        g.kingdom_mut(KingdomName::Ruined).add_prerequisite(KingdomName::Metro);
        g.kingdom_mut(KingdomName::Bowser).link_next(KingdomName::Moon);
        g.kingdom_mut(KingdomName::Bowser).add_prerequisite(KingdomName::Ruined);
        g.kingdom_mut(KingdomName::Moon).link_next(KingdomName::Mushroom);
        g.kingdom_mut(KingdomName::Moon).add_prerequisite(KingdomName::Bowser);
        g.kingdom_mut(KingdomName::Mushroom).add_prerequisite(KingdomName::Moon);

        proof {
            assert(g.spec_kingdom(KingdomName::Cap).spec_next() =~= seq![KingdomName::Cascade]);
            assert(g.spec_kingdom(KingdomName::Cascade).spec_next() =~= seq![KingdomName::Sand]);
            assert(g.spec_kingdom(KingdomName::Cascade).spec_prereqs() =~= seq![KingdomName::Cap]);
            assert(g.spec_kingdom(KingdomName::Sand).spec_next() =~= seq![KingdomName::Lake, KingdomName::Wooded]);
            assert(g.spec_kingdom(KingdomName::Sand).spec_prereqs() =~= seq![KingdomName::Cascade]);
            assert(g.spec_kingdom(KingdomName::Lake).spec_next() =~= seq![KingdomName::Cloud]);
            assert(g.spec_kingdom(KingdomName::Lake).spec_prereqs() =~= seq![KingdomName::Sand]);
            assert(g.spec_kingdom(KingdomName::Wooded).spec_next() =~= seq![KingdomName::Cloud]);
            assert(g.spec_kingdom(KingdomName::Wooded).spec_prereqs() =~= seq![KingdomName::Sand]);
            assert(g.spec_kingdom(KingdomName::Cloud).spec_next() =~= seq![KingdomName::Lost]);
            assert(g.spec_kingdom(KingdomName::Cloud).spec_prereqs() =~= seq![KingdomName::Lake, KingdomName::Wooded]);
            assert(g.spec_kingdom(KingdomName::Lost).spec_next() =~= seq![KingdomName::Metro]);
            assert(g.spec_kingdom(KingdomName::Lost).spec_prereqs() =~= seq![KingdomName::Cloud]);
            assert(g.spec_kingdom(KingdomName::Metro).spec_next() =~= seq![KingdomName::Snow, KingdomName::Seaside]);
            assert(g.spec_kingdom(KingdomName::Metro).spec_prereqs() =~= seq![KingdomName::Lost]);
            assert(g.spec_kingdom(KingdomName::Snow).spec_next() =~= seq![KingdomName::Luncheon]);
            assert(g.spec_kingdom(KingdomName::Snow).spec_prereqs() =~= seq![KingdomName::Metro]);
            assert(g.spec_kingdom(KingdomName::Seaside).spec_next() =~= seq![KingdomName::Luncheon]);
            assert(g.spec_kingdom(KingdomName::Seaside).spec_prereqs() =~= seq![KingdomName::Metro]);
            assert(g.spec_kingdom(KingdomName::Luncheon).spec_next() =~= seq![KingdomName::Ruined]);
            assert(g.spec_kingdom(KingdomName::Luncheon).spec_prereqs() =~= seq![KingdomName::Snow, KingdomName::Seaside]);
            assert(g.spec_kingdom(KingdomName::Ruined).spec_next() =~= seq![KingdomName::Bowser]);
            assert(g.spec_kingdom(KingdomName::Ruined).spec_prereqs() =~= seq![KingdomName::Metro]);
            assert(g.spec_kingdom(KingdomName::Bowser).spec_next() =~= seq![KingdomName::Moon]);
            assert(g.spec_kingdom(KingdomName::Bowser).spec_prereqs() =~= seq![KingdomName::Ruined]);
            assert(g.spec_kingdom(KingdomName::Moon).spec_next() =~= seq![KingdomName::Mushroom]);
            assert(g.spec_kingdom(KingdomName::Moon).spec_prereqs() =~= seq![KingdomName::Bowser]);
            assert(g.spec_kingdom(KingdomName::Mushroom).spec_prereqs() =~= seq![KingdomName::Moon]);
        }
        g
    }
}

} // verus!
