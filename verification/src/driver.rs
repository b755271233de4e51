//! The control loop producing the final schedule: scan, commit a randomized
//! number of moons, roll the leave gate, and advance to a randomly chosen
//! reachable kingdom, until no candidates remain.

use vstd::prelude::*;
use crate::draw::DrawSource;
use crate::kingdom::{KingdomName, Kingdoms, KINGDOM_COUNT};
use crate::moon::{MoonID, Moons};
use crate::state::{lemma_nodup_bounded_len, State};

verus! {

/// How a finished run ended.
#[derive(Clone, Copy, Debug, Eq, PartialEq, Structural)]
pub enum RunOutcome {
    /// Every moon was surfaced and committed.
    FullyScheduled,
    /// The run halted while some moons were never surfaced or never
    /// committed: the configuration is structurally unschedulable.
    Unschedulable,
}

/// Joint well-formedness of graph, catalog, and state, with the two facts
/// the loop preserves across iterations: every moon id held by the state is
/// a valid catalog id, and no moon is both claimed by the state and still
/// waiting inside a catalog window.
pub open spec fn sys_inv(kingdoms: Kingdoms, moons: Moons, state: State) -> bool {
    &&& kingdoms.wf()
    &&& moons.wf()
    &&& state.wf()
    &&& state.compat(moons.spec_len())
    &&& (forall|m: MoonID| state.spec_claims(m) ==> !moons.in_windows(m))
}

/// Nothing is left anywhere: every window was surfaced and every surfaced
/// moon was committed.
pub open spec fn fully_scheduled(moons: Moons, state: State) -> bool {
    &&& (forall|k: int| 0 <= k < KINGDOM_COUNT ==> (#[trigger] moons.spec_window(k)).len() == 0)
    &&& state.spec_pending_moons().len() == 0
    &&& (forall|k: int| 0 <= k < KINGDOM_COUNT ==> (#[trigger] state.spec_stash_at(k)).len() == 0)
}

/// In any reachable state the commit history cannot outgrow the catalog:
/// committed ids are distinct and all lie below the catalog size.
pub proof fn lemma_history_bounded(moons: Moons, state: State)
    requires
        state.wf(),
        state.compat(moons.spec_len()),
    ensures
        state.spec_history().len() <= moons.spec_len(),
{
    state.lemma_claims_unique();
    lemma_nodup_bounded_len(state.spec_history(), moons.spec_len());
}

/// No draw can decide anything any more: the scan surfaces nothing, no
/// moon is pending, the kingdom pool is empty, and no candidate kingdom is
/// both reachable and admissible.  An iteration from such a configuration
/// is obliged to halt.
pub open spec fn spec_stuck(kingdoms: Kingdoms, moons: Moons, state: State) -> bool {
    &&& moons.spec_scan_result(state).len() == 0
    &&& state.spec_pending_moons().len() == 0
    &&& state.spec_pending_kingdoms().len() == 0
    &&& (forall|j: int|
        0 <= j < state.spec_candidate_list(kingdoms).len() ==> !(kingdoms.spec_kingdom(
            #[trigger] state.spec_candidate_list(kingdoms)[j],
        ).spec_available(state) && state.spec_addable(state.spec_candidate_list(kingdoms)[j])))
}

/// How many moons one iteration is obliged to commit, whatever the draws
/// return: the exit target (one after the main progression is complete,
/// else the current kingdom's leave threshold), capped by what is pending
/// once the scan's findings are registered.
pub open spec fn spec_commit_goal(kingdoms: Kingdoms, moons: Moons, state: State) -> int {
    let pending = state.spec_pending_moons().len() + moons.spec_scan_result(state).len();
    let want: int = if state.spec_main_done() {
        1
    } else {
        kingdoms.spec_kingdom(state.spec_current()).spec_moons_to_leave()
    };
    if want <= pending {
        want
    } else {
        pending as int
    }
}

/// One evaluation of the leave gate: a roll below the counter triggers a
/// leave and resets the counter to one; a miss raises the counter by one.
pub open spec fn spec_gate(chance: int, roll: int) -> (bool, int) {
    if roll < chance {
        (true, 1)
    } else {
        (false, chance + 1)
    }
}

/// The counter after applying the leave rule to `rolls` in order.
pub open spec fn spec_gate_counter(chance: int, rolls: Seq<int>) -> int
    decreases rolls.len(),
{
    if rolls.len() == 0 {
        chance
    } else {
        spec_gate_counter(spec_gate(chance, rolls[0]).1, rolls.skip(1))
    }
}

/// Whether any roll of `rolls` triggers a leave.
pub open spec fn spec_gate_leaves(chance: int, rolls: Seq<int>) -> bool
    decreases rolls.len(),
{
    rolls.len() > 0 && (spec_gate(chance, rolls[0]).0 || spec_gate_leaves(
        spec_gate(chance, rolls[0]).1,
        rolls.skip(1),
    ))
}

/// Under rolls that always land at or above the evolving counter, no
/// leave is ever triggered and the counter climbs by exactly one per roll
/// — it is never reset.
pub proof fn lemma_never_leave_counts_up(chance: int, rolls: Seq<int>)
    requires
        forall|i: int| 0 <= i < rolls.len() ==> rolls[i] >= chance + i,
    ensures
        !spec_gate_leaves(chance, rolls),
        spec_gate_counter(chance, rolls) == chance + rolls.len(),
    decreases rolls.len(),
{
    if rolls.len() > 0 {
        assert(rolls[0] >= chance);
        let rest = rolls.skip(1);
        assert forall|i: int| 0 <= i < rest.len() implies rest[i] >= (chance + 1) + i by {
            assert(rest[i] == rolls[i + 1]);
        }
        lemma_never_leave_counts_up(chance + 1, rest);
    }
}

/// Evaluate the leave gate.
pub fn leave_gate(chance: usize, roll: usize) -> (r: (bool, usize))
    requires
        1 <= chance <= 10,
        roll < 10,
    ensures
        (r.0, r.1 as int) == spec_gate(chance as int, roll as int),
        1 <= r.1 <= 10,
{
    if roll < chance {
        (true, 1)
    } else {
        (false, chance + 1)
    }
}

/// The driver: holds the leave-gate counter across iterations.
pub struct Driver {
    leave_chance: usize,
}

impl Driver {
    pub closed spec fn spec_leave_chance(self) -> int {
        self.leave_chance as int
    }

    pub open spec fn wf(self) -> bool {
        1 <= self.spec_leave_chance() <= 10
    }

    pub fn new() -> (d: Driver)
        ensures
            d.wf(),
            d.spec_leave_chance() == 1,
    {
        Driver { leave_chance: 1 }
    }

    /// One iteration of the loop: scan and register newly available moons,
    /// commit a randomized number of them, roll the leave gate, and — on a
    /// leave, or when nothing could be committed — try to advance to a
    /// random reachable kingdom.  Returns the outcome once no kingdom can be
    /// committed any more.
    ///
    /// Two details of the advance are deliberate.  The exit rule gates only
    /// the *registration* of new candidates (inside `next_kingdom`); a
    /// kingdom already pooled from an earlier iteration is still committed
    /// even when the current kingdom's exit rule is unmet — this is what
    /// lets a stuck run drain its pool and halt with a distinct
    /// unschedulable outcome instead of spinning.  And once the main
    /// progression is complete, the advance is gated on one committed moon
    /// this visit rather than on the kingdom's own leave threshold,
    /// matching the exit target the commit goal uses there.
    pub fn step<D: DrawSource>(
        &mut self,
        kingdoms: &Kingdoms,
        moons: &mut Moons,
        state: &mut State,
        draw: &mut D,
    ) -> (done: Option<RunOutcome>)
        requires
            old(self).wf(),
            sys_inv(*kingdoms, *old(moons), *old(state)),
        ensures
            final(self).wf(),
            sys_inv(*kingdoms, *final(moons), *final(state)),
            final(moons).spec_moons() == old(moons).spec_moons(),
            // commit histories only grow, visit counters never decrease
            final(state).spec_history().len() >= old(state).spec_history().len(),
            forall|i: int|
                0 <= i < old(state).spec_history().len() ==> final(state).spec_history()[i] == old(
                    state,
                ).spec_history()[i],
            final(state).spec_kingdom_history().len() >= old(
                state,
            ).spec_kingdom_history().len(),
            forall|i: int|
                0 <= i < old(state).spec_kingdom_history().len() ==> final(state).spec_kingdom_history()[i] == old(state).spec_kingdom_history()[i],
            forall|k: int|
                0 <= k < KINGDOM_COUNT ==> (#[trigger] final(state).spec_visits_at(k)) >= old(
                    state,
                ).spec_visits_at(k),
            forall|m: MoonID| old(state).spec_scheduled(m) ==> final(state).spec_scheduled(m),
            // every moon the scan surfaces is registered: afterwards it is
            // pending or already committed, never lost
            forall|i: int|
                0 <= i < old(moons).spec_scan_result(*old(state)).len() ==> final(state).spec_claims(#[trigger] old(moons).spec_scan_result(*old(state))[i]),
            // at least the exit target's worth of moons is committed, no
            // matter what the draws return
            final(state).spec_history().len() >= old(state).spec_history().len()
                + spec_commit_goal(*kingdoms, *old(moons), *old(state)),
            // an iteration that does not halt commits a moon or a kingdom;
            // at most one kingdom is committed per iteration
            done is None ==> (final(state).spec_history().len() > old(
                state,
            ).spec_history().len() || final(state).spec_kingdom_history().len() > old(
                state,
            ).spec_kingdom_history().len()),
            final(state).spec_kingdom_history().len() <= old(state).spec_kingdom_history().len()
                + 1,
            // the leave counter follows the leave rule: untouched when no
            // moon was committed, else updated by one roll
            final(state).spec_history().len() == old(state).spec_history().len() ==> final(self).spec_leave_chance() == old(self).spec_leave_chance(),
            final(state).spec_history().len() > old(state).spec_history().len() ==> exists|
                roll: int,
            |
                0 <= roll < 10 && final(self).spec_leave_chance() == spec_gate(
                    old(self).spec_leave_chance(),
                    roll,
                ).1,
            // the halt is owed: once nothing is pending anywhere and no
            // candidate kingdom survives the filters, the iteration ends
            // the run — no draw can postpone it
            spec_stuck(*kingdoms, *old(moons), *old(state)) ==> done is Some,
            // the run halts exactly when no kingdom could be committed, and
            // the outcome tells completion from a stuck configuration
            (match done {
                Some(o) => final(state).spec_pending_kingdoms().len() == 0 && (o
                    == RunOutcome::FullyScheduled <==> fully_scheduled(
                    *final(moons),
                    *final(state),
                )),
                None => true,
            }),
    {
        // find all moons that can be scheduled, and register them
        let surfaced = moons.return_available(state);
        let ghost mid_state = *state;
        let mut i: usize = 0;
        while i < surfaced.len()
            invariant
                state.wf(),
                moons.wf(),
                state.compat(moons.spec_len()),
                0 <= i <= surfaced@.len(),
                surfaced@.no_duplicates(),
                forall|j: int| 0 <= j < surfaced@.len() ==> (#[trigger] surfaced@[j]) < moons.spec_len(),
                forall|j: int| i <= j < surfaced@.len() ==> !state.spec_claims(#[trigger] surfaced@[j]),
                forall|j: int| 0 <= j < i ==> state.spec_claims(#[trigger] surfaced@[j]),
                state.spec_pending_moons() == mid_state.spec_pending_moons() + surfaced@.take(
                    i as int,
                ),
                forall|j: int| 0 <= j < surfaced@.len() ==> !moons.in_windows(#[trigger] surfaced@[j]),
                forall|m: MoonID|
                    state.spec_claims(m) ==> mid_state.spec_claims(m) || exists|j: int|
                        0 <= j < i && surfaced@[j] == m,
                forall|m: MoonID| mid_state.spec_claims(m) ==> state.spec_claims(m),
                forall|m: MoonID| mid_state.spec_claims(m) ==> !moons.in_windows(m),
                state.spec_current() == mid_state.spec_current(),
                state.spec_visit_moons() == mid_state.spec_visit_moons(),
                state.spec_total_moons() == mid_state.spec_total_moons(),
                state.spec_history() == mid_state.spec_history(),
                state.spec_pending_kingdoms() == mid_state.spec_pending_kingdoms(),
                state.spec_kingdom_history() == mid_state.spec_kingdom_history(),
                forall|k: int|
                    0 <= k < KINGDOM_COUNT ==> (#[trigger] state.spec_visits_at(k))
                        == mid_state.spec_visits_at(k),
                forall|k: int|
                    0 <= k < KINGDOM_COUNT ==> (#[trigger] state.spec_completed_at(k))
                        == mid_state.spec_completed_at(k),
                forall|k: int|
                    0 <= k < KINGDOM_COUNT ==> (#[trigger] state.spec_stash_at(k))
                        == mid_state.spec_stash_at(k),
                state.spec_main_done() == mid_state.spec_main_done(),
            decreases surfaced@.len() - i,
        {
            let id = surfaced[i];
            let ghost pending0 = state.spec_pending_moons();
            state.add_moon_to_schedule(id);
            proof {
                assert forall|j: int|
                    i + 1 <= j < surfaced@.len() implies !state.spec_claims(
                    #[trigger] surfaced@[j],
                ) by {}
                assert(surfaced@.take(i + 1).drop_last() =~= surfaced@.take(i as int));
                assert(surfaced@.take(i + 1).last() == id);
                assert(state.spec_pending_moons() =~= mid_state.spec_pending_moons()
                    + surfaced@.take(i + 1));
            }
            i = i + 1;
        }
        proof {
            assert(sys_inv(*kingdoms, *moons, *state));
            assert(surfaced@.take(surfaced@.len() as int) =~= surfaced@);
        }
        let ghost reg_state = *state;
        // schedule a random count, trying to be enough to leave
        let exit_count: usize = if state.completed_main_game() {
            1
        } else {
            kingdoms.kingdom(state.current_kingdom()).moons_to_leave() as usize
        };
        let scheduleable = state.moons_to_schedule();
        let exit_count = if exit_count < scheduleable {
            exit_count
        } else {
            scheduleable
        };
        let scheduled: usize = if exit_count == scheduleable {
            exit_count
        } else {
            exit_count + draw.draw(scheduleable - exit_count)
        };
        proof {
            assert(surfaced@ == old(moons).spec_scan_result(*old(state)));
            assert(scheduleable as int == old(state).spec_pending_moons().len() + old(
                moons,
            ).spec_scan_result(*old(state)).len());
            assert(exit_count as int == spec_commit_goal(*kingdoms, *old(moons), *old(state)));
            assert(exit_count <= scheduled <= scheduleable);
        }
        if scheduled == 0 {
            proof {
                if spec_stuck(*kingdoms, *old(moons), *old(state)) {
                    // the filters can only have tightened since the scan, so
                    // no candidate survives in the current state either
                    assert(state.spec_current() == old(state).spec_current());
                    assert(state.spec_main_done() == old(state).spec_main_done());
                    let list1 = state.spec_candidate_list(*kingdoms);
                    assert(list1 == old(state).spec_candidate_list(*kingdoms));
                    assert forall|j: int|
                        0 <= j < list1.len() implies !(kingdoms.spec_kingdom(
                        #[trigger] list1[j],
                    ).spec_available(*state) && state.spec_addable(list1[j])) by {
                        let k = list1[j];
                        assert(!(kingdoms.spec_kingdom(k).spec_available(*old(state)) && old(
                            state,
                        ).spec_addable(k)));
                        assert(kingdoms.spec_kingdom(k).spec_available(*state)
                            == kingdoms.spec_kingdom(k).spec_available(*old(state))) by {
                            assert(forall|k2: int|
                                0 <= k2 < KINGDOM_COUNT ==> (#[trigger] state.spec_visits_at(k2))
                                    == old(state).spec_visits_at(k2));
                            assert(state.spec_total_moons() == old(state).spec_total_moons());
                        }
                        if state.spec_addable(k) {
                            assert(old(state).spec_addable(k)) by {
                                if old(state).spec_completed(k) {
                                    let ki2 = k.as_index();
                                    assert(0 <= ki2 < KINGDOM_COUNT);
                                    let cur0 = old(state).spec_current().as_index();
                                    assert(mid_state.spec_completed_at(ki2)) by {
                                        if ki2 == cur0 {
                                            if old(moons).spec_window(cur0).len() > 0 {
                                                assert(mid_state == *old(state));
                                            }
                                        } else {
                                            assert(mid_state.spec_completed_at(ki2) == old(
                                                state,
                                            ).spec_completed_at(ki2));
                                        }
                                    }
                                    assert(state.spec_completed_at(ki2)
                                        == mid_state.spec_completed_at(ki2));
                                    assert(state.spec_stash_at(ki2) == mid_state.spec_stash_at(
                                        ki2,
                                    ));
                                    assert(mid_state.spec_stash_at(ki2) == old(
                                        state,
                                    ).spec_stash_at(ki2));
                                }
                            }
                        }
                    }
                    crate::state::lemma_candidates_of_all_fail(*state, *kingdoms, list1);
                    assert(state.spec_next_candidates(*kingdoms).len() == 0);
                    assert(state.spec_pending_kingdoms().len() == 0);
                }
            }
            state.next_kingdom(kingdoms);
            // schedule the next kingdom
            let ghost pre_commit = *state;
            if !state.schedule_kingdom(draw) {
                // no more moons and no more kingdoms, we are done
                let complete = moons.all_surfaced() && state.moons_to_schedule() == 0
                    && state.stashes_empty();
                let outcome = if complete {
                    RunOutcome::FullyScheduled
                } else {
                    RunOutcome::Unschedulable
                };
                proof {
                    assert forall|j: int|
                        0 <= j < surfaced@.len() implies state.spec_claims(
                        #[trigger] surfaced@[j],
                    ) by {
                        assert(reg_state.spec_claims(surfaced@[j]));
                    }
                }
                return Some(outcome);
            }
            proof {
                assert(state.spec_kingdom_history().len() == pre_commit.spec_kingdom_history().len()
                    + 1) by {
                    let i = choose|i: int|
                        0 <= i < pre_commit.spec_pending_kingdoms().len()
                            && pre_commit.spec_kingdom_commit(*state, i);
                }
                assert forall|j: int|
                    0 <= j < surfaced@.len() implies state.spec_claims(#[trigger] surfaced@[j]) by {
                    assert(reg_state.spec_claims(surfaced@[j]));
                }
                // a stuck configuration could not have produced a commit
                if spec_stuck(*kingdoms, *old(moons), *old(state)) {
                    assert(pre_commit.spec_pending_kingdoms().len() == 0);
                    assert(false);
                }
            }
        } else {
            // schedule the moons
            let mut j: usize = 0;
            while j < scheduled
                invariant
                    state.wf(),
                    moons.wf(),
                    state.compat(moons.spec_len()),
                    forall|m: MoonID| state.spec_claims(m) ==> !moons.in_windows(m),
                    0 <= j <= scheduled,
                    scheduled <= reg_state.spec_pending_moons().len(),
                    state.spec_history().len() == reg_state.spec_history().len() + j,
                    state.spec_pending_moons().len() + j == reg_state.spec_pending_moons().len(),
                    forall|m: MoonID| state.spec_claims(m) == reg_state.spec_claims(m),
                    state.spec_history().len() >= mid_state.spec_history().len(),
                    forall|i2: int|
                        0 <= i2 < mid_state.spec_history().len() ==> state.spec_history()[i2]
                            == mid_state.spec_history()[i2],
                    state.spec_kingdom_history() == mid_state.spec_kingdom_history(),
                    forall|k: int|
                        0 <= k < KINGDOM_COUNT ==> (#[trigger] state.spec_visits_at(k))
                            == mid_state.spec_visits_at(k),
                    forall|m: MoonID| mid_state.spec_scheduled(m) ==> state.spec_scheduled(m),
                decreases scheduled - j,
            {
                state.schedule_moon(moons, draw);
                j = j + 1;
            }
            // only leave with a chance that grows each time the roll lands high
            let roll = draw.draw(10);
            let gate = leave_gate(self.leave_chance, roll);
            self.leave_chance = gate.1;
            proof {
                assert(state.spec_history().len() == reg_state.spec_history().len() + scheduled);
                assert(spec_gate(old(self).spec_leave_chance(), roll as int).1
                    == self.spec_leave_chance());
            }
            if gate.0 {
                // leave for the next kingdom
                state.next_kingdom(kingdoms);
                let ghost pre_commit = *state;
                let advanced = state.schedule_kingdom(draw);
                proof {
                    if advanced {
                        assert(state.spec_kingdom_history().len()
                            == pre_commit.spec_kingdom_history().len() + 1) by {
                            let i = choose|i: int|
                                0 <= i < pre_commit.spec_pending_kingdoms().len()
                                    && pre_commit.spec_kingdom_commit(*state, i);
                        }
                    }
                }
            }
            proof {
                assert forall|j2: int|
                    0 <= j2 < surfaced@.len() implies state.spec_claims(#[trigger] surfaced@[j2]) by {
                    assert(reg_state.spec_claims(surfaced@[j2]));
                }
            }
        }
        None
    }

    /// Drive [`Self::step`] until the run halts, giving up after
    /// `max_steps` iterations (`None`).
    ///
    /// The budget exists because no iteration bound holds over *all* draw
    /// sources: every iteration provably commits a moon or a kingdom, and
    /// at most `spec_len` moons can ever be committed, but the number of
    /// kingdom commits is unbounded in the worst case — two zero-threshold
    /// kingdoms can pass their stashes back and forth forever under a draw
    /// stream that always returns zero for the commit-count draw.  Random
    /// draws leave such loops with probability one, so callers that want
    /// the natural fixed point run [`Self::step`] directly, as the binary
    /// does.
    pub fn run<D: DrawSource>(
        &mut self,
        kingdoms: &Kingdoms,
        moons: &mut Moons,
        state: &mut State,
        draw: &mut D,
        max_steps: usize,
    ) -> (r: Option<RunOutcome>)
        requires
            old(self).wf(),
            sys_inv(*kingdoms, *old(moons), *old(state)),
        ensures
            final(self).wf(),
            sys_inv(*kingdoms, *final(moons), *final(state)),
            final(moons).spec_moons() == old(moons).spec_moons(),
            final(state).spec_history().len() >= old(state).spec_history().len(),
            forall|i: int|
                0 <= i < old(state).spec_history().len() ==> final(state).spec_history()[i] == old(
                    state,
                ).spec_history()[i],
            forall|k: int|
                0 <= k < KINGDOM_COUNT ==> (#[trigger] final(state).spec_visits_at(k)) >= old(
                    state,
                ).spec_visits_at(k),
            forall|m: MoonID| old(state).spec_scheduled(m) ==> final(state).spec_scheduled(m),
            // the commit history never outgrows the catalog, and no moon is
            // ever committed twice
            final(state).spec_history().no_duplicates(),
            final(state).spec_history().len() <= final(moons).spec_len(),
            // a run that starts stuck halts on its first iteration
            max_steps > 0 && spec_stuck(*kingdoms, *old(moons), *old(state)) ==> r is Some,
            (match r {
                Some(o) => o == RunOutcome::FullyScheduled <==> fully_scheduled(
                    *final(moons),
                    *final(state),
                ),
                None => true,
            }),
    {
        let mut n: usize = 0;
        while n < max_steps
            invariant
                self.wf(),
                sys_inv(*kingdoms, *moons, *state),
                moons.spec_moons() == old(moons).spec_moons(),
                state.spec_history().len() >= old(state).spec_history().len(),
                forall|i: int|
                    0 <= i < old(state).spec_history().len() ==> state.spec_history()[i] == old(
                        state,
                    ).spec_history()[i],
                forall|k: int|
                    0 <= k < KINGDOM_COUNT ==> (#[trigger] state.spec_visits_at(k)) >= old(
                        state,
                    ).spec_visits_at(k),
                forall|m: MoonID| old(state).spec_scheduled(m) ==> state.spec_scheduled(m),
                n == 0 ==> *moons == *old(moons) && *state == *old(state),
                n > 0 ==> !spec_stuck(*kingdoms, *old(moons), *old(state)),
            decreases max_steps - n,
        {
            let done = self.step(kingdoms, moons, state, draw);
            match done {
                Some(o) => {
                    proof {
                        state.lemma_claims_unique();
                        lemma_history_bounded(*moons, *state);
                    }
                    return Some(o);
                },
                None => {},
            }
            n = n + 1;
        }
        proof {
            state.lemma_claims_unique();
            lemma_history_bounded(*moons, *state);
        }
        None
    }
}

/// Seed a fresh schedule: register the entry kingdom and commit it, so the
/// driver loop starts with the entry kingdom visited once.
pub fn start<D: DrawSource>(state: &mut State, draw: &mut D)
    requires
        old(state).wf(),
        old(state).spec_pending_kingdoms().len() == 0,
        old(state).spec_addable(KingdomName::Cap),
    ensures
        final(state).wf(),
        final(state).spec_current() == KingdomName::Cap,
        final(state).spec_visits(KingdomName::Cap) == old(state).spec_visits(KingdomName::Cap)
            + 1,
        final(state).spec_pending_kingdoms().len() == 0,
        final(state).spec_history() == old(state).spec_history(),
        final(state).spec_total_moons() == old(state).spec_total_moons(),
        forall|m: MoonID| final(state).spec_claims(m) == old(state).spec_claims(m),
        forall|n: int| old(state).compat(n) ==> final(state).compat(n),
    {
        state.add_kingdom_to_schedule(KingdomName::Cap);
        let ok = state.schedule_kingdom(draw);
        proof {
            assert(ok);
        }
    }

} // verus!
