use moon_scheduler::draw::{DrawSource, RandomDraw, ScriptedDraw};
use moon_scheduler::kingdom::{Kingdom, KingdomName, Kingdoms};
use moon_scheduler::moon::{Moon, Moons};
use moon_scheduler::state::State;

fn plain_kingdoms() -> Kingdoms {
    let mut v: Vec<Kingdom> = Vec::new();
    for i in 0..17 {
        let _ = i;
        v.push(Kingdom::new("test kingdom", 0, 0));
    }
    Kingdoms::from_vec(v).unwrap()
}

fn empty_offsets_except_cap(n: usize) -> Vec<(usize, usize)> {
    let mut offset = vec![(0usize, n)];
    for _ in 1..17 {
        offset.push((0, 0));
    }
    offset
}

#[test]
fn kingdom_table_thresholds() {
    let kingdoms = Kingdoms::new();
    assert_eq!(kingdoms.kingdom(KingdomName::Cap).moons_to_leave(), 0);
    assert_eq!(kingdoms.kingdom(KingdomName::Cascade).moons_to_leave(), 5);
    assert_eq!(kingdoms.kingdom(KingdomName::Metro).moons_to_leave(), 20);
    assert_eq!(kingdoms.kingdom(KingdomName::Darker).moons_to_leave(), 3);
    assert_eq!(kingdoms.kingdom(KingdomName::Cap).name(), "Cap Kingdom");
    assert_eq!(kingdoms.kingdom(KingdomName::Bowser).name(), "Bowser's Kingdom");
    assert_eq!(kingdoms.kingdom(KingdomName::Cap).next().as_slice(), &[KingdomName::Cascade]);
    assert_eq!(
        kingdoms.kingdom(KingdomName::Sand).next().as_slice(),
        &[KingdomName::Lake, KingdomName::Wooded]
    );
}

#[test]
fn moon_table_spot_checks() {
    let moons = Moons::new();
    assert_eq!(moons.moon(0).name(), "Frog-Jumping Above the Fog");
    assert_eq!(moons.moon(0).kingdom(), KingdomName::Cap);
    assert_eq!(moons.moon(0).count(), 1);
    // the first moon of the next kingdom section
    assert_eq!(moons.moon(30).name(), "Our First Power Moon");
    assert_eq!(moons.moon(30).kingdom(), KingdomName::Cascade);
    // a bundled moon is worth three rewards
    assert_eq!(moons.moon(31).name(), "Multi Moon Atop the Falls");
    assert_eq!(moons.moon(31).count(), 3);
}

#[test]
fn state_new_defaults() {
    let state = State::new();
    assert_eq!(state.current_kingdom(), KingdomName::Darker);
    assert_eq!(state.total_moons(), 0);
    assert_eq!(state.total_kingdom_moons(), 0);
    assert_eq!(state.moons_to_schedule(), 0);
    assert!(!state.completed_main_game());
    assert!(!state.moon_scheduled(0));
    assert!(!state.kingdom_scheduled(KingdomName::Cap, 1));
    assert!(state.moon_order().is_empty());
    assert!(state.kingdom_order().is_empty());
}

#[test]
fn schedule_kingdom_fails_on_empty_pool() {
    let mut state = State::new();
    let mut draw = ScriptedDraw::new(vec![]);
    assert!(!state.schedule_kingdom(&mut draw));
}

#[test]
fn schedule_moon_fails_on_empty_pool() {
    let moons = Moons::new();
    let mut state = State::new();
    let mut draw = ScriptedDraw::new(vec![]);
    assert!(!state.schedule_moon(&moons, &mut draw));
}

#[test]
fn commit_kingdom_increments_exactly_one_counter() {
    let mut state = State::new();
    let mut draw = ScriptedDraw::new(vec![0, 0]);
    state.add_kingdom_to_schedule(KingdomName::Cap);
    assert!(state.schedule_kingdom(&mut draw));
    assert_eq!(state.current_kingdom(), KingdomName::Cap);
    assert!(state.kingdom_scheduled(KingdomName::Cap, 1));
    assert!(!state.kingdom_scheduled(KingdomName::Cap, 2));
    assert!(!state.kingdom_scheduled(KingdomName::Cascade, 1));
    state.add_kingdom_to_schedule(KingdomName::Cascade);
    assert!(state.schedule_kingdom(&mut draw));
    // the target's counter rose by exactly one, no counter decreased
    assert_eq!(state.current_kingdom(), KingdomName::Cascade);
    assert!(state.kingdom_scheduled(KingdomName::Cascade, 1));
    assert!(!state.kingdom_scheduled(KingdomName::Cascade, 2));
    assert!(state.kingdom_scheduled(KingdomName::Cap, 1));
    assert_eq!(state.kingdom_order().as_slice(), &[KingdomName::Cap, KingdomName::Cascade]);
}

#[test]
fn commit_strips_duplicates_of_the_new_current_kingdom() {
    let mut state = State::new();
    let mut draw = ScriptedDraw::new(vec![0, 0]);
    state.add_kingdom_to_schedule(KingdomName::Cap);
    assert!(state.schedule_kingdom(&mut draw));
    // register the same kingdom twice: duplicates are allowed in the pool
    state.add_kingdom_to_schedule(KingdomName::Cascade);
    state.add_kingdom_to_schedule(KingdomName::Cascade);
    assert!(state.schedule_kingdom(&mut draw));
    assert_eq!(state.current_kingdom(), KingdomName::Cascade);
    // the leftover copy was stripped: the new current kingdom is never its
    // own candidate, so the pool is empty again
    let mut draw2 = ScriptedDraw::new(vec![]);
    assert!(!state.schedule_kingdom(&mut draw2));
    assert!(state.kingdom_scheduled(KingdomName::Cascade, 1));
    assert!(!state.kingdom_scheduled(KingdomName::Cascade, 2));
}

#[test]
fn current_kingdom_not_rescheduled() {
    let mut state = State::new();
    let mut draw = ScriptedDraw::new(vec![0]);
    state.add_kingdom_to_schedule(KingdomName::Cap);
    assert!(state.schedule_kingdom(&mut draw));
    // registering the current kingdom is a no-op
    state.add_kingdom_to_schedule(KingdomName::Cap);
    let mut draw2 = ScriptedDraw::new(vec![]);
    assert!(!state.schedule_kingdom(&mut draw2));
}

#[test]
fn scheduling_moon_updates_totals_and_history() {
    // one plain moon and one bundled moon, both immediately available
    let a = Moon::new("single", KingdomName::Cap);
    let b = Moon::new_multi("bundle", KingdomName::Cap);
    let moons = Moons::from_parts(vec![a, b], empty_offsets_except_cap(2)).unwrap();
    let mut state = State::new();
    let mut draw = ScriptedDraw::new(vec![0, 0, 0]);
    moon_scheduler::driver::start(&mut state, &mut draw);
    state.add_moon_to_schedule(0);
    state.add_moon_to_schedule(1);
    assert_eq!(state.moons_to_schedule(), 2);
    assert!(state.schedule_moon(&moons, &mut draw));
    assert_eq!(state.total_moons(), 1);
    assert_eq!(state.total_kingdom_moons(), 1);
    assert!(state.moon_scheduled(0));
    assert!(!state.moon_scheduled(1));
    assert!(state.schedule_moon(&moons, &mut draw));
    // the bundled moon adds three to both counters
    assert_eq!(state.total_moons(), 4);
    assert_eq!(state.total_kingdom_moons(), 4);
    assert_eq!(state.moon_order().as_slice(), &[0, 1]);
}

#[test]
fn can_leave_needs_visit_total_and_exit_moon() {
    let a = Moon::new("first", KingdomName::Cap);
    let b = Moon::new("second", KingdomName::Cap);
    let moons = Moons::from_parts(vec![a, b], empty_offsets_except_cap(2)).unwrap();
    let mut kingdom = Kingdom::new("gate", 1, 0);
    kingdom.set_exit_moon(1);
    let mut state = State::new();
    let mut draw = ScriptedDraw::new(vec![0, 0, 0]);
    moon_scheduler::driver::start(&mut state, &mut draw);
    // no moons collected yet: the visit total blocks the exit
    assert!(!kingdom.can_leave(&state));
    state.add_moon_to_schedule(0);
    state.add_moon_to_schedule(1);
    assert!(state.schedule_moon(&moons, &mut draw));
    // visit total met, but the mandatory exit moon is still unscheduled
    assert!(state.moon_scheduled(0));
    assert!(!kingdom.can_leave(&state));
    assert!(state.schedule_moon(&moons, &mut draw));
    assert!(state.moon_scheduled(1));
    assert!(kingdom.can_leave(&state));
}

#[test]
fn kingdom_available_needs_prereqs_and_unlock_total() {
    let a = Moon::new_multi("three", KingdomName::Cap);
    let b = Moon::new_multi("more", KingdomName::Cap);
    let moons = Moons::from_parts(vec![a, b], empty_offsets_except_cap(2)).unwrap();
    let mut gated = Kingdom::new("gated", 0, 5);
    gated.add_prerequisite(KingdomName::Cap);
    let mut state = State::new();
    let mut draw = ScriptedDraw::new(vec![0, 0, 0]);
    // Cap never visited, total zero: unavailable
    assert!(!gated.available(&state));
    moon_scheduler::driver::start(&mut state, &mut draw);
    // Cap visited, but the unlock threshold is not met
    assert!(!gated.available(&state));
    state.add_moon_to_schedule(0);
    state.add_moon_to_schedule(1);
    assert!(state.schedule_moon(&moons, &mut draw));
    assert!(!gated.available(&state));
    assert!(state.schedule_moon(&moons, &mut draw));
    // six rewards collected: threshold of five is met
    assert_eq!(state.total_moons(), 6);
    assert!(gated.available(&state));
}

#[test]
fn stash_carries_pending_moons_across_visits() {
    let a = Moon::new("left behind", KingdomName::Cap);
    let b = Moon::new("also left", KingdomName::Cap);
    let moons = Moons::from_parts(vec![a, b], empty_offsets_except_cap(2)).unwrap();
    let _ = &moons;
    let mut state = State::new();
    let mut draw = ScriptedDraw::new(vec![0, 0, 0]);
    moon_scheduler::driver::start(&mut state, &mut draw);
    state.add_moon_to_schedule(0);
    state.add_moon_to_schedule(1);
    // leave for another kingdom: the pending moons are stashed
    state.add_kingdom_to_schedule(KingdomName::Cascade);
    assert!(state.schedule_kingdom(&mut draw));
    assert_eq!(state.current_kingdom(), KingdomName::Cascade);
    assert_eq!(state.moons_to_schedule(), 0);
    // return: the stash is pulled back into the pending pool
    state.add_kingdom_to_schedule(KingdomName::Cap);
    assert!(state.schedule_kingdom(&mut draw));
    assert_eq!(state.current_kingdom(), KingdomName::Cap);
    assert_eq!(state.moons_to_schedule(), 2);
}

#[test]
fn scan_surfaces_only_available_and_never_twice() {
    // three moons; the third needs the first to be scheduled already
    let a = Moon::new("a", KingdomName::Cap);
    let b = Moon::new("b", KingdomName::Cap);
    let mut c = Moon::new("c", KingdomName::Cap);
    c.add_prereq_moon(0);
    let mut moons = Moons::from_parts(vec![a, b, c], empty_offsets_except_cap(3)).unwrap();
    let mut state = State::new();
    let mut draw = ScriptedDraw::new(vec![0, 0]);
    moon_scheduler::driver::start(&mut state, &mut draw);
    // first scan surfaces only the moons without unmet prerequisites
    let first = moons.return_available(&mut state);
    assert_eq!(first, vec![0, 1]);
    // an immediate rescan with an untouched state surfaces nothing
    let second = moons.return_available(&mut state);
    assert!(second.is_empty());
    // after the first moon is committed, the gated moon surfaces
    state.add_moon_to_schedule(0);
    state.add_moon_to_schedule(1);
    assert!(state.schedule_moon(&moons, &mut draw));
    assert!(state.moon_scheduled(0));
    let third = moons.return_available(&mut state);
    assert_eq!(third, vec![2]);
    // and it, too, is never surfaced again
    let fourth = moons.return_available(&mut state);
    assert!(fourth.is_empty());
}

#[test]
fn scan_of_empty_window_marks_kingdom_exhausted() {
    let mut moons = Moons::empty();
    let mut state = State::new();
    let mut draw = ScriptedDraw::new(vec![0]);
    moon_scheduler::driver::start(&mut state, &mut draw);
    let surfaced = moons.return_available(&mut state);
    assert!(surfaced.is_empty());
    // the exhausted kingdom is no longer admissible once left
    state.add_kingdom_to_schedule(KingdomName::Cascade);
    assert!(state.schedule_kingdom(&mut draw));
    state.add_kingdom_to_schedule(KingdomName::Cap);
    let mut draw2 = ScriptedDraw::new(vec![]);
    assert!(!state.schedule_kingdom(&mut draw2));
}

#[test]
fn draw_sources_stay_in_range() {
    let mut random = RandomDraw::new();
    // a one-element range leaves no choice
    assert_eq!(random.draw(1), 0);
    for _ in 0..100 {
        assert!(random.draw(7) < 7);
    }
    let mut scripted = ScriptedDraw::new(vec![2, 99, 5]);
    assert_eq!(scripted.draw(10), 2);
    // out-of-range script values are clamped into the range
    assert_eq!(scripted.draw(10), 9);
    assert_eq!(scripted.draw(6), 5);
    // an exhausted script keeps answering zero
    assert_eq!(scripted.draw(10), 0);
    assert_eq!(scripted.draw(3), 0);
}
