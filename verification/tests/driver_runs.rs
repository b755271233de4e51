use moon_scheduler::draw::{RandomDraw, ScriptedDraw};
use moon_scheduler::driver::{leave_gate, start, Driver, RunOutcome};
use moon_scheduler::kingdom::{Kingdom, KingdomName, Kingdoms};
use moon_scheduler::moon::{Moon, Moons};
use moon_scheduler::state::State;

fn linked_pair() -> Kingdoms {
    // entry kingdom with a zero leave threshold and one successor
    let mut v: Vec<Kingdom> = Vec::new();
    for _ in 0..17 {
        v.push(Kingdom::new("plain", 0, 0));
    }
    let mut kingdoms = Kingdoms::from_vec(v).unwrap();
    kingdoms.kingdom_mut(KingdomName::Cap).link_next(KingdomName::Cascade);
    kingdoms
}

#[test]
fn zero_threshold_entry_advances_on_first_iteration() {
    let kingdoms = linked_pair();
    let mut moons = Moons::empty();
    let mut state = State::new();
    let mut driver = Driver::new();
    let mut draw = ScriptedDraw::new(vec![0, 0, 0, 0]);
    start(&mut state, &mut draw);
    assert_eq!(state.current_kingdom(), KingdomName::Cap);
    // empty catalog, zero leave threshold: the very first iteration scans
    // nothing, schedules nothing, and immediately advances
    let done = driver.step(&kingdoms, &mut moons, &mut state, &mut draw);
    assert_eq!(done, None);
    assert_eq!(state.current_kingdom(), KingdomName::Cascade);
    assert_eq!(state.total_moons(), 0);
    // the successor has no outgoing edges: the next iteration halts, and
    // with the whole catalog surfaced and consumed the run is complete
    let done = driver.step(&kingdoms, &mut moons, &mut state, &mut draw);
    assert_eq!(done, Some(RunOutcome::FullyScheduled));
}

#[test]
fn unreachable_moon_yields_unschedulable() {
    // the only moon needs a kingdom that is never visited
    let mut gated = Moon::new("gated", KingdomName::Cap);
    gated.add_prereq_kingdom(KingdomName::Cascade);
    let mut offset = vec![(0usize, 1usize)];
    for _ in 1..17 {
        offset.push((0, 0));
    }
    let mut moons = Moons::from_parts(vec![gated], offset).unwrap();
    // no successor edges at all: the driver can never advance anywhere
    let mut v: Vec<Kingdom> = Vec::new();
    for _ in 0..17 {
        v.push(Kingdom::new("plain", 0, 0));
    }
    let kingdoms = Kingdoms::from_vec(v).unwrap();
    let mut state = State::new();
    let mut driver = Driver::new();
    let mut draw = ScriptedDraw::new(vec![0, 0]);
    start(&mut state, &mut draw);
    let done = driver.step(&kingdoms, &mut moons, &mut state, &mut draw);
    assert_eq!(done, Some(RunOutcome::Unschedulable));
    assert!(!state.moon_scheduled(0));
}

#[test]
fn leave_gate_counts_up_under_misses_and_resets_on_leave() {
    // rolls of nine always miss until the counter outgrows every roll
    let mut chance = 1;
    for expected in 2..=10 {
        let (leave, next) = leave_gate(chance, 9);
        assert!(!leave);
        assert_eq!(next, expected);
        chance = next;
    }
    // at ten, every roll in [0, 10) lies below the counter: a leave
    // triggers and the counter resets
    let (leave, next) = leave_gate(chance, 9);
    assert!(leave);
    assert_eq!(next, 1);
    // a roll below the counter triggers a leave immediately
    let (leave, next) = leave_gate(3, 2);
    assert!(leave);
    assert_eq!(next, 1);
    let (leave, next) = leave_gate(3, 3);
    assert!(!leave);
    assert_eq!(next, 4);
}

#[test]
fn full_game_run_halts_with_valid_history() {
    let kingdoms = Kingdoms::new();
    let mut moons = Moons::new();
    let mut state = State::new();
    let mut driver = Driver::new();
    let mut draw = RandomDraw::new();
    start(&mut state, &mut draw);
    let outcome = driver.run(&kingdoms, &mut moons, &mut state, &mut draw, 1_000_000);
    // the catalog holds no moons for the kingdoms beyond Cloud, whose leave
    // thresholds are positive, so every run gets stuck there: the driver
    // reaches its fixed point within the budget and reports it
    assert_eq!(outcome, Some(RunOutcome::Unschedulable));
    assert!(!state.completed_main_game());
    assert!(!state.kingdom_scheduled(KingdomName::Mushroom, 1));
    // something was scheduled, and no moon id was ever committed twice
    let order = state.moon_order();
    assert!(!order.is_empty());
    let mut seen = vec![false; 286];
    for &m in order.iter() {
        assert!(m < 286);
        assert!(!seen[m]);
        seen[m] = true;
    }
    // totals match the committed reward weights
    let mut total: u16 = 0;
    for &m in order.iter() {
        total += moons.moon(m).count();
    }
    assert_eq!(total, state.total_moons());
    // the run made it into the early kingdoms
    assert!(state.kingdom_scheduled(KingdomName::Cascade, 1));
}

#[test]
fn scripted_run_on_pair_schedules_everything() {
    // two moons in the entry kingdom, a successor to retire to
    let a = Moon::new("a", KingdomName::Cap);
    let b = Moon::new("b", KingdomName::Cap);
    let mut offset = vec![(0usize, 2usize)];
    for _ in 1..17 {
        offset.push((0, 0));
    }
    let mut moons = Moons::from_parts(vec![a, b], offset).unwrap();
    // the entry kingdom demands both moons before it can be left
    let mut v: Vec<Kingdom> = Vec::new();
    v.push(Kingdom::new("entry", 2, 0));
    for _ in 1..17 {
        v.push(Kingdom::new("plain", 0, 0));
    }
    let mut kingdoms = Kingdoms::from_vec(v).unwrap();
    kingdoms.kingdom_mut(KingdomName::Cap).link_next(KingdomName::Cascade);
    let mut state = State::new();
    let mut driver = Driver::new();
    // an exhausted script draws zero everywhere: lowest indices, no gate
    // misses
    let mut draw = ScriptedDraw::new(vec![]);
    start(&mut state, &mut draw);
    let outcome = driver.run(&kingdoms, &mut moons, &mut state, &mut draw, 100);
    assert_eq!(outcome, Some(RunOutcome::FullyScheduled));
    assert!(state.moon_scheduled(0));
    assert!(state.moon_scheduled(1));
    assert_eq!(state.total_moons(), 2);
}
