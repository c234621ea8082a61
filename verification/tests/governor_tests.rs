use rbuster::governor::{Dispatch, Governor};
use rbuster::progress::ProgressState;

fn drive(limit: usize, total: usize, seed: u64) -> (usize, Vec<usize>) {
    let mut governor = Governor::new(limit, total).expect("a limit of at least one");
    let mut state = seed;
    let mut outstanding: Vec<usize> = Vec::new();
    let mut started: Vec<usize> = Vec::new();
    let mut high_water = 0;
    loop {
        match governor.poll() {
            Dispatch::Start(index) => {
                outstanding.push(index);
                started.push(index);
                high_water = high_water.max(outstanding.len());
                assert_eq!(governor.in_flight(), outstanding.len());
            }
            Dispatch::Wait => {
                state = state.wrapping_mul(6364136223846793005).wrapping_add(1442695040888963407);
                let pick = (state >> 33) as usize % outstanding.len();
                outstanding.swap_remove(pick);
                assert!(governor.complete());
            }
            Dispatch::Finished => break,
        }
    }
    assert!(outstanding.is_empty());
    assert!(governor.is_finished());
    assert_eq!(governor.completed(), total);
    (high_water, started)
}

#[test]
fn no_governor_without_permits() {
    assert!(Governor::new(0, 5).is_none());
    assert!(Governor::new(0, 0).is_none());
    assert!(Governor::new(1, 0).is_some());
}

#[test]
fn outstanding_probes_never_exceed_the_limit() {
    for limit in 1..8usize {
        for total in [0usize, 1, 2, 7, 50] {
            for seed in 0..5u64 {
                let (high_water, started) = drive(limit, total, seed);
                assert!(high_water <= limit);
                assert_eq!(high_water, limit.min(total));
                assert_eq!(started, (0..total).collect::<Vec<_>>());
            }
        }
    }
}

#[test]
fn governor_steps_in_order() {
    let mut g = Governor::new(2, 3).unwrap();
    assert_eq!(g.limit(), 2);
    assert_eq!(g.total(), 3);
    assert_eq!(g.poll(), Dispatch::Start(0));
    assert_eq!(g.poll(), Dispatch::Start(1));
    assert_eq!(g.poll(), Dispatch::Wait);
    assert_eq!(g.in_flight(), 2);
    assert!(g.complete());
    assert_eq!(g.poll(), Dispatch::Start(2));
    assert_eq!(g.poll(), Dispatch::Wait);
    assert!(g.complete());
    assert!(g.complete());
    assert!(!g.complete());
    assert_eq!(g.poll(), Dispatch::Finished);
    assert_eq!(g.completed(), 3);
}

#[test]
fn empty_run_is_finished_at_once() {
    let mut g = Governor::new(4, 0).unwrap();
    assert_eq!(g.poll(), Dispatch::Finished);
    assert!(g.is_finished());
    assert!(!g.complete());
}

#[test]
fn progress_counts_and_percent() {
    let mut p = ProgressState::new(8);
    assert_eq!((p.total(), p.done(), p.found(), p.errored()), (8, 0, 0, 0));
    assert_eq!(p.percent(), 0);
    p.inc();
    assert_eq!(p.percent(), 12);
    p.inc();
    p.inc_found();
    p.inc_error();
    assert_eq!((p.done(), p.found(), p.errored()), (2, 1, 1));
    assert_eq!(p.percent(), 25);
    for _ in 0..6 {
        p.inc();
    }
    assert_eq!(p.percent(), 100);
    p.inc();
    assert_eq!(p.percent(), 100);
    assert_eq!(ProgressState::new(0).percent(), 100);
    let mut big = ProgressState::new(u64::MAX);
    big.inc();
    assert_eq!(big.percent(), 0);
}

#[test]
fn rendering_is_due_only_when_the_percentage_moves() {
    let mut p = ProgressState::new(1000);
    assert!(p.render_due());
    assert!(!p.render_due());
    let mut draws = 0;
    for _ in 0..1000 {
        p.inc();
        if p.render_due() {
            draws += 1;
        }
    }
    assert_eq!(draws, 100);
}
