use sortvis::{ascending_list, Algorithm, Engine, Highlight, InsertionStep, SelectionStep, Speed, SpeedLimit};

#[test]
fn new_engine_defaults() {
    let e = Engine::new();
    assert_eq!(e.list, (1..=100).collect::<Vec<i32>>());
    assert_eq!(e.selected, Algorithm::Insertion);
    assert_eq!(e.operations, 1);
    assert!(!e.sorting && !e.sort && !e.paused && e.observed);
}

#[test]
fn ascending_list_values() {
    assert_eq!(ascending_list(4), vec![1, 2, 3, 4]);
    assert!(ascending_list(0).is_empty());
}

#[test]
fn resize_and_shuffle_only_when_idle() {
    let mut e = Engine::new();
    e.resize(5);
    assert_eq!(e.list, vec![1, 2, 3, 4, 5]);
    e.shuffle();
    let mut s = e.list.clone();
    s.sort();
    assert_eq!(s, vec![1, 2, 3, 4, 5]);
    e.start();
    let before = e.list.clone();
    e.resize(8);
    e.shuffle();
    assert_eq!(e.list, before);
}

#[test]
fn schedule_requests_ticks_while_running() {
    let mut e = Engine::new();
    assert_eq!(e.schedule(), None);
    e.set_delay(30);
    e.start();
    assert_eq!(e.schedule(), Some(30));
    assert!(e.sort);
    e.tick();
    assert!(!e.sort);
    e.set_speed(Speed::Max, SpeedLimit::Low);
    assert_eq!(e.schedule(), Some(0));
    assert_eq!(e.operations, 100000);
    e.set_paused(true);
    e.sort = false;
    assert_eq!(e.schedule(), None);
    e.step_once();
    assert!(e.sort);
}

#[test]
fn speed_limits_clamp_settings() {
    let mut e = Engine::new();
    e.set_operations(500);
    assert_eq!(e.operations, 100);
    e.set_delay(5000);
    assert_eq!(e.delay, 1000);
    e.set_speed(Speed::Limited, SpeedLimit::High);
    assert_eq!(e.delay, 0);
    e.set_operations(500);
    assert_eq!(e.operations, 500);
    e.set_operations(200000);
    assert_eq!(e.operations, 100000);
    e.set_speed(Speed::Limited, SpeedLimit::Low);
    assert_eq!(e.operations, 100);
}

#[test]
fn stop_resets_marker() {
    let mut e = Engine::new();
    e.list = vec![4, 3, 2, 1];
    e.select(Algorithm::Selection);
    e.set_operations(3);
    e.start();
    e.schedule();
    e.tick();
    assert_ne!(e.selection_step, SelectionStep::new());
    e.stop();
    assert!(!e.sorting);
    assert_eq!(e.selection_step, SelectionStep::new());
    e.tick();
    assert_eq!(e.list, vec![4, 3, 2, 1]);
}

#[test]
fn idle_tick_changes_nothing() {
    let mut e = Engine::new();
    e.list = vec![2, 1];
    e.tick();
    assert_eq!(e.list, vec![2, 1]);
    assert_eq!(e.insertion_step, InsertionStep::new());
}

#[test]
fn validation_sweep_restores_budget() {
    let mut e = Engine::new();
    e.resize(250);
    e.set_operations(7);
    e.start();
    e.insertion_step = InsertionStep { boundary: 250, cursor: 250 };
    e.schedule();
    e.tick();
    assert_eq!(e.selected, Algorithm::Validation);
    assert_eq!(e.animation_step.finished, Algorithm::Insertion);
    e.schedule();
    e.tick();
    assert_eq!(e.operations, 3);
    assert_eq!(e.animation_step.cursor, 1);
    assert_eq!(e.animation_step.saved_operations, 7);
    e.schedule();
    e.tick();
    assert_eq!(e.animation_step.cursor, 4);
    let mut frames = 0;
    while e.sorting {
        e.schedule();
        e.tick();
        frames += 1;
        assert!(frames < 1000);
    }
    assert_eq!(e.operations, 7);
    assert_eq!(e.selected, Algorithm::Insertion);
    assert_eq!(e.animation_step.cursor, 0);
}

#[test]
fn highlights_follow_markers() {
    let mut e = Engine::new();
    e.list = vec![3, 1, 2, 5, 4];
    assert_eq!(e.highlights(), vec![Highlight::Neutral; 5]);
    e.select(Algorithm::Selection);
    e.start();
    e.selection_step = SelectionStep { boundary: 1, scan: 3, best: 2 };
    assert_eq!(
        e.highlights(),
        vec![Highlight::Settled, Highlight::Neutral, Highlight::Candidate, Highlight::Active, Highlight::Neutral]
    );
    e.stop();
    e.select(Algorithm::Insertion);
    e.start();
    e.insertion_step = InsertionStep { boundary: 2, cursor: 1 };
    assert_eq!(
        e.highlights(),
        vec![Highlight::Settled, Highlight::Active, Highlight::Settled, Highlight::Neutral, Highlight::Neutral]
    );
}

#[test]
fn unobserved_list_is_hidden() {
    let mut e = Engine::new();
    e.list = vec![2, 1, 3];
    e.select(Algorithm::Schrodinger);
    e.start();
    assert!(!e.observed);
    assert!(e.highlights().is_empty());
    e.stop();
    assert!(e.sorting);
    e.set_observed(true);
    assert_eq!(e.highlights().len(), 3);
}

#[test]
fn probabilistic_engine_completes_when_observed() {
    let mut e = Engine::new();
    e.resize(3);
    e.select(Algorithm::Schrodinger);
    e.set_operations(100);
    e.start();
    e.schedule();
    e.tick();
    assert_eq!(e.selected, Algorithm::Schrodinger);
    assert_eq!(e.list, vec![1, 2, 3]);
    e.set_observed(true);
    e.schedule();
    e.tick();
    assert_eq!(e.selected, Algorithm::Validation);
    assert_eq!(e.animation_step.finished, Algorithm::Schrodinger);
    assert_eq!(e.list, vec![1, 2, 3]);
}

#[test]
fn tone_position_follows_progress() {
    let mut e = Engine::new();
    e.list = vec![9, 1, 2, 3];
    assert_eq!(e.tone_position(), 0);
    e.insertion_step = InsertionStep { boundary: 3, cursor: 2 };
    assert_eq!(e.tone_position(), 2);
    e.select(Algorithm::Schrodinger);
    assert_eq!(e.tone_position(), 9);
    e.list[0] = -4;
    assert_eq!(e.tone_position(), 0);
    e.select(Algorithm::Merge);
    e.merge_step.run_size = 2;
    e.merge_step.run_index = 1;
    e.merge_step.left_pos = 1;
    assert_eq!(e.tone_position(), 4);
    e.merge_step.run_index = 0;
    assert_eq!(e.tone_position(), 1);
}

#[test]
fn shuffle_reorders_list() {
    let mut e = Engine::new();
    e.shuffle();
    assert_ne!(e.list, (1..=100).collect::<Vec<i32>>());
    let mut s = e.list.clone();
    s.sort();
    assert_eq!(s, (1..=100).collect::<Vec<i32>>());
}
