use rand::{thread_rng, Rng};
use sortvis::{
    insertion_tick, merge_tick, schrodinger_tick, selection_tick, Algorithm, Engine, InsertionStep, MergeStep,
    SelectionStep,
};

fn is_ordered(v: &[i32]) -> bool {
    let mut sorted = true;
    for i in 1..v.len() {
        if v[i - 1] > v[i] {
            sorted = false;
        }
    }
    sorted
}

fn random_list(len: usize) -> Vec<i32> {
    (0..len).map(|_| thread_rng().gen::<i32>()).collect()
}

// Runs the validation sweep that follows a completed sort until the sort ends.
fn finish_validation(engine: &mut Engine) {
    let mut frames = 0;
    while engine.sorting && frames < 10_000 {
        engine.schedule();
        engine.tick();
        frames += 1;
    }
}

fn run_engine_once(alg: Algorithm, list: Vec<i32>) -> Engine {
    let mut engine = Engine::new();
    engine.list = list;
    engine.selected = alg;
    engine.operations = u32::MAX;
    engine.sorting = true;
    engine.sort = true;
    engine.tick();
    engine
}

#[test]
fn insertion_sort_test() {
    for len in 1..=1000 {
        let mut engine = run_engine_once(Algorithm::Insertion, random_list(len));
        assert_eq!(is_ordered(&engine.list), true);
        assert_eq!(engine.sort, false);
        assert_eq!(engine.selected, Algorithm::Validation);
        finish_validation(&mut engine);
        assert_eq!(engine.insertion_step, InsertionStep::new());
    }
}

#[test]
fn selection_sort_test() {
    for len in 1..=1000 {
        let mut engine = run_engine_once(Algorithm::Selection, random_list(len));
        assert_eq!(is_ordered(&engine.list), true);
        assert_eq!(engine.sort, false);
        finish_validation(&mut engine);
        assert_eq!(engine.sorting, false);
    }
}

#[test]
fn merge_sort_test() {
    for len in 1..=1000 {
        let mut engine = run_engine_once(Algorithm::Merge, random_list(len));
        assert_eq!(is_ordered(&engine.list), true);
        assert_eq!(engine.sort, false);
        finish_validation(&mut engine);
        assert_eq!(engine.sorting, false);
    }
}

fn sorted_copy(v: &[i32]) -> Vec<i32> {
    let mut w = v.to_vec();
    w.sort();
    w
}

#[test]
fn insertion_scenario_five_elements() {
    let mut v = vec![5, 3, 4, 1, 2];
    let mut step = InsertionStep::new();
    let done = insertion_tick(&mut v, &mut step, 100);
    assert!(done);
    assert_eq!(v, vec![1, 2, 3, 4, 5]);
    assert_eq!(step, InsertionStep { boundary: 0, cursor: 0 });
}

#[test]
fn insertion_budget_one_action() {
    let mut v = vec![2, 1];
    let mut step = InsertionStep { boundary: 1, cursor: 1 };
    assert!(!insertion_tick(&mut v, &mut step, 1));
    assert_eq!(v, vec![1, 2]);
    assert_eq!(step, InsertionStep { boundary: 1, cursor: 0 });
}

#[test]
fn selection_two_elements_single_actions() {
    let mut v = vec![2, 1];
    let mut step = SelectionStep::new();
    let mut ticks = 0;
    let mut swapped_at = None;
    loop {
        ticks += 1;
        let done = selection_tick(&mut v, &mut step, 1);
        if swapped_at.is_none() && v == vec![1, 2] {
            swapped_at = Some(ticks);
            assert_eq!(step.boundary, 1);
        }
        if done {
            break;
        }
        assert!(ticks < 100);
    }
    assert_eq!(swapped_at, Some(3));
    assert_eq!(ticks, 5);
    assert_eq!(v, vec![1, 2]);
    assert_eq!(step, SelectionStep { boundary: 0, scan: 0, best: 0 });
}

#[test]
fn single_element_completes_first_tick() {
    let mut v = vec![7];
    let mut s1 = InsertionStep::new();
    assert!(insertion_tick(&mut v, &mut s1, 100));
    let mut s2 = SelectionStep::new();
    assert!(selection_tick(&mut v, &mut s2, 100));
    let mut s3 = MergeStep::new();
    assert!(merge_tick(&mut v, &mut s3, 100));
    assert!(schrodinger_tick(&mut v, true, 100));
    assert_eq!(v, vec![7]);
}

#[test]
fn empty_list_completes() {
    let mut v: Vec<i32> = vec![];
    let mut s1 = InsertionStep::new();
    assert!(insertion_tick(&mut v, &mut s1, 1));
    let mut s2 = SelectionStep::new();
    assert!(selection_tick(&mut v, &mut s2, 1));
    let mut s3 = MergeStep::new();
    assert!(merge_tick(&mut v, &mut s3, 1));
    assert!(v.is_empty());
}

#[test]
fn zero_budget_is_a_no_op() {
    let mut v = vec![3, 1, 2];
    let mut s1 = InsertionStep::new();
    assert!(!insertion_tick(&mut v, &mut s1, 0));
    let mut s2 = SelectionStep::new();
    assert!(!selection_tick(&mut v, &mut s2, 0));
    let mut s3 = MergeStep::new();
    assert!(!merge_tick(&mut v, &mut s3, 0));
    assert!(!schrodinger_tick(&mut v, true, 0));
    assert_eq!(v, vec![3, 1, 2]);
    assert_eq!(s1, InsertionStep::new());
    assert_eq!(s2, SelectionStep::new());
    assert_eq!(s3.run_size, 1);
}

#[test]
fn merge_lengths_not_power_of_two() {
    for len in [3usize, 5, 6, 7, 9, 100, 999] {
        let v0 = random_list(len);
        let mut v = v0.clone();
        let mut step = MergeStep::new();
        assert!(merge_tick(&mut v, &mut step, u32::MAX));
        assert_eq!(v, sorted_copy(&v0));
        assert_eq!(step.run_size, 1);
        assert!(step.left.is_empty() && step.right.is_empty());
    }
}

#[test]
fn merge_two_runs_in_single_actions() {
    let mut v = vec![3, 1, 2];
    let mut step = MergeStep::new();
    assert!(!merge_tick(&mut v, &mut step, 1));
    assert_eq!(v, vec![1, 1, 2]);
    assert_eq!((step.left.clone(), step.right.clone()), (vec![3], vec![1]));
    assert_eq!(step.right_pos, 1);
    let mut ticks = 1;
    while !merge_tick(&mut v, &mut step, 1) {
        ticks += 1;
        assert!(ticks < 100);
    }
    assert_eq!(v, vec![1, 2, 3]);
}

#[test]
fn stepwise_equals_whole_budget() {
    let v0 = random_list(40);
    let mut a = v0.clone();
    let mut sa = SelectionStep::new();
    while !selection_tick(&mut a, &mut sa, 1) {}
    let mut b = v0.clone();
    let mut sb = SelectionStep::new();
    assert!(selection_tick(&mut b, &mut sb, u32::MAX));
    assert_eq!(a, b);
    let mut c = v0.clone();
    let mut sc = InsertionStep::new();
    while !insertion_tick(&mut c, &mut sc, 1) {}
    let mut d = v0.clone();
    let mut sd = InsertionStep::new();
    assert!(insertion_tick(&mut d, &mut sd, u32::MAX));
    assert_eq!(c, d);
    assert_eq!(c, sorted_copy(&v0));
}

#[test]
fn unobserved_never_completes() {
    let mut v = vec![1, 2, 3, 4];
    assert!(!schrodinger_tick(&mut v, false, 1000));
    assert_eq!(v, vec![1, 2, 3, 4]);
    assert!(schrodinger_tick(&mut v, true, 1));
    assert_eq!(v, vec![1, 2, 3, 4]);
}

#[test]
fn probabilistic_keeps_values() {
    let mut v = vec![4, 1, 3, 2, 2];
    let done = schrodinger_tick(&mut v, true, 50);
    assert_eq!(sorted_copy(&v), vec![1, 2, 2, 3, 4]);
    if done {
        assert_eq!(v, vec![1, 2, 2, 3, 4]);
    }
}

#[test]
fn probabilistic_sorts_small_list_when_observed() {
    let mut v = vec![3, 1, 2];
    let done = schrodinger_tick(&mut v, true, 10_000);
    assert!(done);
    assert_eq!(v, vec![1, 2, 3]);
}
