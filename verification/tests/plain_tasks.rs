use tasks::gate::{gate_open, gates_open, tighten};
use tasks::plain::{TaskV1, TaskV2, Wrapped};

type Body = Box<dyn Fn(i32, i32) -> i32>;

fn double() -> Body {
    Box::new(|i, _| i * 2)
}

fn identity() -> Body {
    Box::new(|i, _| i)
}

#[test]
fn gate_is_open_without_prerequisite() {
    assert!(gate_open(None, i32::MIN));
    assert!(gate_open(None, 0));
    assert!(gate_open(None, i32::MAX));
}

#[test]
fn gate_opens_at_the_threshold() {
    assert!(gate_open(Some(32), 32));
    assert!(gate_open(Some(32), 33));
    assert!(!gate_open(Some(32), 31));
    assert!(gate_open(Some(i32::MIN), i32::MIN));
    assert!(!gate_open(Some(i32::MAX), i32::MAX - 1));
    assert!(gate_open(Some(-5), -5));
    assert!(!gate_open(Some(-5), -6));
}

#[test]
fn chain_of_gates_opens_at_its_largest_threshold() {
    let none: Vec<i32> = Vec::new();
    assert!(gates_open(&none, i32::MIN));
    let one: Vec<i32> = vec![32];
    assert!(!gates_open(&one, 31));
    assert!(gates_open(&one, 32));
    let three: Vec<i32> = vec![10, 20, -4];
    assert!(!gates_open(&three, 9));
    assert!(!gates_open(&three, 19));
    assert!(gates_open(&three, 20));
    assert!(gates_open(&three, i32::MAX));
}

#[test]
fn wrapped_body_tests_every_gate() {
    let body = Wrapped { inner: |i: i32, o: i32| i - o, gates: vec![5, 3] };
    assert_eq!(body.run(10, 2), 0);
    assert_eq!(body.run(10, 4), 0);
    assert_eq!(body.run(10, 5), 5);
    let bare = Wrapped { inner: |i: i32, o: i32| i - o, gates: Vec::new() };
    assert_eq!(bare.run(10, -5), 15);
}

#[test]
fn tightening_keeps_the_stricter_prerequisite() {
    assert_eq!(tighten(None, 7), Some(7));
    assert_eq!(tighten(Some(3), 7), Some(7));
    assert_eq!(tighten(Some(9), 7), Some(9));
    assert_eq!(tighten(Some(7), 7), Some(7));
    assert_eq!(tighten(Some(i32::MAX), i32::MIN), Some(i32::MAX));
    assert_eq!(tighten(None, i32::MIN), Some(i32::MIN));
}

#[test]
fn self_gating_task_never_loosens_its_prerequisite() {
    let task = TaskV1::new(|i: i32, _: i32| i).with_prereq(10).with_prereq(5);
    assert_eq!(task.tick(9, 4), 0);
    assert_eq!(task.tick(9, 7), 0);
    assert_eq!(task.tick(9, 10), 9);
    let task = TaskV1::new(|i: i32, _: i32| i).with_prereq(5).with_prereq(10);
    assert_eq!(task.tick(9, 7), 0);
    assert_eq!(task.tick(9, 10), 9);
}

#[test]
fn both_designs_agree_after_several_prerequisites() {
    let gated = TaskV1::new(|i: i32, o: i32| i + o).with_prereq(3).with_prereq(8).with_prereq(-2);
    let wrapped = TaskV2::new(|i: i32, o: i32| i + o).with_prereq(3).with_prereq(8).with_prereq(-2);
    let mut order: i32 = -10;
    while order < 20 {
        assert_eq!(gated.tick(1, order), wrapped.tick(1, order));
        order += 1;
    }
    assert_eq!(gated.tick(1, 7), 0);
    assert_eq!(gated.tick(1, 8), 9);
}

#[test]
fn self_gating_task_without_prerequisite_always_runs() {
    let task = TaskV1::new(|i: i32, _: i32| i * 2);
    assert_eq!(task.tick(5, i32::MIN), 10);
    assert_eq!(task.tick(5, 0), 10);
    assert_eq!(task.tick(-7, i32::MAX), -14);
}

#[test]
fn self_gating_task_runs_iff_order_reaches_prerequisite() {
    let task = TaskV1::new(|i: i32, o: i32| i + o).with_prereq(32);
    let mut order: i32 = -100;
    while order <= 100 {
        let expected: i32 = if order >= 32 { 3 + order } else { 0 };
        assert_eq!(task.tick(3, order), expected);
        order += 1;
    }
}

#[test]
fn self_gating_threshold_is_inclusive() {
    let task = TaskV1::new(|i: i32, _: i32| i + 1).with_prereq(32);
    assert_eq!(task.tick(1, 32), 2);
    assert_eq!(task.tick(1, 31), 0);
}

#[test]
fn wrapped_task_without_prerequisite_always_runs() {
    let task = TaskV2::new(|i: i32, _: i32| i * 2);
    assert_eq!(task.tick(5, i32::MIN), 10);
    assert_eq!(task.tick(5, 40), 10);
}

#[test]
fn wrapped_threshold_is_inclusive() {
    let task = TaskV2::new(|i: i32, _: i32| i + 1).with_prereq(32);
    assert_eq!(task.tick(1, 32), 2);
    assert_eq!(task.tick(1, 31), 0);
    assert_eq!(task.tick(1, 33), 2);
}

#[test]
fn wrapping_twice_keeps_both_gates() {
    let task = TaskV2::new(|i: i32, _: i32| i).with_prereq(10).with_prereq(20);
    assert_eq!(task.tick(9, 9), 0);
    assert_eq!(task.tick(9, 15), 0);
    assert_eq!(task.tick(9, 20), 9);
}

#[test]
fn both_designs_return_the_same() {
    let thresholds: Vec<i32> = vec![i32::MIN, -3, 0, 1, 32, i32::MAX];
    let inputs: Vec<i32> = vec![-4, 0, 1, 77];
    for &threshold in thresholds.iter() {
        let gated = TaskV1::new(|i: i32, o: i32| i.wrapping_mul(3).wrapping_add(o))
            .with_prereq(threshold);
        let wrapped = TaskV2::new(|i: i32, o: i32| i.wrapping_mul(3).wrapping_add(o))
            .with_prereq(threshold);
        for &inp in inputs.iter() {
            let orders: Vec<i32> = vec![
                i32::MIN,
                threshold.saturating_sub(1),
                threshold,
                threshold.saturating_add(1),
                i32::MAX,
            ];
            for &order in orders.iter() {
                assert_eq!(gated.tick(inp, order), wrapped.tick(inp, order));
            }
        }
    }
}

#[test]
fn repeated_ticks_return_the_same() {
    let gated = TaskV1::new(|i: i32, o: i32| i * 7 - o).with_prereq(4);
    let wrapped = TaskV2::new(|i: i32, o: i32| i * 7 - o).with_prereq(4);
    let first: i32 = gated.tick(6, 9);
    assert_eq!(first, 33);
    assert_eq!(gated.tick(6, 9), first);
    assert_eq!(gated.tick(6, 9), first);
    assert_eq!(wrapped.tick(6, 9), first);
    assert_eq!(wrapped.tick(6, 9), first);
    assert_eq!(gated.tick(6, 3), 0);
    assert_eq!(gated.tick(6, 3), 0);
}

fn registry_v1(count: usize) -> Vec<TaskV1<Body>> {
    (0..count)
        .map(|i| {
            if i % 128 == 0 {
                TaskV1::new(identity()).with_prereq(32)
            } else {
                TaskV1::new(double())
            }
        })
        .collect()
}

fn registry_v2(count: usize) -> Vec<TaskV2<Body>> {
    (0..count)
        .map(|i| {
            if i % 128 == 0 {
                TaskV2::new(identity()).with_prereq(32)
            } else {
                TaskV2::new(double())
            }
        })
        .collect()
}

#[test]
fn registry_below_the_threshold_skips_the_guarded_tasks() {
    let tasks = registry_v1(128);
    for (i, task) in tasks.iter().enumerate() {
        let expected: i32 = if i % 128 == 0 { 0 } else { 14 };
        assert_eq!(task.tick(7, 10), expected);
    }
}

#[test]
fn registry_above_the_threshold_runs_every_task() {
    let tasks = registry_v1(128);
    for (i, task) in tasks.iter().enumerate() {
        let expected: i32 = if i % 128 == 0 { 7 } else { 14 };
        assert_eq!(task.tick(7, 40), expected);
    }
}

#[test]
fn wrapped_registry_matches_the_self_gating_one() {
    let gated = registry_v1(300);
    let wrapped = registry_v2(300);
    let orders: Vec<i32> = vec![10, 31, 32, 40];
    for &order in orders.iter() {
        for (g, w) in gated.iter().zip(wrapped.iter()) {
            assert_eq!(g.tick(5, order), w.tick(5, order));
        }
    }
}

#[test]
fn registry_driven_by_place_skips_only_the_early_guarded_task() {
    let tasks = registry_v1(300);
    let results: Vec<i32> = tasks.iter().enumerate().map(|(i, t)| t.tick(1, i as i32)).collect();
    assert_eq!(results[0], 0);
    assert_eq!(results[1], 2);
    assert_eq!(results[128], 1);
    assert_eq!(results[256], 1);
    assert_eq!(results[299], 2);
}
