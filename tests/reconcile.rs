use ring::deployment::Status;
use ring::reconciler::{finish_pass, plan_from_snapshot, plan_pass, PassOutcome};
use ring::scheduler::{Cycle, InFlight};

fn ids(n: usize) -> Vec<String> {
    (0..n).map(|i| format!("c{}", i)).collect()
}

#[test]
fn second_pass_after_success_is_idle() {
    let discovered = ids(1);
    let plan = plan_pass(Status::Active, 3, &discovered);
    assert_eq!(plan.creates, 2);
    assert!(plan.removals.is_empty());
    let created = vec![Some("n1".to_string()), Some("n2".to_string())];
    let out = finish_pass(&discovered, &plan, &vec![], &created);
    assert_eq!(out.instances, vec!["c0".to_string(), "n1".to_string(), "n2".to_string()]);
    let again = plan_pass(Status::Active, 3, &out.instances);
    assert_eq!(again.creates, 0);
    assert!(again.removals.is_empty());
}

#[test]
fn pass_at_replica_count_does_nothing() {
    let discovered = ids(2);
    let plan = plan_pass(Status::Active, 2, &discovered);
    assert_eq!(plan.creates, 0);
    assert!(plan.removals.is_empty());
    let out = finish_pass(&discovered, &plan, &vec![], &vec![]);
    assert_eq!(out.instances, discovered);
    assert_eq!(out.failed_removals, 0);
    assert_eq!(out.failed_creations, 0);
}

#[test]
fn convergence_from_zero_instances() {
    let discovered: Vec<String> = Vec::new();
    let plan = plan_pass(Status::Active, 4, &discovered);
    assert_eq!(plan.creates, 4);
    assert!(plan.removals.is_empty());
    let created: Vec<Option<String>> = (0..4).map(|i| Some(format!("n{}", i))).collect();
    let out = finish_pass(&discovered, &plan, &vec![], &created);
    assert_eq!(out.instances.len(), 4);
}

#[test]
fn scale_down_removes_exactly_the_excess() {
    let discovered = ids(5);
    let plan = plan_pass(Status::Active, 2, &discovered);
    assert_eq!(plan.creates, 0);
    assert_eq!(plan.removals, vec!["c0".to_string(), "c1".to_string(), "c2".to_string()]);
    let out = finish_pass(&discovered, &plan, &vec![true, true, true], &vec![]);
    assert_eq!(out.instances, vec!["c3".to_string(), "c4".to_string()]);
}

#[test]
fn deletion_drains_regardless_of_replicas() {
    let discovered = ids(3);
    let plan = plan_pass(Status::Deleted, 3, &discovered);
    assert_eq!(plan.creates, 0);
    assert_eq!(plan.removals, discovered);
    let out = finish_pass(&discovered, &plan, &vec![true, true, true], &vec![]);
    assert!(out.instances.is_empty());
}

#[test]
fn failed_calls_are_kept_and_counted() {
    let discovered = ids(4);
    let plan = plan_pass(Status::Active, 1, &discovered);
    let out = finish_pass(&discovered, &plan, &vec![true, false, true], &vec![]);
    assert_eq!(out.instances, vec!["c1".to_string(), "c3".to_string()]);
    assert_eq!(out.failed_removals, 1);

    let empty: Vec<String> = Vec::new();
    let plan = plan_pass(Status::Active, 2, &empty);
    let out = finish_pass(&empty, &plan, &vec![], &vec![None, Some("n".to_string())]);
    assert_eq!(out.instances, vec!["n".to_string()]);
    assert_eq!(out.failed_creations, 1);
}

#[test]
fn failure_of_one_deployment_does_not_block_the_next() {
    let mut cycle = Cycle::new(vec!["a".to_string(), "b".to_string()]);
    assert_eq!(cycle.next(), Some(0));
    cycle.record(None);
    assert_eq!(cycle.next(), Some(1));
    let b_found: Vec<String> = Vec::new();
    let plan = plan_pass(Status::Active, 1, &b_found);
    let outcome = finish_pass(&b_found, &plan, &vec![], &vec![Some("b1".to_string())]);
    cycle.record(Some(outcome));
    assert_eq!(cycle.next(), None);
    assert!(cycle.reports[0].is_none());
    let b: &PassOutcome = cycle.reports[1].as_ref().unwrap();
    assert_eq!(b.instances, vec!["b1".to_string()]);
    assert_eq!(b.failed_creations, 0);
}

#[test]
fn one_pass_per_deployment_at_a_time() {
    let mut running = InFlight::new();
    let a = "a".to_string();
    let b = "b".to_string();
    assert!(running.try_begin(&a));
    assert!(!running.try_begin(&a));
    assert!(running.try_begin(&b));
    running.end(&a);
    assert_eq!(running.ids, vec![b.clone()]);
    assert!(running.try_begin(&a));
}

#[test]
fn unavailable_runtime_plans_nothing() {
    assert!(plan_from_snapshot(Status::Active, 3, &None).is_none());
    let p = plan_from_snapshot(Status::Active, 3, &Some(ids(1))).unwrap();
    assert_eq!(p.creates, 2);
    let p = plan_from_snapshot(Status::Deleted, 3, &Some(ids(2))).unwrap();
    assert_eq!(p.removals, ids(2));
}
