use task_scheduler::scheduler::TaskSchedulerState;
use task_scheduler::task::{Task, TaskStatus};

fn registry(node: &str) -> TaskSchedulerState {
    let mut s = TaskSchedulerState::default();
    s.initialize(node.to_string());
    s
}

/// Runs a whole delegation against the given registry, with the peer's answer.
fn delegate(s: &mut TaskSchedulerState, id: &str, node: &str, peer_accepts: bool) -> bool {
    match s.begin_delegation(id.to_string(), node.to_string()) {
        Some(_) => s.finish_delegation(id.to_string(), peer_accepts),
        None => false,
    }
}

fn held(id: &str) -> Task {
    Task {
        id: id.to_string(),
        description: "d".to_string(),
        assigned_node: None,
        status: TaskStatus::Pending,
        creator_node: "Z".to_string(),
    }
}

#[test]
fn created_ids_are_distinct() {
    let mut s = registry("A");
    let mut ids: Vec<String> = Vec::new();
    for k in 0..50 {
        ids.push(s.create_task(format!("task {}", k)));
    }
    for a in 0..ids.len() {
        for b in (a + 1)..ids.len() {
            assert_ne!(ids[a], ids[b]);
        }
    }
    assert_eq!(s.get_all_tasks().len(), 50);
}

#[test]
fn created_id_is_a_hyphenated_uuid() {
    let mut s = registry("A");
    let id = s.create_task("x".to_string());
    assert_eq!(id.len(), 36);
    assert_eq!(id.matches('-').count(), 4);
}

#[test]
fn create_then_get_round_trip() {
    let mut s = registry("A");
    let id = s.create_task("Test task description".to_string());
    let t = s.get_task(id.clone()).expect("task is held");
    assert_eq!(t.id, id);
    assert_eq!(t.description, "Test task description");
    assert_eq!(t.status, TaskStatus::Pending);
    assert!(t.assigned_node.is_none());
    assert_eq!(t.creator_node, "A");
}

#[test]
fn default_registry_names_unknown_creator() {
    let mut s = TaskSchedulerState::default();
    assert!(s.get_all_tasks().is_empty());
    let id = s.create_task("d".to_string());
    assert_eq!(s.get_task(id).unwrap().creator_node, "unknown.node.id");
}

#[test]
fn get_all_tasks_lists_each_task() {
    let mut s = registry("A");
    let id1 = s.create_task("First test task".to_string());
    let id2 = s.create_task("Second test task".to_string());
    let all = s.get_all_tasks();
    assert_eq!(all.len(), 2);
    assert!(all.iter().any(|t| t.id == id1 && t.description == "First test task"));
    assert!(all.iter().any(|t| t.id == id2 && t.description == "Second test task"));
}

#[test]
fn initialize_clears_tasks() {
    let mut s = registry("A");
    s.create_task("d".to_string());
    s.initialize("C".to_string());
    assert!(s.get_all_tasks().is_empty());
}

#[test]
fn delegation_success_commits() {
    let mut s = registry("A");
    let id = s.create_task("d".to_string());
    let sent = s.begin_delegation(id.clone(), "B".to_string()).unwrap();
    assert_eq!(sent.status, TaskStatus::Assigned);
    assert_eq!(sent.assigned_node.as_deref(), Some("B"));
    assert!(s.finish_delegation(id.clone(), true));
    let t = s.get_task(id).unwrap();
    assert_eq!(t.status, TaskStatus::Assigned);
    assert_eq!(t.assigned_node.as_deref(), Some("B"));
}

#[test]
fn delegation_is_visible_before_the_answer() {
    let mut s = registry("A");
    let id = s.create_task("d".to_string());
    s.begin_delegation(id.clone(), "B".to_string()).unwrap();
    assert_eq!(s.get_task(id).unwrap().status, TaskStatus::Assigned);
}

#[test]
fn delegation_failure_compensates() {
    let mut s = registry("A");
    let id = s.create_task("d".to_string());
    let before = s.get_task(id.clone()).unwrap();
    assert!(!delegate(&mut s, &id, "B", false));
    assert_eq!(s.get_task(id).unwrap(), before);
}

#[test]
fn completed_task_is_not_delegated() {
    let mut s = registry("A");
    let id = s.create_task("d".to_string());
    assert!(delegate(&mut s, &id, "B", true));
    assert!(s.complete_task(id.clone()).is_some());
    let done = s.get_task(id.clone()).unwrap();
    assert!(s.begin_delegation(id.clone(), "C".to_string()).is_none());
    assert!(!delegate(&mut s, &id, "C", false));
    assert!(!s.finish_delegation(id.clone(), false));
    let t = s.get_task(id).unwrap();
    assert_eq!(t, done);
    assert_eq!(t.status, TaskStatus::Completed);
    assert_eq!(t.assigned_node.as_deref(), Some("B"));
}

#[test]
fn fresh_id_keeps_a_free_draw() {
    let mut s = registry("A");
    s.assign_task(held("t1"));
    assert_eq!(s.fresh_id_from("t2".to_string()), "t2");
}

#[test]
fn fresh_id_lengthens_a_taken_draw() {
    let mut s = registry("A");
    s.assign_task(held("t1"));
    assert_eq!(s.fresh_id_from("t1".to_string()), "t1-");
    s.assign_task(held("t1-"));
    assert_eq!(s.fresh_id_from("t1".to_string()), "t1--");
}

#[test]
fn completion_is_local_first() {
    let mut s = registry("A");
    let id = s.create_task("d".to_string());
    // The notice to the creator is never sent here: it counts as failed.
    assert_eq!(s.complete_task(id.clone()).as_deref(), Some("A"));
    assert_eq!(s.get_task(id).unwrap().status, TaskStatus::Completed);
}

#[test]
fn completion_keeps_assigned_node() {
    let mut s = registry("A");
    let id = s.create_task("d".to_string());
    assert!(delegate(&mut s, &id, "B", true));
    s.complete_task(id.clone());
    let t = s.get_task(id).unwrap();
    assert_eq!(t.status, TaskStatus::Completed);
    assert_eq!(t.assigned_node.as_deref(), Some("B"));
}

#[test]
fn completion_twice_equals_once() {
    let mut s = registry("A");
    let id = s.create_task("d".to_string());
    assert!(s.complete_task(id.clone()).is_some());
    let once = s.get_all_tasks();
    assert!(s.complete_task(id.clone()).is_some());
    assert_eq!(s.get_all_tasks(), once);
    assert!(s.notify_completion(id.clone()));
    assert!(s.notify_completion(id.clone()));
    assert_eq!(s.get_all_tasks(), once);
}

#[test]
fn notify_completion_twice_equals_once() {
    let mut s = registry("A");
    let id = s.create_task("d".to_string());
    assert!(s.notify_completion(id.clone()));
    let once = s.get_task(id.clone()).unwrap();
    assert_eq!(once.status, TaskStatus::Completed);
    assert!(s.notify_completion(id.clone()));
    assert_eq!(s.get_task(id).unwrap(), once);
}

#[test]
fn unknown_id_is_a_no_op() {
    let mut s = registry("A");
    let id = s.create_task("d".to_string());
    let before = s.get_all_tasks();
    let missing = "no-such-task".to_string();
    assert!(s.get_task(missing.clone()).is_none());
    assert!(s.begin_delegation(missing.clone(), "B".to_string()).is_none());
    assert!(!delegate(&mut s, &missing, "B", true));
    assert!(!s.finish_delegation(missing.clone(), false));
    assert!(!s.finish_delegation(missing.clone(), true));
    assert!(s.complete_task(missing.clone()).is_none());
    assert!(!s.notify_completion(missing));
    assert_eq!(s.get_all_tasks(), before);
    assert_eq!(s.get_task(id).unwrap().status, TaskStatus::Pending);
}

#[test]
fn assign_task_inserts_and_overwrites() {
    let mut s = registry("B");
    let t = Task {
        id: "t1".to_string(),
        description: "held for A".to_string(),
        assigned_node: Some("B".to_string()),
        status: TaskStatus::Assigned,
        creator_node: "A".to_string(),
    };
    assert!(s.assign_task(t.clone()));
    assert_eq!(s.get_task("t1".to_string()).unwrap(), t);
    let mut t2 = t.clone();
    t2.description = "newer".to_string();
    assert!(s.assign_task(t2.clone()));
    assert_eq!(s.get_all_tasks(), vec![t2]);
}

#[test]
fn snapshot_copies_every_field() {
    let t = Task {
        id: "i".to_string(),
        description: "d".to_string(),
        assigned_node: Some("n".to_string()),
        status: TaskStatus::Completed,
        creator_node: "c".to_string(),
    };
    assert_eq!(t.snapshot(), t);
}

#[test]
fn scenario_delegate_complete_notify() {
    let mut a = registry("A");
    let mut b = registry("B");
    let t1 = a.create_task("write report".to_string());
    assert_eq!(a.get_task(t1.clone()).unwrap().status, TaskStatus::Pending);

    let handed = a.begin_delegation(t1.clone(), "B".to_string()).unwrap();
    assert!(b.assign_task(handed));
    assert!(a.finish_delegation(t1.clone(), true));
    let on_a = a.get_task(t1.clone()).unwrap();
    assert_eq!(on_a.description, "write report");
    assert_eq!(on_a.assigned_node.as_deref(), Some("B"));
    assert_eq!(on_a.status, TaskStatus::Assigned);
    assert_eq!(b.get_task(t1.clone()).unwrap().status, TaskStatus::Assigned);

    let creator = b.complete_task(t1.clone()).unwrap();
    assert_eq!(creator, "A");
    assert_eq!(b.get_task(t1.clone()).unwrap().status, TaskStatus::Completed);
    assert!(a.notify_completion(t1.clone()));
    assert_eq!(a.get_task(t1).unwrap().status, TaskStatus::Completed);
}

#[test]
fn scenario_delegation_to_offline_node() {
    let mut a = registry("A");
    let t2 = a.create_task("urgent".to_string());
    assert!(a.begin_delegation(t2.clone(), "offline".to_string()).is_some());
    // The peer never answers: the call times out.
    assert!(!a.finish_delegation(t2.clone(), false));
    let t = a.get_task(t2).unwrap();
    assert_eq!(t.status, TaskStatus::Pending);
    assert!(t.assigned_node.is_none());
}
