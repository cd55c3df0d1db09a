use rquickjs_playground::tasks::{
    task_outcome, AfterPump, AsyncCommand, DrainStep, Received, RuntimeRegistry, TaskTable, WorkerAction,
};

fn table_with(ids: &[u64]) -> TaskTable<u32> {
    let mut t = TaskTable::new();
    for id in ids {
        t.register(*id, *id as u32 * 10);
    }
    t
}

#[test]
fn new_task_is_pending_and_counted() {
    let t = table_with(&[1, 2]);
    let s = t.stats();
    assert_eq!((s.pending, s.running, s.done, s.dropped), (2, 0, 0, 0));
    assert!(t.is_task_active(1));
    assert!(!t.is_task_active(3));
}

#[test]
fn read_after_finalize_gives_outcome() {
    let mut t = table_with(&[7]);
    assert!(t.mark_running_if_available(7));
    assert!(t.finalize_task(7, Ok("42".to_string())));
    assert_eq!(t.read_done_outcome(7), Ok("42".to_string()));
    let s = t.stats();
    assert_eq!((s.pending, s.running, s.done, s.dropped), (0, 0, 1, 0));
}

#[test]
fn read_done_outcome_messages() {
    let mut t = table_with(&[1]);
    assert_eq!(t.read_done_outcome(1), Err("读取任务结果失败: 任务尚未完成".to_string()));
    assert_eq!(t.read_done_outcome(9), Err("读取任务结果失败: 任务不存在".to_string()));
    assert!(t.mark_dropped_and_notify(1).is_some());
    assert_eq!(t.read_done_outcome(1), Err("task dropped".to_string()));
}

#[test]
fn dropped_task_never_runs_or_finishes() {
    let mut t = table_with(&[3]);
    let d = t.mark_dropped_and_notify(3);
    assert_eq!(d, Some((30, Err("task dropped".to_string()))));
    assert!(!t.mark_running_if_available(3));
    assert!(!t.finalize_task(3, Ok("late".to_string())));
    // the late outcome removed the dropped task
    assert_eq!(t.read_done_outcome(3), Err("读取任务结果失败: 任务不存在".to_string()));
}

#[test]
fn unknown_task_is_not_run() {
    let mut t: TaskTable<u32> = TaskTable::new();
    assert!(!t.mark_running_if_available(5));
    assert!(!t.finalize_task(5, Ok("x".to_string())));
}

#[test]
fn second_drop_does_nothing() {
    let mut t = table_with(&[4]);
    assert!(t.mark_dropped_and_notify(4).is_some());
    assert!(t.mark_dropped_and_notify(4).is_none());
    assert_eq!(t.stats().dropped, 1);
}

#[test]
fn drop_without_waiter_forgets_task() {
    let mut t = table_with(&[4]);
    t.remove_waiter(4);
    assert!(t.mark_dropped_and_notify(4).is_none());
    assert_eq!(t.stats().dropped, 0);
    assert!(!t.is_task_active(4));
}

#[test]
fn finalize_with_waiter_delivers_once() {
    let mut t = table_with(&[2]);
    let first = t.finalize_task_with_waiter(2, Err("boom".to_string()));
    assert_eq!(first, Some((20, Err("boom".to_string()))));
    // no waiter is left: a second outcome is recorded, then forgotten
    assert_eq!(t.finalize_task_with_waiter(2, Ok("again".to_string())), None);
    assert!(!t.is_task_active(2));
    assert_eq!(t.stats().done, 0);
}

#[test]
fn complete_task_uses_ok_flag() {
    assert_eq!(task_outcome(true, "a".to_string()), Ok("a".to_string()));
    assert_eq!(task_outcome(false, "b".to_string()), Err("b".to_string()));
    let mut t = table_with(&[1, 2]);
    assert_eq!(t.complete_task(1, true, "v".to_string()), Some((10, Ok("v".to_string()))));
    assert_eq!(t.complete_task(2, false, "e".to_string()), Some((20, Err("e".to_string()))));
}

#[test]
fn fail_all_active_tasks_fails_only_active() {
    let mut t = table_with(&[1, 2, 3, 4]);
    assert!(t.finalize_task(3, Ok("kept".to_string())));
    assert!(t.mark_dropped_and_notify(4).is_some());
    t.remove_waiter(2);
    let mut d = t.fail_all_active_tasks("engine down".to_string());
    d.sort_by_key(|x| x.0);
    assert_eq!(d, vec![(1, 10, Err("engine down".to_string()))]);
    assert_eq!(t.read_done_outcome(1), Err("engine down".to_string()));
    // task 2 had no waiter and is gone
    assert_eq!(t.read_done_outcome(2), Err("读取任务结果失败: 任务不存在".to_string()));
    assert_eq!(t.read_done_outcome(3), Ok("kept".to_string()));
    let s = t.stats();
    assert_eq!((s.pending, s.running, s.done, s.dropped), (0, 0, 2, 1));
}

#[test]
fn stats_partition_counts_every_task() {
    let mut t = table_with(&[1, 2, 3, 4, 5]);
    t.mark_running_if_available(2);
    t.finalize_task(3, Ok(String::new()));
    t.mark_dropped_and_notify(4);
    let s = t.stats();
    assert_eq!((s.pending, s.running, s.done, s.dropped), (2, 1, 1, 1));
    assert_eq!(s.pending + s.running + s.done + s.dropped, 5);
}

#[test]
fn release_handle_of_active_task_asks_for_drop() {
    let mut t = table_with(&[1, 2]);
    assert!(t.release_handle(1));
    assert!(t.is_task_active(1));
    assert!(t.notify_waiter(1).is_none());
    t.finalize_task(2, Ok("x".to_string()));
    assert!(!t.release_handle(2));
    assert_eq!(t.read_done_outcome(2), Err("读取任务结果失败: 任务不存在".to_string()));
}

#[test]
fn worker_commands() {
    let mut t = table_with(&[1, 2]);
    match t.handle_worker_command(AsyncCommand::Submit { id: 1, script: "1+1".to_string() }) {
        WorkerAction::RunScript { id, script } => {
            assert_eq!(id, 1);
            assert_eq!(script, "1+1");
        }
        _ => panic!("expected RunScript"),
    }
    assert!(matches!(
        t.handle_worker_command(AsyncCommand::Submit { id: 9, script: String::new() }),
        WorkerAction::Idle
    ));
    match t.handle_worker_command(AsyncCommand::Drop { id: 2 }) {
        WorkerAction::Deliver { waiter, outcome } => {
            assert_eq!(waiter, 20);
            assert_eq!(outcome, Err("task dropped".to_string()));
        }
        _ => panic!("expected Deliver"),
    }
    assert!(matches!(
        t.handle_worker_command(AsyncCommand::Submit { id: 2, script: String::new() }),
        WorkerAction::Idle
    ));
    assert!(matches!(t.handle_worker_command(AsyncCommand::Shutdown), WorkerAction::Stop));
}

#[test]
fn abandon_forgets_task_and_waiter() {
    let mut t = table_with(&[8]);
    t.abandon(8);
    assert!(!t.is_task_active(8));
    assert!(t.notify_waiter(8).is_none());
}

#[test]
fn registry_register_and_unregister() {
    let mut r: RuntimeRegistry<&'static str> = RuntimeRegistry::new();
    r.register_runtime_shared(1, "a");
    r.register_runtime_shared(2, "b");
    assert_eq!(r.runtime_shared(1), Some(&"a"));
    r.unregister_runtime_shared(1);
    assert_eq!(r.runtime_shared(1), None);
    assert_eq!(r.runtime_shared(2), Some(&"b"));
}

#[test]
fn drain_step_empty_queue_pumps_and_closed_queue_stops() {
    let mut t = table_with(&[1]);
    assert!(matches!(t.drain_step(Received::Empty), DrainStep::Pump));
    assert!(matches!(t.drain_step(Received::Disconnected), DrainStep::Stop));
    assert!(t.is_task_active(1));
}

#[test]
fn drain_step_takes_in_commands() {
    let mut t = table_with(&[1, 2]);
    match t.drain_step(Received::Command(AsyncCommand::Submit { id: 1, script: "1+1".to_string() })) {
        DrainStep::Act(WorkerAction::RunScript { id, script }) => {
            assert_eq!(id, 1);
            assert_eq!(script, "1+1");
        }
        _ => panic!("expected the script to run"),
    }
    match t.drain_step(Received::Command(AsyncCommand::Drop { id: 2 })) {
        DrainStep::Act(WorkerAction::Deliver { waiter, outcome }) => {
            assert_eq!(waiter, 20);
            assert_eq!(outcome, Err("task dropped".to_string()));
        }
        _ => panic!("expected a delivery"),
    }
    assert!(matches!(
        t.drain_step(Received::Command(AsyncCommand::Shutdown)),
        DrainStep::Act(WorkerAction::Stop)
    ));
}

#[test]
fn after_pump_decides_next_step() {
    let mut t = table_with(&[1]);
    let (next, d) = t.after_pump(Ok(3));
    assert!(matches!(next, AfterPump::DrainAgain));
    assert!(d.is_empty());
    let (next, d) = t.after_pump(Ok(0));
    assert!(matches!(next, AfterPump::Block));
    assert!(d.is_empty());
    assert!(t.is_task_active(1));
}

#[test]
fn after_pump_failure_fails_active_tasks() {
    let mut t = table_with(&[1, 2, 3]);
    assert!(t.mark_running_if_available(2));
    assert!(t.finalize_task(3, Ok("done".to_string())));
    let (next, mut d) = t.after_pump(Err("engine broke".to_string()));
    assert!(matches!(next, AfterPump::Stop));
    d.sort_by_key(|(id, _, _)| *id);
    assert_eq!(d.len(), 2);
    assert_eq!((d[0].0, d[0].1), (1, 10));
    assert_eq!((d[1].0, d[1].1), (2, 20));
    assert_eq!(d[0].2, Err("engine broke".to_string()));
    assert!(!t.is_task_active(1));
    assert!(!t.is_task_active(2));
    assert_eq!(t.read_done_outcome(3), Ok("done".to_string()));
}
