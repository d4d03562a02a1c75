use tale::task::{
    bounded_detail, push_bounded, Progress, Task, TaskChange, TaskId, TaskRecordId, TaskResultKind, TaskState,
    TaskStore,
};

/// The record identity made at millisecond `k`.
fn record(k: u64) -> TaskRecordId {
    TaskRecordId::new(k, &[7; 10])
}

fn store_with(n: usize) -> (TaskStore, Vec<TaskId>) {
    let mut store = TaskStore::new();
    let mut ids = Vec::new();
    for k in 0..n {
        ids.push(store.create(record(k as u64), format!("action-{k}"), format!("target-{k}"), 100 + k as u64, true));
    }
    (store, ids)
}

#[test]
fn created_tasks_are_numbered_from_one_and_the_first_is_selected() {
    let (store, ids) = store_with(3);
    assert_eq!(ids, vec![TaskId(1), TaskId(2), TaskId(3)]);
    assert_eq!(store.selected, Some(TaskId(1)));
    let task = store.get(TaskId(2)).expect("created task");
    assert_eq!(task.state, TaskState::Queued);
    assert_eq!(task.summary, "queued");
    assert_eq!(task.target_label, "target-1");
    assert_eq!(task.started_at, 101);
    assert!(task.detail.is_empty());
    assert!(store.get(TaskId(9)).is_none());
    assert_eq!(store.all().len(), 3);
    assert_eq!(store.session().len(), 3);
}

#[test]
fn a_task_runs_then_finishes_once() {
    let (mut store, ids) = store_with(1);
    let id = ids[0];
    assert!(!store.succeed(id, 5, "done", "early"));
    assert!(!store.progress(id, Progress { completed: 1, total: 2 }, "step"));
    assert!(store.start(id));
    assert!(!store.start(id));
    assert_eq!(store.get(id).unwrap().summary, "running");
    assert!(store.progress(id, Progress { completed: 1, total: 2 }, "first"));
    assert!(store.progress(id, Progress { completed: 2, total: 2 }, "second"));
    assert!(store.progress(id, Progress { completed: 2, total: 2 }, ""));
    assert_eq!(store.get(id).unwrap().detail, "first\nsecond");
    assert!(store.succeed(id, 9, "all good", "finished"));
    let task = store.get(id).unwrap();
    assert_eq!(task.state, TaskState::Succeeded);
    assert_eq!(task.finished_at, Some(9));
    assert_eq!(task.summary, "all good");
    assert_eq!(task.detail, "first\nsecond\nfinished");
    assert_eq!(task.progress, Some(Progress { completed: 2, total: 2 }));
    assert!(!store.fail(id, 10, "late", "again"));
    assert!(!store.cancel(id, 10, "again"));
    assert!(!store.request_cancel(id));
    assert_eq!(store.get(id).unwrap().state, TaskState::Succeeded);
    assert!(!store.has_active());
}

#[test]
fn cancelling_needs_a_cancellable_task() {
    let mut store = TaskStore::new();
    let fixed = store.create(record(101), "a".to_string(), "fixed".to_string(), 1, false);
    let loose = store.create(record(102), "b".to_string(), "loose".to_string(), 1, true);
    assert!(!store.request_cancel(fixed));
    assert!(!store.selected_can_cancel());
    assert!(store.start(loose));
    assert!(store.request_cancel(loose));
    assert_eq!(store.get(loose).unwrap().summary, "cancelling");
    assert!(store.request_cancel(loose));
    store.selected = Some(loose);
    assert!(store.selected_can_cancel());
    assert!(store.cancel(loose, 4, "stopped"));
    let task = store.get(loose).unwrap();
    assert_eq!(task.state, TaskState::Cancelled);
    assert_eq!(task.summary, "cancelled");
    assert!(!store.selected_can_cancel());
    assert!(!store.request_cancel(TaskId(77)));
}

#[test]
fn changed_tasks_are_taken_for_saving_once() {
    let (mut store, ids) = store_with(2);
    let dirty = store.take_dirty();
    assert_eq!(dirty.iter().map(|t| t.id).collect::<Vec<_>>(), ids);
    assert!(store.take_dirty().is_empty());
    assert!(store.set_exit_status(ids[1], Some(3)));
    assert!(!store.set_exit_status(TaskId(40), Some(3)));
    let dirty = store.take_dirty();
    assert_eq!(dirty.len(), 1);
    assert_eq!(dirty[0].id, ids[1]);
    assert_eq!(dirty[0].exit_status, Some(3));
    assert!(store.take_dirty().is_empty());
}

#[test]
fn setters_record_their_values() {
    let (mut store, ids) = store_with(1);
    let id = ids[0];
    let change = TaskChange { field: "hostname".to_string(), before: Some("a".to_string()), after: None };
    assert!(store.set_changes(id, vec![change.clone()]));
    assert!(store.set_local_metadata(id, vec!["Self".to_string()], vec!["status".to_string(), "--json".to_string()]));
    assert!(store.set_verification(id, "confirmed".to_string()));
    let task = store.get(id).unwrap();
    assert_eq!(task.changes, vec![change]);
    assert_eq!(task.requested_fields, vec!["Self".to_string()]);
    assert_eq!(task.redacted_argv, vec!["status".to_string(), "--json".to_string()]);
    assert_eq!(task.verification.as_deref(), Some("confirmed"));
    assert!(!store.set_changes(TaskId(5), Vec::new()));
    assert!(!store.set_verification(TaskId(5), "x".to_string()));
    assert!(!store.set_local_metadata(TaskId(5), Vec::new(), Vec::new()));
}

#[test]
fn eviction_drops_the_oldest_finished_tasks() {
    let (mut store, ids) = store_with(5);
    for id in &ids[..4] {
        assert!(store.start(*id));
    }
    assert!(store.succeed(ids[0], 1, "a", ""));
    assert!(store.fail(ids[1], 2, "b", ""));
    assert!(store.succeed(ids[3], 3, "d", ""));
    store.selected = Some(ids[0]);
    store.evict_completed(1);
    let left: Vec<TaskId> = store.all().iter().map(|t| t.id).collect();
    assert_eq!(left, vec![ids[2], ids[3], ids[4]]);
    assert_eq!(store.selected, Some(ids[4]));
    let session: Vec<TaskId> = store.session().iter().map(|t| t.id).collect();
    assert_eq!(session, left);
    let active: Vec<TaskId> = store.active().iter().map(|t| t.id).collect();
    assert_eq!(active, vec![ids[2], ids[4]]);
    assert!(store.has_active());
    store.evict_completed(1);
    assert_eq!(store.all().len(), 3);
}

#[test]
fn selection_moves_within_the_list() {
    let (mut store, ids) = store_with(4);
    store.select_next(2);
    assert_eq!(store.selected, Some(ids[2]));
    store.select_next(10);
    assert_eq!(store.selected, Some(ids[3]));
    store.select_next(-1);
    assert_eq!(store.selected, Some(ids[2]));
    store.select_next(isize::MIN);
    assert_eq!(store.selected, Some(ids[0]));
    store.select_next(isize::MAX);
    assert_eq!(store.selected, Some(ids[3]));
    store.selected = Some(TaskId(99));
    store.select_next(1);
    assert_eq!(store.selected, Some(ids[1]));
    let mut empty = TaskStore::new();
    empty.selected = Some(TaskId(3));
    empty.select_next(1);
    assert_eq!(empty.selected, None);
}

#[test]
fn restored_tasks_come_first_with_new_numbers() {
    let (mut store, ids) = store_with(1);
    let known = store.get(ids[0]).unwrap().clone();
    let mut earlier = known.clone();
    earlier.record_id = TaskRecordId(7);
    earlier.id = TaskId(500);
    earlier.target_label = "earlier".to_string();
    let restored: Vec<Task> = vec![earlier, known];
    store.merge_restored(restored);
    let all: Vec<(TaskId, String)> = store.all().iter().map(|t| (t.id, t.target_label.clone())).collect();
    assert_eq!(all, vec![(TaskId(2), "earlier".to_string()), (TaskId(1), "target-0".to_string())]);
    assert_eq!(store.create(record(103), "c".to_string(), "next".to_string(), 0, true), TaskId(3));
    assert_eq!(store.session().len(), 2);

    let mut fresh = TaskStore::new();
    let mut only = known_task(TaskRecordId(11));
    only.id = TaskId(8);
    fresh.merge_restored(vec![only]);
    assert_eq!(fresh.selected, Some(TaskId(1)));
    assert!(fresh.take_dirty().is_empty());
}

fn known_task(record_id: TaskRecordId) -> Task {
    let mut store = TaskStore::new();
    let id = store.create(record(104), "x".to_string(), "restored".to_string(), 0, false);
    let mut task = store.get(id).unwrap().clone();
    task.record_id = record_id;
    task
}

#[test]
fn finished_tasks_are_announced_by_the_store() {
    let (mut store, ids) = store_with(1);
    let id = ids[0];
    assert!(store.notification_for(id, 10).is_none());
    assert!(store.start(id));
    assert!(store.fail(id, 11, "broke", "why"));
    let notice = store.notification_for(id, 10).expect("notice");
    assert_eq!(notice.message, "target-0: broke");
    assert_eq!(notice.kind, TaskResultKind::Failure);
    assert_eq!(notice.expires_at, 15);
    assert_eq!(notice.task_id, id);
    assert!(store.notification_for(TaskId(3), 10).is_none());
}

#[test]
fn detail_keeps_its_latest_text() {
    assert_eq!(bounded_detail("abcdef", 10), "abcdef");
    assert_eq!(bounded_detail("abcdef", 3), "def");
    assert_eq!(bounded_detail("aé€", 5), "é€");
    assert_eq!(bounded_detail("aé€", 4), "€");
    assert_eq!(bounded_detail("", 0), "");
}

#[test]
fn pushed_detail_compacts_past_twice_its_cap() {
    let mut detail = String::new();
    push_bounded(&mut detail, "abc", 3);
    assert_eq!(detail, "abc");
    push_bounded(&mut detail, "de", 3);
    assert_eq!(detail, "abc\nde");
    push_bounded(&mut detail, "f", 3);
    assert_eq!(detail, "e\nf");
}

#[test]
fn tasks_change_in_place_without_being_marked() {
    let (mut store, ids) = store_with(2);
    assert_eq!(store.take_dirty().len(), 2);
    store.get_mut(ids[1]).expect("task").summary = "edited".to_string();
    assert_eq!(store.get(ids[1]).unwrap().summary, "edited");
    assert!(store.get_mut(TaskId(30)).is_none());
    assert!(store.take_dirty().is_empty());
}

#[test]
fn task_details_join_lines_and_report_stderr() {
    assert_eq!(tale::task::append_bounded("", "one"), "one");
    assert_eq!(tale::task::append_bounded("one", "two"), "one\ntwo");
    assert_eq!(tale::task::bounded_task_detail("short"), "short");
    assert_eq!(tale::task::mutation_detail("set hostname", None), "set hostname");
    assert_eq!(tale::task::mutation_detail("set hostname", Some("denied")), "set hostname; bounded stderr: denied");
}

#[test]
fn record_ids_are_version_seven_uuids() {
    let bytes = [0x12, 0x34, 0x56, 0x78, 0x9a, 0xbc, 0xde, 0xf0, 0x11, 0x22];
    let id = TaskRecordId::new(0x0123_4567_89ab, &bytes);
    assert_eq!(id.0, 0x0123_4567_89ab_7234_9678_9abc_def0_1122);
    assert_eq!((id.0 >> 76) & 0xf, 7);
    assert_eq!((id.0 >> 62) & 0x3, 2);
    let later = TaskRecordId::new(0x0123_4567_89ac, &bytes);
    assert!(later > id);
}
