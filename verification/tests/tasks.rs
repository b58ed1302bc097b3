use clawchat::store::Store;
use clawchat::tasks::TaskManager;
use clawchat::time::Timestamp;

#[test]
fn tasks_survive_manager_restart() {
    let mut store = Store::open_in_memory().unwrap();
    let mut manager = TaskManager::new(&store);
    manager.create_task(
        &mut store,
        "task-1".into(),
        "lobby".into(),
        "Persist me".into(),
        None,
        Some("agent".into()),
        "creator".into(),
    );
    manager.update_task(&mut store, "task-1", Some("in_progress".into()), None, None);
    drop(manager);

    let restored = TaskManager::new(&store);
    let task = restored.get_task("task-1").expect("task must reload");
    assert_eq!(task.status, "in_progress");
    assert_eq!(task.assignee.as_deref(), Some("agent"));
}

#[test]
fn tasks_are_created_updated_and_listed() {
    let mut store = Store::open_in_memory().unwrap();
    let mut manager = TaskManager::new(&store);
    let t0 = Timestamp { secs: 10, nanos: 0 };
    let t1 = Timestamp { secs: 20, nanos: 0 };
    for (id, room) in [("a", "r"), ("b", "r"), ("c", "q")] {
        let task = manager.create_task_at(
            &mut store,
            id.to_string(),
            room.to_string(),
            "T".to_string(),
            Some("D".to_string()),
            None,
            "me".to_string(),
            t0,
        );
        assert_eq!(task.status, "pending");
        assert_eq!(task.created_at, t0);
        assert_eq!(task.updated_at, None);
    }
    let done = manager
        .update_task_at(
            &mut store,
            "b",
            Some("done".to_string()),
            Some("x".to_string()),
            Some("note".to_string()),
            t1,
        )
        .unwrap();
    assert_eq!(done.updated_at, Some(t1));
    assert_eq!(done.note.as_deref(), Some("note"));
    assert!(manager.update_task_at(&mut store, "z", None, None, None, t1).is_none());
    let mut ids: Vec<String> =
        manager.list_tasks("r", None).into_iter().map(|t| t.task_id).collect();
    ids.sort();
    assert_eq!(ids, vec!["a".to_string(), "b".to_string()]);
    let open = manager.list_tasks("r", Some("pending"));
    assert_eq!(open.len(), 1);
    assert_eq!(open[0].task_id, "a");
    assert!(manager.list_tasks("nowhere", None).is_empty());
    assert!(manager.get_task("z").is_none());
    assert_eq!(store.load_tasks().unwrap().len(), 3);
    let restored = TaskManager::new(&store);
    assert_eq!(restored.get_task("b").unwrap().assignee.as_deref(), Some("x"));
}
