use todo_store::error::{DomainError, StoreError};
use todo_store::status::Status;
use todo_store::store::Store;
use todo_store::todo::TodoList;

#[test]
fn test_add_tasks_to_database() {
    let store = &mut Store::new();

    let mut todo = TodoList::new();

    // -- create tasks
    let task_id = todo.add_task(store, "Buy Milk", 5).unwrap();
    let task_id_2 = todo.add_task(store, "Finish project", 1).unwrap();

    // --get all tasks
    let all_tasks = todo.get_all_tasks(store).unwrap();

    // Assert
    assert!(task_id.is_empty() != true);
    assert!(task_id_2.is_empty() != true);
    assert!(all_tasks.tasks.is_empty() != true);

    for task in all_tasks.tasks.iter() {
        match task.title.as_str() {
            "Buy Milk" => assert_eq!(task.priority, 5),
            "Finish project" => assert_eq!(task.priority, 1),
            _ => assert!(task.title.is_empty() != true),
        }
    }
}

#[test]
fn test_update_tasks() {
    let store = &mut Store::new();

    let mut todo = TodoList::new();

    // -- create tasks
    let task_id = todo.add_task(store, "Buy Milk", 5).unwrap();
    let task_id_2 = todo.add_task(store, "Finish project", 1).unwrap();

    // --- Merge/Update
    let task_id = todo
        .update_task(store, &task_id, "Get milk from store", Status::Completed, 06)
        .unwrap();

    // --get all tasks
    let all_tasks = todo.get_all_tasks(store).unwrap();

    // Assert
    assert!(task_id.is_empty() != true);
    assert!(task_id_2.is_empty() != true);
    assert!(all_tasks.tasks.is_empty() != true);

    for task in all_tasks.tasks.iter() {
        match task.title.as_str() {
            "Get milk from store" => assert_eq!(task.status, Status::Completed),
            _ => assert!(task.title.is_empty() != true),
        }
    }
}

#[test]
fn test_archive_task() {
    let store = &mut Store::new();

    let mut todo = TodoList::new();

    // -- create tasks
    let task_id = todo.add_task(store, "Buy Milk", 5).unwrap();
    let task_id_2 = todo.add_task(store, "Finish project", 1).unwrap();

    // -- archive task id 1
    let task_id = todo.archive_task(store, task_id.as_str()).unwrap();
    println!("Archived task id 1 {task_id}");

    // --get all tasks
    let all_tasks = todo.get_all_tasks(store).unwrap();

    // Assert
    assert!(task_id.is_empty() != true);
    assert!(task_id_2.is_empty() != true);
    assert!(all_tasks.tasks.is_empty() != true);

    for task in all_tasks.tasks.iter() {
        match task.title.as_str() {
            "Buy Milk" => assert_eq!(task.status, Status::Archived),
            _ => assert!(task.title.is_empty() != true),
        }
    }
}

#[test]
fn test_delete_task() {
    let store = &mut Store::new();

    let mut todo = TodoList::new();

    // -- create tasks
    let task_id = todo.add_task(store, "Buy Milk", 5).unwrap();
    let task_id_2 = todo.add_task(store, "Finish project", 1).unwrap();

    // -- delete task id 1
    let task_id = todo.delete_task(store, task_id.as_str()).unwrap();
    let task_id_2 = todo.delete_task(store, task_id_2.as_str()).unwrap();

    // --get all tasks
    let all_tasks = todo.get_all_tasks(store).unwrap();

    // Assert
    assert!(task_id.is_empty() != true);
    assert!(task_id_2.is_empty() != true);

    // there should be no tasks in the db table
    assert!(all_tasks.tasks.is_empty() == true);
}

#[test]
fn test_full_lifecycle_scenario() {
    let store = &mut Store::new();
    let mut todo = TodoList::new();

    let id1 = todo.add_task(store, "Buy Milk", 5).unwrap();
    assert!(!id1.is_empty());
    let all = todo.get_all_tasks(store).unwrap();
    let t1 = all.tasks.iter().find(|t| t.id == id1).unwrap();
    assert_eq!(t1.status, Status::NotStarted);

    let id2 = todo.add_task(store, "Finish project", 1).unwrap();
    assert!(!id2.is_empty());
    assert_ne!(id1, id2);

    let all = todo.get_all_tasks(store).unwrap();
    assert_eq!(all.tasks.len(), 2);
    let t1 = all.tasks.iter().find(|t| t.id == id1).unwrap();
    assert_eq!(t1.title, "Buy Milk");
    assert_eq!(t1.priority, 5);
    let t2 = all.tasks.iter().find(|t| t.id == id2).unwrap();
    assert_eq!(t2.title, "Finish project");
    assert_eq!(t2.priority, 1);

    todo.archive_task(store, id1.as_str()).unwrap();
    let all = todo.get_all_tasks(store).unwrap();
    let t1 = all.tasks.iter().find(|t| t.id == id1).unwrap();
    assert_eq!(t1.status, Status::Archived);
    assert_eq!(t1.title, "Buy Milk");
    assert_eq!(t1.priority, 5);
    let t2 = all.tasks.iter().find(|t| t.id == id2).unwrap();
    assert_eq!(t2.status, Status::NotStarted);
    assert_eq!(t2.title, "Finish project");
    assert_eq!(t2.priority, 1);

    todo.delete_task(store, id1.as_str()).unwrap();
    todo.delete_task(store, id2.as_str()).unwrap();
    let all = todo.get_all_tasks(store).unwrap();
    assert!(all.tasks.is_empty());
}

#[test]
fn test_update_rewrites_all_fields() {
    let store = &mut Store::new();
    let mut todo = TodoList::new();

    let id1 = todo.add_task(store, "Buy Milk", 5).unwrap();
    let id2 = todo.add_task(store, "Finish project", 1).unwrap();

    let echoed = todo
        .update_task(store, id1.as_str(), "Get milk from store", Status::Completed, 6)
        .unwrap();
    assert_eq!(echoed, id1.as_str());

    let all = todo.get_all_tasks(store).unwrap();
    let t1 = all.tasks.iter().find(|t| t.id == id1).unwrap();
    assert_eq!(t1.title, "Get milk from store");
    assert_eq!(t1.status, Status::Completed);
    assert_eq!(t1.priority, 6);
    let t2 = all.tasks.iter().find(|t| t.id == id2).unwrap();
    assert_eq!(t2.title, "Finish project");
    assert_eq!(t2.status, Status::NotStarted);
    assert_eq!(t2.priority, 1);
}

#[test]
fn test_delete_is_idempotent() {
    let store = &mut Store::new();
    let mut todo = TodoList::new();

    let id = todo.add_task(store, "Buy Milk", 5).unwrap();
    let first = todo.delete_task(store, id.as_str());
    assert!(first.is_ok());
    let second = todo.delete_task(store, id.as_str());
    assert!(second.is_ok());
    assert_eq!(second.unwrap(), id.as_str());
}

#[test]
fn test_add_task_rejects_empty_title() {
    let store = &mut Store::new();
    let mut todo = TodoList::new();

    let r = todo.add_task(store, "", 3);
    assert_eq!(r, Err(DomainError::InvalidInput));
    let all = todo.get_all_tasks(store).unwrap();
    assert!(all.tasks.is_empty());
}

#[test]
fn test_update_rejects_malformed_id() {
    let store = &mut Store::new();
    let mut todo = TodoList::new();
    todo.add_task(store, "Buy Milk", 5).unwrap();

    let r = todo.update_task(store, "garbage", "x", Status::Completed, 1);
    assert_eq!(r, Err(DomainError::Store(StoreError::InvalidId)));
    let r = todo.archive_task(store, "no-colon-here");
    assert_eq!(r, Err(DomainError::Store(StoreError::InvalidId)));
    let r = todo.delete_task(store, ":x");
    assert_eq!(r, Err(DomainError::Store(StoreError::InvalidId)));
}

#[test]
fn test_update_missing_record() {
    let store = &mut Store::new();
    let mut todo = TodoList::new();
    todo.add_task(store, "Buy Milk", 5).unwrap();

    let r = todo.update_task(store, "task:999", "x", Status::Completed, 1);
    assert_eq!(r, Err(DomainError::Store(StoreError::RecordNotFound)));
    let r = todo.archive_task(store, "task:999");
    assert_eq!(r, Err(DomainError::Store(StoreError::RecordNotFound)));
}

#[test]
fn test_archive_from_any_state() {
    let store = &mut Store::new();
    let mut todo = TodoList::new();

    let id = todo.add_task(store, "Buy Milk", 5).unwrap();
    todo.update_task(store, id.as_str(), "Buy Milk", Status::Completed, 5)
        .unwrap();
    todo.archive_task(store, id.as_str()).unwrap();
    let all = todo.get_all_tasks(store).unwrap();
    assert_eq!(all.tasks[0].status, Status::Archived);

    // archiving an already archived task keeps it archived
    todo.archive_task(store, id.as_str()).unwrap();
    let all = todo.get_all_tasks(store).unwrap();
    assert_eq!(all.tasks[0].status, Status::Archived);
}

#[test]
fn test_listing_keeps_store_order() {
    let store = &mut Store::new();
    let mut todo = TodoList::new();

    let id1 = todo.add_task(store, "first", 1).unwrap();
    let id2 = todo.add_task(store, "second", 2).unwrap();
    let id3 = todo.add_task(store, "third", 3).unwrap();

    let all = todo.get_all_tasks(store).unwrap();
    assert_eq!(all.tasks.len(), 3);
    assert_eq!(all.tasks[0].id, id1);
    assert_eq!(all.tasks[1].id, id2);
    assert_eq!(all.tasks[2].id, id3);
}
