//! The task domain model: typed tasks, the `TodoList` aggregate, and the
//! lifecycle operations, all mediated through the storage adapter.
//!
//! Contracts are stated over `tasks_of`, the decoded view of the store: the
//! sequence of task views one listing call materialises.

use vstd::prelude::*;
use crate::adapter;
use crate::codec::valid_record_id;
use crate::error::DomainError;
use crate::error::StoreError;
use crate::status::Status;
use crate::status::lemma_status_round_trip;
use crate::status::status_label;
use crate::status::status_of_label;
use crate::store::Store;
use crate::store::StoredRow;

verus! {

/// A typed task as reconstructed from the store.
#[derive(Debug, Clone)]
pub struct Task {
    pub id: String,
    pub title: String,
    pub status: Status,
    pub priority: u8,
}

/// The mathematical content of a task.
pub struct TaskView {
    pub id: Seq<char>,
    pub title: Seq<char>,
    pub status: Status,
    pub priority: u8,
}

impl View for Task {
    type V = TaskView;

    open spec fn view(&self) -> TaskView {
        TaskView { id: self.id@, title: self.title@, status: self.status, priority: self.priority }
    }
}

/// The in-memory aggregate: an ordered collection of tasks materialised
/// from one listing call, with no identity of its own.
#[derive(Debug)]
pub struct TodoList {
    pub tasks: Vec<Task>,
}

impl View for TodoList {
    type V = Seq<TaskView>;

    open spec fn view(&self) -> Seq<TaskView> {
        self.tasks@.map(|i: int, t: Task| t@)
    }
}

/// The decoded view of the store: identifier and title as read back, the
/// status string decoded leniently, in store order.
pub open spec fn tasks_of(s: Store) -> Seq<TaskView> {
    s.rows@.map(
        |i: int, r: StoredRow|
            TaskView {
                id: r.id@,
                title: r.title@,
                status: status_of_label(r.status@),
                priority: r.priority,
            },
    )
}

/// Whether some task in the sequence carries the identifier `id`.
pub open spec fn contains_id(s: Seq<TaskView>, id: Seq<char>) -> bool {
    exists|i: int| 0 <= i < s.len() && (#[trigger] s[i]).id == id
}

/// The index of the task carrying `id`.
pub open spec fn id_index(s: Seq<TaskView>, id: Seq<char>) -> int {
    choose|i: int| 0 <= i < s.len() && (#[trigger] s[i]).id == id
}

/// Identifiers are pairwise distinct.
pub open spec fn unique_ids(s: Seq<TaskView>) -> bool {
    forall|i: int, j: int| 0 <= i < j < s.len() ==> s[i].id != s[j].id
}

/// A store and its decoded view agree on which identifiers exist.
pub proof fn lemma_has_id_agrees(s: Store, id: Seq<char>)
    ensures
        s.has_id(id) == contains_id(tasks_of(s), id),
{
    if s.has_id(id) {
        let i = choose|i: int| 0 <= i < s.rows@.len() && (#[trigger] s.rows@[i]).id@ == id;
        assert(tasks_of(s)[i].id == id);
    }
    if contains_id(tasks_of(s), id) {
        let i = id_index(tasks_of(s), id);
        assert(s.rows@[i].id@ == id);
    }
}

/// The decoded view of a well-formed store has pairwise distinct
/// identifiers.
pub proof fn lemma_store_unique_ids(s: Store)
    requires
        s.wf(),
    ensures
        unique_ids(tasks_of(s)),
{
    assert forall|i: int, j: int|
        0 <= i < j < tasks_of(s).len() implies tasks_of(s)[i].id != tasks_of(s)[j].id by {
        s.lemma_ids_distinct(i, j);
    }
}

/// Under store well-formedness, the view and the store agree on the index
/// of an existing identifier.
pub proof fn lemma_view_index_agrees(s: Store, id: Seq<char>)
    requires
        s.wf(),
        s.has_id(id),
    ensures
        contains_id(tasks_of(s), id),
        id_index(tasks_of(s), id) == s.index_of_id(id),
        0 <= id_index(tasks_of(s), id) < tasks_of(s).len(),
        tasks_of(s)[id_index(tasks_of(s), id)].id == id,
{
    lemma_has_id_agrees(s, id);
    s.lemma_index_of_id(id);
    let a = s.index_of_id(id);
    let b = id_index(tasks_of(s), id);
    assert(tasks_of(s)[b].id == s.rows@[b].id@);
    if a != b {
        s.lemma_ids_distinct(a, b);
    }
}

impl TodoList {
    /// A fresh, empty list.
    pub fn new() -> (t: TodoList)
        ensures
            t@.len() == 0,
    {
        TodoList { tasks: Vec::new() }
    }

    /// Creates a task with the given title and priority. The status starts
    /// at `NotStarted` and the store issues a fresh, non-empty identifier.
    /// An empty title is rejected before any store call is made.
    pub fn add_task(&mut self, store: &mut Store, title: &str, priority: u8) -> (r: Result<
        String,
        DomainError,
    >)
        requires
            old(store).wf(),
            old(store).next_key < u64::MAX,
        ensures
            final(store).wf(),
            *final(self) == *old(self),
            title@.len() == 0 ==> (r matches Err(e) && e == DomainError::InvalidInput
                && *final(store) == *old(store)),
            title@.len() > 0 ==> (r matches Ok(id) && id@.len() > 0 && valid_record_id(id@)
                && !contains_id(tasks_of(*old(store)), id@) && tasks_of(*final(store)) == tasks_of(
                *old(store),
            ).push(TaskView { id: id@, title: title@, status: Status::NotStarted, priority })
                && final(store).next_key == old(store).next_key + 1),
    {
        if title.unicode_len() == 0 {
            return Err(DomainError::InvalidInput);
        }
        let label = Status::NotStarted.label();
        match adapter::create_task(store, title, priority, label) {
            Ok(id) => {
                proof {
                    lemma_has_id_agrees(*old(store), id@);
                    lemma_status_round_trip(Status::NotStarted);
                    let v = TaskView {
                        id: id@,
                        title: title@,
                        status: Status::NotStarted,
                        priority,
                    };
                    assert(tasks_of(*store) =~~= tasks_of(*old(store)).push(v)) by {
                        assert forall|i: int|
                            0 <= i < tasks_of(*old(store)).len() implies tasks_of(*store)[i]
                            == tasks_of(*old(store))[i] by {
                            assert(store.rows@[i] == old(store).rows@[i]);
                        }
                        assert(tasks_of(*store).last() == v);
                    }
                }
                Ok(id)
            },
            Err(e) => Err(DomainError::Store(e)),
        }
    }

    /// Full-field merge update: title, status and priority of the task with
    /// identifier `task_id` are rewritten together. Storage failures
    /// propagate unchanged, wrapped as `DomainError::Store`.
    pub fn update_task<'a>(
        &mut self,
        store: &mut Store,
        task_id: &'a str,
        title: &'a str,
        status: Status,
        priority: u8,
    ) -> (r: Result<&'a str, DomainError>)
        requires
            old(store).wf(),
        ensures
            final(store).wf(),
            *final(self) == *old(self),
            final(store).next_key == old(store).next_key,
            !valid_record_id(task_id@) ==> (r matches Err(e) && e == DomainError::Store(
                StoreError::InvalidId,
            ) && *final(store) == *old(store)),
            valid_record_id(task_id@) && !contains_id(tasks_of(*old(store)), task_id@) ==> (
            r matches Err(e) && e == DomainError::Store(StoreError::RecordNotFound) && *final(store)
                == *old(store)),
            valid_record_id(task_id@) && contains_id(tasks_of(*old(store)), task_id@) ==> (
            r matches Ok(s) && s@ == task_id@ && tasks_of(*final(store)) == tasks_of(
                *old(store),
            ).update(
                id_index(tasks_of(*old(store)), task_id@),
                TaskView { id: task_id@, title: title@, status, priority },
            )),
    {
        proof {
            lemma_has_id_agrees(*old(store), task_id@);
        }
        let label = status.label();
        match adapter::update_task(store, task_id, title, label, priority) {
            Ok(echoed) => {
                proof {
                    lemma_view_index_agrees(*old(store), task_id@);
                    lemma_status_round_trip(status);
                    let i = id_index(tasks_of(*old(store)), task_id@);
                    let v = TaskView { id: task_id@, title: title@, status, priority };
                    assert(tasks_of(*store) =~~= tasks_of(*old(store)).update(i, v)) by {
                        assert forall|j: int|
                            0 <= j < tasks_of(*old(store)).len() && j != i implies tasks_of(
                            *store,
                        )[j] == tasks_of(*old(store))[j] by {
                            assert(store.rows@[j] == old(store).rows@[j]);
                        }
                        assert(old(store).rows@[i].id@ == task_id@);
                        assert(tasks_of(*store)[i] == v);
                    }
                }
                Ok(echoed)
            },
            Err(e) => Err(DomainError::Store(e)),
        }
    }

    /// Convenience transition that force-sets the task's status to
    /// `Archived`, whatever its current state; title and priority are
    /// untouched.
    pub fn archive_task<'a>(&mut self, store: &mut Store, task_id: &'a str) -> (r: Result<
        &'a str,
        DomainError,
    >)
        requires
            old(store).wf(),
        ensures
            final(store).wf(),
            *final(self) == *old(self),
            final(store).next_key == old(store).next_key,
            !valid_record_id(task_id@) ==> (r matches Err(e) && e == DomainError::Store(
                StoreError::InvalidId,
            ) && *final(store) == *old(store)),
            valid_record_id(task_id@) && !contains_id(tasks_of(*old(store)), task_id@) ==> (
            r matches Err(e) && e == DomainError::Store(StoreError::RecordNotFound) && *final(store)
                == *old(store)),
            valid_record_id(task_id@) && contains_id(tasks_of(*old(store)), task_id@) ==> (
            r matches Ok(s) && s@ == task_id@ && tasks_of(*final(store)) == tasks_of(
                *old(store),
            ).update(
                id_index(tasks_of(*old(store)), task_id@),
                TaskView {
                    id: tasks_of(*old(store))[id_index(tasks_of(*old(store)), task_id@)].id,
                    title: tasks_of(*old(store))[id_index(tasks_of(*old(store)), task_id@)].title,
                    status: Status::Archived,
                    priority: tasks_of(*old(store))[id_index(
                        tasks_of(*old(store)),
                        task_id@,
                    )].priority,
                },
            )),
    {
        proof {
            lemma_has_id_agrees(*old(store), task_id@);
        }
        match adapter::archive_task(store, task_id) {
            Ok(echoed) => {
                proof {
                    lemma_view_index_agrees(*old(store), task_id@);
                    lemma_status_round_trip(Status::Archived);
                    let i = id_index(tasks_of(*old(store)), task_id@);
                    let v = TaskView {
                        id: tasks_of(*old(store))[i].id,
                        title: tasks_of(*old(store))[i].title,
                        status: Status::Archived,
                        priority: tasks_of(*old(store))[i].priority,
                    };
                    assert(tasks_of(*store) =~~= tasks_of(*old(store)).update(i, v)) by {
                        assert forall|j: int|
                            0 <= j < tasks_of(*old(store)).len() && j != i implies tasks_of(
                            *store,
                        )[j] == tasks_of(*old(store))[j] by {
                            assert(store.rows@[j] == old(store).rows@[j]);
                        }
                        assert(store.rows@[i].status@ == status_label(Status::Archived));
                        assert(tasks_of(*store)[i] == v);
                    }
                }
                Ok(echoed)
            },
            Err(e) => Err(DomainError::Store(e)),
        }
    }

    /// Hard delete: removes the record permanently. Deleting an identifier
    /// that no record carries is success, not an error.
    pub fn delete_task<'a>(&mut self, store: &mut Store, task_id: &'a str) -> (r: Result<
        &'a str,
        DomainError,
    >)
        requires
            old(store).wf(),
        ensures
            final(store).wf(),
            *final(self) == *old(self),
            final(store).next_key == old(store).next_key,
            !valid_record_id(task_id@) ==> (r matches Err(e) && e == DomainError::Store(
                StoreError::InvalidId,
            ) && *final(store) == *old(store)),
            valid_record_id(task_id@) && !contains_id(tasks_of(*old(store)), task_id@) ==> (
            r matches Ok(s) && s@ == task_id@ && *final(store) == *old(store)),
            valid_record_id(task_id@) && contains_id(tasks_of(*old(store)), task_id@) ==> (
            r matches Ok(s) && s@ == task_id@ && tasks_of(*final(store)) == tasks_of(
                *old(store),
            ).remove(id_index(tasks_of(*old(store)), task_id@))),
    {
        proof {
            lemma_has_id_agrees(*old(store), task_id@);
        }
        match adapter::hard_delete_task(store, task_id) {
            Ok(echoed) => {
                proof {
                    if old(store).has_id(task_id@) {
                        lemma_view_index_agrees(*old(store), task_id@);
                        let i = id_index(tasks_of(*old(store)), task_id@);
                        assert(tasks_of(*store) =~~= tasks_of(*old(store)).remove(i)) by {
                            assert forall|j: int|
                                0 <= j < tasks_of(*store).len() implies tasks_of(*store)[j]
                                == tasks_of(*old(store)).remove(i)[j] by {
                                if j < i {
                                    assert(store.rows@[j] == old(store).rows@[j]);
                                } else {
                                    assert(store.rows@[j] == old(store).rows@[j + 1]);
                                }
                            }
                        }
                    }
                }
                Ok(echoed)
            },
            Err(e) => Err(DomainError::Store(e)),
        }
    }

    /// Lists all task records and reconstructs a fresh `TodoList` from
    /// them, in the order the store returns: exactly the decoded view of
    /// the store.
    pub fn get_all_tasks(&self, store: &Store) -> (r: Result<TodoList, DomainError>)
        ensures
            r matches Ok(list) && list@ == tasks_of(*store),
    {
        let tuples = match adapter::get_all_tasks(store) {
            Ok(t) => t,
            Err(e) => {
                return Err(DomainError::Store(e));
            },
        };
        let n = tuples.len();
        let mut todo_list = TodoList::new();
        let mut i: usize = 0;
        while i < n
            invariant
                n == tuples@.len(),
                n == store.rows@.len(),
                i <= n,
                todo_list@.len() == i,
                forall|j: int|
                    0 <= j < tuples@.len() ==> (#[trigger] tuples@[j]).0@ == store.rows@[j].id@
                        && tuples@[j].1@ == store.rows@[j].title@ && tuples@[j].2@
                        == store.rows@[j].status@ && tuples@[j].3 == store.rows@[j].priority,
                forall|j: int| 0 <= j < i ==> #[trigger] todo_list@[j] == tasks_of(*store)[j],
            decreases n - i,
        {
            let status = Status::decode(tuples[i].2.as_str());
            let task = Task {
                id: tuples[i].0.clone(),
                title: tuples[i].1.clone(),
                status,
                priority: tuples[i].3,
            };
            let ghost pre_tasks = todo_list.tasks@;
            let ghost pre_view = todo_list@;
            todo_list.tasks.push(task);
            proof {
                assert(todo_list@[i as int] == task@);
                assert(task@ == tasks_of(*store)[i as int]);
                assert forall|j: int|
                    0 <= j < i implies #[trigger] todo_list@[j] == tasks_of(*store)[j] by {
                    assert(todo_list.tasks@[j] == pre_tasks[j]);
                    assert(pre_view[j] == tasks_of(*store)[j]);
                }
            }
            i += 1;
        }
        proof {
            assert(todo_list@ =~~= tasks_of(*store));
        }
        Ok(todo_list)
    }
}

/// A newly created task is visible in a subsequent listing: the new view
/// contains a task with the issued identifier, the given title and
/// priority, and status `NotStarted`.
pub proof fn lemma_added_task_listed(
    pre: Seq<TaskView>,
    post: Seq<TaskView>,
    id: Seq<char>,
    title: Seq<char>,
    priority: u8,
)
    requires
        post == pre.push((TaskView { id, title, status: Status::NotStarted, priority })),
    ensures
        contains_id(post, id),
        post.contains((TaskView { id, title, status: Status::NotStarted, priority })),
{
    let v = TaskView { id, title, status: Status::NotStarted, priority };
    assert(post[post.len() - 1] == v);
    assert(contains_id(post, id));
}

/// After an update, the task with the updated identifier carries exactly
/// the new title, status and priority; no other task changed, and
/// identifiers stay unique.
pub proof fn lemma_update_exact(
    pre: Seq<TaskView>,
    post: Seq<TaskView>,
    id: Seq<char>,
    title: Seq<char>,
    status: Status,
    priority: u8,
)
    requires
        unique_ids(pre),
        contains_id(pre, id),
        post == pre.update(id_index(pre, id), (TaskView { id, title, status, priority })),
    ensures
        contains_id(post, id),
        id_index(post, id) == id_index(pre, id),
        post[id_index(post, id)] == (TaskView { id, title, status, priority }),
        forall|j: int| 0 <= j < post.len() && j != id_index(pre, id) ==> post[j] == pre[j],
        unique_ids(post),
{
    let i = id_index(pre, id);
    assert(0 <= i < pre.len() && pre[i].id == id);
    assert(post[i].id == id);
    assert(contains_id(post, id));
    assert forall|a: int, b: int| 0 <= a < b < post.len() implies post[a].id != post[b].id by {
        if a != i && b != i {
            assert(post[a] == pre[a] && post[b] == pre[b]);
        } else if a == i {
            assert(post[b] == pre[b] && pre[b].id != pre[i].id);
        } else {
            assert(post[a] == pre[a] && pre[a].id != pre[i].id);
        }
    }
    let k = id_index(post, id);
    assert(0 <= k < post.len() && post[k].id == id);
    if k != i {
        assert(pre[k].id == id && pre[i].id == id);
    }
}

/// Archiving changes only the status of the targeted task, to `Archived`;
/// its title and priority, and every other task, are unchanged.
pub proof fn lemma_archive_preserves_fields(pre: Seq<TaskView>, post: Seq<TaskView>, id: Seq<char>)
    requires
        unique_ids(pre),
        contains_id(pre, id),
        post == pre.update(
            id_index(pre, id),
            TaskView {
                id: pre[id_index(pre, id)].id,
                title: pre[id_index(pre, id)].title,
                status: Status::Archived,
                priority: pre[id_index(pre, id)].priority,
            },
        ),
    ensures
        post.len() == pre.len(),
        post[id_index(pre, id)].id == id,
        post[id_index(pre, id)].title == pre[id_index(pre, id)].title,
        post[id_index(pre, id)].priority == pre[id_index(pre, id)].priority,
        post[id_index(pre, id)].status == Status::Archived,
        forall|j: int| 0 <= j < post.len() && j != id_index(pre, id) ==> post[j] == pre[j],
{
    let i = id_index(pre, id);
    assert(0 <= i < pre.len() && pre[i].id == id);
}

/// A deleted task is gone: no task in the new view carries its identifier,
/// and identifiers stay unique.
pub proof fn lemma_deleted_task_gone(pre: Seq<TaskView>, post: Seq<TaskView>, id: Seq<char>)
    requires
        unique_ids(pre),
        contains_id(pre, id),
        post == pre.remove(id_index(pre, id)),
    ensures
        post.len() == pre.len() - 1,
        !contains_id(post, id),
        unique_ids(post),
{
    let i = id_index(pre, id);
    assert(0 <= i < pre.len() && pre[i].id == id);
    assert forall|j: int| 0 <= j < post.len() implies (#[trigger] post[j]).id != id by {
        if j < i {
            assert(post[j] == pre[j]);
        } else {
            assert(post[j] == pre[j + 1]);
        }
    }
    assert forall|a: int, b: int| 0 <= a < b < post.len() implies post[a].id != post[b].id by {
        assert(post[a] == pre[if a < i { a } else { a + 1 }]);
        assert(post[b] == pre[if b < i { b } else { b + 1 }]);
    }
}

} // verus!
