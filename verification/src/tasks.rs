//! Tasks of rooms: lightweight work items that agents assign, update and query.

use vstd::prelude::*;
use dashmap::DashMap;
use crate::rows::{any, exists_row, rewrite, views, Row};
use crate::store::{Store, StoreError, StoreView};
use crate::text::copy_text;
use crate::time::{in_calendar, now, Timestamp};

verus! {

/// A work item of a room.
#[derive(Debug)]
pub struct TaskInfo {
    pub task_id: String,
    pub room_id: String,
    pub title: String,
    pub description: Option<String>,
    pub status: String,
    pub assignee: Option<String>,
    pub created_by: String,
    pub created_at: Timestamp,
    pub updated_at: Option<Timestamp>,
    pub note: Option<String>,
}

/// What a work item stands for.
pub struct TaskView {
    pub task_id: Seq<char>,
    pub room_id: Seq<char>,
    pub title: Seq<char>,
    pub description: Option<Seq<char>>,
    pub status: Seq<char>,
    pub assignee: Option<Seq<char>>,
    pub created_by: Seq<char>,
    pub created_at: Timestamp,
    pub updated_at: Option<Timestamp>,
    pub note: Option<Seq<char>>,
}

impl View for TaskInfo {
    type V = TaskView;

    open spec fn view(&self) -> TaskView {
        TaskView {
            task_id: self.task_id@,
            room_id: self.room_id@,
            title: self.title@,
            description: self.description.deep_view(),
            status: self.status@,
            assignee: self.assignee.deep_view(),
            created_by: self.created_by@,
            created_at: self.created_at,
            updated_at: self.updated_at,
            note: self.note.deep_view(),
        }
    }
}

impl Row for TaskInfo {
    fn duplicate(&self) -> (r: TaskInfo) {
        TaskInfo {
            task_id: self.task_id.clone(),
            room_id: self.room_id.clone(),
            title: self.title.clone(),
            description: copy_text(&self.description),
            status: self.status.clone(),
            assignee: copy_text(&self.assignee),
            created_by: self.created_by.clone(),
            created_at: self.created_at,
            updated_at: self.updated_at,
            note: copy_text(&self.note),
        }
    }
}

impl Clone for TaskInfo {
    fn clone(&self) -> (r: TaskInfo)
        ensures
            r@ == self@,
    {
        self.duplicate()
    }
}

/// The concurrent map of the `dashmap` crate.
#[verifier::external_type_specification]
#[verifier::external_body]
#[verifier::reject_recursive_types(K)]
#[verifier::reject_recursive_types(V)]
#[verifier::reject_recursive_types(S)]
pub struct ExDashMap<K, V, S>(DashMap<K, V, S>);

/// The tasks that a map holds, by key.
pub uninterp spec fn tasks_of(m: DashMap<String, TaskInfo>) -> Map<Seq<char>, TaskView>;

/// No tasks at all.
pub open spec fn no_tasks() -> Map<Seq<char>, TaskView> {
    Map::empty()
}

/// Calls `DashMap::new`: the map holds nothing.
#[verifier::external_body]
fn new_map() -> (m: DashMap<String, TaskInfo>)
    ensures
        tasks_of(m) == no_tasks(),
{
    DashMap::new()
}

/// Calls `DashMap::insert`: the key now leads to the value, every other key to
/// what it led to.
#[verifier::external_body]
fn put(m: &mut DashMap<String, TaskInfo>, key: String, value: TaskInfo)
    ensures
        tasks_of(*final(m)) == tasks_of(*old(m)).insert(key@, value@),
{
    m.insert(key, value);
}

/// Calls `DashMap::get` and copies the value found.
#[verifier::external_body]
fn lookup(m: &DashMap<String, TaskInfo>, key: &str) -> (r: Option<TaskInfo>)
    ensures
        r is Some <==> tasks_of(*m).contains_key(key@),
        r matches Some(t) ==> t@ == tasks_of(*m)[key@],
{
    m.get(key).map(|entry| entry.value().duplicate())
}

/// Calls `DashMap::iter` and copies each value. Every key is visited once; the
/// order is open.
#[verifier::external_body]
fn entries(m: &DashMap<String, TaskInfo>) -> (r: Vec<(String, TaskInfo)>)
    ensures
        forall|i: int, j: int|
            0 <= i < j < r.len() ==> (#[trigger] r@[i]).0@ != (#[trigger] r@[j]).0@,
        forall|i: int|
            0 <= i < r.len() ==> tasks_of(*m).contains_key((#[trigger] r@[i]).0@) && r@[i].1@
                == tasks_of(*m)[r@[i].0@],
        forall|k: Seq<char>| #[trigger]
            tasks_of(*m).contains_key(k) ==> exists|i: int|
                0 <= i < r.len() && (#[trigger] r@[i]).0@ == k,
{
    m.iter().map(|entry| (entry.key().clone(), entry.value().duplicate())).collect()
}

/// The tasks with an id.
pub open spec fn with_task_id(task_id: Seq<char>) -> spec_fn(TaskView) -> bool {
    |t: TaskView| t.task_id == task_id
}

/// A row that is the given task, where it has its id.
pub open spec fn replaced_by(task: TaskView) -> spec_fn(TaskView) -> TaskView {
    |t: TaskView|
        if t.task_id == task.task_id {
            task
        } else {
            t
        }
}

/// The task rows with a task saved: in place of the one with its id, or at the
/// end.
pub open spec fn with_task(tasks: Seq<TaskView>, task: TaskView) -> Seq<TaskView> {
    if any(tasks, with_task_id(task.task_id)) {
        tasks.map_values(replaced_by(task))
    } else {
        tasks.push(task)
    }
}

/// The tables with a task saved.
pub open spec fn with_task_saved(s: StoreView, task: TaskView) -> StoreView {
    StoreView { tasks: with_task(s.tasks, task), ..s }
}

/// The task rows by id.
pub open spec fn by_id(tasks: Seq<TaskView>) -> Map<Seq<char>, TaskView>
    decreases tasks.len(),
{
    if tasks.len() == 0 {
        Map::empty()
    } else {
        by_id(tasks.drop_last()).insert(tasks.last().task_id, tasks.last())
    }
}

impl Store {
    /// Saves a task: in place of the one with its id, or as a new row.
    pub fn save_task(&mut self, task: &TaskInfo) -> (r: Result<(), StoreError>)
        ensures
            r is Ok,
            final(self)@ == with_task_saved(old(self)@, task@),
    {
        let known = exists_row(
            &self.tasks,
            |t: &TaskInfo| -> (b: bool)
                ensures
                    b == (t@.task_id == task@.task_id)
                { *t.task_id.as_str() == *task.task_id.as_str() },
            Ghost(with_task_id(task@.task_id)),
        );
        if known {
            let tasks = rewrite(
                &self.tasks,
                |t: &TaskInfo| -> (u: TaskInfo)
                    ensures
                        u@ == replaced_by(task@)(t@)
                    {
                        if *t.task_id.as_str() == *task.task_id.as_str() {
                            task.duplicate()
                        } else {
                            t.duplicate()
                        }
                    },
                Ghost(replaced_by(task@)),
            );
            self.tasks = tasks;
        } else {
            self.tasks.push(task.duplicate());
        }
        assert(self@ =~= with_task_saved(old(self)@, task@));
        Ok(())
    }

    /// All saved tasks.
    pub fn load_tasks(&self) -> (r: Result<Vec<TaskInfo>, StoreError>)
        ensures
            r matches Ok(list) && views(list@) == self@.tasks,
    {
        let list = rewrite(
            &self.tasks,
            |t: &TaskInfo| -> (u: TaskInfo)
                ensures
                    u@ == t@
                { t.duplicate() },
            Ghost(|t: TaskView| t),
        );
        assert(views(list@) =~= self@.tasks);
        Ok(list)
    }
}

/// Tracks the tasks of all rooms, and saves every change.
pub struct TaskManager {
    /// The tasks by id.
    pub tasks: DashMap<String, TaskInfo>,
}

/// A task as it is created.
pub open spec fn fresh_task(
    task_id: Seq<char>,
    room_id: Seq<char>,
    title: Seq<char>,
    description: Option<Seq<char>>,
    assignee: Option<Seq<char>>,
    created_by: Seq<char>,
    at: Timestamp,
) -> TaskView {
    TaskView {
        task_id,
        room_id,
        title,
        description,
        status: "pending"@,
        assignee,
        created_by,
        created_at: at,
        updated_at: None,
        note: None,
    }
}

/// A task after an update: what is given replaces what was there.
pub open spec fn updated_task(
    task: TaskView,
    status: Option<Seq<char>>,
    assignee: Option<Seq<char>>,
    note: Option<Seq<char>>,
    at: Timestamp,
) -> TaskView {
    TaskView {
        status: match status {
            Some(s) => s,
            None => task.status,
        },
        assignee: if assignee is Some {
            assignee
        } else {
            task.assignee
        },
        note: if note is Some {
            note
        } else {
            task.note
        },
        updated_at: Some(at),
        ..task
    }
}

/// Whether a task is in a room, and in a state where one is given.
pub open spec fn listed(task: TaskView, room_id: Seq<char>, status: Option<Seq<char>>) -> bool {
    task.room_id == room_id && (status is None || status == Some(task.status))
}

/// Whether a list holds exactly the listed tasks of a map, each once.
pub open spec fn lists_tasks(
    list: Seq<TaskView>,
    tasks: Map<Seq<char>, TaskView>,
    room_id: Seq<char>,
    status: Option<Seq<char>>,
) -> bool {
    exists|keys: Seq<Seq<char>>| #[trigger]
        lists_tasks_by(keys, list, tasks, room_id, status)
}

/// Whether a list holds exactly the listed tasks of a map, in the order of some
/// different keys.
pub open spec fn lists_tasks_by(
    keys: Seq<Seq<char>>,
    list: Seq<TaskView>,
    tasks: Map<Seq<char>, TaskView>,
    room_id: Seq<char>,
    status: Option<Seq<char>>,
) -> bool {
    &&& keys.no_duplicates()
    &&& keys.len() == list.len()
    &&& forall|i: int|
        0 <= i < keys.len() ==> tasks.contains_key(#[trigger] keys[i]) && tasks[keys[i]] == list[i]
            && listed(list[i], room_id, status)
    &&& forall|k: Seq<char>|
        tasks.contains_key(k) && listed(#[trigger] tasks[k], room_id, status) ==> keys.contains(k)
}

impl TaskManager {
    /// A manager of the tasks that the tables hold.
    pub fn new(store: &Store) -> (r: TaskManager)
        ensures
            tasks_of(r.tasks) == by_id(store@.tasks),
    {
        let mut tasks = new_map();
        if let Ok(persisted) = store.load_tasks() {
            let ghost all = views(persisted@);
            let mut i: usize = 0;
            assert(all.take(0) =~= Seq::empty());
            while i < persisted.len()
                invariant
                    i <= persisted.len(),
                    all == views(persisted@),
                    tasks_of(tasks) == by_id(all.take(i as int)),
                decreases persisted.len() - i,
            {
                let task = &persisted[i];
                put(&mut tasks, task.task_id.clone(), task.duplicate());
                proof {
                    assert(all.take(i + 1).drop_last() =~= all.take(i as int));
                    assert(all.take(i + 1).last() == task@);
                }
                i = i + 1;
            }
            assert(all.take(i as int) =~= all);
        }
        TaskManager { tasks }
    }

    /// Creates a pending task at the given time, and saves it.
    pub fn create_task_at(
        &mut self,
        store: &mut Store,
        task_id: String,
        room_id: String,
        title: String,
        description: Option<String>,
        assignee: Option<String>,
        created_by: String,
        at: Timestamp,
    ) -> (r: TaskInfo)
        ensures
            r@ == fresh_task(
                task_id@,
                room_id@,
                title@,
                description.deep_view(),
                assignee.deep_view(),
                created_by@,
                at,
            ),
            tasks_of(final(self).tasks) == tasks_of(old(self).tasks).insert(task_id@, r@),
            final(store)@ == with_task_saved(old(store)@, r@),
    {
        let key = task_id.clone();
        let task = TaskInfo {
            task_id,
            room_id,
            title,
            description,
            status: "pending".to_owned(),
            assignee,
            created_by,
            created_at: at,
            updated_at: None,
            note: None,
        };
        put(&mut self.tasks, key, task.duplicate());
        let _ = store.save_task(&task);
        task
    }

    /// Creates a pending task, and saves it.
    pub fn create_task(
        &mut self,
        store: &mut Store,
        task_id: String,
        room_id: String,
        title: String,
        description: Option<String>,
        assignee: Option<String>,
        created_by: String,
    ) -> (r: TaskInfo)
        ensures
            exists|at: Timestamp|
                in_calendar(at) && r@ == #[trigger] fresh_task(
                    task_id@,
                    room_id@,
                    title@,
                    description.deep_view(),
                    assignee.deep_view(),
                    created_by@,
                    at,
                ),
            tasks_of(final(self).tasks) == tasks_of(old(self).tasks).insert(task_id@, r@),
            final(store)@ == with_task_saved(old(store)@, r@),
    {
        self.create_task_at(
            store,
            task_id,
            room_id,
            title,
            description,
            assignee,
            created_by,
            now(),
        )
    }

    /// Updates a task at the given time, and saves it; none where there is no
    /// task with this id.
    pub fn update_task_at(
        &mut self,
        store: &mut Store,
        task_id: &str,
        status: Option<String>,
        assignee: Option<String>,
        note: Option<String>,
        at: Timestamp,
    ) -> (r: Option<TaskInfo>)
        ensures
            match r {
                Some(task) => tasks_of(old(self).tasks).contains_key(task_id@) && task@
                    == updated_task(
                    tasks_of(old(self).tasks)[task_id@],
                    status.deep_view(),
                    assignee.deep_view(),
                    note.deep_view(),
                    at,
                ) && tasks_of(final(self).tasks) == tasks_of(old(self).tasks).insert(
                    task_id@,
                    task@,
                ) && final(store)@ == with_task_saved(old(store)@, task@),
                None => !tasks_of(old(self).tasks).contains_key(task_id@) && tasks_of(
                    final(self).tasks,
                ) == tasks_of(old(self).tasks) && *final(store) == *old(store),
            },
    {
        let found = lookup(&self.tasks, task_id);
        match found {
            None => None,
            Some(old_task) => {
                let mut task = old_task;
                if let Some(s) = status {
                    task.status = s;
                }
                if let Some(a) = assignee {
                    task.assignee = Some(a);
                }
                if let Some(n) = note {
                    task.note = Some(n);
                }
                task.updated_at = Some(at);
                put(&mut self.tasks, task_id.to_owned(), task.duplicate());
                let _ = store.save_task(&task);
                Some(task)
            },
        }
    }

    /// Updates a task, and saves it; none where there is no task with this id.
    pub fn update_task(
        &mut self,
        store: &mut Store,
        task_id: &str,
        status: Option<String>,
        assignee: Option<String>,
        note: Option<String>,
    ) -> (r: Option<TaskInfo>)
        ensures
            match r {
                Some(task) => tasks_of(old(self).tasks).contains_key(task_id@) && (exists|
                    at: Timestamp,
                |
                    in_calendar(at) && task@ == #[trigger] updated_task(
                        tasks_of(old(self).tasks)[task_id@],
                        status.deep_view(),
                        assignee.deep_view(),
                        note.deep_view(),
                        at,
                    )) && tasks_of(final(self).tasks) == tasks_of(old(self).tasks).insert(
                    task_id@,
                    task@,
                ) && final(store)@ == with_task_saved(old(store)@, task@),
                None => !tasks_of(old(self).tasks).contains_key(task_id@) && tasks_of(
                    final(self).tasks,
                ) == tasks_of(old(self).tasks) && *final(store) == *old(store),
            },
    {
        self.update_task_at(store, task_id, status, assignee, note, now())
    }

    /// The tasks of a room, in a state where one is given. Their order is open.
    pub fn list_tasks(&self, room_id: &str, status_filter: Option<&str>) -> (r: Vec<TaskInfo>)
        ensures
            lists_tasks(views(r@), tasks_of(self.tasks), room_id@, status_filter.deep_view()),
    {
        let ghost map = tasks_of(self.tasks);
        let ghost status = status_filter.deep_view();
        let all = entries(&self.tasks);
        let ghost mut keys: Seq<Seq<char>> = Seq::empty();
        let mut out: Vec<TaskInfo> = Vec::new();
        let mut i: usize = 0;
        while i < all.len()
            invariant
                i <= all.len(),
                map == tasks_of(self.tasks),
                status == status_filter.deep_view(),
                forall|a: int, b: int|
                    0 <= a < b < all.len() ==> (#[trigger] all@[a]).0@ != (#[trigger] all@[b]).0@,
                forall|a: int|
                    0 <= a < all.len() ==> map.contains_key((#[trigger] all@[a]).0@) && all@[a].1@
                        == map[all@[a].0@],
                keys.no_duplicates(),
                keys.len() == out.len(),
                forall|a: int|
                    0 <= a < keys.len() ==> map.contains_key(#[trigger] keys[a]) && map[keys[a]]
                        == out@[a]@ && listed(out@[a]@, room_id@, status),
                forall|a: int|
                    0 <= a < keys.len() ==> exists|b: int|
                        0 <= b < i && (#[trigger] all@[b]).0@ == #[trigger] keys[a],
                forall|b: int|
                    0 <= b < i && listed((#[trigger] all@[b]).1@, room_id@, status)
                        ==> keys.contains(all@[b].0@),
            decreases all.len() - i,
        {
            let task = &all[i].1;
            let matching = match status_filter {
                Some(s) => *task.status.as_str() == *s,
                None => true,
            };
            let ghost old_keys = keys;
            if *task.room_id.as_str() == *room_id && matching {
                out.push(task.duplicate());
                proof {
                    keys = keys.push(all@[i as int].0@);
                    assert forall|k: Seq<char>| old_keys.contains(k) implies keys.contains(k) by {
                        let a = choose|a: int| 0 <= a < old_keys.len() && old_keys[a] == k;
                        assert(keys[a] == k);
                    }
                    assert(keys[keys.len() - 1] == all@[i as int].0@);
                    assert forall|a: int, b: int|
                        0 <= a < keys.len() && 0 <= b < keys.len() && a != b implies keys[a]
                        != keys[b] by {
                        if a < old_keys.len() {
                            assert(old_keys[a] == keys[a]);
                        }
                        if b < old_keys.len() {
                            assert(old_keys[b] == keys[b]);
                        }
                    }
                    assert forall|a: int| 0 <= a < keys.len() implies exists|b: int|
                        0 <= b < i + 1 && (#[trigger] all@[b]).0@ == #[trigger] keys[a] by {
                        if a < old_keys.len() {
                            assert(old_keys[a] == keys[a]);
                        }
                    }
                    assert forall|a: int| 0 <= a < keys.len() implies map.contains_key(
                        #[trigger] keys[a],
                    ) && map[keys[a]] == out@[a]@ && listed(out@[a]@, room_id@, status) by {
                        if a < old_keys.len() {
                            assert(old_keys[a] == keys[a]);
                        }
                    }
                }
            }
            i = i + 1;
        }
        proof {
            assert forall|k: Seq<char>|
                map.contains_key(k) && listed(#[trigger] map[k], room_id@, status) implies keys.contains(
                k,
            ) by {
                let b = choose|b: int| 0 <= b < all.len() && (#[trigger] all@[b]).0@ == k;
                assert(all@[b].1@ == map[k]);
            }
            assert(lists_tasks_by(keys, views(out@), map, room_id@, status));
        }
        out
    }

    /// The task with this id.
    pub fn get_task(&self, task_id: &str) -> (r: Option<TaskInfo>)
        ensures
            r is Some <==> tasks_of(self.tasks).contains_key(task_id@),
            r matches Some(t) ==> t@ == tasks_of(self.tasks)[task_id@],
    {
        lookup(&self.tasks, task_id)
    }
}

proof fn lemma_by_id_keys(tasks: Seq<TaskView>)
    ensures
        forall|k: Seq<char>| #[trigger]
            by_id(tasks).contains_key(k) ==> by_id(tasks)[k].task_id == k,
    decreases tasks.len(),
{
    if tasks.len() > 0 {
        lemma_by_id_keys(tasks.drop_last());
    }
}

proof fn lemma_replaced_by_id(tasks: Seq<TaskView>, task: TaskView)
    ensures
        by_id(tasks.map_values(replaced_by(task))) == if any(tasks, with_task_id(task.task_id)) {
            by_id(tasks).insert(task.task_id, task)
        } else {
            by_id(tasks)
        },
    decreases tasks.len(),
{
    let changed = tasks.map_values(replaced_by(task));
    let wanted = with_task_id(task.task_id);
    if tasks.len() == 0 {
        assert(changed =~= tasks);
    } else {
        let front = tasks.drop_last();
        lemma_replaced_by_id(front, task);
        assert(changed.drop_last() =~= front.map_values(replaced_by(task)));
        if any(front, wanted) {
            let i = choose|i: int| 0 <= i < front.len() && wanted(#[trigger] front[i]);
            assert(wanted(tasks[i]));
        }
        if wanted(tasks.last()) {
            assert(wanted(tasks[tasks.len() - 1]));
        } else if any(tasks, wanted) {
            let i = choose|i: int| 0 <= i < tasks.len() && wanted(#[trigger] tasks[i]);
            assert(front[i] == tasks[i]);
        }
        assert(by_id(changed) =~= if any(tasks, wanted) {
            by_id(tasks).insert(task.task_id, task)
        } else {
            by_id(tasks)
        });
    }
}

/// Saving a task changes what a new manager finds under its id, and nothing
/// else: whatever a manager created or updated is there after a restart.
pub proof fn tasks_survive_restart(tasks: Seq<TaskView>, task: TaskView)
    ensures
        by_id(with_task(tasks, task)) == by_id(tasks).insert(task.task_id, task),
{
    if any(tasks, with_task_id(task.task_id)) {
        lemma_replaced_by_id(tasks, task);
    } else {
        assert(tasks.push(task).drop_last() =~= tasks);
    }
}

/// A manager that agrees with the tables still agrees after it created a task,
/// and after it updated one: what it holds is what a new manager finds.
pub proof fn manager_agrees_with_tables(
    saved: Seq<TaskView>,
    held: Map<Seq<char>, TaskView>,
    task: TaskView,
    status: Option<Seq<char>>,
    assignee: Option<Seq<char>>,
    note: Option<Seq<char>>,
    at: Timestamp,
)
    requires
        by_id(saved) == held,
    ensures
        by_id(with_task(saved, task)) == held.insert(task.task_id, task),
        forall|k: Seq<char>| #[trigger]
            held.contains_key(k) ==> by_id(
                with_task(saved, updated_task(held[k], status, assignee, note, at)),
            ) == held.insert(k, updated_task(held[k], status, assignee, note, at)),
{
    tasks_survive_restart(saved, task);
    lemma_by_id_keys(saved);
    assert forall|k: Seq<char>| #[trigger] held.contains_key(k) implies by_id(
        with_task(saved, updated_task(held[k], status, assignee, note, at)),
    ) == held.insert(k, updated_task(held[k], status, assignee, note, at)) by {
        tasks_survive_restart(saved, updated_task(held[k], status, assignee, note, at));
    }
}

// --- What the calls do ---

proof fn lemma_last_under_id(tasks: Seq<TaskView>, id: Seq<char>)
    ensures
        by_id(tasks).contains_key(id) <==> exists|i: int|
            0 <= i < tasks.len() && (#[trigger] tasks[i]).task_id == id,
        forall|i: int|
            0 <= i < tasks.len() && (#[trigger] tasks[i]).task_id == id && (forall|j: int|
                i < j < tasks.len() ==> (#[trigger] tasks[j]).task_id != id) ==> by_id(tasks)[id]
                == tasks[i],
    decreases tasks.len(),
{
    if tasks.len() > 0 {
        let front = tasks.drop_last();
        lemma_last_under_id(front, id);
        assert(tasks.last() == tasks[tasks.len() - 1]);
        assert forall|i: int| 0 <= i < front.len() implies #[trigger] tasks[i] == front[i] by {}
        if by_id(front).contains_key(id) {
            let i = choose|i: int| 0 <= i < front.len() && (#[trigger] front[i]).task_id == id;
            assert(tasks[i].task_id == id);
        }
        assert forall|i: int|
            0 <= i < tasks.len() && (#[trigger] tasks[i]).task_id == id && (forall|j: int|
                i < j < tasks.len() ==> (#[trigger] tasks[j]).task_id != id)
                    implies by_id(tasks)[id]
            == tasks[i] by {
            if i < front.len() {
                assert(tasks[tasks.len() - 1].task_id != id);
                assert(front[i].task_id == id);
                assert forall|j: int| i < j < front.len() implies (#[trigger] front[j]).task_id
                    != id by {
                    assert(tasks[j].task_id != id);
                }
            }
        }
    }
}

/// Saving a task puts it in place of the row with its id, or adds it as the last row.
/// Every other row, and every other table, stays as it was.
pub proof fn saving_a_task_touches_no_other(
    store: &mut Store,
    task: &TaskInfo,
    r: Result<(), StoreError>,
)
    requires
        call_ensures(Store::save_task, (store, task), r),
    ensures
        r is Ok,
        forall|i: int|
            0 <= i < old(store)@.tasks.len() ==> #[trigger] final(store)@.tasks[i] == (if old(
                store,
            )@.tasks[i].task_id == task@.task_id {
                task@
            } else {
                old(store)@.tasks[i]
            }),
        final(store)@.tasks.len() == old(store)@.tasks.len() + (if exists|i: int|
            0 <= i < old(store)@.tasks.len() && (#[trigger] old(store)@.tasks[i]).task_id
                == task@.task_id {
            0int
        } else {
            1int
        }),
        final(store)@.tasks.len() > old(store)@.tasks.len() ==> final(store)@.tasks.last() == task@,
        final(store)@.rooms == old(store)@.rooms,
        final(store)@.messages == old(store)@.messages,
        final(store)@.sessions == old(store)@.sessions,
        final(store)@.votes == old(store)@.votes,
        final(store)@.ballots == old(store)@.ballots,
        final(store)@.keys == old(store)@.keys,
        final(store)@.subscriptions == old(store)@.subscriptions,
        final(store)@.deliveries == old(store)@.deliveries,
{
}

/// The tasks that are kept can always be loaded.
pub proof fn loading_tasks_never_fails(store: &Store, r: Result<Vec<TaskInfo>, StoreError>)
    requires
        call_ensures(Store::load_tasks, (store,), r),
    ensures
        r is Ok,
{
}

/// What is loaded are the rows, one by one.
pub proof fn tasks_are_loaded_as_saved(
    store: &Store,
    list: Vec<TaskInfo>,
)
    requires
        call_ensures(Store::load_tasks, (store,), Ok(list)),
    ensures
        list@.len() == store@.tasks.len(),
        forall|i: int| 0 <= i < list@.len() ==> (#[trigger] list@[i])@ == store@.tasks[i],
{
    assert(views(list@).len() == list@.len());
    assert forall|i: int| 0 <= i < list@.len()
        implies (#[trigger] list@[i])@ == store@.tasks[i] by {
        assert(views(list@)[i] == store@.tasks[i]);
    }
}

/// A new manager finds under every id the last row with it, and nothing under an id
/// without a row.
pub proof fn a_manager_finds_what_was_saved(
    store: &Store,
    m: TaskManager,
    id: Seq<char>,
)
    requires
        call_ensures(TaskManager::new, (store,), m),
    ensures
        tasks_of(m.tasks).contains_key(id) <==> exists|i: int|
            0 <= i < store@.tasks.len() && (#[trigger] store@.tasks[i]).task_id == id,
        forall|i: int|
            0 <= i < store@.tasks.len() && (#[trigger] store@.tasks[i]).task_id == id
                && (forall|j: int|
                i < j < store@.tasks.len() ==> (#[trigger] store@.tasks[j]).task_id != id)
                ==> tasks_of(m.tasks)[id] == store@.tasks[i],
{
    lemma_last_under_id(store@.tasks, id);
}

/// A task is created as it was asked for: pending, without a note and never updated.
/// The manager finds it under its id, the table keeps it, and no other task changes.
pub proof fn a_task_is_created_as_asked(
    m: &mut TaskManager,
    store: &mut Store,
    task_id: String,
    room_id: String,
    title: String,
    description: Option<String>,
    assignee: Option<String>,
    created_by: String,
    at: Timestamp,
    r: TaskInfo,
)
    requires
        call_ensures(
            TaskManager::create_task_at,
            (m, store, task_id, room_id, title, description, assignee, created_by, at),
            r,
        ),
    ensures
        r@.task_id == task_id@,
        r@.room_id == room_id@,
        r@.title == title@,
        r@.description == description.deep_view(),
        r@.status == "pending"@,
        r@.assignee == assignee.deep_view(),
        r@.created_by == created_by@,
        r@.updated_at is None,
        r@.note is None,
        r@.created_at == at,
        tasks_of(final(m).tasks).contains_key(task_id@),
        tasks_of(final(m).tasks)[task_id@] == r@,
        forall|k: Seq<char>|
            k != task_id@ ==> (#[trigger] tasks_of(final(m).tasks).contains_key(k) <==> tasks_of(
                old(m).tasks,
            ).contains_key(k)) && (tasks_of(old(m).tasks).contains_key(k) ==> tasks_of(
                final(m).tasks,
            )[k] == tasks_of(old(m).tasks)[k]),
        forall|i: int|
            0 <= i < old(store)@.tasks.len() ==> #[trigger] final(store)@.tasks[i] == (if old(
                store,
            )@.tasks[i].task_id == r@.task_id {
                r@
            } else {
                old(store)@.tasks[i]
            }),
        final(store)@.tasks.len() == old(store)@.tasks.len() + (if exists|i: int|
            0 <= i < old(store)@.tasks.len() && (#[trigger] old(store)@.tasks[i]).task_id
                == r@.task_id {
            0int
        } else {
            1int
        }),
        final(store)@.tasks.len() > old(store)@.tasks.len() ==> final(store)@.tasks.last() == r@,
        final(store)@.rooms == old(store)@.rooms,
        final(store)@.messages == old(store)@.messages,
        final(store)@.sessions == old(store)@.sessions,
        final(store)@.votes == old(store)@.votes,
        final(store)@.ballots == old(store)@.ballots,
        final(store)@.keys == old(store)@.keys,
        final(store)@.subscriptions == old(store)@.subscriptions,
        final(store)@.deliveries == old(store)@.deliveries,
{
}

/// A task created by the clock is the one that was asked for.
pub proof fn a_task_created_now_is_as_asked(
    m: &mut TaskManager,
    store: &mut Store,
    task_id: String,
    room_id: String,
    title: String,
    description: Option<String>,
    assignee: Option<String>,
    created_by: String,
    r: TaskInfo,
)
    requires
        call_ensures(
            TaskManager::create_task,
            (m, store, task_id, room_id, title, description, assignee, created_by),
            r,
        ),
    ensures
        r@.task_id == task_id@,
        r@.room_id == room_id@,
        r@.title == title@,
        r@.description == description.deep_view(),
        r@.status == "pending"@,
        r@.assignee == assignee.deep_view(),
        r@.created_by == created_by@,
        r@.updated_at is None,
        r@.note is None,
        in_calendar(r@.created_at),
        tasks_of(final(m).tasks).contains_key(task_id@),
        tasks_of(final(m).tasks)[task_id@] == r@,
        forall|k: Seq<char>|
            k != task_id@ ==> (#[trigger] tasks_of(final(m).tasks).contains_key(k) <==> tasks_of(
                old(m).tasks,
            ).contains_key(k)) && (tasks_of(old(m).tasks).contains_key(k) ==> tasks_of(
                final(m).tasks,
            )[k] == tasks_of(old(m).tasks)[k]),
        forall|i: int|
            0 <= i < old(store)@.tasks.len() ==> #[trigger] final(store)@.tasks[i] == (if old(
                store,
            )@.tasks[i].task_id == r@.task_id {
                r@
            } else {
                old(store)@.tasks[i]
            }),
        final(store)@.tasks.len() == old(store)@.tasks.len() + (if exists|i: int|
            0 <= i < old(store)@.tasks.len() && (#[trigger] old(store)@.tasks[i]).task_id
                == r@.task_id {
            0int
        } else {
            1int
        }),
        final(store)@.tasks.len() > old(store)@.tasks.len() ==> final(store)@.tasks.last() == r@,
        final(store)@.rooms == old(store)@.rooms,
        final(store)@.messages == old(store)@.messages,
        final(store)@.sessions == old(store)@.sessions,
        final(store)@.votes == old(store)@.votes,
        final(store)@.ballots == old(store)@.ballots,
        final(store)@.keys == old(store)@.keys,
        final(store)@.subscriptions == old(store)@.subscriptions,
        final(store)@.deliveries == old(store)@.deliveries,
{
}

/// An update of a task changes what it is given and nothing else: without a status the
/// status stays, without an assignee the assignee, without a note the note. Id, room,
/// title, description, and who created it and when never change. No other task changes,
/// and without a task of that id nothing does.
pub proof fn an_update_changes_only_what_is_given(
    m: &mut TaskManager,
    store: &mut Store,
    task_id: &str,
    status: Option<String>,
    assignee: Option<String>,
    note: Option<String>,
    at: Timestamp,
    r: Option<TaskInfo>,
)
    requires
        call_ensures(
            TaskManager::update_task_at,
            (m, store, task_id, status, assignee, note, at),
            r,
        ),
    ensures
        r is Some <==> tasks_of(old(m).tasks).contains_key(task_id@),
        r matches Some(task) ==> ({
            let was = tasks_of(old(m).tasks)[task_id@];
            &&& task@.task_id == was.task_id
            &&& task@.room_id == was.room_id
            &&& task@.title == was.title
            &&& task@.description == was.description
            &&& task@.created_by == was.created_by
            &&& task@.created_at == was.created_at
            &&& status is None ==> task@.status == was.status
            &&& status matches Some(s) ==> task@.status == s@
            &&& assignee is None ==> task@.assignee == was.assignee
            &&& assignee matches Some(a) ==> task@.assignee == Some(a@)
            &&& note is None ==> task@.note == was.note
            &&& note matches Some(n) ==> task@.note == Some(n@)
            &&& task@.updated_at == Some(at)
            &&& tasks_of(final(m).tasks).contains_key(task_id@)
            &&& tasks_of(final(m).tasks)[task_id@] == task@
        }),
        r is None ==> tasks_of(final(m).tasks) == tasks_of(old(m).tasks) && final(store)@ == old(
            store,
        )@,
        forall|k: Seq<char>|
            k != task_id@ ==> (#[trigger] tasks_of(final(m).tasks).contains_key(k) <==> tasks_of(
                old(m).tasks,
            ).contains_key(k)) && (tasks_of(old(m).tasks).contains_key(k) ==> tasks_of(
                final(m).tasks,
            )[k] == tasks_of(old(m).tasks)[k]),
        r matches Some(task) ==> forall|i: int|
            0 <= i < old(store)@.tasks.len() ==> #[trigger] final(store)@.tasks[i] == (if old(
                store,
            )@.tasks[i].task_id == task@.task_id {
                task@
            } else {
                old(store)@.tasks[i]
            }),
        r matches Some(task) ==> final(store)@.tasks.len() == old(store)@.tasks.len()
            + (if exists|i: int|
            0 <= i < old(store)@.tasks.len() && (#[trigger] old(store)@.tasks[i]).task_id
                == task@.task_id {
            0int
        } else {
            1int
        }),
        r matches Some(task) ==> (final(store)@.tasks.len() > old(store)@.tasks.len()
            ==> final(store)@.tasks.last() == task@),
        final(store)@.rooms == old(store)@.rooms,
        final(store)@.messages == old(store)@.messages,
        final(store)@.sessions == old(store)@.sessions,
        final(store)@.votes == old(store)@.votes,
        final(store)@.ballots == old(store)@.ballots,
        final(store)@.keys == old(store)@.keys,
        final(store)@.subscriptions == old(store)@.subscriptions,
        final(store)@.deliveries == old(store)@.deliveries,
{
}

/// An update by the clock changes what it is given and nothing else.
pub proof fn an_update_by_the_clock_changes_only_what_is_given(
    m: &mut TaskManager,
    store: &mut Store,
    task_id: &str,
    status: Option<String>,
    assignee: Option<String>,
    note: Option<String>,
    r: Option<TaskInfo>,
)
    requires
        call_ensures(
            TaskManager::update_task,
            (m, store, task_id, status, assignee, note),
            r,
        ),
    ensures
        r is Some <==> tasks_of(old(m).tasks).contains_key(task_id@),
        r matches Some(task) ==> ({
            let was = tasks_of(old(m).tasks)[task_id@];
            &&& task@.task_id == was.task_id
            &&& task@.room_id == was.room_id
            &&& task@.title == was.title
            &&& task@.description == was.description
            &&& task@.created_by == was.created_by
            &&& task@.created_at == was.created_at
            &&& status is None ==> task@.status == was.status
            &&& status matches Some(s) ==> task@.status == s@
            &&& assignee is None ==> task@.assignee == was.assignee
            &&& assignee matches Some(a) ==> task@.assignee == Some(a@)
            &&& note is None ==> task@.note == was.note
            &&& note matches Some(n) ==> task@.note == Some(n@)
            &&& task@.updated_at is Some
            &&& tasks_of(final(m).tasks).contains_key(task_id@)
            &&& tasks_of(final(m).tasks)[task_id@] == task@
        }),
        r is None ==> tasks_of(final(m).tasks) == tasks_of(old(m).tasks) && final(store)@ == old(
            store,
        )@,
        forall|k: Seq<char>|
            k != task_id@ ==> (#[trigger] tasks_of(final(m).tasks).contains_key(k) <==> tasks_of(
                old(m).tasks,
            ).contains_key(k)) && (tasks_of(old(m).tasks).contains_key(k) ==> tasks_of(
                final(m).tasks,
            )[k] == tasks_of(old(m).tasks)[k]),
        r matches Some(task) ==> forall|i: int|
            0 <= i < old(store)@.tasks.len() ==> #[trigger] final(store)@.tasks[i] == (if old(
                store,
            )@.tasks[i].task_id == task@.task_id {
                task@
            } else {
                old(store)@.tasks[i]
            }),
        r matches Some(task) ==> final(store)@.tasks.len() == old(store)@.tasks.len()
            + (if exists|i: int|
            0 <= i < old(store)@.tasks.len() && (#[trigger] old(store)@.tasks[i]).task_id
                == task@.task_id {
            0int
        } else {
            1int
        }),
        r matches Some(task) ==> (final(store)@.tasks.len() > old(store)@.tasks.len()
            ==> final(store)@.tasks.last() == task@),
        final(store)@.rooms == old(store)@.rooms,
        final(store)@.messages == old(store)@.messages,
        final(store)@.sessions == old(store)@.sessions,
        final(store)@.votes == old(store)@.votes,
        final(store)@.ballots == old(store)@.ballots,
        final(store)@.keys == old(store)@.keys,
        final(store)@.subscriptions == old(store)@.subscriptions,
        final(store)@.deliveries == old(store)@.deliveries,
{
}

/// The tasks of a room are listed by its id, in one state where one is given: each of
/// them once, and no others.
pub proof fn tasks_are_listed_by_room(
    m: &TaskManager,
    room_id: &str,
    status: Option<&str>,
    list: Vec<TaskInfo>,
)
    requires
        call_ensures(TaskManager::list_tasks, (m, room_id, status), list),
    ensures
        forall|i: int|
            0 <= i < list@.len() ==> (#[trigger] list@[i])@.room_id == room_id@
                && (status matches Some(
                s,
            ) ==> list@[i]@.status == s@) && exists|k: Seq<char>| #[trigger]
                tasks_of(m.tasks).contains_key(k) && tasks_of(m.tasks)[k] == list@[i]@,
        forall|k: Seq<char>| #[trigger]
            tasks_of(m.tasks).contains_key(k) && tasks_of(m.tasks)[k].room_id == room_id@
                && (status matches Some(
                s,
            ) ==> tasks_of(m.tasks)[k].status == s@) ==> exists|i: int|
                0 <= i < list@.len() && (#[trigger] list@[i])@ == tasks_of(m.tasks)[k],
        list@.len() == tasks_of(m.tasks).dom().filter(
            |k: Seq<char>|
                tasks_of(m.tasks)[k].room_id == room_id@ && (status matches Some(s) ==> tasks_of(
                    m.tasks,
                )[k].status == s@),
        ).len(),
{
    let map = tasks_of(m.tasks);
    let all = views(list@);
    let keys = choose|keys: Seq<Seq<char>>| #[trigger]
        lists_tasks_by(keys, all, map, room_id@, status.deep_view());
    let here = |k: Seq<char>|
        map[k].room_id == room_id@ && (status matches Some(s) ==> map[k].status == s@);
    assert forall|i: int| 0 <= i < list@.len() implies (#[trigger] list@[i])@.room_id == room_id@
        && (status matches Some(s) ==> list@[i]@.status == s@) && exists|k: Seq<char>| #[trigger]
        map.contains_key(k) && map[k] == list@[i]@ by {
        assert(all[i] == list@[i]@);
        assert(map.contains_key(keys[i]) && map[keys[i]] == all[i]);
    }
    assert forall|k: Seq<char>| #[trigger] map.contains_key(k) && here(k) implies exists|i: int|
        0 <= i < list@.len() && (#[trigger] list@[i])@ == map[k] by {
        assert(listed(map[k], room_id@, status.deep_view()));
        assert(keys.contains(k));
        let i = choose|i: int| 0 <= i < keys.len() && keys[i] == k;
        assert(map[keys[i]] == all[i]);
        assert(all[i] == list@[i]@);
    }
    assert(keys.to_set() =~= map.dom().filter(here)) by {
        assert forall|k: Seq<char>| keys.to_set().contains(k) <==> map.dom().filter(here).contains(
            k,
        ) by {
            if keys.contains(k) {
                let i = choose|i: int| 0 <= i < keys.len() && keys[i] == k;
                assert(map.contains_key(keys[i]) && map[keys[i]] == all[i]);
                assert(listed(all[i], room_id@, status.deep_view()));
            }
            if map.contains_key(k) && here(k) {
                assert(listed(map[k], room_id@, status.deep_view()));
            }
        }
    }
    keys.unique_seq_to_set();
}

/// A task is looked up by its id.
pub proof fn a_task_is_found_by_id(
    m: &TaskManager,
    task_id: &str,
    r: Option<TaskInfo>,
)
    requires
        call_ensures(TaskManager::get_task, (m, task_id), r),
    ensures
        tasks_of(m.tasks).contains_key(task_id@) ==> (r matches Some(t) && t@ == tasks_of(
            m.tasks,
        )[task_id@]),
        !tasks_of(m.tasks).contains_key(task_id@) ==> r is None,
{
}

} // verus!
