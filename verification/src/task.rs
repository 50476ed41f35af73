//! Local bookkeeping of the tasks that an agent has created: each task's
//! type, payload, originating room, status and result, found by task ID.

use vstd::prelude::*;

use crate::error::{ConstellationError, Result};
use crate::message::{TaskResult, TaskStatus};

verus! {

/// What the registry records of one task.
#[derive(Debug, Clone)]
pub struct TaskRecord {
    /// The task's unique identifier.
    pub id: String,
    /// The type/category of the task.
    pub task_type: String,
    /// The task's JSON payload.
    pub payload: serde_json::Value,
    /// The room the task was sent to, where its result goes.
    pub room_id: String,
    /// Where the task stands in its lifecycle.
    pub status: TaskStatus,
    /// The result data, once the task has been completed.
    pub result: Option<serde_json::Value>,
}

/// No two records share an ID.
pub open spec fn ids_distinct(recs: Seq<TaskRecord>) -> bool {
    forall|i: int, j: int|
        0 <= i < recs.len() && 0 <= j < recs.len() && i != j ==> #[trigger] recs[i].id@ != #[trigger] recs[j].id@
}

/// Whether some record has ID `id`.
pub open spec fn has_task(recs: Seq<TaskRecord>, id: Seq<char>) -> bool {
    exists|i: int| 0 <= i < recs.len() && #[trigger] recs[i].id@ == id
}

/// Where the record with ID `id` stands, if there is one.
pub open spec fn position(recs: Seq<TaskRecord>, id: Seq<char>) -> Option<int> {
    if has_task(recs, id) {
        Some(choose|i: int| 0 <= i < recs.len() && #[trigger] recs[i].id@ == id)
    } else {
        None
    }
}

/// The record with ID `id`, if there is one.
pub open spec fn lookup(recs: Seq<TaskRecord>, id: Seq<char>) -> Option<TaskRecord> {
    match position(recs, id) {
        Some(i) => Some(recs[i]),
        None => None,
    }
}

/// A record just created for the given task: pending, with no result.
pub open spec fn is_fresh_record(
    r: TaskRecord,
    id: Seq<char>,
    task_type: Seq<char>,
    payload: serde_json::Value,
    room_id: Seq<char>,
) -> bool {
    &&& r.id@ == id
    &&& r.task_type@ == task_type
    &&& r.payload == payload
    &&& r.room_id@ == room_id
    &&& r.status == TaskStatus::Pending
    &&& r.result is None
}

/// The message of the error for an unknown task ID.
pub open spec fn task_not_found_message(id: Seq<char>) -> Seq<char> {
    "task not found: "@ + id
}

/// Whether `res` is the error for an unknown task ID `id`.
pub open spec fn is_not_found(res: Result<()>, id: Seq<char>) -> bool {
    res matches Err(ConstellationError::Task(m)) && m@ == task_not_found_message(id)
}

/// How `create` changes the records: the record with ID `id` is replaced
/// in place by a fresh one, or a fresh one is added at the end.
pub open spec fn created(
    before: Seq<TaskRecord>,
    after: Seq<TaskRecord>,
    id: Seq<char>,
    task_type: Seq<char>,
    payload: serde_json::Value,
    room_id: Seq<char>,
) -> bool {
    match position(before, id) {
        Some(i) => {
            &&& after == before.update(i, after[i])
            &&& is_fresh_record(after[i], id, task_type, payload, room_id)
        },
        None => {
            &&& after.drop_last() == before
            &&& after.len() == before.len() + 1
            &&& is_fresh_record(after.last(), id, task_type, payload, room_id)
        },
    }
}

/// How setting the status of task `id` changes the records.
pub open spec fn status_updated(
    before: Seq<TaskRecord>,
    after: Seq<TaskRecord>,
    id: Seq<char>,
    status: TaskStatus,
) -> bool {
    match position(before, id) {
        Some(i) => after == before.update(i, TaskRecord { status, ..before[i] }),
        None => after == before,
    }
}

/// How completing task `id` with a status and result data changes the records.
pub open spec fn completed(
    before: Seq<TaskRecord>,
    after: Seq<TaskRecord>,
    id: Seq<char>,
    status: TaskStatus,
    data: serde_json::Value,
) -> bool {
    match position(before, id) {
        Some(i) => after == before.update(i, TaskRecord { status, result: Some(data), ..before[i] }),
        None => after == before,
    }
}

/// How removing task `id` changes the records, and what it hands back.
pub open spec fn removed(
    before: Seq<TaskRecord>,
    after: Seq<TaskRecord>,
    id: Seq<char>,
    out: Option<TaskRecord>,
) -> bool {
    match position(before, id) {
        Some(i) => out == Some(before[i]) && after == before.remove(i),
        None => out is None && after == before,
    }
}

proof fn lemma_position_is(recs: Seq<TaskRecord>, id: Seq<char>, i: int)
    requires
        ids_distinct(recs),
        0 <= i < recs.len(),
        recs[i].id@ == id,
    ensures
        position(recs, id) == Some(i),
{
    assert(has_task(recs, id));
}

proof fn lemma_lookup_at(recs: Seq<TaskRecord>, id: Seq<char>, i: int)
    requires
        ids_distinct(recs),
        0 <= i < recs.len(),
        recs[i].id@ == id,
    ensures
        lookup(recs, id) == Some(recs[i]),
{
    lemma_position_is(recs, id, i);
}

/// Records that keep every ID in place and change only records with ID `id`
/// give the same lookup for every other ID.
proof fn lemma_in_place_frame(before: Seq<TaskRecord>, after: Seq<TaskRecord>, id: Seq<char>, other: Seq<char>)
    requires
        ids_distinct(before),
        after.len() == before.len(),
        forall|j: int| 0 <= j < before.len() ==> #[trigger] after[j].id@ == before[j].id@,
        forall|j: int| 0 <= j < before.len() && before[j].id@ != id ==> #[trigger] after[j] == before[j],
    ensures
        ids_distinct(after),
        other != id ==> lookup(after, other) == lookup(before, other),
{
    assert(ids_distinct(after)) by {
        assert forall|a: int, b: int| 0 <= a < after.len() && 0 <= b < after.len() && a != b
            implies #[trigger] after[a].id@ != #[trigger] after[b].id@ by {
            assert(after[a].id@ == before[a].id@);
            assert(after[b].id@ == before[b].id@);
        }
    }
    if other != id {
        if has_task(before, other) {
            let j = choose|j: int| 0 <= j < before.len() && #[trigger] before[j].id@ == other;
            lemma_lookup_at(before, other, j);
            assert(after[j] == before[j]);
            lemma_lookup_at(after, other, j);
        } else {
            assert(!has_task(after, other)) by {
                if has_task(after, other) {
                    let j = choose|j: int| 0 <= j < after.len() && #[trigger] after[j].id@ == other;
                    assert(before[j].id@ == other);
                }
            }
        }
    }
}

/// After `create`, the registry is still valid and the task is found by its
/// ID: pending, with no result, with the given type, payload and room.
pub proof fn lemma_create_then_lookup(
    before: Seq<TaskRecord>,
    after: Seq<TaskRecord>,
    id: Seq<char>,
    task_type: Seq<char>,
    payload: serde_json::Value,
    room_id: Seq<char>,
)
    requires
        ids_distinct(before),
        created(before, after, id, task_type, payload, room_id),
    ensures
        ids_distinct(after),
        lookup(after, id) matches Some(r) && is_fresh_record(r, id, task_type, payload, room_id),
{
    match position(before, id) {
        Some(i) => {
            let c = choose|j: int| 0 <= j < before.len() && #[trigger] before[j].id@ == id;
            assert(before[i].id@ == id);
            assert forall|a: int, b: int| 0 <= a < after.len() && 0 <= b < after.len() && a != b
                implies #[trigger] after[a].id@ != #[trigger] after[b].id@ by {
                assert(after[a].id@ == before[a].id@);
                assert(after[b].id@ == before[b].id@);
            }
            lemma_lookup_at(after, id, i);
        },
        None => {
            let n = before.len() as int;
            assert forall|a: int, b: int| 0 <= a < after.len() && 0 <= b < after.len() && a != b
                implies #[trigger] after[a].id@ != #[trigger] after[b].id@ by {
                if a < n {
                    assert(after[a] == before[a]);
                }
                if b < n {
                    assert(after[b] == before[b]);
                }
            }
            lemma_lookup_at(after, id, n);
        },
    }
}

/// Creating task `id` leaves the record of every other task as it was.
pub proof fn lemma_create_keeps_others(
    before: Seq<TaskRecord>,
    after: Seq<TaskRecord>,
    id: Seq<char>,
    task_type: Seq<char>,
    payload: serde_json::Value,
    room_id: Seq<char>,
    other: Seq<char>,
)
    requires
        ids_distinct(before),
        created(before, after, id, task_type, payload, room_id),
        other != id,
    ensures
        lookup(after, other) == lookup(before, other),
{
    lemma_create_then_lookup(before, after, id, task_type, payload, room_id);
    match position(before, id) {
        Some(i) => {
            assert(before[i].id@ == id);
            lemma_in_place_frame(before, after, id, other);
        },
        None => {
            let n = before.len() as int;
            if has_task(before, other) {
                let j = choose|j: int| 0 <= j < before.len() && #[trigger] before[j].id@ == other;
                lemma_lookup_at(before, other, j);
                assert(after[j] == before[j]);
                lemma_lookup_at(after, other, j);
            } else {
                assert(!has_task(after, other)) by {
                    if has_task(after, other) {
                        let j = choose|j: int| 0 <= j < after.len() && #[trigger] after[j].id@ == other;
                        if j < n {
                            assert(after[j] == before[j]);
                        }
                    }
                }
            }
        },
    }
}

/// After a status update of a known task, its record has the new status;
/// every other task's record is as it was.
pub proof fn lemma_update_then_lookup(
    before: Seq<TaskRecord>,
    after: Seq<TaskRecord>,
    id: Seq<char>,
    status: TaskStatus,
    other: Seq<char>,
)
    requires
        ids_distinct(before),
        status_updated(before, after, id, status),
    ensures
        ids_distinct(after),
        has_task(before, id) ==> (lookup(after, id) matches Some(r) && lookup(before, id) matches Some(r0)
            && r == (TaskRecord { status, ..r0 })),
        other != id ==> lookup(after, other) == lookup(before, other),
{
    match position(before, id) {
        Some(i) => {
            assert(before[i].id@ == id);
            assert forall|j: int| 0 <= j < before.len() && before[j].id@ != id implies #[trigger] after[j] == before[j] by {}
            lemma_in_place_frame(before, after, id, other);
            lemma_lookup_at(before, id, i);
            lemma_lookup_at(after, id, i);
        },
        None => {},
    }
}

/// Completing a known task gives its record the result's status and data;
/// every other task's record is as it was.
pub proof fn lemma_complete_then_lookup(
    before: Seq<TaskRecord>,
    after: Seq<TaskRecord>,
    id: Seq<char>,
    status: TaskStatus,
    data: serde_json::Value,
    other: Seq<char>,
)
    requires
        ids_distinct(before),
        completed(before, after, id, status, data),
    ensures
        ids_distinct(after),
        has_task(before, id) ==> (lookup(after, id) matches Some(r) && lookup(before, id) matches Some(r0)
            && r == (TaskRecord { status, result: Some(data), ..r0 })),
        other != id ==> lookup(after, other) == lookup(before, other),
{
    match position(before, id) {
        Some(i) => {
            assert(before[i].id@ == id);
            assert forall|j: int| 0 <= j < before.len() && before[j].id@ != id implies #[trigger] after[j] == before[j] by {}
            lemma_in_place_frame(before, after, id, other);
            lemma_lookup_at(before, id, i);
            lemma_lookup_at(after, id, i);
        },
        None => {},
    }
}

/// After `remove`, the task is no longer found, one record fewer is kept if
/// it was known, and every other task's record is as it was.
pub proof fn lemma_remove_then_lookup(
    before: Seq<TaskRecord>,
    after: Seq<TaskRecord>,
    id: Seq<char>,
    out: Option<TaskRecord>,
    other: Seq<char>,
)
    requires
        ids_distinct(before),
        removed(before, after, id, out),
    ensures
        ids_distinct(after),
        lookup(after, id) is None,
        out == lookup(before, id),
        after.len() == before.len() - (if has_task(before, id) { 1int } else { 0int }),
        other != id ==> lookup(after, other) == lookup(before, other),
{
    match position(before, id) {
        Some(i) => {
            assert(before[i].id@ == id);
            let shift = |j: int| if j < i { j } else { j + 1 };
            assert forall|a: int, b: int| 0 <= a < after.len() && 0 <= b < after.len() && a != b
                implies #[trigger] after[a].id@ != #[trigger] after[b].id@ by {
                assert(after[a] == before[shift(a)]);
                assert(after[b] == before[shift(b)]);
            }
            assert(!has_task(after, id)) by {
                if has_task(after, id) {
                    let j = choose|j: int| 0 <= j < after.len() && #[trigger] after[j].id@ == id;
                    assert(after[j] == before[shift(j)]);
                }
            }
            if other != id {
                if has_task(before, other) {
                    let j = choose|j: int| 0 <= j < before.len() && #[trigger] before[j].id@ == other;
                    lemma_lookup_at(before, other, j);
                    let k = if j < i { j } else { j - 1 };
                    assert(after[k] == before[j]);
                    lemma_lookup_at(after, other, k);
                } else {
                    assert(!has_task(after, other)) by {
                        if has_task(after, other) {
                            let j = choose|j: int| 0 <= j < after.len() && #[trigger] after[j].id@ == other;
                            assert(after[j] == before[shift(j)]);
                        }
                    }
                }
            }
        },
        None => {},
    }
}

/// Tracks the tasks that an agent created, by ID.
pub struct TaskManager {
    records: Vec<TaskRecord>,
}

impl TaskManager {
    /// The records, in the order they were first created.
    pub closed spec fn records(self) -> Seq<TaskRecord> {
        self.records@
    }

    /// The registry's invariant: no two records share an ID.
    pub open spec fn wf(self) -> bool {
        ids_distinct(self.records())
    }

    /// An empty registry.
    pub fn new() -> (res: Self)
        ensures
            res.wf(),
            res.records() == Seq::<TaskRecord>::empty(),
    {
        TaskManager { records: Vec::new() }
    }

    /// Where the record with ID `id` is, found by scanning.
    fn find(&self, id: &str) -> (res: Option<usize>)
        requires
            self.wf(),
        ensures
            match res {
                Some(i) => position(self.records(), id@) == Some(i as int),
                None => position(self.records(), id@) is None,
            },
    {
        let mut i: usize = 0;
        while i < self.records.len()
            invariant
                self.wf(),
                i <= self.records@.len(),
                forall|j: int| 0 <= j < i ==> #[trigger] self.records@[j].id@ != id@,
            decreases self.records.len() - i,
        {
            if self.records[i].id == String::from_str(id) {
                proof {
                    lemma_position_is(self.records@, id@, i as int);
                }
                return Some(i);
            }
            i += 1;
        }
        None
    }

    /// Record a new pending task and return its ID. A record with the same
    /// ID is replaced.
    pub fn create(&mut self, task_id: &str, task_type: &str, payload: serde_json::Value, room_id: &str) -> (res: String)
        requires
            old(self).wf(),
        ensures
            final(self).wf(),
            res@ == task_id@,
            created(old(self).records(), final(self).records(), task_id@, task_type@, payload, room_id@),
    {
        let record = TaskRecord {
            id: String::from_str(task_id),
            task_type: String::from_str(task_type),
            payload,
            room_id: String::from_str(room_id),
            status: TaskStatus::Pending,
            result: None,
        };
        match self.find(task_id) {
            Some(i) => {
                self.records.set(i, record);
                assert forall|a: int, b: int|
                    0 <= a < self.records@.len() && 0 <= b < self.records@.len() && a != b
                    implies #[trigger] self.records@[a].id@ != #[trigger] self.records@[b].id@ by {
                    assert(old(self).records@[i as int].id@ == task_id@);
                }
            },
            None => {
                self.records.push(record);
                assert(self.records@.drop_last() =~= old(self).records@);
            },
        }
        String::from_str(task_id)
    }

    /// The record of task `task_id`, if it is known.
    pub fn get(&self, task_id: &str) -> (res: Option<&TaskRecord>)
        requires
            self.wf(),
        ensures
            match res {
                Some(r) => lookup(self.records(), task_id@) == Some(*r),
                None => lookup(self.records(), task_id@) is None,
            },
    {
        match self.find(task_id) {
            Some(i) => Some(&self.records[i]),
            None => None,
        }
    }

    /// The status of task `task_id`, if it is known.
    pub fn get_status(&self, task_id: &str) -> (res: Option<TaskStatus>)
        requires
            self.wf(),
        ensures
            res == (match lookup(self.records(), task_id@) {
                Some(r) => Some(r.status),
                None => None::<TaskStatus>,
            }),
    {
        match self.find(task_id) {
            Some(i) => Some(self.records[i].status),
            None => None,
        }
    }

    /// Set the status of task `task_id`.
    ///
    /// # Errors
    ///
    /// Returns [`ConstellationError::Task`] if the task is not known; the
    /// registry is then unchanged.
    pub fn update_status(&mut self, task_id: &str, status: TaskStatus) -> (res: Result<()>)
        requires
            old(self).wf(),
        ensures
            final(self).wf(),
            status_updated(old(self).records(), final(self).records(), task_id@, status),
            if has_task(old(self).records(), task_id@) { res is Ok } else { is_not_found(res, task_id@) },
    {
        match self.find(task_id) {
            Some(i) => {
                let mut record = self.records.remove(i);
                record.status = status;
                self.records.insert(i, record);
                assert(self.records@ =~= old(self).records@.update(i as int, TaskRecord { status, ..old(self).records@[i as int] }));
                assert forall|a: int, b: int|
                    0 <= a < self.records@.len() && 0 <= b < self.records@.len() && a != b
                    implies #[trigger] self.records@[a].id@ != #[trigger] self.records@[b].id@ by {
                    assert(self.records@[a].id@ == old(self).records@[a].id@);
                    assert(self.records@[b].id@ == old(self).records@[b].id@);
                }
                Ok(())
            },
            None => {
                let mut msg = String::from_str("task not found: ");
                msg.append(task_id);
                Err(ConstellationError::Task(msg))
            },
        }
    }

    /// Mark task `task_id` with the status of `result` and keep its data.
    ///
    /// # Errors
    ///
    /// Returns [`ConstellationError::Task`] if the task is not known; the
    /// registry is then unchanged.
    pub fn complete(&mut self, task_id: &str, result: TaskResult) -> (res: Result<()>)
        requires
            old(self).wf(),
        ensures
            final(self).wf(),
            completed(old(self).records(), final(self).records(), task_id@, result.status, result.result_data),
            if has_task(old(self).records(), task_id@) { res is Ok } else { is_not_found(res, task_id@) },
    {
        match self.find(task_id) {
            Some(i) => {
                let ghost data = result.result_data;
                let mut record = self.records.remove(i);
                record.status = result.status;
                record.result = Some(result.result_data);
                self.records.insert(i, record);
                assert(self.records@ =~= old(self).records@.update(
                    i as int,
                    TaskRecord { status: result.status, result: Some(data), ..old(self).records@[i as int] },
                ));
                assert forall|a: int, b: int|
                    0 <= a < self.records@.len() && 0 <= b < self.records@.len() && a != b
                    implies #[trigger] self.records@[a].id@ != #[trigger] self.records@[b].id@ by {
                    assert(self.records@[a].id@ == old(self).records@[a].id@);
                    assert(self.records@[b].id@ == old(self).records@[b].id@);
                }
                Ok(())
            },
            None => {
                let mut msg = String::from_str("task not found: ");
                msg.append(task_id);
                Err(ConstellationError::Task(msg))
            },
        }
    }

    /// Forget task `task_id`, returning its record if it was known.
    pub fn remove(&mut self, task_id: &str) -> (res: Option<TaskRecord>)
        requires
            old(self).wf(),
        ensures
            final(self).wf(),
            removed(old(self).records(), final(self).records(), task_id@, res),
    {
        match self.find(task_id) {
            Some(i) => {
                let record = self.records.remove(i);
                assert forall|a: int, b: int|
                    0 <= a < self.records@.len() && 0 <= b < self.records@.len() && a != b
                    implies #[trigger] self.records@[a].id@ != #[trigger] self.records@[b].id@ by {
                    let a0 = if a < i { a } else { a + 1 };
                    let b0 = if b < i { b } else { b + 1 };
                    assert(self.records@[a] == old(self).records@[a0]);
                    assert(self.records@[b] == old(self).records@[b0]);
                }
                Some(record)
            },
            None => None,
        }
    }

    /// The records whose status is `status`, in creation order.
    pub fn list_by_status(&self, status: TaskStatus) -> (res: Vec<&TaskRecord>)
        ensures
            res@.map_values(|r: &TaskRecord| *r) == self.records().filter(|r: TaskRecord| r.status == status),
    {
        let mut out: Vec<&TaskRecord> = Vec::new();
        let mut k: usize = 0;
        while k < self.records.len()
            invariant
                k <= self.records@.len(),
                out@.map_values(|r: &TaskRecord| *r) == self.records@.take(k as int).filter(
                    |r: TaskRecord| r.status == status,
                ),
            decreases self.records.len() - k,
        {
            reveal_with_fuel(Seq::<TaskRecord>::filter, 1);
            let ghost before = out@.map_values(|r: &TaskRecord| *r);
            assert(self.records@.take(k + 1).drop_last() =~= self.records@.take(k as int));
            if self.records[k].status == status {
                out.push(&self.records[k]);
                assert(out@.map_values(|r: &TaskRecord| *r) =~= before.push(self.records@[k as int]));
            }
            k += 1;
        }
        assert(self.records@.take(self.records.len() as int) =~= self.records@);
        out
    }

    /// The records of tasks still pending, in creation order.
    pub fn list_pending(&self) -> (res: Vec<&TaskRecord>)
        ensures
            res@.map_values(|r: &TaskRecord| *r) == self.records().filter(
                |r: TaskRecord| r.status == TaskStatus::Pending,
            ),
    {
        self.list_by_status(TaskStatus::Pending)
    }

    /// The number of tasks tracked.
    pub fn len(&self) -> (res: usize)
        ensures
            res == self.records().len(),
    {
        self.records.len()
    }

    /// Whether no task is tracked.
    pub fn is_empty(&self) -> (res: bool)
        ensures
            res == (self.records().len() == 0),
    {
        self.records.len() == 0
    }
}

} // verus!
