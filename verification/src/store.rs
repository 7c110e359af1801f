//! The task store: the live tasks, in the order in which they came.

use vstd::prelude::*;
use crate::ident::is_random_uuid;
use crate::task::{draft_view, Task, TaskId, TaskView};

verus! {

/// Whether one of `tasks` has the identifier `id`.
pub open spec fn has_id(tasks: Seq<TaskView>, id: TaskId) -> bool {
    exists|i: int| 0 <= i < tasks.len() && tasks[i].id == id
}

/// Whether no two of `tasks` share an identifier.
pub open spec fn ids_distinct(tasks: Seq<TaskView>) -> bool {
    forall|i: int, j: int| 0 <= i < j < tasks.len() ==> tasks[i].id != tasks[j].id
}

/// Where in `tasks` the task with the identifier `id` stands, if there is
/// one.
pub open spec fn position(tasks: Seq<TaskView>, id: TaskId) -> int {
    choose|i: int| 0 <= i < tasks.len() && tasks[i].id == id
}

/// The task of `tasks` with the identifier `id`.
pub open spec fn lookup(tasks: Seq<TaskView>, id: TaskId) -> Option<TaskView> {
    if has_id(tasks, id) {
        Some(tasks[position(tasks, id)])
    } else {
        None
    }
}

/// `tasks` with `task` in the place of the one that has the identifier `id`.
pub open spec fn replaced(tasks: Seq<TaskView>, id: TaskId, task: TaskView) -> Seq<TaskView> {
    tasks.update(position(tasks, id), task)
}

/// `tasks` without the one that has the identifier `id`.
pub open spec fn removed(tasks: Seq<TaskView>, id: TaskId) -> Seq<TaskView> {
    tasks.remove(position(tasks, id))
}

/// `tasks` after each of `new` went in, one after the other.
pub open spec fn inserted_all(tasks: Seq<TaskView>, new: Seq<TaskView>) -> Seq<TaskView>
    decreases new.len(),
{
    if new.len() == 0 {
        tasks
    } else {
        inserted_all(tasks.push(new[0]), new.drop_first())
    }
}

/// Whether each of `new`, going in one after the other, finds its
/// identifier free.
pub open spec fn all_accepted(tasks: Seq<TaskView>, new: Seq<TaskView>) -> bool
    decreases new.len(),
{
    new.len() == 0 || (!has_id(tasks, new[0].id) && all_accepted(
        tasks.push(new[0]),
        new.drop_first(),
    ))
}

/// Whether none of `new` has the identifier of one of `tasks`.
pub open spec fn none_live(tasks: Seq<TaskView>, new: Seq<TaskView>) -> bool {
    forall|i: int| 0 <= i < new.len() ==> !has_id(tasks, (#[trigger] new[i]).id)
}

/// Among distinct identifiers, the place where one is found is its position.
pub proof fn lemma_position(tasks: Seq<TaskView>, id: TaskId, at: int)
    requires
        ids_distinct(tasks),
        0 <= at < tasks.len(),
        tasks[at].id == id,
    ensures
        has_id(tasks, id),
        position(tasks, id) == at,
        lookup(tasks, id) == Some(tasks[at]),
{
}

/// What each of `tasks` holds.
pub open spec fn views(tasks: Seq<Task>) -> Seq<TaskView> {
    tasks.map_values(|task: Task| task@)
}

/// Why the store refused an operation.
#[derive(Clone, Copy, Debug, PartialEq, Eq, Structural)]
pub enum StoreError {
    /// No live task has the identifier.
    NotFound,
    /// The task that was handed in carries another identifier than the one
    /// it was to replace.
    IdMismatch,
    /// A live task has the identifier already.
    DuplicateId,
}

/// The live tasks. No two of them share an identifier.
pub struct TaskStore {
    tasks: Vec<Task>,
}

impl View for TaskStore {
    type V = Seq<TaskView>;

    closed spec fn view(&self) -> Seq<TaskView> {
        views(self.tasks@)
    }
}

impl TaskStore {
    #[verifier::type_invariant]
    spec fn well_formed(self) -> bool {
        ids_distinct(self@)
    }

    /// A store without tasks.
    pub fn new() -> (store: TaskStore)
        ensures
            store@ == Seq::<TaskView>::empty(),
    {
        TaskStore { tasks: Vec::new() }
    }

    /// How many tasks are live.
    pub fn len(&self) -> (count: usize)
        ensures
            count == self@.len(),
    {
        self.tasks.len()
    }

    fn index_of(&self, id: TaskId) -> (found: Option<usize>)
        ensures
            ids_distinct(self@),
            found matches Some(at) ==> has_id(self@, id) && at == position(self@, id),
            found is None ==> !has_id(self@, id),
    {
        proof {
            use_type_invariant(self);
        }
        let mut at: usize = 0;
        while at < self.tasks.len()
            invariant
                at <= self.tasks.len(),
                ids_distinct(self@),
                forall|i: int| 0 <= i < at ==> self@[i].id != id,
            decreases self.tasks.len() - at,
        {
            if self.tasks[at].id == id {
                assert(self@[at as int].id == id);
                return Some(at);
            }
            at += 1;
        }
        None
    }

    /// A task for a creation request: a random identifier, the title, not
    /// completed, no priority and no estimate. It is not yet in any store.
    pub fn create(title: String) -> (task: Task)
        ensures
            task@ == draft_view(task.id, title@),
            is_random_uuid(task.id.0),
    {
        Task::draft(TaskId::random(), title)
    }

    /// The live tasks, in the order in which they came.
    pub fn list(&self) -> (tasks: Vec<Task>)
        ensures
            views(tasks@) == self@,
            ids_distinct(self@),
    {
        proof {
            use_type_invariant(self);
        }
        let mut tasks: Vec<Task> = Vec::new();
        let mut at: usize = 0;
        while at < self.tasks.len()
            invariant
                at <= self.tasks.len(),
                views(tasks@) == self@.take(at as int),
            decreases self.tasks.len() - at,
        {
            tasks.push(self.tasks[at].clone());
            assert(self@.take(at + 1) =~= self@.take(at as int).push(self@[at as int]));
            at += 1;
        }
        tasks
    }

    /// The live task with the identifier `id`.
    pub fn get(&self, id: TaskId) -> (found: Result<Task, StoreError>)
        ensures
            ids_distinct(self@),
            found matches Ok(task) ==> lookup(self@, id) == Some(task@),
            found matches Err(error) ==> error == StoreError::NotFound && lookup(self@, id) is None,
    {
        match self.index_of(id) {
            Some(at) => Ok(self.tasks[at].clone()),
            None => Err(StoreError::NotFound),
        }
    }

    /// Puts `task` in the place of the live task with the identifier `id`,
    /// and hands it back. The identifier stays: a task that carries another
    /// one is refused.
    pub fn update(&mut self, id: TaskId, task: Task) -> (outcome: Result<Task, StoreError>)
        ensures
            ids_distinct(final(self)@),
            !has_id(old(self)@, id) ==> ({
                &&& outcome == Err::<Task, StoreError>(StoreError::NotFound)
                &&& final(self)@ == old(self)@
            }),
            has_id(old(self)@, id) && task.id != id ==> ({
                &&& outcome == Err::<Task, StoreError>(StoreError::IdMismatch)
                &&& final(self)@ == old(self)@
            }),
            has_id(old(self)@, id) && task.id == id ==> ({
                &&& outcome matches Ok(stored) && stored@ == task@
                &&& final(self)@ == replaced(old(self)@, id, task@)
                &&& lookup(final(self)@, id) == Some(task@)
            }),
    {
        match self.index_of(id) {
            None => Err(StoreError::NotFound),
            Some(at) => {
                if task.id != id {
                    return Err(StoreError::IdMismatch);
                }
                let stored = task.clone();
                let mut tasks: Vec<Task> = Vec::new();
                std::mem::swap(&mut tasks, &mut self.tasks);
                tasks.set(at, task);
                proof {
                    let before = old(self)@;
                    let after = views(tasks@);
                    assert(after =~= replaced(before, id, task@));
                    lemma_updated_is_found(before, id, task@);
                }
                self.tasks = tasks;
                Ok(stored)
            },
        }
    }

    /// Takes the live task with the identifier `id` out of the store.
    pub fn delete(&mut self, id: TaskId) -> (outcome: Result<(), StoreError>)
        ensures
            ids_distinct(final(self)@),
            lookup(final(self)@, id) is None,
            !has_id(old(self)@, id) ==> ({
                &&& outcome == Err::<(), StoreError>(StoreError::NotFound)
                &&& final(self)@ == old(self)@
            }),
            has_id(old(self)@, id) ==> ({
                &&& outcome is Ok
                &&& final(self)@ == removed(old(self)@, id)
            }),
    {
        match self.index_of(id) {
            None => Err(StoreError::NotFound),
            Some(at) => {
                let mut tasks: Vec<Task> = Vec::new();
                std::mem::swap(&mut tasks, &mut self.tasks);
                tasks.remove(at);
                proof {
                    let before = old(self)@;
                    let after = views(tasks@);
                    assert(after =~= removed(before, id));
                    lemma_deleted_is_gone(before, id);
                }
                self.tasks = tasks;
                Ok(())
            },
        }
    }

    /// Adds `task` behind the live tasks, unless one of them has its
    /// identifier already.
    pub fn insert(&mut self, task: Task) -> (outcome: Result<(), StoreError>)
        ensures
            ids_distinct(final(self)@),
            has_id(old(self)@, task.id) ==> ({
                &&& outcome == Err::<(), StoreError>(StoreError::DuplicateId)
                &&& final(self)@ == old(self)@
            }),
            !has_id(old(self)@, task.id) ==> ({
                &&& outcome is Ok
                &&& final(self)@ == old(self)@.push(task@)
                &&& lookup(final(self)@, task.id) == Some(task@)
            }),
    {
        match self.index_of(task.id) {
            Some(_) => Err(StoreError::DuplicateId),
            None => {
                let mut tasks: Vec<Task> = Vec::new();
                std::mem::swap(&mut tasks, &mut self.tasks);
                tasks.push(task);
                proof {
                    let before = old(self)@;
                    let after = views(tasks@);
                    assert(after =~= before.push(task@));
                    lemma_inserted_is_found(before, task@);
                }
                self.tasks = tasks;
                Ok(())
            },
        }
    }
}

/// A task that went into the store is found under its identifier, with
/// every field as it went in, and the identifiers stay distinct.
pub proof fn lemma_inserted_is_found(tasks: Seq<TaskView>, task: TaskView)
    requires
        ids_distinct(tasks),
        !has_id(tasks, task.id),
    ensures
        ids_distinct(tasks.push(task)),
        lookup(tasks.push(task), task.id) == Some(task),
{
    lemma_position(tasks.push(task), task.id, tasks.len() as int);
}

/// A task that goes into the store changes nothing under any other
/// identifier: what was live stays live, with the fields it had.
pub proof fn lemma_insert_keeps_others(tasks: Seq<TaskView>, task: TaskView, other: TaskId)
    requires
        ids_distinct(tasks),
        !has_id(tasks, task.id),
        other != task.id,
    ensures
        lookup(tasks.push(task), other) == lookup(tasks, other),
{
    lemma_inserted_is_found(tasks, task);
    if has_id(tasks, other) {
        lemma_position(tasks.push(task), other, position(tasks, other));
    }
}

/// Two tasks that go into the store one after the other are both found
/// afterwards, whichever of them went first.
pub proof fn lemma_both_inserted_are_found(tasks: Seq<TaskView>, a: TaskView, b: TaskView)
    requires
        ids_distinct(tasks),
        !has_id(tasks, a.id),
        !has_id(tasks, b.id),
        a.id != b.id,
    ensures
        lookup(tasks.push(a).push(b), a.id) == Some(a),
        lookup(tasks.push(a).push(b), b.id) == Some(b),
        lookup(tasks.push(b).push(a), a.id) == Some(a),
        lookup(tasks.push(b).push(a), b.id) == Some(b),
        tasks.push(a).push(b).len() == tasks.len() + 2,
{
    lemma_inserted_is_found(tasks, a);
    lemma_insert_keeps_others(tasks, a, b.id);
    lemma_inserted_is_found(tasks.push(a), b);
    lemma_insert_keeps_others(tasks.push(a), b, a.id);
    lemma_inserted_is_found(tasks, b);
    lemma_insert_keeps_others(tasks, b, a.id);
    lemma_inserted_is_found(tasks.push(b), a);
    lemma_insert_keeps_others(tasks.push(b), a, b.id);
}

/// Tasks that go in one after the other stand behind the live ones, in the
/// order in which they went in.
pub proof fn lemma_inserted_all_appends(tasks: Seq<TaskView>, new: Seq<TaskView>)
    ensures
        inserted_all(tasks, new) == tasks + new,
        inserted_all(tasks, new).len() == tasks.len() + new.len(),
    decreases new.len(),
{
    if new.len() == 0 {
        assert(tasks + new =~= tasks);
    } else {
        lemma_inserted_all_appends(tasks.push(new[0]), new.drop_first());
        assert(tasks.push(new[0]) + new.drop_first() =~= tasks + new);
    }
}

/// Any number of tasks, going in in any order, all find their identifiers
/// free if and only if no two of them share an identifier and none has the
/// identifier of a live task.
pub proof fn lemma_all_accepted(tasks: Seq<TaskView>, new: Seq<TaskView>)
    requires
        ids_distinct(tasks),
    ensures
        all_accepted(tasks, new) <==> ids_distinct(new) && none_live(tasks, new),
    decreases new.len(),
{
    if new.len() > 0 {
        let first = new[0];
        let rest = new.drop_first();
        let grown = tasks.push(first);
        if !has_id(tasks, first.id) {
            lemma_inserted_is_found(tasks, first);
            lemma_all_accepted(grown, rest);
            assert forall|id: TaskId| has_id(grown, id) <==> has_id(tasks, id) || id
                == first.id by {
                if id != first.id {
                    lemma_insert_keeps_others(tasks, first, id);
                }
            }
            if ids_distinct(new) && none_live(tasks, new) {
                assert forall|i: int| 0 <= i < rest.len() implies !has_id(
                    grown,
                    (#[trigger] rest[i]).id,
                ) by {
                    assert(rest[i] == new[i + 1]);
                    assert(new[0].id != new[i + 1].id);
                }
                assert forall|i: int, j: int| 0 <= i < j < rest.len() implies rest[i].id
                    != rest[j].id by {
                    assert(new[i + 1].id != new[j + 1].id);
                }
            }
            if ids_distinct(rest) && none_live(grown, rest) {
                assert forall|i: int| 0 <= i < new.len() implies !has_id(
                    tasks,
                    (#[trigger] new[i]).id,
                ) by {
                    if i > 0 {
                        assert(rest[i - 1] == new[i]);
                    }
                }
                assert forall|i: int, j: int| 0 <= i < j < new.len() implies new[i].id
                    != new[j].id by {
                    assert(rest[j - 1] == new[j]);
                    if i > 0 {
                        assert(rest[i - 1] == new[i]);
                    }
                }
            }
        }
    }
}

/// Any number of creations, in whatever order they went into the store: all
/// of the new tasks are found afterwards, each with the fields it went in
/// with; the live tasks grew by their number; what was live before stays as
/// it was; and no two tasks share an identifier.
pub proof fn lemma_all_inserted_are_found(tasks: Seq<TaskView>, new: Seq<TaskView>)
    requires
        ids_distinct(tasks),
        all_accepted(tasks, new),
    ensures
        ids_distinct(new),
        none_live(tasks, new),
        ids_distinct(inserted_all(tasks, new)),
        inserted_all(tasks, new).len() == tasks.len() + new.len(),
        forall|i: int|
            0 <= i < new.len() ==> lookup(inserted_all(tasks, new), (#[trigger] new[i]).id)
                == Some(new[i]),
        forall|id: TaskId| #[trigger]
            has_id(tasks, id) ==> lookup(inserted_all(tasks, new), id) == lookup(tasks, id),
{
    lemma_all_accepted(tasks, new);
    lemma_inserted_all_appends(tasks, new);
    let after = tasks + new;
    assert forall|i: int, j: int| 0 <= i < j < after.len() implies after[i].id != after[j].id by {
        if j >= tasks.len() {
            assert(after[j] == new[j - tasks.len()]);
            if i >= tasks.len() {
                assert(after[i] == new[i - tasks.len()]);
            } else {
                assert(after[i] == tasks[i]);
            }
        }
    }
    assert forall|i: int| 0 <= i < new.len() implies lookup(after, (#[trigger] new[i]).id)
        == Some(new[i]) by {
        lemma_position(after, new[i].id, tasks.len() + i);
    }
    assert forall|id: TaskId| #[trigger] has_id(tasks, id) implies lookup(after, id) == lookup(
        tasks,
        id,
    ) by {
        lemma_position(after, id, position(tasks, id));
    }
}

/// The order in which creations go into the store decides only where the
/// tasks stand. Where the same tasks go in in another order, they are all
/// accepted again, as many tasks are live afterwards, and every identifier
/// gives the same task.
pub proof fn lemma_order_of_insertion(
    tasks: Seq<TaskView>,
    new: Seq<TaskView>,
    other: Seq<TaskView>,
)
    requires
        ids_distinct(tasks),
        all_accepted(tasks, new),
        other.to_multiset() == new.to_multiset(),
    ensures
        all_accepted(tasks, other),
        inserted_all(tasks, other).len() == inserted_all(tasks, new).len(),
        forall|id: TaskId|
            lookup(#[trigger] inserted_all(tasks, other), id) == lookup(
                inserted_all(tasks, new),
                id,
            ),
{
    lemma_all_accepted(tasks, new);
    new.to_multiset_ensures();
    other.to_multiset_ensures();
    assert(new.no_duplicates()) by {
        assert forall|i: int, j: int| 0 <= i < new.len() && 0 <= j < new.len() && i != j implies new[i]
            != new[j] by {
            if i < j {
                assert(new[i].id != new[j].id);
            } else {
                assert(new[j].id != new[i].id);
            }
        }
    }
    new.lemma_multiset_has_no_duplicates();
    other.lemma_multiset_has_no_duplicates_conv();
    assert forall|j: int| 0 <= j < other.len() implies new.contains(#[trigger] other[j]) by {
        assert(other.contains(other[j]));
        assert(other.to_multiset().count(other[j]) > 0);
        assert(new.to_multiset().count(other[j]) > 0);
    }
    assert forall|i: int| 0 <= i < new.len() implies other.contains(#[trigger] new[i]) by {
        assert(new.contains(new[i]));
        assert(new.to_multiset().count(new[i]) > 0);
        assert(other.to_multiset().count(new[i]) > 0);
    }
    assert forall|j: int| 0 <= j < other.len() implies !has_id(tasks, (#[trigger] other[j]).id) by {
        let i = choose|i: int| 0 <= i < new.len() && new[i] == other[j];
        assert(!has_id(tasks, new[i].id));
    }
    assert forall|j: int, k: int| 0 <= j < k < other.len() implies other[j].id != other[k].id by {
        let a = choose|i: int| 0 <= i < new.len() && new[i] == other[j];
        let b = choose|i: int| 0 <= i < new.len() && new[i] == other[k];
        if a < b {
            assert(new[a].id != new[b].id);
        } else if b < a {
            assert(new[b].id != new[a].id);
        } else {
            assert(other[j] != other[k]);
        }
    }
    lemma_all_accepted(tasks, other);
    lemma_all_inserted_are_found(tasks, new);
    lemma_all_inserted_are_found(tasks, other);
    lemma_inserted_all_appends(tasks, new);
    lemma_inserted_all_appends(tasks, other);
    let one = tasks + new;
    let two = tasks + other;
    assert forall|id: TaskId| lookup(two, id) == lookup(one, id) by {
        if !has_id(tasks, id) && has_id(one, id) {
            let at = position(one, id);
            let i = at - tasks.len();
            assert(one[at] == new[i]);
            let j = choose|j: int| 0 <= j < other.len() && other[j] == new[i];
            assert(lookup(one, new[i].id) == Some(new[i]));
            assert(lookup(two, other[j].id) == Some(other[j]));
        } else if !has_id(tasks, id) && has_id(two, id) {
            let at = position(two, id);
            let j = at - tasks.len();
            assert(two[at] == other[j]);
            let i = choose|i: int| 0 <= i < new.len() && new[i] == other[j];
            assert(lookup(one, new[i].id) == Some(new[i]));
        }
    }
}

/// After an update the identifier gives the new task, field for field, and
/// the identifiers stay distinct.
pub proof fn lemma_updated_is_found(tasks: Seq<TaskView>, id: TaskId, task: TaskView)
    requires
        ids_distinct(tasks),
        has_id(tasks, id),
        task.id == id,
    ensures
        ids_distinct(replaced(tasks, id, task)),
        lookup(replaced(tasks, id, task), id) == Some(task),
{
    lemma_position(replaced(tasks, id, task), id, position(tasks, id));
}

/// An update changes nothing under any other identifier.
pub proof fn lemma_update_keeps_others(
    tasks: Seq<TaskView>,
    id: TaskId,
    task: TaskView,
    other: TaskId,
)
    requires
        ids_distinct(tasks),
        has_id(tasks, id),
        task.id == id,
        other != id,
    ensures
        lookup(replaced(tasks, id, task), other) == lookup(tasks, other),
{
    lemma_updated_is_found(tasks, id, task);
    if has_id(tasks, other) {
        lemma_position(replaced(tasks, id, task), other, position(tasks, other));
    }
}

/// After a deletion nothing is found under the identifier, one task fewer is
/// live, and the identifiers stay distinct.
pub proof fn lemma_deleted_is_gone(tasks: Seq<TaskView>, id: TaskId)
    requires
        ids_distinct(tasks),
        has_id(tasks, id),
    ensures
        ids_distinct(removed(tasks, id)),
        !has_id(removed(tasks, id), id),
        lookup(removed(tasks, id), id) is None,
        removed(tasks, id).len() == tasks.len() - 1,
{
}

/// A deletion changes nothing under any other identifier.
pub proof fn lemma_delete_keeps_others(tasks: Seq<TaskView>, id: TaskId, other: TaskId)
    requires
        ids_distinct(tasks),
        has_id(tasks, id),
        other != id,
    ensures
        lookup(removed(tasks, id), other) == lookup(tasks, other),
{
    lemma_deleted_is_gone(tasks, id);
    if has_id(tasks, other) {
        let at = position(tasks, id);
        let was = position(tasks, other);
        let now = if was < at {
            was
        } else {
            was - 1
        };
        lemma_position(removed(tasks, id), other, now);
    }
}

} // verus!
