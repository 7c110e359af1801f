//! What each request does to the store, and what it is answered with.
//!
//! The functions here decide; receiving the request, talking to the
//! completion service and sending the answer are the caller's part.

use vstd::prelude::*;
use crate::enrichment::{analysis_view, EnrichmentError};
use crate::store::{has_id, ids_distinct, lookup, removed, replaced, views, StoreError, TaskStore};
use crate::task::{Task, TaskId, TaskView};

verus! {

/// The status of an answer.
#[derive(Clone, Copy, Debug, PartialEq, Eq, Structural)]
pub enum Status {
    Success,
    Created,
    NoContent,
    BadRequest,
    NotFound,
    InternalServerError,
}

impl Status {
    /// The status as an HTTP status code.
    pub open spec fn number(self) -> u16 {
        match self {
            Status::Success => 200,
            Status::Created => 201,
            Status::NoContent => 204,
            Status::BadRequest => 400,
            Status::NotFound => 404,
            Status::InternalServerError => 500,
        }
    }

    /// The status as an HTTP status code.
    pub fn code(self) -> (code: u16)
        ensures
            code == self.number(),
    {
        match self {
            Status::Success => 200,
            Status::Created => 201,
            Status::NoContent => 204,
            Status::BadRequest => 400,
            Status::NotFound => 404,
            Status::InternalServerError => 500,
        }
    }
}

/// The status that tells of a refusal by the store.
pub open spec fn refusal(error: StoreError) -> Status {
    match error {
        StoreError::NotFound => Status::NotFound,
        StoreError::IdMismatch => Status::BadRequest,
        StoreError::DuplicateId => Status::InternalServerError,
    }
}

/// The status that tells of a refusal by the store.
pub fn refusal_status(error: StoreError) -> (status: Status)
    ensures
        status == refusal(error),
{
    match error {
        StoreError::NotFound => Status::NotFound,
        StoreError::IdMismatch => Status::BadRequest,
        StoreError::DuplicateId => Status::InternalServerError,
    }
}

/// Answers a request for all tasks: every live task, with `Success`.
pub fn list_tasks(store: &TaskStore) -> (reply: (Status, Vec<Task>))
    ensures
        reply.0 == Status::Success,
        views(reply.1@) == store@,
        ids_distinct(store@),
{
    (Status::Success, store.list())
}

/// The task that a creation request ends with: the draft with the priority
/// and the estimate that the analysis gave, and the draft itself where the
/// analysis failed. Identifier, title and completion are the draft's in
/// either case.
pub open spec fn created(draft: TaskView, analysis: Result<TaskView, EnrichmentError>) -> TaskView {
    match analysis {
        Ok(enriched) => TaskView {
            priority: enriched.priority,
            estimated_time: enriched.estimated_time,
            ..draft
        },
        Err(_) => draft,
    }
}

/// Ends a creation request: the draft, with the priority and the estimate
/// of the analysis, goes into the store and is answered with `Created`. A
/// failed analysis does not fail the request: the draft goes in as it is.
/// Only where a live task has the identifier already, nothing is stored and
/// the answer is `InternalServerError`.
pub fn create_task(
    store: &mut TaskStore,
    draft: Task,
    analysis: Result<Task, EnrichmentError>,
) -> (reply: (Status, Task))
    ensures
        ids_distinct(final(store)@),
        reply.1@ == created(draft@, analysis_view(analysis)),
        !has_id(old(store)@, draft.id) ==> ({
            &&& reply.0 == Status::Created
            &&& final(store)@ == old(store)@.push(reply.1@)
            &&& lookup(final(store)@, draft.id) == Some(reply.1@)
        }),
        has_id(old(store)@, draft.id) ==> ({
            &&& reply.0 == Status::InternalServerError
            &&& final(store)@ == old(store)@
        }),
{
    let task = match analysis {
        Ok(enriched) => Task {
            id: draft.id,
            title: draft.title,
            completed: draft.completed,
            priority: enriched.priority,
            estimated_time: enriched.estimated_time,
        },
        Err(_) => draft,
    };
    match store.insert(task.clone()) {
        Ok(()) => (Status::Created, task),
        Err(error) => (refusal_status(error), task),
    }
}

/// Answers a request for one task: the task with `Success`, or `NotFound`.
pub fn get_task(store: &TaskStore, id: TaskId) -> (reply: (Status, Option<Task>))
    ensures
        ids_distinct(store@),
        reply.1 matches Some(task) ==> reply.0 == Status::Success && lookup(store@, id) == Some(
            task@,
        ),
        reply.1 is None ==> reply.0 == Status::NotFound && lookup(store@, id) is None,
{
    match store.get(id) {
        Ok(task) => (Status::Success, Some(task)),
        Err(error) => (refusal_status(error), None),
    }
}

/// Answers a request to replace a task: the new task with `Success`;
/// `NotFound` where no live task has the identifier; `BadRequest` where the
/// new task carries another identifier. The store changes only in the first
/// case.
pub fn update_task(store: &mut TaskStore, id: TaskId, payload: Task) -> (reply: (
    Status,
    Option<Task>,
))
    ensures
        ids_distinct(final(store)@),
        !has_id(old(store)@, id) ==> ({
            &&& reply.0 == Status::NotFound
            &&& reply.1 is None
            &&& final(store)@ == old(store)@
        }),
        has_id(old(store)@, id) && payload.id != id ==> ({
            &&& reply.0 == Status::BadRequest
            &&& reply.1 is None
            &&& final(store)@ == old(store)@
        }),
        has_id(old(store)@, id) && payload.id == id ==> ({
            &&& reply.0 == Status::Success
            &&& reply.1 matches Some(task) && task@ == payload@
            &&& final(store)@ == replaced(old(store)@, id, payload@)
            &&& lookup(final(store)@, id) == Some(payload@)
        }),
{
    match store.update(id, payload) {
        Ok(task) => (Status::Success, Some(task)),
        Err(error) => (refusal_status(error), None),
    }
}

/// Answers a request to delete a task: `NoContent` where it was live, and
/// `NotFound`, with the store unchanged, where it was not.
pub fn delete_task(store: &mut TaskStore, id: TaskId) -> (status: Status)
    ensures
        ids_distinct(final(store)@),
        lookup(final(store)@, id) is None,
        has_id(old(store)@, id) ==> ({
            &&& status == Status::NoContent
            &&& final(store)@ == removed(old(store)@, id)
        }),
        !has_id(old(store)@, id) ==> ({
            &&& status == Status::NotFound
            &&& final(store)@ == old(store)@
        }),
{
    match store.delete(id) {
        Ok(()) => Status::NoContent,
        Err(error) => refusal_status(error),
    }
}

} // verus!
