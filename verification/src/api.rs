//! The resource handler: one function per endpoint, each mapping a store
//! outcome onto an HTTP status and a body.
//!
//! The five `*_project*` functions run an operation against a
//! [`ProjectStore`] and build the reply. The `respond_*` functions do
//! the mapping alone, from any adapter outcome, so an unverified edge
//! that talks to a real store can reuse exactly the same mapping.

use vstd::prelude::*;

use crate::project::{NewProject, Project};
use crate::store::{
    contains_id, models, spec_create, spec_delete, spec_get, spec_update, ProjectStore, StoreError,
};

verus! {

pub const STATUS_OK: u16 = 200;

pub const STATUS_CREATED: u16 = 201;

pub const STATUS_BAD_REQUEST: u16 = 400;

pub const STATUS_NOT_FOUND: u16 = 404;

pub const STATUS_INTERNAL_ERROR: u16 = 500;

/// What a reply carries: a plain message, one record, or the full
/// listing. Records are handed out as values; serializing them is the
/// edge's business.
pub enum Body {
    Text(String),
    Record(Project),
    Records(Vec<Project>),
}

/// An HTTP reply: a status code and a body.
pub struct Reply {
    pub status: u16,
    pub body: Body,
}

/// The status a failed store operation maps to: 404 for a missing
/// record, 500 for everything else.
pub open spec fn spec_error_status(e: StoreError) -> u16 {
    match e {
        StoreError::NotFound => STATUS_NOT_FOUND,
        StoreError::ConstraintViolation => STATUS_INTERNAL_ERROR,
        StoreError::StoreUnavailable => STATUS_INTERNAL_ERROR,
    }
}

/// Maps a failed store operation to its status code.
pub fn error_status(e: &StoreError) -> (s: u16)
    ensures
        s == spec_error_status(*e),
{
    match e {
        StoreError::NotFound => STATUS_NOT_FOUND,
        StoreError::ConstraintViolation => STATUS_INTERNAL_ERROR,
        StoreError::StoreUnavailable => STATUS_INTERNAL_ERROR,
    }
}

/// The reply to a request whose path id or body did not parse.
pub fn reply_bad_request() -> (rep: Reply)
    ensures
        rep.status == STATUS_BAD_REQUEST,
        rep.body is Text,
{
    Reply { status: STATUS_BAD_REQUEST, body: Body::Text("Bad request".to_owned()) }
}

/// A listing outcome: 200 with every record, or 500.
pub fn respond_list(r: Result<Vec<Project>, StoreError>) -> (rep: Reply)
    ensures
        match r {
            Result::Ok(ps) => rep.status == STATUS_OK && rep.body == Body::Records(ps),
            Result::Err(e) => rep.status == STATUS_INTERNAL_ERROR && rep.body is Text,
        },
{
    match r {
        Result::Ok(ps) => Reply { status: STATUS_OK, body: Body::Records(ps) },
        Result::Err(e) => Reply {
            status: STATUS_INTERNAL_ERROR,
            body: Body::Text("Error fetching projects".to_owned()),
        },
    }
}

/// A lookup outcome: 200 with the record, 404 when it is absent, 500 on
/// any other store failure.
pub fn respond_get(r: Result<Project, StoreError>) -> (rep: Reply)
    ensures
        match r {
            Result::Ok(p) => rep.status == STATUS_OK && rep.body == Body::Record(p),
            Result::Err(e) => rep.status == spec_error_status(e) && rep.body is Text,
        },
{
    match r {
        Result::Ok(p) => Reply { status: STATUS_OK, body: Body::Record(p) },
        Result::Err(StoreError::NotFound) => Reply {
            status: STATUS_NOT_FOUND,
            body: Body::Text("Project not found".to_owned()),
        },
        Result::Err(e) => {
            let status = error_status(&e);
            Reply { status: status, body: Body::Text("Error fetching project".to_owned()) }
        },
    }
}

/// A creation outcome: 201 with the created record, or 500.
pub fn respond_create(r: Result<Project, StoreError>) -> (rep: Reply)
    ensures
        match r {
            Result::Ok(p) => rep.status == STATUS_CREATED && rep.body == Body::Record(p),
            Result::Err(e) => rep.status == STATUS_INTERNAL_ERROR && rep.body is Text,
        },
{
    match r {
        Result::Ok(p) => Reply { status: STATUS_CREATED, body: Body::Record(p) },
        Result::Err(e) => Reply {
            status: STATUS_INTERNAL_ERROR,
            body: Body::Text("Error creating project".to_owned()),
        },
    }
}

/// An update outcome: 200 on success, 404 when the id is absent, 500 on
/// any other store failure.
pub fn respond_update(r: Result<(), StoreError>) -> (rep: Reply)
    ensures
        match r {
            Result::Ok(u) => rep.status == STATUS_OK && rep.body is Text,
            Result::Err(e) => rep.status == spec_error_status(e) && rep.body is Text,
        },
{
    match r {
        Result::Ok(u) => Reply { status: STATUS_OK, body: Body::Text("Project updated".to_owned()) },
        Result::Err(StoreError::NotFound) => Reply {
            status: STATUS_NOT_FOUND,
            body: Body::Text("Project not found".to_owned()),
        },
        Result::Err(e) => {
            let status = error_status(&e);
            Reply { status: status, body: Body::Text("Error updating project".to_owned()) }
        },
    }
}

/// A deletion outcome: 200 on success, 404 when the id is absent, 500 on
/// any other store failure.
pub fn respond_delete(r: Result<(), StoreError>) -> (rep: Reply)
    ensures
        match r {
            Result::Ok(u) => rep.status == STATUS_OK && rep.body is Text,
            Result::Err(e) => rep.status == spec_error_status(e) && rep.body is Text,
        },
{
    match r {
        Result::Ok(u) => Reply { status: STATUS_OK, body: Body::Text("Project deleted".to_owned()) },
        Result::Err(StoreError::NotFound) => Reply {
            status: STATUS_NOT_FOUND,
            body: Body::Text("Project not found".to_owned()),
        },
        Result::Err(e) => {
            let status = error_status(&e);
            Reply { status: status, body: Body::Text("Error deleting project".to_owned()) }
        },
    }
}

/// GET /projects: 200 with every record, in insertion order.
pub fn get_projects(store: &ProjectStore) -> (rep: Reply)
    ensures
        rep.status == STATUS_OK,
        match rep.body {
            Body::Records(ps) => models(ps@) =~= store@,
            _ => false,
        },
{
    respond_list(Result::Ok(store.list()))
}

/// GET /projects/{id}: 200 with the one record carrying `id`, or 404.
pub fn get_project(store: &ProjectStore, id: i64) -> (rep: Reply)
    requires
        store.wf(),
    ensures
        match spec_get(store@, id as int) {
            Option::Some(p) => rep.status == STATUS_OK && (match rep.body {
                Body::Record(q) => q@ == p,
                _ => false,
            }),
            Option::None => rep.status == STATUS_NOT_FOUND && rep.body is Text,
        },
{
    respond_get(store.get(id))
}

/// POST /projects: append a record under a fresh id and answer 201 with
/// it; 500 only when the id space is exhausted, leaving the table as it
/// was.
pub fn create_project(store: &mut ProjectStore, np: NewProject) -> (rep: Reply)
    requires
        old(store).wf(),
    ensures
        final(store).wf(),
        final(store).spec_next_id() >= old(store).spec_next_id(),
        if old(store).spec_next_id() < i64::MAX {
            &&& rep.status == STATUS_CREATED
            &&& final(store)@ =~= spec_create(old(store)@, old(store).spec_next_id(), np@)
            &&& match rep.body {
                Body::Record(q) => q@ == np@.with_id(old(store).spec_next_id()) && !contains_id(
                    old(store)@,
                    q@.id,
                ),
                _ => false,
            }
        } else {
            &&& rep.status == STATUS_INTERNAL_ERROR
            &&& final(store)@ == old(store)@
            &&& rep.body is Text
        },
{
    let fields = np.clone();
    match store.create(np) {
        Result::Ok(id) => {
            let created = Project {
                id: id,
                title: fields.title,
                description: fields.description,
                github_url: fields.github_url,
            };
            respond_create(Result::Ok(created))
        },
        Result::Err(e) => respond_create(Result::Err(e)),
    }
}

/// PUT /projects/{id}: replace the three mutable fields of the record
/// carrying `id` and answer 200; 404 when no record carries `id`, and
/// then the table is unchanged.
pub fn update_project(store: &mut ProjectStore, id: i64, np: NewProject) -> (rep: Reply)
    requires
        old(store).wf(),
    ensures
        final(store).wf(),
        final(store).spec_next_id() == old(store).spec_next_id(),
        if contains_id(old(store)@, id as int) {
            &&& rep.status == STATUS_OK
            &&& final(store)@ =~= spec_update(old(store)@, id as int, np@)
            &&& rep.body is Text
        } else {
            &&& rep.status == STATUS_NOT_FOUND
            &&& final(store)@ == old(store)@
            &&& rep.body is Text
        },
{
    respond_update(store.update(id, np))
}

/// DELETE /projects/{id}: remove the record carrying `id` and answer
/// 200; 404 when no record carries `id`, and then the table is
/// unchanged, so repeating a deletion is harmless.
pub fn delete_project(store: &mut ProjectStore, id: i64) -> (rep: Reply)
    requires
        old(store).wf(),
    ensures
        final(store).wf(),
        final(store).spec_next_id() == old(store).spec_next_id(),
        if contains_id(old(store)@, id as int) {
            &&& rep.status == STATUS_OK
            &&& final(store)@ =~= spec_delete(old(store)@, id as int)
            &&& rep.body is Text
        } else {
            &&& rep.status == STATUS_NOT_FOUND
            &&& final(store)@ == old(store)@
            &&& rep.body is Text
        },
{
    respond_delete(store.delete(id))
}

} // verus!
