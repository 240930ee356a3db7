//! The decisions of the control-plane routes that touch deployments.
use vstd::prelude::*;
use crate::deployment::{Deployment, Status};

verus! {

/// The filter key that restricts a listing to one namespace.
pub const NAMESPACE_FILTER: &'static str = "namespace";

/// Answer to a successful deletion request.
pub const NO_CONTENT: u16 = 204;

/// Answer to a request on an unknown deployment.
pub const NOT_FOUND: u16 = 404;

/// What the store answered when asked for a deployment by id.
pub enum Lookup {
    Found(Deployment),
    Missing,
    StoreError,
}

/// The answer to a deletion request, and the record to write back, if any.
pub struct DeleteReply {
    pub status_code: u16,
    pub update: Option<Deployment>,
}

/// Handles a deletion request: a known deployment is marked deleted (its
/// instances are drained by the next pass) and written back; an unknown one
/// gets not-found. A store failure writes nothing and is not reported to the
/// caller.
pub fn delete_deployment(lookup: Lookup) -> (r: DeleteReply)
    ensures
        match lookup {
            Lookup::Found(d) => r.status_code == NO_CONTENT && (r.update matches Some(u) && u.status
                == Status::Deleted && u.id == d.id && u.replicas == d.replicas && u.instances@
                == d.instances@),
            Lookup::Missing => r.status_code == NOT_FOUND && r.update is None,
            Lookup::StoreError => r.status_code == NO_CONTENT && r.update is None,
        },
{
    match lookup {
        Lookup::Found(d) => {
            let mut d = d;
            d.mark_deleted();
            DeleteReply { status_code: NO_CONTENT, update: Some(d) }
        },
        Lookup::Missing => DeleteReply { status_code: NOT_FOUND, update: None },
        Lookup::StoreError => DeleteReply { status_code: NO_CONTENT, update: None },
    }
}

/// The store filters of a listing: none, or the namespace asked for.
pub fn list_filters(namespace: Option<String>) -> (r: Vec<(String, String)>)
    ensures
        namespace is None ==> r@.len() == 0,
        namespace matches Some(ns) ==> r@.len() == 1 && r@[0].0@ == NAMESPACE_FILTER@ && r@[0].1@
            == ns@,
{
    let mut r: Vec<(String, String)> = Vec::new();
    match namespace {
        Some(ns) => r.push((NAMESPACE_FILTER.to_string(), ns)),
        None => {},
    }
    r
}

} // verus!
