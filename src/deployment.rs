//! A declared deployment, as the record store hands it to the core.
use vstd::prelude::*;

verus! {

/// The literal of the active status.
pub const ACTIVE_MARKER: &'static str = "active";

/// The literal of the deletion marker: the one value that asks for a drain.
pub const DELETED_MARKER: &'static str = "deleted";

/// The declared intent of a deployment.
#[derive(PartialEq, Eq, Structural, Clone, Copy, Debug)]
pub enum Status {
    Active,
    Deleted,
}

impl Status {
    /// Reads a stored status; `None` for any other literal.
    pub fn parse(s: &String) -> (r: Option<Status>)
        ensures
            s@ == ACTIVE_MARKER@ ==> r == Some(Status::Active),
            s@ == DELETED_MARKER@ ==> r == Some(Status::Deleted),
            s@ != ACTIVE_MARKER@ && s@ != DELETED_MARKER@ ==> r is None,
    {
        proof {
            reveal_strlit("active");
            reveal_strlit("deleted");
            assert(ACTIVE_MARKER@.len() != DELETED_MARKER@.len());
        }
        if *s == ACTIVE_MARKER.to_string() {
            Some(Status::Active)
        } else if *s == DELETED_MARKER.to_string() {
            Some(Status::Deleted)
        } else {
            None
        }
    }

    /// The stored literal of a status.
    pub fn marker(&self) -> (r: String)
        ensures
            r@ == (match self {
                Status::Active => ACTIVE_MARKER@,
                Status::Deleted => DELETED_MARKER@,
            }),
    {
        match self {
            Status::Active => ACTIVE_MARKER.to_string(),
            Status::Deleted => DELETED_MARKER.to_string(),
        }
    }
}

/// A declared workload. `labels` and `secrets` hold JSON objects of strings;
/// `instances` is a cache of the last discovery, never a source of truth.
pub struct Deployment {
    pub id: String,
    pub namespace: String,
    pub name: String,
    pub image: String,
    pub runtime: String,
    pub replicas: u64,
    pub labels: String,
    pub secrets: String,
    pub status: Status,
    pub instances: Vec<String>,
    pub created_at: i64,
    pub updated_at: i64,
}

impl Deployment {
    /// Marks the deployment for deletion; it keeps its instances until a
    /// pass drains them.
    pub fn mark_deleted(&mut self)
        ensures
            final(self).status == Status::Deleted,
            final(self).id == old(self).id,
            final(self).replicas == old(self).replicas,
            final(self).instances@ == old(self).instances@,
    {
        self.status = Status::Deleted;
    }

    /// A deleted deployment whose last pass left no instance: it needs no
    /// further pass.
    pub fn is_drained(&self) -> (r: bool)
        ensures
            r == (self.status == Status::Deleted && self.instances@.len() == 0),
    {
        self.status == Status::Deleted && self.instances.len() == 0
    }

    /// Replaces the cached instance list with what a pass found and made.
    pub fn set_instances(&mut self, instances: Vec<String>)
        ensures
            final(self).instances@ == instances@,
            final(self).id == old(self).id,
            final(self).status == old(self).status,
            final(self).replicas == old(self).replicas,
    {
        self.instances = instances;
    }
}

} // verus!
