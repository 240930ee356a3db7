//! The decisions around the container runtime: which containers belong to a
//! deployment, what a new container is labelled with, which network it joins,
//! and the steps that create one.
use vstd::prelude::*;
use crate::labels::{
    decoded_string_map, decode_string_map, keys_unique, label_map, lemma_label_map_entries, merge_labels,
    set_label,
};

verus! {

/// The label that binds a container to the deployment whose id it holds.
pub const OWNER_LABEL: &'static str = "ring_deployment";

/// Every namespace network is named with this prefix before the namespace.
pub const NETWORK_PREFIX: &'static str = "ring_";

/// Separates the name from the value in an environment entry.
pub const ENV_SEPARATOR: &'static str = "=";

/// A container as the runtime lists it: its id and its labels.
pub struct ContainerSummary {
    pub id: String,
    pub labels: Vec<(String, String)>,
}

/// The container carries the ownership label with the given deployment id.
pub open spec fn owned_by(c: ContainerSummary, deployment_id: Seq<char>) -> bool {
    exists|i: int|
        0 <= i < c.labels@.len() && (#[trigger] c.labels@[i]).0@ == OWNER_LABEL@ && c.labels@[i].1@
            == deployment_id
}

/// The ids of the owned containers, in the order the runtime listed them.
pub open spec fn owned_ids(cs: Seq<ContainerSummary>, deployment_id: Seq<char>) -> Seq<String>
    decreases cs.len(),
{
    if cs.len() == 0 {
        Seq::empty()
    } else if owned_by(cs.last(), deployment_id) {
        owned_ids(cs.drop_last(), deployment_id).push(cs.last().id)
    } else {
        owned_ids(cs.drop_last(), deployment_id)
    }
}

fn is_owned(c: &ContainerSummary, owner: &String, deployment_id: &String) -> (r: bool)
    requires
        owner@ == OWNER_LABEL@,
    ensures
        r == owned_by(*c, deployment_id@),
{
    let mut i: usize = 0;
    while i < c.labels.len()
        invariant
            i <= c.labels@.len(),
            owner@ == OWNER_LABEL@,
            forall|k: int|
                0 <= k < i ==> !((#[trigger] c.labels@[k]).0@ == OWNER_LABEL@ && c.labels@[k].1@
                    == deployment_id@),
        decreases c.labels@.len() - i,
    {
        if c.labels[i].0 == *owner && c.labels[i].1 == *deployment_id {
            return true;
        }
        i = i + 1;
    }
    false
}

/// The instances of a deployment: the ids of the listed containers that carry
/// its ownership label, whoever created them.
pub fn owned_instances(containers: &Vec<ContainerSummary>, deployment_id: &String) -> (r: Vec<String>)
    ensures
        r@ == owned_ids(containers@, deployment_id@),
{
    let owner = OWNER_LABEL.to_string();
    let mut r: Vec<String> = Vec::new();
    let mut i: usize = 0;
    while i < containers.len()
        invariant
            i <= containers@.len(),
            owner@ == OWNER_LABEL@,
            r@ == owned_ids(containers@.subrange(0, i as int), deployment_id@),
        decreases containers@.len() - i,
    {
        proof {
            assert(containers@.subrange(0, i + 1).drop_last() =~= containers@.subrange(0, i as int));
        }
        if is_owned(&containers[i], &owner, deployment_id) {
            r.push(containers[i].id.clone());
        }
        i = i + 1;
    }
    proof {
        assert(containers@.subrange(0, containers@.len() as int) =~= containers@);
    }
    r
}

/// The labels of a new container of a deployment: its declared labels, kept
/// as a JSON object, with the ownership label set to the deployment's id
/// over any declared value of that key. `None` when the declared labels do
/// not decode.
pub fn container_labels(deployment_id: &String, labels_json: &String) -> (r: Option<Vec<(String, String)>>)
    ensures
        match decoded_string_map(labels_json@) {
            None => r is None,
            Some(m) => r matches Some(v) && keys_unique(v@) && label_map(v@) == m.insert(
                OWNER_LABEL@,
                deployment_id@,
            ),
        },
{
    match decode_string_map(labels_json) {
        None => None,
        Some(declared) => {
            let mut v: Vec<(String, String)> = Vec::new();
            merge_labels(&mut v, &declared);
            proof {
                assert(Seq::<(String, String)>::empty() + declared@ =~= declared@);
            }
            let owner = OWNER_LABEL.to_string();
            set_label(&mut v, &owner, deployment_id);
            Some(v)
        },
    }
}

/// The environment entry that passes one secret to a container.
pub open spec fn env_entry(key: Seq<char>, value: Seq<char>) -> Seq<char> {
    key + ENV_SEPARATOR@ + value
}

/// Each entry of `v` passes one secret of `m`, and each secret of `m` is
/// passed by an entry of `v`.
pub open spec fn is_env_of(v: Seq<String>, m: Map<Seq<char>, Seq<char>>) -> bool {
    &&& forall|i: int|
        0 <= i < v.len() ==> exists|k: Seq<char>| m.contains_key(k) && (#[trigger] v[i])@ == env_entry(k, m[k])
    &&& forall|k: Seq<char>|
        #[trigger] m.contains_key(k) ==> exists|i: int| 0 <= i < v.len() && v[i]@ == env_entry(k, m[k])
}

/// The environment of a new container: one `KEY=VALUE` entry for each
/// secret of the deployment, kept as a JSON object. `None` when the secrets
/// do not decode.
pub fn container_env(secrets_json: &String) -> (r: Option<Vec<String>>)
    ensures
        match decoded_string_map(secrets_json@) {
            None => r is None,
            Some(m) => r matches Some(v) && is_env_of(v@, m),
        },
{
    match decode_string_map(secrets_json) {
        None => None,
        Some(declared) => {
            let mut pairs: Vec<(String, String)> = Vec::new();
            merge_labels(&mut pairs, &declared);
            proof {
                assert(Seq::<(String, String)>::empty() + declared@ =~= declared@);
                lemma_label_map_entries(pairs@);
            }
            let ghost m = label_map(pairs@);
            let mut v: Vec<String> = Vec::new();
            let mut i: usize = 0;
            while i < pairs.len()
                invariant
                    i <= pairs@.len(),
                    v@.len() == i,
                    m == label_map(pairs@),
                    forall|j: int|
                        0 <= j < i ==> (#[trigger] v@[j])@ == env_entry(pairs@[j].0@, pairs@[j].1@),
                decreases pairs@.len() - i,
            {
                let mut e = pairs[i].0.clone();
                e.append(ENV_SEPARATOR);
                e.append(pairs[i].1.as_str());
                v.push(e);
                i = i + 1;
            }
            proof {
                assert forall|j: int| 0 <= j < v@.len() implies exists|k: Seq<char>|
                    m.contains_key(k) && (#[trigger] v@[j])@ == env_entry(k, m[k]) by {
                    assert(m.contains_key(pairs@[j].0@));
                }
                assert forall|k: Seq<char>| #[trigger] m.contains_key(k) implies exists|j: int|
                    0 <= j < v@.len() && v@[j]@ == env_entry(k, m[k]) by {
                    let j = choose|j: int| 0 <= j < pairs@.len() && pairs@[j].0@ == k;
                    assert(v@[j]@ == env_entry(k, m[k]));
                }
                assert(is_env_of(v@, m));
                assert(decoded_string_map(secrets_json@) == Some(m));
            }
            Some(v)
        },
    }
}

/// The name of a namespace's network.
pub fn network_name(namespace: &String) -> (r: String)
    ensures
        r@ == NETWORK_PREFIX@ + namespace@,
{
    let mut r = NETWORK_PREFIX.to_string();
    r.append(namespace.as_str());
    r
}

/// Where the creation of one instance stands.
pub enum Creation {
    PullImage,
    InspectNetwork,
    CreateNetwork,
    CreateContainer,
    StartContainer(String),
    Created(String),
    Aborted,
}

/// What the runtime answered to the last step.
pub enum Reply {
    Done,
    NotFound,
    Failed,
    ContainerCreated(String),
}

/// The step that follows a reply. The image is pulled, the namespace network
/// is inspected and created only where the runtime says it is not found (any
/// other inspection error aborts), the container is created and then started.
/// Any failure aborts this creation; a finished creation stays as it is.
pub open spec fn next_creation(stage: Creation, reply: Reply) -> Creation {
    match stage {
        Creation::PullImage => match reply {
            Reply::Done => Creation::InspectNetwork,
            _ => Creation::Aborted,
        },
        Creation::InspectNetwork => match reply {
            Reply::Done => Creation::CreateContainer,
            Reply::NotFound => Creation::CreateNetwork,
            _ => Creation::Aborted,
        },
        Creation::CreateNetwork => match reply {
            Reply::Done => Creation::CreateContainer,
            _ => Creation::Aborted,
        },
        Creation::CreateContainer => match reply {
            Reply::ContainerCreated(id) => Creation::StartContainer(id),
            _ => Creation::Aborted,
        },
        Creation::StartContainer(id) => match reply {
            Reply::Done => Creation::Created(id),
            _ => Creation::Aborted,
        },
        Creation::Created(id) => Creation::Created(id),
        Creation::Aborted => Creation::Aborted,
    }
}

impl Creation {
    /// Where every creation starts.
    pub fn start() -> (r: Creation)
        ensures
            r == Creation::PullImage,
    {
        Creation::PullImage
    }

    /// The creation has finished, either way.
    pub fn is_finished(&self) -> (r: bool)
        ensures
            r == (self is Created || self is Aborted),
    {
        match self {
            Creation::Created(_) | Creation::Aborted => true,
            _ => false,
        }
    }

    /// Moves to the step that follows `reply`.
    pub fn advance(self, reply: Reply) -> (r: Creation)
        ensures
            r == next_creation(self, reply),
    {
        match self {
            Creation::PullImage => match reply {
                Reply::Done => Creation::InspectNetwork,
                _ => Creation::Aborted,
            },
            Creation::InspectNetwork => match reply {
                Reply::Done => Creation::CreateContainer,
                Reply::NotFound => Creation::CreateNetwork,
                _ => Creation::Aborted,
            },
            Creation::CreateNetwork => match reply {
                Reply::Done => Creation::CreateContainer,
                _ => Creation::Aborted,
            },
            Creation::CreateContainer => match reply {
                Reply::ContainerCreated(id) => Creation::StartContainer(id),
                _ => Creation::Aborted,
            },
            Creation::StartContainer(id) => match reply {
                Reply::Done => Creation::Created(id),
                _ => Creation::Aborted,
            },
            Creation::Created(id) => Creation::Created(id),
            Creation::Aborted => Creation::Aborted,
        }
    }
}

} // verus!
