//! Turning one declared deployment of a configuration document into the
//! request that creates it: the runtime is checked, the label sets are
//! flattened and the secrets resolved, each map then written as JSON.
use vstd::prelude::*;
use crate::labels::{concat_entries, encode_string_map, encoded_string_map, label_map, merge_labels, resolve_labels};
use crate::secrets::{resolve_secrets, resolved_secret};

verus! {

/// The one container runtime that deployments may name.
pub const SUPPORTED_RUNTIME: &'static str = "docker";

/// Why a declared deployment is refused.
#[derive(PartialEq, Eq, Structural, Clone, Copy, Debug)]
pub enum IngestError {
    UnsupportedRuntime,
    NegativeReplicas,
}

/// The fields of a deployment to create, labels and secrets as JSON objects.
pub struct DeploymentRequest {
    pub name: String,
    pub image: String,
    pub runtime: String,
    pub namespace: String,
    pub replicas: u64,
    pub labels: String,
    pub secrets: String,
}

/// The map of resolved secrets: `lookups[i]` is the environment's value for
/// the variable that `raw[i]` refers to; a later key overrides an earlier.
pub open spec fn secret_map(raw: Seq<(String, String)>, lookups: Seq<Option<String>>) -> Map<
    Seq<char>,
    Seq<char>,
>
    decreases raw.len(),
{
    if raw.len() == 0 {
        Map::empty()
    } else {
        secret_map(raw.drop_last(), lookups).insert(
            raw.last().0@,
            resolved_secret(raw.last().1@, lookups[raw.len() - 1]),
        )
    }
}

proof fn lemma_secret_map(r: Seq<(String, String)>, raw: Seq<(String, String)>, lookups: Seq<Option<String>>)
    requires
        r.len() == raw.len(),
        forall|i: int|
            0 <= i < raw.len() ==> (#[trigger] r[i]).0@ == raw[i].0@ && r[i].1@ == resolved_secret(
                raw[i].1@,
                lookups[i],
            ),
    ensures
        label_map(r) == secret_map(raw, lookups),
    decreases raw.len(),
{
    if raw.len() > 0 {
        let n = raw.len() - 1;
        assert(r[n].0@ == raw[n].0@);
        lemma_secret_map(r.drop_last(), raw.drop_last(), lookups);
    }
}

/// Builds the request for one declared deployment. The runtime must be the
/// supported one and the replica count non-negative; the label sets are
/// flattened (a later declaration of a key wins) and the secrets resolved
/// from `lookups`, the environment's value for each secret's variable.
pub fn build_request(
    name: &String,
    image: &String,
    runtime: &String,
    namespace: &String,
    replicas: i64,
    label_sets: &Vec<Vec<(String, String)>>,
    secrets: &Vec<(String, String)>,
    lookups: &Vec<Option<String>>,
) -> (r: Result<DeploymentRequest, IngestError>)
    requires
        lookups@.len() == secrets@.len(),
    ensures
        runtime@ != SUPPORTED_RUNTIME@ ==> r == Err::<DeploymentRequest, IngestError>(
            IngestError::UnsupportedRuntime,
        ),
        runtime@ == SUPPORTED_RUNTIME@ && replicas < 0 ==> r == Err::<
            DeploymentRequest,
            IngestError,
        >(IngestError::NegativeReplicas),
        runtime@ == SUPPORTED_RUNTIME@ && replicas >= 0 ==> (r matches Ok(req) && req.name@ == name@
            && req.image@ == image@ && req.runtime@ == runtime@ && req.namespace@ == namespace@
            && req.replicas == replicas && req.labels@ == encoded_string_map(
            label_map(concat_entries(label_sets@)),
        ) && req.secrets@ == encoded_string_map(secret_map(secrets@, lookups@))),
{
    if *runtime != SUPPORTED_RUNTIME.to_string() {
        return Err(IngestError::UnsupportedRuntime);
    }
    if replicas < 0 {
        return Err(IngestError::NegativeReplicas);
    }
    let labels = resolve_labels(label_sets);
    let resolved = resolve_secrets(secrets, lookups);
    let mut secret_pairs: Vec<(String, String)> = Vec::new();
    merge_labels(&mut secret_pairs, &resolved);
    proof {
        assert(Seq::<(String, String)>::empty() + resolved@ =~= resolved@);
        lemma_secret_map(resolved@, secrets@, lookups@);
    }
    Ok(DeploymentRequest {
        name: name.clone(),
        image: image.clone(),
        runtime: runtime.clone(),
        namespace: namespace.clone(),
        replicas: replicas as u64,
        labels: encode_string_map(&labels),
        secrets: encode_string_map(&secret_pairs),
    })
}

} // verus!
