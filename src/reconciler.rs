//! One reconciliation pass of one deployment: what to create and remove from
//! a discovery snapshot, and the instance list that the runtime's answers
//! leave behind. Running the calls themselves is up to the caller.
use vstd::prelude::*;
use crate::deployment::Status;

verus! {

/// How many instances a pass creates: the shortfall of an active deployment.
pub open spec fn planned_creates(status: Status, replicas: nat, found: nat) -> nat {
    match status {
        Status::Deleted => 0,
        Status::Active => if found < replicas {
            (replicas - found) as nat
        } else {
            0
        },
    }
}

/// How many instances a pass removes: all of a deleted deployment, else the
/// excess over the replica count.
pub open spec fn planned_removes(status: Status, replicas: nat, found: nat) -> nat {
    match status {
        Status::Deleted => found,
        Status::Active => if found > replicas {
            (found - replicas) as nat
        } else {
            0
        },
    }
}

/// The work of one pass: `creates` new instances, and the instances to stop
/// and remove, taken from the head of the discovered list.
pub struct Plan {
    pub creates: u64,
    pub removals: Vec<String>,
}

/// Decides a pass from the discovered instances. A deleted deployment is
/// drained whatever its replica count; an active one is brought to its
/// replica count, removing from the head of the list when over it.
pub fn plan_pass(status: Status, replicas: u64, discovered: &Vec<String>) -> (p: Plan)
    ensures
        p.creates == planned_creates(status, replicas as nat, discovered@.len()),
        p.removals@ == discovered@.subrange(
            0,
            planned_removes(status, replicas as nat, discovered@.len()) as int,
        ),
{
    let found = discovered.len();
    let (creates, removes): (u64, usize) = match status {
        Status::Deleted => (0, found),
        Status::Active => if (found as u64) < replicas {
            (replicas - found as u64, 0)
        } else {
            (0, found - replicas as usize)
        },
    };
    let mut removals: Vec<String> = Vec::new();
    let mut i: usize = 0;
    while i < removes
        invariant
            removes <= discovered@.len(),
            i <= removes,
            removals@ == discovered@.subrange(0, i as int),
        decreases removes - i,
    {
        removals.push(discovered[i].clone());
        proof {
            assert(removals@ =~= discovered@.subrange(0, i + 1));
        }
        i = i + 1;
    }
    Plan { creates, removals }
}

/// Decides a pass from a discovery snapshot, `None` when the runtime could
/// not be listed: an unreliable snapshot is never read as "no instance", so
/// no work is planned from it.
pub fn plan_from_snapshot(status: Status, replicas: u64, snapshot: &Option<Vec<String>>) -> (p: Option<Plan>)
    ensures
        snapshot is None ==> p is None,
        snapshot matches Some(found) ==> (p matches Some(plan) && plan.creates == planned_creates(
            status,
            replicas as nat,
            found@.len(),
        ) && plan.removals@ == found@.subrange(
            0,
            planned_removes(status, replicas as nat, found@.len()) as int,
        )),
{
    match snapshot {
        Some(found) => Some(plan_pass(status, replicas, found)),
        None => None,
    }
}

/// The instances among `ids` whose removal did not succeed.
pub open spec fn kept(ids: Seq<String>, removed: Seq<bool>) -> Seq<String>
    decreases ids.len(),
{
    if ids.len() == 0 {
        Seq::empty()
    } else if removed[ids.len() - 1] {
        kept(ids.drop_last(), removed)
    } else {
        kept(ids.drop_last(), removed).push(ids.last())
    }
}

/// The ids of the creations that succeeded.
pub open spec fn made(created: Seq<Option<String>>) -> Seq<String>
    decreases created.len(),
{
    if created.len() == 0 {
        Seq::empty()
    } else {
        match created.last() {
            Some(id) => made(created.drop_last()).push(id),
            None => made(created.drop_last()),
        }
    }
}

/// How many entries are `false`.
pub open spec fn count_false(s: Seq<bool>) -> nat
    decreases s.len(),
{
    if s.len() == 0 {
        0
    } else {
        count_false(s.drop_last()) + if s.last() {
            0nat
        } else {
            1nat
        }
    }
}

/// How many entries are `None`.
pub open spec fn count_none(s: Seq<Option<String>>) -> nat
    decreases s.len(),
{
    if s.len() == 0 {
        0
    } else {
        count_none(s.drop_last()) + if s.last() is None {
            1nat
        } else {
            0nat
        }
    }
}

/// The instance list after a pass: the planned removals that failed, the
/// discovered instances that were not to be removed, then the new ones.
pub open spec fn pass_instances(
    discovered: Seq<String>,
    removals: Seq<String>,
    removed: Seq<bool>,
    created: Seq<Option<String>>,
) -> Seq<String> {
    kept(removals, removed) + discovered.subrange(removals.len() as int, discovered.len() as int)
        + made(created)
}

/// What a pass leaves: the instance list to persist, and how many removals
/// and creations failed (each is retried by a later pass).
pub struct PassOutcome {
    pub instances: Vec<String>,
    pub failed_removals: u64,
    pub failed_creations: u64,
}

/// Gathers the runtime's answers to a plan: `removed[i]` tells whether
/// `plan.removals[i]` was removed, `created[i]` holds the id of the `i`-th
/// creation if it succeeded.
pub fn finish_pass(
    discovered: &Vec<String>,
    plan: &Plan,
    removed: &Vec<bool>,
    created: &Vec<Option<String>>,
) -> (o: PassOutcome)
    requires
        plan.removals@.len() <= discovered@.len(),
        removed@.len() == plan.removals@.len(),
        created@.len() == plan.creates,
    ensures
        o.instances@ == pass_instances(discovered@, plan.removals@, removed@, created@),
        o.failed_removals == count_false(removed@),
        o.failed_creations == count_none(created@),
{
    let mut instances: Vec<String> = Vec::new();
    let mut failed_removals: u64 = 0;
    let mut i: usize = 0;
    while i < plan.removals.len()
        invariant
            removed@.len() == plan.removals@.len(),
            i <= plan.removals@.len(),
            instances@ == kept(plan.removals@.subrange(0, i as int), removed@),
            failed_removals == count_false(removed@.subrange(0, i as int)),
            failed_removals <= i,
        decreases plan.removals@.len() - i,
    {
        proof {
            assert(plan.removals@.subrange(0, i + 1).drop_last() =~= plan.removals@.subrange(0, i as int));
            assert(removed@.subrange(0, i + 1).drop_last() =~= removed@.subrange(0, i as int));
        }
        if removed[i] {
        } else {
            instances.push(plan.removals[i].clone());
            failed_removals = failed_removals + 1;
        }
        i = i + 1;
    }
    proof {
        assert(plan.removals@.subrange(0, i as int) =~= plan.removals@);
        assert(removed@.subrange(0, i as int) =~= removed@);
    }
    let ghost after_removals = instances@;
    let mut j: usize = plan.removals.len();
    while j < discovered.len()
        invariant
            plan.removals@.len() <= j <= discovered@.len(),
            instances@ == after_removals + discovered@.subrange(plan.removals@.len() as int, j as int),
        decreases discovered@.len() - j,
    {
        instances.push(discovered[j].clone());
        proof {
            assert(instances@ =~= after_removals + discovered@.subrange(plan.removals@.len() as int, j + 1));
        }
        j = j + 1;
    }
    let ghost before_made = instances@;
    let mut failed_creations: u64 = 0;
    let mut k: usize = 0;
    while k < created.len()
        invariant
            k <= created@.len(),
            instances@ == before_made + made(created@.subrange(0, k as int)),
            failed_creations == count_none(created@.subrange(0, k as int)),
            failed_creations <= k,
        decreases created@.len() - k,
    {
        proof {
            assert(created@.subrange(0, k + 1).drop_last() =~= created@.subrange(0, k as int));
        }
        match &created[k] {
            Some(id) => {
                instances.push(id.clone());
                proof {
                    assert(instances@ =~= before_made + made(created@.subrange(0, k + 1)));
                }
            },
            None => {
                failed_creations = failed_creations + 1;
            },
        }
        k = k + 1;
    }
    proof {
        assert(created@.subrange(0, k as int) =~= created@);
    }
    PassOutcome { instances, failed_removals, failed_creations }
}

/// Every answer is a success.
pub open spec fn all_true(s: Seq<bool>) -> bool {
    forall|i: int| 0 <= i < s.len() ==> #[trigger] s[i]
}

/// Every creation returned an id.
pub open spec fn all_some(s: Seq<Option<String>>) -> bool {
    forall|i: int| 0 <= i < s.len() ==> (#[trigger] s[i]) is Some
}

proof fn lemma_kept_all_removed(ids: Seq<String>, removed: Seq<bool>)
    requires
        ids.len() <= removed.len(),
        all_true(removed),
    ensures
        kept(ids, removed) == Seq::<String>::empty(),
    decreases ids.len(),
{
    if ids.len() > 0 {
        assert(removed[ids.len() - 1]);
        lemma_kept_all_removed(ids.drop_last(), removed);
    }
}

proof fn lemma_made_all(created: Seq<Option<String>>)
    requires
        all_some(created),
    ensures
        made(created).len() == created.len(),
    decreases created.len(),
{
    if created.len() > 0 {
        let d = created.drop_last();
        assert(all_some(d)) by {
            assert forall|i: int| 0 <= i < d.len() implies (#[trigger] d[i]) is Some by {
                assert(d[i] == created[i]);
            }
        }
        assert(created[created.len() - 1] is Some);
        lemma_made_all(d);
    }
}

/// The length of the instance list after an active deployment's pass in
/// which every call succeeded: exactly the replica count.
proof fn lemma_successful_pass_len(
    replicas: nat,
    discovered: Seq<String>,
    removed: Seq<bool>,
    created: Seq<Option<String>>,
)
    requires
        removed.len() == planned_removes(Status::Active, replicas, discovered.len()),
        all_true(removed),
        created.len() == planned_creates(Status::Active, replicas, discovered.len()),
        all_some(created),
    ensures
        pass_instances(
            discovered,
            discovered.subrange(0, removed.len() as int),
            removed,
            created,
        ).len() == replicas,
{
    lemma_kept_all_removed(discovered.subrange(0, removed.len() as int), removed);
    lemma_made_all(created);
}

/// Idempotence: once a pass of an active deployment has succeeded in every
/// call, a second pass over the list it left (with nothing changed in the
/// runtime in between) neither creates nor removes anything; and a pass over
/// a list already at the replica count does nothing either.
pub proof fn lemma_second_pass_is_idle(
    replicas: nat,
    discovered: Seq<String>,
    removed: Seq<bool>,
    created: Seq<Option<String>>,
)
    requires
        removed.len() == planned_removes(Status::Active, replicas, discovered.len()),
        all_true(removed),
        created.len() == planned_creates(Status::Active, replicas, discovered.len()),
        all_some(created),
    ensures
        ({
            let after = pass_instances(
                discovered,
                discovered.subrange(0, removed.len() as int),
                removed,
                created,
            );
            planned_creates(Status::Active, replicas, after.len()) == 0 && planned_removes(
                Status::Active,
                replicas,
                after.len(),
            ) == 0
        }),
        discovered.len() == replicas ==> planned_creates(Status::Active, replicas, discovered.len())
            == 0 && planned_removes(Status::Active, replicas, discovered.len()) == 0,
{
    lemma_successful_pass_len(replicas, discovered, removed, created);
}

/// Convergence: an active deployment with no instance is planned exactly its
/// replica count of creations, and when they all succeed the pass leaves
/// that many instances.
pub proof fn lemma_convergence_from_empty(replicas: nat, created: Seq<Option<String>>)
    requires
        created.len() == replicas,
        all_some(created),
    ensures
        planned_creates(Status::Active, replicas, 0) == replicas,
        planned_removes(Status::Active, replicas, 0) == 0,
        pass_instances(Seq::empty(), Seq::empty(), Seq::empty(), created).len() == replicas,
{
    let e = Seq::<String>::empty();
    assert(e.subrange(0, 0) =~= e);
    lemma_successful_pass_len(replicas, e, Seq::empty(), created);
}

/// Scale-down exactness: an active deployment with more instances than
/// replicas is planned exactly the excess of removals and no creation; when
/// they all succeed, the pass leaves the replica count of instances, the
/// tail of the discovered list.
pub proof fn lemma_scale_down_exact(replicas: nat, discovered: Seq<String>, removed: Seq<bool>)
    requires
        discovered.len() > replicas,
        removed.len() == discovered.len() - replicas,
        all_true(removed),
    ensures
        planned_removes(Status::Active, replicas, discovered.len()) == discovered.len() - replicas,
        planned_creates(Status::Active, replicas, discovered.len()) == 0,
        pass_instances(
            discovered,
            discovered.subrange(0, removed.len() as int),
            removed,
            Seq::empty(),
        ) == discovered.subrange(removed.len() as int, discovered.len() as int),
        pass_instances(
            discovered,
            discovered.subrange(0, removed.len() as int),
            removed,
            Seq::empty(),
        ).len() == replicas,
{
    lemma_kept_all_removed(discovered.subrange(0, removed.len() as int), removed);
    assert(made(Seq::<Option<String>>::empty()) == Seq::<String>::empty());
    assert(pass_instances(
        discovered,
        discovered.subrange(0, removed.len() as int),
        removed,
        Seq::empty(),
    ) =~= discovered.subrange(removed.len() as int, discovered.len() as int));
}

/// Deletion drains: a deleted deployment is planned the removal of every
/// discovered instance and no creation, whatever its replica count; when the
/// removals all succeed, no instance is left.
pub proof fn lemma_deletion_drains(replicas: nat, discovered: Seq<String>, removed: Seq<bool>)
    requires
        removed.len() == discovered.len(),
        all_true(removed),
    ensures
        planned_removes(Status::Deleted, replicas, discovered.len()) == discovered.len(),
        planned_creates(Status::Deleted, replicas, discovered.len()) == 0,
        discovered.subrange(0, discovered.len() as int) == discovered,
        pass_instances(discovered, discovered, removed, Seq::empty()) == Seq::<String>::empty(),
{
    assert(discovered.subrange(0, discovered.len() as int) =~= discovered);
    lemma_kept_all_removed(discovered, removed);
    assert(made(Seq::<Option<String>>::empty()) == Seq::<String>::empty());
    assert(pass_instances(discovered, discovered, removed, Seq::empty()) =~= Seq::<String>::empty());
}

} // verus!
