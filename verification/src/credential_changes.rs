//! Configuring or removing a provider credential touches every capability
//! of the provider: each goes pending in turn, then the vault is written,
//! and afterwards every pending capability is either restored (the vault
//! refused) or completed (the vault accepted). The storage writes and the
//! vault call are the caller's; these functions decide, for each step, the
//! states to write in order and the failure that ends the sequence.

use crate::problem::ProblemCode;
use crate::providers::{
    bumped, configure_complete, configure_complete_view, configure_pending, configure_pending_view,
    remove_complete, remove_complete_view, remove_pending, remove_pending_view, restore_state,
    restore_view, runtime_problem, runtime_problem_code, states_view, ProviderCapabilityState,
    ProviderRoute, StatePortError, StateView,
};
use vstd::prelude::*;

verus! {

/// Why a credential change stopped before its last write.
#[derive(Clone, Copy, Debug, PartialEq, Eq, Structural)]
pub enum CredentialStepError {
    /// Provider state storage refused a transition.
    State(StatePortError),
    /// The provider runtime or vault failed; already mapped to the route's
    /// problem.
    Runtime(ProblemCode),
}

/// The outcome of one transition: the state to write, or the storage
/// failure when the version cannot advance.
pub open spec fn step_result(next: Option<StateView>) -> Result<StateView, CredentialStepError> {
    match next {
        Some(s) => Ok(s),
        None => Err(CredentialStepError::State(StatePortError::Corrupt)),
    }
}

/// `writes` are the first steps of a sequence of `n` steps, each as
/// `step` gives it.
pub open spec fn applied_prefix(
    writes: Seq<StateView>,
    n: int,
    step: spec_fn(int) -> Result<StateView, CredentialStepError>,
) -> bool {
    &&& writes.len() <= n
    &&& forall|i: int|
        0 <= i < writes.len() ==> #[trigger] step(i) == Ok::<StateView, CredentialStepError>(
            writes[i],
        )
}

/// `writes` are the steps taken in order until the first failing one,
/// which ends the sequence with `err`; without a failure every step is
/// written.
pub open spec fn writes_until_failure(
    writes: Seq<StateView>,
    err: Option<CredentialStepError>,
    n: int,
    step: spec_fn(int) -> Result<StateView, CredentialStepError>,
) -> bool {
    &&& applied_prefix(writes, n, step)
    &&& match err {
        None => writes.len() == n,
        Some(e) => writes.len() < n && step(writes.len() as int) == Err::<
            StateView,
            CredentialStepError,
        >(e),
    }
}

/// The configuration digests the runtime computed, one per capability.
pub open spec fn digests_view(digests: Seq<Result<String, ProblemCode>>) -> Seq<
    Result<Seq<char>, ProblemCode>,
> {
    Seq::new(
        digests.len(),
        |i: int|
            match digests[i] {
                Ok(d) => Ok(d@),
                Err(c) => Err(c),
            },
    )
}

/// The pending write of capability `i` of a credential write: a failed
/// digest is a runtime failure of the credential route.
pub open spec fn configure_pending_at(
    currents: Seq<StateView>,
    reference: Seq<char>,
    digests: Seq<Result<Seq<char>, ProblemCode>>,
    i: int,
) -> Result<StateView, CredentialStepError> {
    match digests[i] {
        Err(c) => Err(
            CredentialStepError::Runtime(
                runtime_problem_code(c, ProviderRoute::ConfigureProviderCredential),
            ),
        ),
        Ok(d) => step_result(configure_pending_view(currents[i], reference, d)),
    }
}

/// The pending write of capability `i` of a revocation.
pub open spec fn remove_pending_at(currents: Seq<StateView>, reference: Seq<char>, i: int) -> Result<
    StateView,
    CredentialStepError,
> {
    step_result(remove_pending_view(currents[i], reference))
}

/// The write that puts capability `i` back as it was before it went
/// pending.
pub open spec fn restore_at(currents: Seq<StateView>, pendings: Seq<StateView>, i: int) -> Result<
    StateView,
    CredentialStepError,
> {
    step_result(restore_view(pendings[i], currents[i]))
}

/// The write that completes capability `i` of a credential write.
pub open spec fn configure_complete_at(pendings: Seq<StateView>, reference: Seq<char>, i: int) -> Result<
    StateView,
    CredentialStepError,
> {
    step_result(configure_complete_view(pendings[i], reference))
}

/// The write that completes capability `i` of a revocation.
pub open spec fn remove_complete_at(pendings: Seq<StateView>, i: int) -> Result<
    StateView,
    CredentialStepError,
> {
    step_result(remove_complete_view(pendings[i]))
}

/// What follows the vault's answer. When the vault failed, each pending
/// capability (paired with its prior state) is restored in order, and the
/// answer is the vault's failure, unless a restore failed first. When the
/// vault succeeded, each pending capability is completed by `complete`.
pub open spec fn settled(
    writes: Seq<StateView>,
    err: Option<CredentialStepError>,
    currents: Seq<StateView>,
    pendings: Seq<StateView>,
    vault: Result<(), ProblemCode>,
    complete: spec_fn(int) -> Result<StateView, CredentialStepError>,
) -> bool {
    match vault {
        Err(c) => {
            let n = if pendings.len() <= currents.len() {
                pendings.len() as int
            } else {
                currents.len() as int
            };
            &&& applied_prefix(writes, n, |i: int| restore_at(currents, pendings, i))
            &&& if writes.len() == n {
                err == Some(
                    CredentialStepError::Runtime(
                        runtime_problem_code(c, ProviderRoute::ConfigureProviderCredential),
                    ),
                )
            } else {
                &&& err.is_some()
                &&& restore_at(currents, pendings, writes.len() as int) == Err::<
                    StateView,
                    CredentialStepError,
                >(err.unwrap())
            }
        },
        Ok(()) => writes_until_failure(writes, err, pendings.len() as int, complete),
    }
}

/// The pending writes of a credential write, in capability order, until
/// the first capability whose digest or transition fails.
pub fn configure_pending_states(
    currents: &Vec<ProviderCapabilityState>,
    reference: &String,
    digests: &Vec<Result<String, ProblemCode>>,
) -> (r: (Vec<ProviderCapabilityState>, Option<CredentialStepError>))
    requires
        digests.len() == currents.len(),
    ensures
        writes_until_failure(
            states_view(r.0@),
            r.1,
            currents.len() as int,
            |i: int|
                configure_pending_at(states_view(currents@), reference@, digests_view(digests@), i),
        ),
{
    let ghost cv = states_view(currents@);
    let ghost dv = digests_view(digests@);
    let mut out: Vec<ProviderCapabilityState> = Vec::new();
    let mut i: usize = 0;
    while i < currents.len()
        invariant
            i <= currents.len(),
            digests.len() == currents.len(),
            out.len() == i,
            cv == states_view(currents@),
            dv == digests_view(digests@),
            forall|j: int|
                0 <= j < i ==> configure_pending_at(cv, reference@, dv, j) == Ok::<
                    StateView,
                    CredentialStepError,
                >(#[trigger] out@[j]@),
        decreases currents.len() - i,
    {
        let digest = match &digests[i] {
            Ok(d) => d.clone(),
            Err(c) => {
                let e = CredentialStepError::Runtime(
                    runtime_problem(*c, ProviderRoute::ConfigureProviderCredential),
                );
                assert(configure_pending_at(cv, reference@, dv, i as int) == Err::<
                    StateView,
                    CredentialStepError,
                >(e));
                assert(states_view(out@).len() == i);
                return (out, Some(e));
            },
        };
        assert(dv[i as int] == Ok::<Seq<char>, ProblemCode>(digest@));
        match configure_pending(&currents[i], reference, digest) {
            Ok(s) => {
                out.push(s);
            },
            Err(e) => {
                assert(states_view(out@).len() == i);
                return (out, Some(CredentialStepError::State(e)));
            },
        }
        i += 1;
    }
    (out, None)
}

/// The pending writes of a revocation, in capability order, until the
/// first capability whose transition fails.
pub fn remove_pending_states(currents: &Vec<ProviderCapabilityState>, reference: &String) -> (r: (
    Vec<ProviderCapabilityState>,
    Option<CredentialStepError>,
))
    ensures
        writes_until_failure(
            states_view(r.0@),
            r.1,
            currents.len() as int,
            |i: int| remove_pending_at(states_view(currents@), reference@, i),
        ),
{
    let ghost cv = states_view(currents@);
    let mut out: Vec<ProviderCapabilityState> = Vec::new();
    let mut i: usize = 0;
    while i < currents.len()
        invariant
            i <= currents.len(),
            out.len() == i,
            cv == states_view(currents@),
            forall|j: int|
                0 <= j < i ==> remove_pending_at(cv, reference@, j) == Ok::<
                    StateView,
                    CredentialStepError,
                >(#[trigger] out@[j]@),
        decreases currents.len() - i,
    {
        match remove_pending(&currents[i], reference) {
            Ok(s) => {
                out.push(s);
            },
            Err(e) => {
                assert(states_view(out@).len() == i);
                return (out, Some(CredentialStepError::State(e)));
            },
        }
        i += 1;
    }
    (out, None)
}

/// The restoring writes after a failed vault call: each pending capability
/// paired in order with its prior state, until the first that fails.
fn restored_states(currents: &Vec<ProviderCapabilityState>, pendings: &Vec<ProviderCapabilityState>) -> (r: (
    Vec<ProviderCapabilityState>,
    Option<CredentialStepError>,
))
    ensures
        writes_until_failure(
            states_view(r.0@),
            r.1,
            if pendings.len() <= currents.len() {
                pendings.len() as int
            } else {
                currents.len() as int
            },
            |i: int| restore_at(states_view(currents@), states_view(pendings@), i),
        ),
{
    let ghost cv = states_view(currents@);
    let ghost pv = states_view(pendings@);
    let n = if pendings.len() <= currents.len() {
        pendings.len()
    } else {
        currents.len()
    };
    let mut out: Vec<ProviderCapabilityState> = Vec::new();
    let mut i: usize = 0;
    while i < n
        invariant
            i <= n,
            n <= currents.len(),
            n <= pendings.len(),
            out.len() == i,
            cv == states_view(currents@),
            pv == states_view(pendings@),
            forall|j: int|
                0 <= j < i ==> restore_at(cv, pv, j) == Ok::<StateView, CredentialStepError>(
                    #[trigger] out@[j]@,
                ),
        decreases n - i,
    {
        match restore_state(&pendings[i], &currents[i]) {
            Ok(s) => {
                out.push(s);
            },
            Err(e) => {
                assert(states_view(out@).len() == i);
                return (out, Some(CredentialStepError::State(e)));
            },
        }
        i += 1;
    }
    (out, None)
}

/// The completing writes of a credential write, until the first that
/// fails.
fn configured_states(pendings: &Vec<ProviderCapabilityState>, reference: &String) -> (r: (
    Vec<ProviderCapabilityState>,
    Option<CredentialStepError>,
))
    ensures
        writes_until_failure(
            states_view(r.0@),
            r.1,
            pendings.len() as int,
            |i: int| configure_complete_at(states_view(pendings@), reference@, i),
        ),
{
    let ghost pv = states_view(pendings@);
    let mut out: Vec<ProviderCapabilityState> = Vec::new();
    let mut i: usize = 0;
    while i < pendings.len()
        invariant
            i <= pendings.len(),
            out.len() == i,
            pv == states_view(pendings@),
            forall|j: int|
                0 <= j < i ==> configure_complete_at(pv, reference@, j) == Ok::<
                    StateView,
                    CredentialStepError,
                >(#[trigger] out@[j]@),
        decreases pendings.len() - i,
    {
        match configure_complete(&pendings[i], reference) {
            Ok(s) => {
                out.push(s);
            },
            Err(e) => {
                assert(states_view(out@).len() == i);
                return (out, Some(CredentialStepError::State(e)));
            },
        }
        i += 1;
    }
    (out, None)
}

/// The completing writes of a revocation, until the first that fails.
fn removed_states(pendings: &Vec<ProviderCapabilityState>) -> (r: (
    Vec<ProviderCapabilityState>,
    Option<CredentialStepError>,
))
    ensures
        writes_until_failure(
            states_view(r.0@),
            r.1,
            pendings.len() as int,
            |i: int| remove_complete_at(states_view(pendings@), i),
        ),
{
    let ghost pv = states_view(pendings@);
    let mut out: Vec<ProviderCapabilityState> = Vec::new();
    let mut i: usize = 0;
    while i < pendings.len()
        invariant
            i <= pendings.len(),
            out.len() == i,
            pv == states_view(pendings@),
            forall|j: int|
                0 <= j < i ==> remove_complete_at(pv, j) == Ok::<StateView, CredentialStepError>(
                    #[trigger] out@[j]@,
                ),
        decreases pendings.len() - i,
    {
        match remove_complete(&pendings[i]) {
            Ok(s) => {
                out.push(s);
            },
            Err(e) => {
                assert(states_view(out@).len() == i);
                return (out, Some(CredentialStepError::State(e)));
            },
        }
        i += 1;
    }
    (out, None)
}

/// The writes after the vault answered a credential write, and how the
/// request ends: with no error the written states are the capabilities'
/// final states.
pub fn settle_configure(
    currents: &Vec<ProviderCapabilityState>,
    pendings: &Vec<ProviderCapabilityState>,
    reference: &String,
    vault: Result<(), ProblemCode>,
) -> (r: (Vec<ProviderCapabilityState>, Option<CredentialStepError>))
    ensures
        settled(
            states_view(r.0@),
            r.1,
            states_view(currents@),
            states_view(pendings@),
            vault,
            |i: int| configure_complete_at(states_view(pendings@), reference@, i),
        ),
{
    match vault {
        Err(c) => {
            let (w, e) = restored_states(currents, pendings);
            match e {
                Some(e) => (w, Some(e)),
                None => (
                    w,
                    Some(
                        CredentialStepError::Runtime(
                            runtime_problem(c, ProviderRoute::ConfigureProviderCredential),
                        ),
                    ),
                ),
            }
        },
        Ok(()) => configured_states(pendings, reference),
    }
}

/// The writes after the vault answered a revocation (an absent credential
/// needs none and counts as accepted), and how the request ends.
pub fn settle_remove(
    currents: &Vec<ProviderCapabilityState>,
    pendings: &Vec<ProviderCapabilityState>,
    vault: Result<(), ProblemCode>,
) -> (r: (Vec<ProviderCapabilityState>, Option<CredentialStepError>))
    ensures
        settled(
            states_view(r.0@),
            r.1,
            states_view(currents@),
            states_view(pendings@),
            vault,
            |i: int| remove_complete_at(states_view(pendings@), i),
        ),
{
    match vault {
        Err(c) => {
            let (w, e) = restored_states(currents, pendings);
            match e {
                Some(e) => (w, Some(e)),
                None => (
                    w,
                    Some(
                        CredentialStepError::Runtime(
                            runtime_problem(c, ProviderRoute::ConfigureProviderCredential),
                        ),
                    ),
                ),
            }
        },
        Ok(()) => removed_states(pendings),
    }
}

/// Every capability whose version can still advance twice.
pub open spec fn versions_can_advance(currents: Seq<StateView>, by: int) -> bool {
    forall|i: int|
        0 <= i < currents.len() ==> #[trigger] currents[i].capability_version + by <= u64::MAX
}

/// Every digest the runtime computed succeeded.
pub open spec fn digests_computed(digests: Seq<Result<Seq<char>, ProblemCode>>) -> bool {
    forall|i: int| 0 <= i < digests.len() ==> (#[trigger] digests[i]) is Ok
}

/// A credential write whose digests were all computed, on capabilities
/// whose versions can advance, writes every capability of the provider
/// pending; and when the vault then refuses the credential, every one of
/// them is put back exactly as it was (two versions later), and the
/// request is answered with the vault's refusal.
pub proof fn lemma_failed_credential_write_restores_every_capability(
    currents: Seq<StateView>,
    reference: Seq<char>,
    digests: Seq<Result<Seq<char>, ProblemCode>>,
    pendings: Seq<StateView>,
    pending_err: Option<CredentialStepError>,
    writes: Seq<StateView>,
    err: Option<CredentialStepError>,
    code: ProblemCode,
    complete: spec_fn(int) -> Result<StateView, CredentialStepError>,
)
    requires
        digests.len() == currents.len(),
        digests_computed(digests),
        versions_can_advance(currents, 2),
        writes_until_failure(
            pendings,
            pending_err,
            currents.len() as int,
            |i: int| configure_pending_at(currents, reference, digests, i),
        ),
        settled(writes, err, currents, pendings, Err(code), complete),
    ensures
        pending_err.is_none(),
        pendings.len() == currents.len(),
        writes == Seq::new(currents.len(), |i: int| bumped(currents[i], 2)),
        err == Some(
            CredentialStepError::Runtime(
                runtime_problem_code(code, ProviderRoute::ConfigureProviderCredential),
            ),
        ),
{
    let step = |i: int| configure_pending_at(currents, reference, digests, i);
    if pending_err.is_some() {
        let k = pendings.len() as int;
        assert(digests[k] is Ok);
        assert(step(k) is Ok);
    }
    assert forall|i: int| 0 <= i < currents.len() implies restore_at(currents, pendings, i) == Ok::<
        StateView,
        CredentialStepError,
    >(bumped(currents[i], 2)) by {
        assert(digests[i] is Ok);
        assert(step(i) == Ok::<StateView, CredentialStepError>(pendings[i]));
        let d = digests[i]->Ok_0;
        crate::providers::lemma_failed_configure_restores_state(currents[i], reference, d);
    }
    let n = currents.len() as int;
    if writes.len() < n {
        let k = writes.len() as int;
        assert(restore_at(currents, pendings, k) is Ok);
    }
    assert forall|i: int| 0 <= i < n implies writes[i] == bumped(currents[i], 2) by {
        assert((|j: int| restore_at(currents, pendings, j))(i) == Ok::<
            StateView,
            CredentialStepError,
        >(writes[i]));
    }
    assert(writes =~= Seq::new(currents.len(), |i: int| bumped(currents[i], 2)));
}

/// A revocation on capabilities whose versions can advance writes every
/// capability of the provider pending; and when the vault then fails,
/// every one of them is put back exactly as it was (two versions later),
/// and the request is answered with the vault's failure.
pub proof fn lemma_failed_revocation_restores_every_capability(
    currents: Seq<StateView>,
    reference: Seq<char>,
    pendings: Seq<StateView>,
    pending_err: Option<CredentialStepError>,
    writes: Seq<StateView>,
    err: Option<CredentialStepError>,
    code: ProblemCode,
    complete: spec_fn(int) -> Result<StateView, CredentialStepError>,
)
    requires
        versions_can_advance(currents, 2),
        writes_until_failure(
            pendings,
            pending_err,
            currents.len() as int,
            |i: int| remove_pending_at(currents, reference, i),
        ),
        settled(writes, err, currents, pendings, Err(code), complete),
    ensures
        pending_err.is_none(),
        pendings.len() == currents.len(),
        writes == Seq::new(currents.len(), |i: int| bumped(currents[i], 2)),
        err == Some(
            CredentialStepError::Runtime(
                runtime_problem_code(code, ProviderRoute::ConfigureProviderCredential),
            ),
        ),
{
    let step = |i: int| remove_pending_at(currents, reference, i);
    if pending_err.is_some() {
        let k = pendings.len() as int;
        assert(step(k) is Ok);
    }
    assert forall|i: int| 0 <= i < currents.len() implies restore_at(currents, pendings, i) == Ok::<
        StateView,
        CredentialStepError,
    >(bumped(currents[i], 2)) by {
        assert(step(i) == Ok::<StateView, CredentialStepError>(pendings[i]));
        crate::providers::lemma_failed_remove_restores_state(currents[i], reference);
    }
    let n = currents.len() as int;
    if writes.len() < n {
        let k = writes.len() as int;
        assert(restore_at(currents, pendings, k) is Ok);
    }
    assert forall|i: int| 0 <= i < n implies writes[i] == bumped(currents[i], 2) by {
        assert((|j: int| restore_at(currents, pendings, j))(i) == Ok::<
            StateView,
            CredentialStepError,
        >(writes[i]));
    }
    assert(writes =~= Seq::new(currents.len(), |i: int| bumped(currents[i], 2)));
}

/// When the vault accepts a credential write whose digests were all
/// computed, on capabilities whose versions can advance, every capability
/// of the provider ends available with the new reference, and the request
/// succeeds.
pub proof fn lemma_accepted_credential_write_completes_every_capability(
    currents: Seq<StateView>,
    reference: Seq<char>,
    digests: Seq<Result<Seq<char>, ProblemCode>>,
    pendings: Seq<StateView>,
    pending_err: Option<CredentialStepError>,
    writes: Seq<StateView>,
    err: Option<CredentialStepError>,
)
    requires
        digests.len() == currents.len(),
        digests_computed(digests),
        versions_can_advance(currents, 2),
        writes_until_failure(
            pendings,
            pending_err,
            currents.len() as int,
            |i: int| configure_pending_at(currents, reference, digests, i),
        ),
        settled(
            writes,
            err,
            currents,
            pendings,
            Ok(()),
            |i: int| configure_complete_at(pendings, reference, i),
        ),
    ensures
        err.is_none(),
        writes.len() == currents.len(),
        forall|i: int|
            0 <= i < currents.len() ==> configure_complete_view(pendings[i], reference) == Some(
                #[trigger] writes[i],
            ),
{
    let step = |i: int| configure_pending_at(currents, reference, digests, i);
    let complete = |i: int| configure_complete_at(pendings, reference, i);
    if pending_err.is_some() {
        let k = pendings.len() as int;
        assert(digests[k] is Ok);
        assert(step(k) is Ok);
    }
    assert forall|i: int| 0 <= i < currents.len() implies #[trigger] complete(i) is Ok by {
        assert(digests[i] is Ok);
        assert(step(i) == Ok::<StateView, CredentialStepError>(pendings[i]));
    }
    if err.is_some() {
        let k = writes.len() as int;
        assert(complete(k) is Ok);
    }
    assert forall|i: int| 0 <= i < currents.len() implies configure_complete_view(
        pendings[i],
        reference,
    ) == Some(#[trigger] writes[i]) by {
        assert(complete(i) == Ok::<StateView, CredentialStepError>(writes[i]));
    }
}

/// When the vault accepts a revocation, on capabilities whose versions can
/// advance, every capability of the provider ends without a credential,
/// and the request succeeds.
pub proof fn lemma_accepted_revocation_completes_every_capability(
    currents: Seq<StateView>,
    reference: Seq<char>,
    pendings: Seq<StateView>,
    pending_err: Option<CredentialStepError>,
    writes: Seq<StateView>,
    err: Option<CredentialStepError>,
)
    requires
        versions_can_advance(currents, 2),
        writes_until_failure(
            pendings,
            pending_err,
            currents.len() as int,
            |i: int| remove_pending_at(currents, reference, i),
        ),
        settled(writes, err, currents, pendings, Ok(()), |i: int| remove_complete_at(pendings, i)),
    ensures
        err.is_none(),
        writes.len() == currents.len(),
        forall|i: int|
            0 <= i < currents.len() ==> remove_complete_view(pendings[i]) == Some(
                #[trigger] writes[i],
            ),
{
    let step = |i: int| remove_pending_at(currents, reference, i);
    let complete = |i: int| remove_complete_at(pendings, i);
    if pending_err.is_some() {
        let k = pendings.len() as int;
        assert(step(k) is Ok);
    }
    assert forall|i: int| 0 <= i < currents.len() implies #[trigger] complete(i) is Ok by {
        assert(step(i) == Ok::<StateView, CredentialStepError>(pendings[i]));
    }
    if err.is_some() {
        let k = writes.len() as int;
        assert(complete(k) is Ok);
    }
    assert forall|i: int| 0 <= i < currents.len() implies remove_complete_view(pendings[i])
        == Some(#[trigger] writes[i]) by {
        assert(complete(i) == Ok::<StateView, CredentialStepError>(writes[i]));
    }
}

} // verus!
