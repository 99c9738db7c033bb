//! The submission endpoint: checking a response and recording its time.

use crate::crypto::{SecretKey, CODE_LEN};
use crate::error::ApiError;
use crate::gzip::Gzip;
use crate::hexcode;
use crate::models::leaderboard::{recorded, upsert_entry_with_params, Store};
use crate::models::seed::{authentic, message_bytes, Seed};
use crate::models::submission::{Proof, ProofType, Response};
use crate::proofs::{
    bound_commitment, challenges, derive_seed_fr, drg_setup, id_from_str, is_drg_inputs,
    is_drg_setup, is_layered_inputs, is_layered_setup, is_next_action, is_next_work,
    layered_setup, replica_id_of, seed_number, DrgPublicInputs, LayeredPublicInputs, Replica,
    VerifierTask, Work, WorkAction, WorkEvent,
};
use vstd::prelude::*;

verus! {

/// What the proof scheme said of a proof.
#[derive(Clone, Copy, Debug, PartialEq, Eq, Structural)]
pub enum Verdict {
    /// The proof holds.
    Accepted,
    /// The proof does not hold.
    Refused,
    /// The scheme could not be run on the proof.
    Failed,
}

/// The challenge seed is bound to the replica commitment that the proof
/// claims.
pub open spec fn binding_holds(res: Response) -> bool {
    &&& res.proof.replica_root() is Some
    &&& res.proof.replica_root().unwrap()@ == res.seed_challenge.data@
}

/// The proof is of the declared kind and comes with the fields of that
/// kind: the layered options and the aggregate commitment with a layered
/// proof, neither with a plain one.
pub open spec fn kind_consistent(res: Response) -> bool {
    match res.proof_params.typ {
        ProofType::Zigzag => {
            &&& res.proof is Zigzag
            &&& res.proof_params.zigzag is Some
            &&& res.comm_r_star is Some
        },
        ProofType::DrgPoRep => {
            &&& res.proof is DrgPoRep
            &&& res.proof_params.zigzag is None
            &&& res.comm_r_star is None
        },
    }
}

/// The first check that a response fails before the proof scheme is run:
/// the seeds' codes, then the binding, then the kind.
pub open spec fn screening(key: Seq<u8>, res: Response) -> Option<ApiError> {
    if !authentic(key, res.seed_start) || !authentic(key, res.seed_challenge) {
        Some(ApiError::InvalidSeedAuthenticity)
    } else if !binding_holds(res) {
        Some(ApiError::CommitmentMismatch)
    } else if !kind_consistent(res) {
        Some(ApiError::ProofTypeMismatch)
    } else {
        None
    }
}

/// The time between the start seed and the clock reading `now`.
pub open spec fn elapsed(res: Response, now: i32) -> int {
    now - res.seed_start.timestamp
}

/// What a response is worth: the error of the first check it fails, the
/// proof scheme's verdict being the last of them, and its elapsed time if
/// it fails none.
pub open spec fn validation(key: Seq<u8>, res: Response, verdict: Verdict, now: i32) -> Result<
    i64,
    ApiError,
> {
    match screening(key, res) {
        Some(e) => Err(e),
        None => if verdict == Verdict::Accepted {
            Ok(elapsed(res, now) as i64)
        } else {
            Err(ApiError::ProofRejected)
        },
    }
}

/// The task that the proof scheme is to be run on for a response: setup
/// and public inputs re-derived from the declared parameters and the seeds.
pub open spec fn is_task_for(res: Response, task: VerifierTask) -> bool {
    match task {
        VerifierTask::DrgPoRep { setup, inputs } => {
            &&& res.proof_params.typ == ProofType::DrgPoRep
            &&& is_drg_setup(res.proof_params, setup)
            &&& is_drg_inputs(
                res.proof_params,
                replica_id_of(res.seed_start.mac@),
                res.tau,
                inputs,
            )
        },
        VerifierTask::Zigzag { setup, inputs } => {
            &&& res.proof_params.typ == ProofType::Zigzag
            &&& res.comm_r_star is Some
            &&& is_layered_setup(res.proof_params, setup)
            &&& is_layered_inputs(
                replica_id_of(res.seed_start.mac@),
                res.tau,
                res.comm_r_star.unwrap(),
                seed_number(res.seed_challenge),
                inputs,
            )
        },
    }
}

/// Checks a seed's code under the key: `Ok` exactly for an authentic seed,
/// `InvalidSeedAuthenticity` for any other.
pub fn validate_seed(key: &SecretKey, seed: &Seed) -> (r: Result<(), ApiError>)
    ensures
        r is Ok <==> authentic(key@, *seed),
        r is Err ==> r->Err_0 == ApiError::InvalidSeedAuthenticity,
{
    match hexcode::decode(seed.mac.as_str()) {
        Err(_) => Err(ApiError::InvalidSeedAuthenticity),
        Ok(code) => {
            let message = message_bytes(seed.timestamp, &seed.data);
            if code.len() == CODE_LEN && key.accepts(message.as_slice(), code.as_slice()) {
                Ok(())
            } else {
                Err(ApiError::InvalidSeedAuthenticity)
            }
        },
    }
}

/// Whether the challenge seed is bound to the proof's own commitment.
pub fn check_binding(res: &Response) -> (r: Result<(), ApiError>)
    ensures
        r is Ok <==> binding_holds(*res),
        r is Err ==> r->Err_0 == ApiError::CommitmentMismatch,
{
    if res.proof.has_replica_root() && *res.proof.get_replica_root() == res.seed_challenge.data {
        Ok(())
    } else {
        Err(ApiError::CommitmentMismatch)
    }
}

/// Whether proof and fields are those of the declared kind.
pub fn check_kind(res: &Response) -> (r: Result<(), ApiError>)
    ensures
        r is Ok <==> kind_consistent(*res),
        r is Err ==> r->Err_0 == ApiError::ProofTypeMismatch,
{
    let layered = match res.proof {
        Proof::Zigzag(_) => true,
        Proof::DrgPoRep(_) => false,
    };
    let consistent = match res.proof_params.typ {
        ProofType::Zigzag => layered && res.proof_params.zigzag.is_some()
            && res.comm_r_star.is_some(),
        ProofType::DrgPoRep => !layered && res.proof_params.zigzag.is_none()
            && res.comm_r_star.is_none(),
    };
    if consistent {
        Ok(())
    } else {
        Err(ApiError::ProofTypeMismatch)
    }
}

/// Derives what the proof scheme is to be run on. Nothing is taken from
/// the submission but the declared parameters, the seeds and the public
/// commitments.
pub fn verifier_task(res: &Response) -> (task: VerifierTask)
    requires
        hexcode::is_hex(res.seed_start.mac@),
        hexcode::is_hex(res.seed_challenge.mac@),
        res.seed_challenge.mac@.len() >= 16,
        kind_consistent(*res),
    ensures
        is_task_for(*res, task),
{
    let replica_id = id_from_str(res.seed_start.mac.as_str());
    let params = &res.proof_params;
    match res.comm_r_star {
        Some(comm_r_star) => VerifierTask::Zigzag {
            setup: layered_setup(params),
            inputs: LayeredPublicInputs {
                replica_id,
                tau: res.tau,
                comm_r_star,
                k: Some(0),
                seed: derive_seed_fr(&res.seed_challenge),
            },
        },
        None => VerifierTask::DrgPoRep {
            setup: drg_setup(params),
            inputs: DrgPublicInputs {
                replica_id,
                challenges: challenges(params.challenge_count),
                tau: res.tau,
            },
        },
    }
}

/// Everything that is checked before the proof scheme is run. A response
/// that passes comes back with the task for the scheme; any other with the
/// error of the first check it fails.
pub fn screen(key: &SecretKey, res: &Response) -> (r: Result<VerifierTask, ApiError>)
    ensures
        r is Err <==> screening(key@, *res) is Some,
        r is Err ==> Some(r->Err_0) == screening(key@, *res),
        r is Ok ==> is_task_for(*res, r->Ok_0),
{
    match validate_seed(key, &res.seed_start) {
        Err(e) => {
            return Err(e);
        },
        Ok(_) => {},
    }
    match validate_seed(key, &res.seed_challenge) {
        Err(e) => {
            return Err(e);
        },
        Ok(_) => {},
    }
    match check_binding(res) {
        Err(e) => {
            return Err(e);
        },
        Ok(_) => {},
    }
    match check_kind(res) {
        Err(e) => {
            return Err(e);
        },
        Ok(_) => {},
    }
    Ok(verifier_task(res))
}

/// The seconds between the issue of the start seed and `now`. A clock
/// that went backwards gives a negative time, which is handed on as it is.
pub fn elapsed_time(now: i32, start: i32) -> (seconds: i64)
    ensures
        seconds == now - start,
{
    now as i64 - start as i64
}

/// What follows the proof scheme's verdict on a screened response: its
/// elapsed time if the proof was accepted, `ProofRejected` otherwise.
pub fn conclude(res: &Response, verdict: Verdict, now: i32) -> (r: Result<i64, ApiError>)
    ensures
        r == if verdict == Verdict::Accepted {
            Ok::<i64, ApiError>(elapsed(*res, now) as i64)
        } else {
            Err::<i64, ApiError>(ApiError::ProofRejected)
        },
{
    match verdict {
        Verdict::Accepted => Ok(elapsed_time(now, res.seed_start.timestamp)),
        _ => Err(ApiError::ProofRejected),
    }
}

/// Validates a response, given the verdict of the proof scheme on the task
/// that [`screen`] derives from it.
pub fn validate(key: &SecretKey, res: &Response, verdict: Verdict, now: i32) -> (r: Result<
    i64,
    ApiError,
>)
    ensures
        r == validation(key@, *res, verdict, now),
{
    match screen(key, res) {
        Err(e) => Err(e),
        Ok(_) => conclude(res, verdict, now),
    }
}

/// Handles a submission: validates it and, if it passes, records its time.
/// A response that is turned down leaves the store as it was.
pub fn submit_proof(
    store: &mut Store,
    key: &SecretKey,
    now: i32,
    res: &Response,
    verdict: Verdict,
) -> (r: Result<(), ApiError>)
    ensures
        match validation(key@, *res, verdict, now) {
            Ok(repl_time) => r is Ok && final(store)@ == recorded(old(store)@, *res, repl_time),
            Err(e) => r == Err::<(), ApiError>(e) && *final(store) == *old(store),
        },
{
    match validate(key, res, verdict, now) {
        Err(e) => Err(e),
        Ok(repl_time) => {
            upsert_entry_with_params(res, repl_time, store);
            Ok(())
        },
    }
}

/// Handles a submission that came compressed.
pub fn proof_gz(
    store: &mut Store,
    key: &SecretKey,
    now: i32,
    res: Gzip<Response>,
    verdict: Verdict,
) -> (r: Result<(), ApiError>)
    ensures
        match validation(key@, res.0, verdict, now) {
            Ok(repl_time) => r is Ok && final(store)@ == recorded(old(store)@, res.0, repl_time),
            Err(e) => r == Err::<(), ApiError>(e) && *final(store) == *old(store),
        },
{
    let inner = res.into_inner();
    submit_proof(store, key, now, &inner, verdict)
}

/// A challenge seed bound to another commitment than the proof's own is
/// turned down with `CommitmentMismatch`, whatever the proof scheme says of
/// the proof.
pub proof fn law_binding(key: Seq<u8>, res: Response, verdict: Verdict, now: i32)
    requires
        authentic(key, res.seed_start),
        authentic(key, res.seed_challenge),
        !binding_holds(res),
    ensures
        validation(key, res, verdict, now) == Err::<i64, ApiError>(ApiError::CommitmentMismatch),
{
}

/// A response is accepted only with authentic seeds, a challenge seed bound
/// to the proof's commitment, fields of the declared kind and a proof that
/// the scheme accepted; its time is then the clock reading less the start
/// seed's timestamp, and its parameters have the layered options exactly
/// where they are of the layered kind.
pub proof fn law_accepted(key: Seq<u8>, res: Response, verdict: Verdict, now: i32)
    ensures
        validation(key, res, verdict, now) is Ok <==> {
            &&& authentic(key, res.seed_start)
            &&& authentic(key, res.seed_challenge)
            &&& binding_holds(res)
            &&& kind_consistent(res)
            &&& verdict == Verdict::Accepted
        },
        validation(key, res, verdict, now) is Ok ==> validation(key, res, verdict, now)->Ok_0
            == now - res.seed_start.timestamp,
        validation(key, res, verdict, now) is Ok ==> res.proof_params.well_formed(),
{
}

/// A prover who is issued the challenge seed for the commitment that the
/// work asks it for, and whose proof claims the commitment of the replica,
/// submits a response whose challenge seed is bound to its proof.
pub proof fn law_work_binds(
    replicating: Work,
    replica: Replica,
    asking: Work,
    ask: WorkAction,
    seed_challenge: Seed,
    proving: Work,
    built: Proof,
    submit: WorkAction,
)
    requires
        is_next_work(replicating, WorkEvent::Replicated(replica), asking),
        is_next_action(replicating, WorkEvent::Replicated(replica), ask),
        ask matches WorkAction::GetSeed(data) && seed_challenge.data@ == data@,
        is_next_work(asking, WorkEvent::SeedIssued(seed_challenge), proving),
        is_next_action(proving, WorkEvent::Proved(built), submit),
        submit is Submit,
        built.replica_root() == bound_commitment(replica),
    ensures
        binding_holds(submit->Submit_0),
        submit->Submit_0.seed_challenge == seed_challenge,
        submit->Submit_0.proof == built,
{
}

} // verus!
