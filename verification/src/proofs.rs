//! What prover and verifier derive from a submission's declared parameters
//! and seeds, before the proof scheme is run on it.

use crate::domain::Domain;
use crate::endian::{self, be_u64};
use crate::hexcode::{self, hex_decoding, is_hex};
use crate::models::seed::Seed;
use crate::models::submission::{LayerChallenges, Params, Proof, ProofType, Response, Tau};
use vstd::prelude::*;

verus! {

/// Bytes of data in one node of the graph.
pub const NODE_SIZE: usize = 32;

/// The node that every challenge of the plain variant asks for.
pub const CHALLENGE: usize = 2;

/// Expansion degree of the layered variant where the parameters name none.
pub const DEFAULT_EXPANSION_DEGREE: usize = 6;

/// Layers of the layered variant where the parameters name none.
pub const DEFAULT_LAYERS: usize = 10;

/// The graph that a replication is built on.
#[derive(Clone, Copy, Debug)]
pub struct DrgParams {
    pub nodes: usize,
    pub degree: usize,
    pub expansion_degree: usize,
    pub seed: [u32; 7],
}

/// The setup of the plain variant.
#[derive(Clone, Copy, Debug)]
pub struct DrgSetup {
    pub drg: DrgParams,
    pub challenges_count: usize,
    pub private: bool,
    pub sloth_iter: usize,
}

/// The setup of the layered variant.
#[derive(Clone, Copy, Debug)]
pub struct LayeredSetup {
    pub drg: DrgParams,
    pub sloth_iter: usize,
    pub layer_challenges: LayerChallenges,
}

/// The public inputs of the plain variant.
#[derive(Clone, Debug)]
pub struct DrgPublicInputs {
    pub replica_id: Domain,
    pub challenges: Vec<usize>,
    pub tau: Tau,
}

/// The public inputs of the layered variant.
#[derive(Clone, Copy, Debug)]
pub struct LayeredPublicInputs {
    pub replica_id: Domain,
    pub tau: Tau,
    pub comm_r_star: Domain,
    /// The partition to check.
    pub k: Option<usize>,
    /// The number from which the challenges are drawn.
    pub seed: u64,
}

/// What the proof scheme has to be run on: the setup and the public inputs
/// of one variant.
#[derive(Clone, Debug)]
pub enum VerifierTask {
    DrgPoRep { setup: DrgSetup, inputs: DrgPublicInputs },
    Zigzag { setup: LayeredSetup, inputs: LayeredPublicInputs },
}

/// The first 32 bytes of a byte string, with zeros after its end.
pub open spec fn padded(bytes: Seq<u8>) -> Seq<u8> {
    Seq::new(
        32,
        |i: int| if i < bytes.len() {
            bytes[i]
        } else {
            0u8
        },
    )
}

/// The replica identifier that a code stands for: its first 32 bytes.
pub open spec fn replica_id_of(raw: Seq<char>) -> Seq<u8> {
    padded(hex_decoding(raw))
}

/// The number that a seed's code gives for drawing challenges: its first
/// eight bytes, most significant first.
pub open spec fn seed_number(seed: Seed) -> int {
    be_u64(hex_decoding(seed.mac@))
}

/// The graph of a parameter set with a given expansion degree.
pub open spec fn is_drg_params(params: Params, expansion_degree: usize, drg: DrgParams) -> bool {
    &&& drg.nodes == params.size / NODE_SIZE
    &&& drg.degree == params.degree
    &&& drg.expansion_degree == expansion_degree
    &&& drg.seed@ == Seq::new(7, |i: int| 0u32)
}

/// The setup of the plain variant for a parameter set.
pub open spec fn is_drg_setup(params: Params, setup: DrgSetup) -> bool {
    &&& is_drg_params(params, 0, setup.drg)
    &&& setup.challenges_count == params.challenge_count
    &&& !setup.private
    &&& setup.sloth_iter == params.vde
}

/// The expansion degree and challenge schedule of the layered variant for
/// a parameter set: its own where it has the options, and otherwise six
/// and the same count on each of ten layers.
pub open spec fn layered_options(params: Params) -> (usize, LayerChallenges) {
    match params.zigzag_params() {
        Some(options) => options,
        None => (
            DEFAULT_EXPANSION_DEGREE,
            LayerChallenges::Fixed { layers: DEFAULT_LAYERS, count: params.challenge_count },
        ),
    }
}

/// The setup of the layered variant for a parameter set.
pub open spec fn is_layered_setup(params: Params, setup: LayeredSetup) -> bool {
    &&& is_drg_params(params, layered_options(params).0, setup.drg)
    &&& setup.sloth_iter == params.vde
    &&& setup.layer_challenges == layered_options(params).1
}

/// The public inputs of the plain variant for a replica.
pub open spec fn is_drg_inputs(
    params: Params,
    replica_id: Seq<u8>,
    tau: Tau,
    inputs: DrgPublicInputs,
) -> bool {
    &&& inputs.replica_id@ == replica_id
    &&& inputs.challenges@ == Seq::new(params.challenge_count as nat, |i: int| CHALLENGE)
    &&& inputs.tau == tau
}

/// The public inputs of the layered variant for a replica.
pub open spec fn is_layered_inputs(
    replica_id: Seq<u8>,
    tau: Tau,
    comm_r_star: Domain,
    seed: int,
    inputs: LayeredPublicInputs,
) -> bool {
    &&& inputs.replica_id@ == replica_id
    &&& inputs.tau == tau
    &&& inputs.comm_r_star == comm_r_star
    &&& inputs.k == Some(0usize)
    &&& inputs.seed == seed
}

fn first_bytes(raw: &Vec<u8>) -> (id: Domain)
    ensures
        id@ == padded(raw@),
{
    let mut replica_id_bytes = [0u8; 32];
    let len = if raw.len() < 32 {
        raw.len()
    } else {
        32
    };
    let mut i: usize = 0;
    while i < len
        invariant
            i <= len <= 32,
            len <= raw@.len(),
            forall|j: int| 0 <= j < i ==> replica_id_bytes@[j] == raw@[j],
            forall|j: int| i <= j < 32 ==> replica_id_bytes@[j] == 0u8,
        decreases len - i,
    {
        replica_id_bytes[i] = raw[i];
        i += 1;
    }
    assert(replica_id_bytes@ =~= padded(raw@));
    Domain { bytes: replica_id_bytes }
}

/// Reads a replica identifier out of a text, if the text is hexadecimal.
pub fn parse_id(raw: &str) -> (id: Option<Domain>)
    ensures
        id is Some <==> is_hex(raw@),
        id is Some ==> id->Some_0@ == replica_id_of(raw@),
{
    match hexcode::decode(raw) {
        Ok(replica_id_raw) => Some(first_bytes(&replica_id_raw)),
        Err(_) => None,
    }
}

/// Reads a replica identifier out of hexadecimal text: the first 32 of its
/// bytes, filled up with zeros.
pub fn id_from_str(raw: &str) -> (id: Domain)
    requires
        is_hex(raw@),
    ensures
        id@ == replica_id_of(raw@),
{
    match hexcode::decode(raw) {
        Ok(replica_id_raw) => first_bytes(&replica_id_raw),
        Err(_) => Domain::zero(),
    }
}

/// The number from which the challenges of a submission are drawn: the
/// first eight bytes of the challenge seed's code.
pub fn derive_seed_fr(seed: &Seed) -> (number: u64)
    requires
        is_hex(seed.mac@),
        seed.mac@.len() >= 16,
    ensures
        number == seed_number(*seed),
{
    match hexcode::decode(seed.mac.as_str()) {
        Ok(mac) => endian::read_u64(mac.as_slice()),
        Err(_) => 0,
    }
}

/// The graph of a parameter set: a node for every 32 bytes of data.
pub fn drg_params(params: &Params, expansion_degree: usize) -> (drg: DrgParams)
    ensures
        is_drg_params(*params, expansion_degree, drg),
{
    let drg = DrgParams {
        nodes: params.size / NODE_SIZE,
        degree: params.degree,
        expansion_degree,
        seed: [0u32; 7],
    };
    assert(drg.seed@ =~= Seq::new(7, |i: int| 0u32));
    drg
}

/// The setup of the plain variant, from the declared parameters alone.
pub fn drg_setup(params: &Params) -> (setup: DrgSetup)
    ensures
        is_drg_setup(*params, setup),
{
    DrgSetup {
        drg: drg_params(params, 0),
        challenges_count: params.challenge_count,
        private: false,
        sloth_iter: params.vde,
    }
}

/// The setup of the layered variant, from the declared parameters alone.
pub fn layered_setup(params: &Params) -> (setup: LayeredSetup)
    ensures
        is_layered_setup(*params, setup),
{
    let (expansion_degree, layer_challenges) = match params.as_zigzag_params() {
        Some(options) => options,
        None => (
            DEFAULT_EXPANSION_DEGREE,
            LayerChallenges::Fixed { layers: DEFAULT_LAYERS, count: params.challenge_count },
        ),
    };
    LayeredSetup {
        drg: drg_params(params, expansion_degree),
        sloth_iter: params.vde,
        layer_challenges,
    }
}

/// The challenges of the plain variant: the same node, as often as the
/// parameters say.
pub fn challenges(challenge_count: usize) -> (list: Vec<usize>)
    ensures
        list@ == Seq::new(challenge_count as nat, |i: int| CHALLENGE),
{
    let mut list: Vec<usize> = Vec::new();
    let mut i: usize = 0;
    while i < challenge_count
        invariant
            i <= challenge_count,
            list@ == Seq::new(i as nat, |j: int| CHALLENGE),
        decreases challenge_count - i,
    {
        list.push(CHALLENGE);
        assert(list@ =~= Seq::new((i + 1) as nat, |j: int| CHALLENGE));
        i += 1;
    }
    list
}

/// What a replication gave: the commitments on which the proof is built.
#[derive(Clone, Debug)]
pub enum Replica {
    /// Of the plain variant: its pair of commitments.
    DrgPoRep { tau: Tau },
    /// Of the layered variant: the commitments of every layer, first layer
    /// first, the pair that spans them all, and the aggregate commitment.
    Zigzag { layer_taus: Vec<Tau>, tau: Tau, comm_r_star: Domain },
}

/// What has to be replicated: under which setup, and for which replica.
#[derive(Clone, Copy, Debug)]
pub enum ReplicaTask {
    DrgPoRep { setup: DrgSetup, replica_id: Domain },
    Zigzag { setup: LayeredSetup, replica_id: Domain },
}

/// Where a prover stands on the way to a submission.
#[derive(Clone, Debug)]
pub enum Work {
    /// The start seed was asked for.
    AwaitStartSeed { kind: ProofType, prover: String, params: Params },
    /// The replication is running.
    AwaitReplica { kind: ProofType, prover: String, params: Params, seed_start: Seed, replica_id: Domain },
    /// The challenge seed, bound to the replica's commitment, was asked for.
    AwaitChallengeSeed {
        kind: ProofType,
        prover: String,
        params: Params,
        seed_start: Seed,
        replica_id: Domain,
        replica: Replica,
    },
    /// The proof is being built.
    AwaitProof {
        kind: ProofType,
        prover: String,
        params: Params,
        seed_start: Seed,
        seed_challenge: Seed,
        replica: Replica,
    },
    /// Nothing is left to do.
    Finished,
}

/// What came back from outside.
#[derive(Clone, Debug)]
pub enum WorkEvent {
    /// The server issued a seed.
    SeedIssued(Seed),
    /// The replication is done.
    Replicated(Replica),
    /// The proof is built.
    Proved(Proof),
}

/// What is to be done outside next.
#[derive(Clone, Debug)]
pub enum WorkAction {
    /// Ask the server for a seed bound to this value.
    GetSeed(Domain),
    /// Replicate.
    Replicate(ReplicaTask),
    /// Build the proof for this setup and these public inputs.
    Prove(VerifierTask),
    /// Send this response.
    Submit(Response),
    /// Give up: what came back is not what was awaited, or cannot be used.
    Abort,
}

/// The kind of a replication.
pub open spec fn replica_kind(replica: Replica) -> ProofType {
    match replica {
        Replica::DrgPoRep { .. } => ProofType::DrgPoRep,
        Replica::Zigzag { .. } => ProofType::Zigzag,
    }
}

/// The commitment that the challenge seed is to be bound to: the replica
/// commitment, of the last layer where there are layers.
pub open spec fn bound_commitment(replica: Replica) -> Option<Domain> {
    match replica {
        Replica::DrgPoRep { tau } => Some(tau.comm_r),
        Replica::Zigzag { layer_taus, .. } => if layer_taus@.len() > 0 {
            Some(layer_taus@[layer_taus@.len() - 1].comm_r)
        } else {
            None
        },
    }
}

/// The pair of commitments that is made public.
pub open spec fn public_tau(replica: Replica) -> Tau {
    match replica {
        Replica::DrgPoRep { tau } => tau,
        Replica::Zigzag { tau, .. } => tau,
    }
}

/// The aggregate commitment, which only a layered replication has.
pub open spec fn aggregate(replica: Replica) -> Option<Domain> {
    match replica {
        Replica::DrgPoRep { .. } => None,
        Replica::Zigzag { comm_r_star, .. } => Some(comm_r_star),
    }
}

/// The event is the one that the prover waits for, and can be worked on.
pub open spec fn fits(work: Work, event: WorkEvent) -> bool {
    match work {
        Work::AwaitStartSeed { .. } => event matches WorkEvent::SeedIssued(seed) && is_hex(
            seed.mac@,
        ),
        Work::AwaitReplica { kind, .. } => event matches WorkEvent::Replicated(replica)
            && replica_kind(replica) == kind && bound_commitment(replica) is Some,
        Work::AwaitChallengeSeed { replica, .. } => event matches WorkEvent::SeedIssued(seed) && (
        replica is DrgPoRep || (is_hex(seed.mac@) && seed.mac@.len() >= 16)),
        Work::AwaitProof { kind, .. } => event matches WorkEvent::Proved(proof) && proof.kind()
            == kind,
        Work::Finished => false,
    }
}

/// Where the prover stands after an event.
pub open spec fn is_next_work(work: Work, event: WorkEvent, next: Work) -> bool {
    if !fits(work, event) {
        next is Finished
    } else {
        match work {
            Work::AwaitStartSeed { kind, prover, params } => {
                &&& next matches Work::AwaitReplica {
                    kind: k,
                    prover: p,
                    params: q,
                    seed_start,
                    replica_id,
                }
                &&& k == kind && p == prover && q == params
                &&& WorkEvent::SeedIssued(seed_start) == event
                &&& replica_id@ == replica_id_of(seed_start.mac@)
            },
            Work::AwaitReplica { kind, prover, params, seed_start, replica_id } => {
                next == (Work::AwaitChallengeSeed {
                    kind,
                    prover,
                    params,
                    seed_start,
                    replica_id,
                    replica: event->Replicated_0,
                })
            },
            Work::AwaitChallengeSeed { kind, prover, params, seed_start, replica_id, replica } => {
                next == (Work::AwaitProof {
                    kind,
                    prover,
                    params,
                    seed_start,
                    seed_challenge: event->SeedIssued_0,
                    replica,
                })
            },
            Work::AwaitProof { .. } => next is Finished,
            Work::Finished => next is Finished,
        }
    }
}

/// The task of replicating for a parameter set and a replica.
pub open spec fn is_replica_task(
    kind: ProofType,
    params: Params,
    replica_id: Seq<u8>,
    task: ReplicaTask,
) -> bool {
    match task {
        ReplicaTask::DrgPoRep { setup, replica_id: id } => {
            &&& kind == ProofType::DrgPoRep
            &&& is_drg_setup(params, setup)
            &&& id@ == replica_id
        },
        ReplicaTask::Zigzag { setup, replica_id: id } => {
            &&& kind == ProofType::Zigzag
            &&& is_layered_setup(params, setup)
            &&& id@ == replica_id
        },
    }
}

/// The task of proving a replica.
pub open spec fn is_proof_task(
    params: Params,
    replica_id: Domain,
    replica: Replica,
    seed_challenge: Seed,
    task: VerifierTask,
) -> bool {
    match task {
        VerifierTask::DrgPoRep { setup, inputs } => {
            &&& replica is DrgPoRep
            &&& is_drg_setup(params, setup)
            &&& is_drg_inputs(params, replica_id@, public_tau(replica), inputs)
        },
        VerifierTask::Zigzag { setup, inputs } => {
            &&& replica is Zigzag
            &&& is_layered_setup(params, setup)
            &&& is_layered_inputs(
                replica_id@,
                public_tau(replica),
                aggregate(replica).unwrap(),
                seed_number(seed_challenge),
                inputs,
            )
        },
    }
}

/// What is to be done after an event.
pub open spec fn is_next_action(work: Work, event: WorkEvent, action: WorkAction) -> bool {
    if !fits(work, event) {
        action is Abort
    } else {
        match work {
            Work::AwaitStartSeed { kind, prover, params } => {
                &&& action matches WorkAction::Replicate(task)
                &&& is_replica_task(
                    kind,
                    params,
                    replica_id_of(event->SeedIssued_0.mac@),
                    task,
                )
            },
            Work::AwaitReplica { .. } => {
                &&& action matches WorkAction::GetSeed(data)
                &&& Some(data) == bound_commitment(event->Replicated_0)
            },
            Work::AwaitChallengeSeed { kind, prover, params, seed_start, replica_id, replica } => {
                &&& action matches WorkAction::Prove(task)
                &&& is_proof_task(params, replica_id, replica, event->SeedIssued_0, task)
            },
            Work::AwaitProof { kind, prover, params, seed_start, seed_challenge, replica } => {
                action == WorkAction::Submit(
                    Response {
                        prover,
                        seed_start,
                        seed_challenge,
                        proof_params: params,
                        proof: event->Proved_0,
                        tau: public_tau(replica),
                        comm_r_star: aggregate(replica),
                    },
                )
            },
            Work::Finished => action is Abort,
        }
    }
}

fn begin(kind: ProofType, prover: String, params: Params) -> (start: (Work, WorkAction))
    ensures
        start.0 == (Work::AwaitStartSeed { kind, prover, params }),
        start.1 matches WorkAction::GetSeed(data) && data@ == Seq::new(32, |i: int| 0u8),
{
    (Work::AwaitStartSeed { kind, prover, params }, WorkAction::GetSeed(Domain::zero()))
}

/// Begins the work on a proof of the plain variant: the first thing to do
/// is to ask for a start seed, which is bound to the zero value.
pub fn porep_work(prover: String, params: Params) -> (start: (Work, WorkAction))
    ensures
        start.0 == (Work::AwaitStartSeed { kind: ProofType::DrgPoRep, prover, params }),
        start.1 matches WorkAction::GetSeed(data) && data@ == Seq::new(32, |i: int| 0u8),
{
    begin(ProofType::DrgPoRep, prover, params)
}

/// Begins the work on a proof of the layered variant: the first thing to
/// do is to ask for a start seed, which is bound to the zero value.
pub fn zigzag_work(prover: String, params: Params) -> (start: (Work, WorkAction))
    ensures
        start.0 == (Work::AwaitStartSeed { kind: ProofType::Zigzag, prover, params }),
        start.1 matches WorkAction::GetSeed(data) && data@ == Seq::new(32, |i: int| 0u8),
{
    begin(ProofType::Zigzag, prover, params)
}

fn replica_task(kind: ProofType, params: &Params, replica_id: Domain) -> (task: ReplicaTask)
    ensures
        is_replica_task(kind, *params, replica_id@, task),
{
    match kind {
        ProofType::DrgPoRep => ReplicaTask::DrgPoRep { setup: drg_setup(params), replica_id },
        ProofType::Zigzag => ReplicaTask::Zigzag { setup: layered_setup(params), replica_id },
    }
}

/// The commitment of a replica that the challenge seed is to be bound to.
pub fn commitment_to_bind(replica: &Replica) -> (data: Option<Domain>)
    ensures
        data == bound_commitment(*replica),
{
    match replica {
        Replica::DrgPoRep { tau } => Some(tau.comm_r),
        Replica::Zigzag { layer_taus, .. } => if layer_taus.len() > 0 {
            Some(layer_taus[layer_taus.len() - 1].comm_r)
        } else {
            None
        },
    }
}

fn proof_task(params: &Params, replica_id: Domain, replica: &Replica, seed_challenge: &Seed) -> (task:
    VerifierTask)
    requires
        replica is Zigzag ==> is_hex(seed_challenge.mac@) && seed_challenge.mac@.len() >= 16,
    ensures
        is_proof_task(*params, replica_id, *replica, *seed_challenge, task),
{
    match replica {
        Replica::DrgPoRep { tau } => VerifierTask::DrgPoRep {
            setup: drg_setup(params),
            inputs: DrgPublicInputs {
                replica_id,
                challenges: challenges(params.challenge_count),
                tau: *tau,
            },
        },
        Replica::Zigzag { tau, comm_r_star, .. } => VerifierTask::Zigzag {
            setup: layered_setup(params),
            inputs: LayeredPublicInputs {
                replica_id,
                tau: *tau,
                comm_r_star: *comm_r_star,
                k: Some(0),
                seed: derive_seed_fr(seed_challenge),
            },
        },
    }
}

fn same_kind(a: ProofType, b: ProofType) -> (same: bool)
    ensures
        same == (a == b),
{
    match a {
        ProofType::Zigzag => match b {
            ProofType::Zigzag => true,
            ProofType::DrgPoRep => false,
        },
        ProofType::DrgPoRep => match b {
            ProofType::Zigzag => false,
            ProofType::DrgPoRep => true,
        },
    }
}

impl Work {
    /// Takes what came back from outside and says what to do next. The
    /// start seed gives the replica its identifier; the replica gives the
    /// commitment that the challenge seed is asked for; the challenge seed
    /// gives the public inputs of the proof; the proof completes the
    /// response. An event that was not awaited ends the work.
    #[verifier::rlimit(40)]
    pub fn advance(self, event: WorkEvent) -> (next: (Work, WorkAction))
        ensures
            is_next_work(self, event, next.0),
            is_next_action(self, event, next.1),
    {
        match self {
            Work::AwaitStartSeed { kind, prover, params } => match event {
                WorkEvent::SeedIssued(seed_start) => match parse_id(seed_start.mac.as_str()) {
                    Some(replica_id) => {
                        let task = replica_task(kind, &params, replica_id);
                        (
                            Work::AwaitReplica { kind, prover, params, seed_start, replica_id },
                            WorkAction::Replicate(task),
                        )
                    },
                    None => (Work::Finished, WorkAction::Abort),
                },
                _ => (Work::Finished, WorkAction::Abort),
            },
            Work::AwaitReplica { kind, prover, params, seed_start, replica_id } => match event {
                WorkEvent::Replicated(replica) => {
                    let of_kind = match &replica {
                        Replica::DrgPoRep { .. } => same_kind(kind, ProofType::DrgPoRep),
                        Replica::Zigzag { .. } => same_kind(kind, ProofType::Zigzag),
                    };
                    match commitment_to_bind(&replica) {
                        Some(data) if of_kind => (
                            Work::AwaitChallengeSeed {
                                kind,
                                prover,
                                params,
                                seed_start,
                                replica_id,
                                replica,
                            },
                            WorkAction::GetSeed(data),
                        ),
                        _ => (Work::Finished, WorkAction::Abort),
                    }
                },
                _ => (Work::Finished, WorkAction::Abort),
            },
            Work::AwaitChallengeSeed { kind, prover, params, seed_start, replica_id, replica } => {
                match event {
                    WorkEvent::SeedIssued(seed_challenge) => {
                        let usable = match &replica {
                            Replica::DrgPoRep { .. } => true,
                            Replica::Zigzag { .. } => match hexcode::decode(
                                seed_challenge.mac.as_str(),
                            ) {
                                Ok(code) => code.len() >= 8,
                                Err(_) => false,
                            },
                        };
                        if usable {
                            let task = proof_task(&params, replica_id, &replica, &seed_challenge);
                            (
                                Work::AwaitProof {
                                    kind,
                                    prover,
                                    params,
                                    seed_start,
                                    seed_challenge,
                                    replica,
                                },
                                WorkAction::Prove(task),
                            )
                        } else {
                            (Work::Finished, WorkAction::Abort)
                        }
                    },
                    _ => (Work::Finished, WorkAction::Abort),
                }
            },
            Work::AwaitProof { kind, prover, params, seed_start, seed_challenge, replica } => {
                match event {
                    WorkEvent::Proved(built) => {
                        let of_kind = match &built {
                            Proof::DrgPoRep(_) => same_kind(kind, ProofType::DrgPoRep),
                            Proof::Zigzag(_) => same_kind(kind, ProofType::Zigzag),
                        };
                        if of_kind {
                            let (tau, comm_r_star) = match replica {
                                Replica::DrgPoRep { tau } => (tau, None),
                                Replica::Zigzag { tau, comm_r_star, .. } => (
                                    tau,
                                    Some(comm_r_star),
                                ),
                            };
                            (
                                Work::Finished,
                                WorkAction::Submit(
                                    Response {
                                        prover,
                                        seed_start,
                                        seed_challenge,
                                        proof_params: params,
                                        proof: built,
                                        tau,
                                        comm_r_star,
                                    },
                                ),
                            )
                        } else {
                            (Work::Finished, WorkAction::Abort)
                        }
                    },
                    _ => (Work::Finished, WorkAction::Abort),
                }
            },
            Work::Finished => (Work::Finished, WorkAction::Abort),
        }
    }
}

} // verus!
