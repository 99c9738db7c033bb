use replication_game::crypto::SecretKey;
use replication_game::domain::Domain;
use replication_game::models::seed::{Seed, SeedInput};
use replication_game::models::submission::{
    self, DrgProof, LayerChallenges, LayeredProof, Proof, ProofType, Tau, ZigZagParams,
};
use replication_game::proofs::{
    challenges, commitment_to_bind, derive_seed_fr, drg_params, drg_setup, id_from_str,
    layered_setup, porep_work, zigzag_work, Replica, ReplicaTask, VerifierTask, Work, WorkAction,
    WorkEvent,
};
use replication_game::routes::seed::seed;
use replication_game::routes::submit::{check_binding, validate, Verdict};

fn key() -> SecretKey {
    SecretKey::new(b"my cool key".to_vec()).unwrap()
}

fn commitment(fill: u8) -> Domain {
    Domain { bytes: [fill; 32] }
}

fn params(typ: ProofType, zigzag: Option<ZigZagParams>) -> submission::Params {
    submission::Params { typ, size: 1024, challenge_count: 3, vde: 1, degree: 5, zigzag, seed: None }
}

fn options() -> ZigZagParams {
    ZigZagParams { expansion_degree: 8, layers: 2, is_tapered: false, taper_layers: 0, taper: 0 }
}

fn bad_seed(mac: &str) -> Seed {
    Seed { timestamp: 1, data: Domain::zero(), mac: mac.to_string() }
}

#[test]
fn plain_work_runs_to_a_valid_submission() {
    let declared = params(ProofType::DrgPoRep, None);
    let (work, action) = porep_work("alice".to_string(), declared);
    let asked = match action {
        WorkAction::GetSeed(data) => data,
        other => panic!("unexpected {:?}", other),
    };
    assert_eq!(asked, Domain::zero());
    let seed_start = seed(&key(), 100, SeedInput { data: asked });

    let (work, action) = work.advance(WorkEvent::SeedIssued(seed_start.clone()));
    match action {
        WorkAction::Replicate(ReplicaTask::DrgPoRep { setup, replica_id }) => {
            assert_eq!(replica_id, id_from_str(&seed_start.mac));
            assert_eq!(setup.drg.nodes, 32);
            assert_eq!(setup.drg.degree, 5);
            assert_eq!(setup.drg.expansion_degree, 0);
            assert_eq!(setup.challenges_count, 3);
            assert_eq!(setup.sloth_iter, 1);
            assert!(!setup.private);
        }
        other => panic!("unexpected {:?}", other),
    }

    let tau = Tau { comm_r: commitment(0xaa), comm_d: commitment(0xbb) };
    let (work, action) = work.advance(WorkEvent::Replicated(Replica::DrgPoRep { tau }));
    let bound = match action {
        WorkAction::GetSeed(data) => data,
        other => panic!("unexpected {:?}", other),
    };
    assert_eq!(bound, commitment(0xaa));
    let seed_challenge = seed(&key(), 104, SeedInput { data: bound });

    let (work, action) = work.advance(WorkEvent::SeedIssued(seed_challenge.clone()));
    match action {
        WorkAction::Prove(VerifierTask::DrgPoRep { setup, inputs }) => {
            assert_eq!(setup.drg.nodes, 32);
            assert_eq!(inputs.replica_id, id_from_str(&seed_start.mac));
            assert_eq!(inputs.challenges, vec![2, 2, 2]);
            assert_eq!(inputs.tau.comm_r, commitment(0xaa));
            assert_eq!(inputs.tau.comm_d, commitment(0xbb));
        }
        other => panic!("unexpected {:?}", other),
    }

    let built = Proof::DrgPoRep(DrgProof { replica_root: commitment(0xaa), body: vec![7, 7] });
    let (work, action) = work.advance(WorkEvent::Proved(built));
    assert!(matches!(work, Work::Finished));
    let response = match action {
        WorkAction::Submit(response) => response,
        other => panic!("unexpected {:?}", other),
    };
    assert_eq!(response.prover, "alice");
    assert_eq!(response.seed_start.mac, seed_start.mac);
    assert_eq!(response.seed_challenge.mac, seed_challenge.mac);
    assert_eq!(response.proof_params.challenge_count, 3);
    assert_eq!(response.tau.comm_r, commitment(0xaa));
    assert_eq!(response.comm_r_star, None);
    assert_eq!(check_binding(&response), Ok(()));
    assert_eq!(validate(&key(), &response, Verdict::Accepted, 110), Ok(10));
}

#[test]
fn layered_work_runs_to_a_valid_submission() {
    let declared = params(ProofType::Zigzag, Some(options()));
    let (work, action) = zigzag_work("bob".to_string(), declared);
    assert!(matches!(action, WorkAction::GetSeed(data) if data == Domain::zero()));
    let seed_start = seed(&key(), 100, SeedInput::default());
    let (work, action) = work.advance(WorkEvent::SeedIssued(seed_start.clone()));
    match action {
        WorkAction::Replicate(ReplicaTask::Zigzag { setup, replica_id }) => {
            assert_eq!(replica_id, id_from_str(&seed_start.mac));
            assert_eq!(setup.drg.expansion_degree, 8);
            assert_eq!(setup.layer_challenges, LayerChallenges::Fixed { layers: 2, count: 3 });
        }
        other => panic!("unexpected {:?}", other),
    }
    let layer_taus = vec![
        Tau { comm_r: commitment(1), comm_d: commitment(2) },
        Tau { comm_r: commitment(3), comm_d: commitment(1) },
    ];
    let tau = Tau { comm_r: commitment(3), comm_d: commitment(2) };
    let replica = Replica::Zigzag { layer_taus: layer_taus.clone(), tau, comm_r_star: commitment(9) };
    assert_eq!(commitment_to_bind(&replica), Some(commitment(3)));
    let (work, action) = work.advance(WorkEvent::Replicated(replica));
    let bound = match action {
        WorkAction::GetSeed(data) => data,
        other => panic!("unexpected {:?}", other),
    };
    assert_eq!(bound, commitment(3));
    let seed_challenge = seed(&key(), 101, SeedInput { data: bound });
    let (work, action) = work.advance(WorkEvent::SeedIssued(seed_challenge.clone()));
    match action {
        WorkAction::Prove(VerifierTask::Zigzag { setup, inputs }) => {
            assert_eq!(setup.sloth_iter, 1);
            assert_eq!(inputs.comm_r_star, commitment(9));
            assert_eq!(inputs.k, Some(0));
            assert_eq!(inputs.seed, derive_seed_fr(&seed_challenge));
            assert_eq!(inputs.tau.comm_d, commitment(2));
        }
        other => panic!("unexpected {:?}", other),
    }
    let built = Proof::Zigzag(vec![LayeredProof { tau: layer_taus, body: Vec::new() }]);
    let (_, action) = work.advance(WorkEvent::Proved(built));
    let response = match action {
        WorkAction::Submit(response) => response,
        other => panic!("unexpected {:?}", other),
    };
    assert_eq!(response.comm_r_star, Some(commitment(9)));
    assert_eq!(validate(&key(), &response, Verdict::Accepted, 102), Ok(2));
}

#[test]
fn layered_work_without_options_uses_six_and_ten_fixed_layers() {
    let setup = layered_setup(&params(ProofType::Zigzag, None));
    assert_eq!(setup.drg.expansion_degree, 6);
    assert_eq!(setup.layer_challenges, LayerChallenges::Fixed { layers: 10, count: 3 });
    assert_eq!(drg_setup(&params(ProofType::DrgPoRep, None)).drg.expansion_degree, 0);
    assert_eq!(drg_params(&params(ProofType::DrgPoRep, None), 4).expansion_degree, 4);
    assert_eq!(challenges(0), Vec::<usize>::new());
    assert_eq!(challenges(2), vec![2, 2]);
}

#[test]
fn event_that_was_not_awaited_ends_the_work() {
    let declared = params(ProofType::DrgPoRep, None);
    let tau = Tau { comm_r: commitment(1), comm_d: commitment(2) };

    let (work, _) = porep_work("a".to_string(), declared);
    let (work, action) = work.advance(WorkEvent::Replicated(Replica::DrgPoRep { tau }));
    assert!(matches!(work, Work::Finished));
    assert!(matches!(action, WorkAction::Abort));
    let (work, action) = work.advance(WorkEvent::SeedIssued(seed(&key(), 1, SeedInput::default())));
    assert!(matches!(work, Work::Finished));
    assert!(matches!(action, WorkAction::Abort));

    let (work, _) = porep_work("a".to_string(), declared);
    let (_, action) = work.advance(WorkEvent::SeedIssued(bad_seed("not hex")));
    assert!(matches!(action, WorkAction::Abort));
}

#[test]
fn replica_of_the_other_kind_or_without_layers_ends_the_work() {
    let declared = params(ProofType::Zigzag, Some(options()));
    let tau = Tau { comm_r: commitment(1), comm_d: commitment(2) };
    let start = seed(&key(), 1, SeedInput::default());

    let (work, _) = zigzag_work("a".to_string(), declared);
    let (work, _) = work.advance(WorkEvent::SeedIssued(start.clone()));
    let (_, action) = work.advance(WorkEvent::Replicated(Replica::DrgPoRep { tau }));
    assert!(matches!(action, WorkAction::Abort));

    let (work, _) = zigzag_work("a".to_string(), declared);
    let (work, _) = work.advance(WorkEvent::SeedIssued(start.clone()));
    let empty = Replica::Zigzag { layer_taus: Vec::new(), tau, comm_r_star: commitment(3) };
    assert_eq!(commitment_to_bind(&empty), None);
    let (_, action) = work.advance(WorkEvent::Replicated(empty));
    assert!(matches!(action, WorkAction::Abort));

    let (work, _) = zigzag_work("a".to_string(), declared);
    let (work, _) = work.advance(WorkEvent::SeedIssued(start.clone()));
    let replica = Replica::Zigzag { layer_taus: vec![tau], tau, comm_r_star: commitment(3) };
    let (work, _) = work.advance(WorkEvent::Replicated(replica));
    let (_, action) = work.advance(WorkEvent::SeedIssued(bad_seed("0011")));
    assert!(matches!(action, WorkAction::Abort));
}

#[test]
fn proof_of_the_other_kind_ends_the_work() {
    let declared = params(ProofType::DrgPoRep, None);
    let tau = Tau { comm_r: commitment(1), comm_d: commitment(2) };
    let (work, _) = porep_work("a".to_string(), declared);
    let (work, _) = work.advance(WorkEvent::SeedIssued(seed(&key(), 1, SeedInput::default())));
    let (work, _) = work.advance(WorkEvent::Replicated(Replica::DrgPoRep { tau }));
    let (work, _) = work.advance(WorkEvent::SeedIssued(bad_seed("anything goes here")));
    let (work, action) = work.advance(WorkEvent::Proved(Proof::Zigzag(Vec::new())));
    assert!(matches!(work, Work::Finished));
    assert!(matches!(action, WorkAction::Abort));
}
