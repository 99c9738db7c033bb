use rand::distributions::Alphanumeric;
use rand::{thread_rng, Rng};
use replication_game::crypto::SecretKey;
use replication_game::domain::Domain;
use replication_game::models::leaderboard::{Entry, PrintableEntry, Store};
use replication_game::models::seed::{Seed, SeedInput};
use replication_game::models::submission::{
    self, DrgProof, LayeredProof, Proof, ProofType, Response, Tau, ZigZagParams,
};
use replication_game::proofs::{porep_work, zigzag_work, Replica, Work, WorkAction, WorkEvent};
use replication_game::routes::leaderboard::leaderboard;
use replication_game::routes::seed::seed;
use replication_game::routes::submit::{submit_proof, Verdict};

fn key() -> SecretKey {
    SecretKey::new(b"my cool key".to_vec()).unwrap()
}

fn random_id(rng: &mut impl Rng) -> String {
    rng.sample_iter(&Alphanumeric).take(12).map(char::from).collect()
}

fn random_domain(rng: &mut impl Rng) -> Domain {
    let mut bytes = [0u8; 32];
    rng.fill(&mut bytes);
    Domain { bytes }
}

// Runs the prover's work to its submission. The replication and the proof,
// which the proof scheme would compute, are stood in for by random
// commitments and a proof that claims them.
fn work<F>(start: (Work, WorkAction), rng: &mut impl Rng, get_seed: F) -> Response
where
    F: Fn(Domain) -> Seed,
{
    let (mut state, mut action) = start;
    let mut layers: Vec<Tau> = Vec::new();
    loop {
        let event = match action {
            WorkAction::GetSeed(data) => WorkEvent::SeedIssued(get_seed(data)),
            WorkAction::Replicate(task) => {
                let tau = Tau { comm_r: random_domain(rng), comm_d: random_domain(rng) };
                match task {
                    replication_game::proofs::ReplicaTask::DrgPoRep { .. } => {
                        layers = vec![tau];
                        WorkEvent::Replicated(Replica::DrgPoRep { tau })
                    }
                    replication_game::proofs::ReplicaTask::Zigzag { .. } => {
                        let first = Tau { comm_r: random_domain(rng), comm_d: tau.comm_d };
                        layers = vec![first, Tau { comm_r: tau.comm_r, comm_d: first.comm_r }];
                        WorkEvent::Replicated(Replica::Zigzag {
                            layer_taus: layers.clone(),
                            tau,
                            comm_r_star: random_domain(rng),
                        })
                    }
                }
            }
            WorkAction::Prove(task) => match task {
                replication_game::proofs::VerifierTask::DrgPoRep { inputs, .. } => {
                    WorkEvent::Proved(Proof::DrgPoRep(DrgProof {
                        replica_root: inputs.tau.comm_r,
                        body: Vec::new(),
                    }))
                }
                replication_game::proofs::VerifierTask::Zigzag { .. } => {
                    WorkEvent::Proved(Proof::Zigzag(vec![LayeredProof {
                        tau: layers.clone(),
                        body: Vec::new(),
                    }]))
                }
            },
            WorkAction::Submit(response) => return response,
            WorkAction::Abort => panic!("work was given up"),
        };
        let next = state.advance(event);
        state = next.0;
        action = next.1;
    }
}

#[test]
fn test_insertion() {
    let key = key();
    let mut store = Store::new();
    let now = 1_550_000_000;
    let get_seed = |data| seed(&key, now, SeedInput { data });

    // Get the tasks before making changes.
    let init_leaderboard = Entry::all(&store);

    let mut rng = thread_rng();
    let id: String = random_id(&mut rng);

    let params = submission::Params {
        typ: ProofType::DrgPoRep,
        size: 1024,
        challenge_count: 1,
        vde: 1,
        degree: 3,
        zigzag: None,
        seed: None,
    };

    let proof_value = work(porep_work(id.clone(), params), &mut rng, get_seed);

    // Issue a request to insert a result
    let response = submit_proof(&mut store, &key, now + 1, &proof_value, Verdict::Accepted);

    assert_eq!(response, Ok(()));

    // Ensure we have one more entry the database.
    let new_leaderboard = Entry::all(&store);
    assert_eq!(new_leaderboard.len(), init_leaderboard.len() + 1);

    // Ensure the entry exists
    assert!(new_leaderboard
        .iter()
        .find(|entry| &entry.prover == &id)
        .is_some());

    // check that the entry is in the leaderboard

    let entries: Vec<PrintableEntry> = leaderboard(&store);

    assert!(entries.iter().find(|entry| &entry.prover == &id).is_some());
}

#[test]
fn test_many_insertions() {
    let key = key();
    let mut store = Store::new();
    let mut rng = thread_rng();
    let mut now = 1_550_000_000;

    // Get the tasks before making changes.
    let init_leaderboard = Entry::all(&store);

    let mut prev_len = init_leaderboard.len();

    for _ in 0..2 {
        let id: String = random_id(&mut rng);

        let params1 = submission::Params {
            typ: ProofType::DrgPoRep,
            size: 1024,
            challenge_count: 1,
            vde: 1,
            degree: 3,
            zigzag: None,
            seed: None,
        };
        let params2 = submission::Params {
            typ: ProofType::DrgPoRep,
            size: 1024,
            challenge_count: 2,
            vde: 1,
            degree: 3,
            zigzag: None,
            seed: None,
        };

        let params3 = submission::Params {
            typ: ProofType::Zigzag,
            size: 1024,
            challenge_count: 1,
            vde: 1,
            degree: 3,
            zigzag: Some(ZigZagParams {
                expansion_degree: 8,
                layers: 2,
                is_tapered: true,
                taper_layers: 2,
                taper: 1.2f64.to_bits(),
            }),
            seed: None,
        };

        let issued_at = now;
        let proof_value1 =
            work(porep_work(id.clone(), params1.clone()), &mut rng, |data| {
                seed(&key, issued_at, SeedInput { data })
            });
        let proof_value2 =
            work(porep_work(id.clone(), params2.clone()), &mut rng, |data| {
                seed(&key, issued_at, SeedInput { data })
            });
        let proof_value3 =
            work(zigzag_work(id.clone(), params3.clone()), &mut rng, |data| {
                seed(&key, issued_at, SeedInput { data })
            });

        // First params
        let old_repl_time = {
            // slower proof
            now += 2000 / 1000;

            let response = submit_proof(&mut store, &key, now, &proof_value1, Verdict::Accepted);
            assert_eq!(response, Ok(()));

            // Ensure we have one more entry the database.
            let new_leaderboard = Entry::all(&store);
            assert_eq!(new_leaderboard.len(), prev_len + 1);
            prev_len = new_leaderboard.len();
            println!("{:?}", new_leaderboard);
            new_leaderboard
                .iter()
                .find(|entry| &entry.prover == &id)
                .unwrap()
                .repl_time
        };

        // First params, same prover, but faster
        {
            let issued_at = now;
            let proof_value = work(porep_work(id.clone(), params1), &mut rng, |data| {
                seed(&key, issued_at, SeedInput { data })
            });
            let response = submit_proof(&mut store, &key, now, &proof_value, Verdict::Accepted);
            assert_eq!(response, Ok(()));

            // Ensure we don't have another entry
            let new_leaderboard = Entry::all(&store);
            assert_eq!(new_leaderboard.len(), prev_len);

            // check that the entry was updated
            let repl_time = new_leaderboard
                .iter()
                .find(|entry| &entry.prover == &id)
                .unwrap()
                .repl_time;
            assert!(
                repl_time < old_repl_time,
                "replication time was not updated: {} >= {}",
                repl_time,
                old_repl_time
            );
        }

        // Second params
        {
            let response = submit_proof(&mut store, &key, now, &proof_value2, Verdict::Accepted);
            assert_eq!(response, Ok(()));

            // Ensure we have one more entry the database.
            let new_leaderboard = Entry::all(&store);
            assert_eq!(new_leaderboard.len(), prev_len + 1);
            prev_len = new_leaderboard.len();
        }

        // Third params
        {
            let response = submit_proof(&mut store, &key, now, &proof_value3, Verdict::Accepted);
            assert_eq!(response, Ok(()));

            // Ensure we have one more entry the database.
            let new_leaderboard = Entry::all(&store);
            assert_eq!(new_leaderboard.len(), prev_len + 1);
            prev_len = new_leaderboard.len();
        }

        // Clone of second params
        {
            let response = submit_proof(&mut store, &key, now, &proof_value2, Verdict::Accepted);
            assert_eq!(response, Ok(()));

            let new_leaderboard = Entry::all(&store);
            assert_eq!(new_leaderboard.len(), prev_len);
        }
    }
}
