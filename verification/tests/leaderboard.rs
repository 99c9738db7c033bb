use blake2::{Blake2b, Digest};
use byteorder::{BigEndian, ByteOrder};
use replication_game::domain::Domain;
use replication_game::error::ApiError;
use replication_game::models::leaderboard::{
    after_write, upsert_action, Entry, Params, Store, UpsertAction, WriteOutcome, WriteStep,
};
use replication_game::models::submission::{self, ProofType, ZigZagParams};
use replication_game::routes::leaderboard::leaderboard;

fn drg(challenge_count: usize) -> submission::Params {
    submission::Params {
        typ: ProofType::DrgPoRep,
        size: 1024,
        challenge_count,
        vde: 1,
        degree: 3,
        zigzag: None,
        seed: None,
    }
}

fn zigzag() -> submission::Params {
    submission::Params {
        typ: ProofType::Zigzag,
        size: 1024,
        challenge_count: 1,
        vde: 1,
        degree: 3,
        zigzag: Some(ZigZagParams {
            expansion_degree: 8,
            layers: 2,
            is_tapered: true,
            taper_layers: 2,
            taper: 1.2f64.to_bits(),
        }),
        seed: None,
    }
}

#[test]
fn canonical_form_of_plain_parameters() {
    let bytes = drg(2).canonical_bytes();
    let mut expected = vec![1u8];
    expected.extend_from_slice(&[0, 0, 0, 0, 0, 0, 4, 0]);
    expected.extend_from_slice(&[0, 0, 0, 0, 0, 0, 0, 2]);
    expected.extend_from_slice(&[0, 0, 0, 0, 0, 0, 0, 1]);
    expected.extend_from_slice(&[0, 0, 0, 0, 0, 0, 0, 3]);
    expected.push(0);
    expected.push(0);
    assert_eq!(bytes, expected);
}

#[test]
fn canonical_form_of_layered_parameters_with_seed() {
    let mut params = zigzag();
    params.size = 0x0102030405060708;
    params.seed = Some(Domain { bytes: [0xee; 32] });
    let bytes = params.canonical_bytes();
    let mut expected = vec![0u8];
    expected.extend_from_slice(&[1, 2, 3, 4, 5, 6, 7, 8]);
    expected.extend_from_slice(&[0, 0, 0, 0, 0, 0, 0, 1]);
    expected.extend_from_slice(&[0, 0, 0, 0, 0, 0, 0, 1]);
    expected.extend_from_slice(&[0, 0, 0, 0, 0, 0, 0, 3]);
    expected.push(1);
    expected.extend_from_slice(&[0, 0, 0, 0, 0, 0, 0, 8]);
    expected.extend_from_slice(&[0, 0, 0, 0, 0, 0, 0, 2]);
    expected.push(1);
    expected.extend_from_slice(&[0, 0, 0, 0, 0, 0, 0, 2]);
    expected.extend_from_slice(&1.2f64.to_bits().to_be_bytes());
    expected.push(1);
    expected.extend_from_slice(&[0xee; 32]);
    assert_eq!(bytes, expected);
    assert_eq!(bytes.len(), 100);
}

#[test]
fn identifier_is_the_start_of_the_digest_of_the_canonical_form() {
    for params in [drg(1), drg(2), zigzag()] {
        let hash = Blake2b::digest(&params.canonical_bytes());
        assert_eq!(Params::id_of(&params), BigEndian::read_i64(&hash));
    }
    assert_ne!(Params::id_of(&drg(1)), Params::id_of(&drg(2)));
    assert_ne!(Params::id_of(&drg(1)), Params::id_of(&zigzag()));
}

#[test]
fn stored_form_lays_the_layered_options_out() {
    let row = Params::row(5, &zigzag());
    assert_eq!(row.id, 5);
    assert_eq!(row.typ, ProofType::Zigzag);
    assert_eq!(row.size, 1024);
    assert_eq!(row.challenge_count, 1);
    assert_eq!(row.vde, 1);
    assert_eq!(row.degree, 3);
    assert_eq!(row.expansion_degree, Some(8));
    assert_eq!(row.layers, Some(2));
    assert_eq!(row.is_tapered, Some(true));
    assert_eq!(row.taper_layers, Some(2));
    assert_eq!(row.taper.map(f64::from_bits), Some(1.2));
    let plain = Params::row(6, &drg(1));
    assert_eq!(plain.expansion_degree, None);
    assert_eq!(plain.layers, None);
    assert_eq!(plain.is_tapered, None);
    assert_eq!(plain.taper_layers, None);
    assert_eq!(plain.taper, None);
}

#[test]
fn resolving_twice_gives_one_row_and_one_identifier() {
    let mut store = Store::new();
    let first = Params::insert(&drg(1), &mut store);
    assert_eq!(store.params_len(), 1);
    let second = Params::insert(&drg(1).clone(), &mut store);
    assert_eq!(first, second);
    assert_eq!(store.params_len(), 1);
    assert_eq!(store.params_of(first), Some(Params::row(first, &drg(1))));
    let other = Params::insert(&drg(2), &mut store);
    assert_ne!(other, first);
    assert_eq!(store.params_len(), 2);
    assert_eq!(store.params_of(12345), None);
}

#[test]
fn worse_time_is_a_no_op() {
    let mut store = Store::new();
    let id = Params::insert(&drg(1), &mut store);
    Entry::insert("p", 100, id, &mut store);
    Entry::insert("p", 150, id, &mut store);
    assert_eq!(store.best_time("p", id), Some(100));
    assert_eq!(store.entries_len(), 1);
    Entry::insert("p", 100, id, &mut store);
    assert_eq!(store.best_time("p", id), Some(100));
    assert_eq!(store.entries_len(), 1);
}

#[test]
fn best_time_is_the_least_in_any_order() {
    let orders: [[i64; 4]; 4] =
        [[40, 10, 30, 20], [10, 20, 30, 40], [40, 30, 20, 10], [20, 40, 10, 30]];
    for times in orders.iter() {
        let mut store = Store::new();
        for t in times.iter() {
            Entry::insert("prover", *t, 7, &mut store);
        }
        assert_eq!(store.best_time("prover", 7), Some(10));
        assert_eq!(store.entries_len(), 1);
    }
}

#[test]
fn negative_times_are_kept_as_they_are() {
    let mut store = Store::new();
    Entry::insert("p", 5, 1, &mut store);
    Entry::insert("p", -3, 1, &mut store);
    assert_eq!(store.best_time("p", 1), Some(-3));
}

#[test]
fn entries_are_kept_by_prover_and_parameter_set() {
    let mut store = Store::new();
    Entry::insert("a", 30, 1, &mut store);
    Entry::insert("a", 20, 2, &mut store);
    Entry::insert("b", 10, 1, &mut store);
    assert_eq!(store.entries_len(), 3);
    assert_eq!(store.best_time("a", 1), Some(30));
    assert_eq!(store.best_time("a", 2), Some(20));
    assert_eq!(store.best_time("b", 1), Some(10));
    assert_eq!(store.best_time("b", 2), None);
    assert_eq!(store.best_time("", 1), None);
}

#[test]
fn listing_is_in_ascending_order_of_time_with_parameters() {
    let mut store = Store::new();
    let one = Params::insert(&drg(1), &mut store);
    let two = Params::insert(&zigzag(), &mut store);
    Entry::insert("slow", 30, one, &mut store);
    Entry::insert("fast", 10, two, &mut store);
    Entry::insert("mid", 20, one, &mut store);
    Entry::insert("slow", 25, one, &mut store);
    let rows = Entry::all(&store);
    let shown: Vec<(&str, i64, i64)> =
        rows.iter().map(|r| (r.prover.as_str(), r.repl_time, r.params.id)).collect();
    assert_eq!(shown, vec![("fast", 10, two), ("mid", 20, one), ("slow", 25, one)]);
    assert_eq!(rows[0].params, Params::row(two, &zigzag()));
    assert_eq!(rows[1].params, Params::row(one, &drg(1)));
    let again = leaderboard(&store);
    assert_eq!(again.len(), 3);
    assert_eq!(again[2].prover, "slow");
}

#[test]
fn listing_leaves_out_entries_without_parameters() {
    let mut store = Store::new();
    let one = Params::insert(&drg(1), &mut store);
    Entry::insert("known", 5, one, &mut store);
    Entry::insert("unknown", 1, one.wrapping_add(1), &mut store);
    let rows = Entry::all(&store);
    assert_eq!(rows.len(), 1);
    assert_eq!(rows[0].prover, "known");
    assert_eq!(Entry::all(&Store::new()).len(), 0);
}

#[test]
fn upsert_decisions() {
    assert_eq!(upsert_action(None, 5), UpsertAction::Insert);
    assert_eq!(upsert_action(Some(6), 5), UpsertAction::Update);
    assert_eq!(upsert_action(Some(5), 5), UpsertAction::Keep);
    assert_eq!(upsert_action(Some(4), 5), UpsertAction::Keep);
}

#[test]
fn conflict_is_retried_and_surfaces_last() {
    assert_eq!(after_write(WriteOutcome::Written, 0), WriteStep::Done);
    assert_eq!(after_write(WriteOutcome::Written, 3), WriteStep::Done);
    assert_eq!(after_write(WriteOutcome::Conflict, 1), WriteStep::Retry);
    assert_eq!(
        after_write(WriteOutcome::Conflict, 0),
        WriteStep::GiveUp(ApiError::StoreConflict)
    );
    assert!(ApiError::StoreConflict.is_transient());
    assert!(!ApiError::ProofRejected.is_transient());
}

#[test]
fn kinds_are_stored_by_name() {
    assert_eq!(ProofType::Zigzag.name(), "zigzag");
    assert_eq!(ProofType::DrgPoRep.name(), "drgporep");
    assert_eq!(ProofType::from_name("zigzag"), Some(ProofType::Zigzag));
    assert_eq!(ProofType::from_name("drgporep"), Some(ProofType::DrgPoRep));
    assert_eq!(ProofType::from_name("DrgPoRep"), None);
    assert_eq!(ProofType::from_name(""), None);
}

#[test]
fn colliding_identifier_keeps_the_first_set() {
    let mut store = Store::new();
    let first = Params::row(42, &drg(1));
    let second = Params::row(42, &zigzag());
    store.resolve(first);
    store.resolve(second);
    assert_eq!(store.params_len(), 1);
    assert_eq!(store.params_of(42), Some(first));
}

#[test]
fn layered_options_go_with_the_layered_kind() {
    assert!(drg(1).is_well_formed());
    assert!(zigzag().is_well_formed());
    let mut odd = drg(1);
    odd.zigzag = zigzag().zigzag;
    assert!(!odd.is_well_formed());
    let mut bare = zigzag();
    bare.zigzag = None;
    assert!(!bare.is_well_formed());
}
