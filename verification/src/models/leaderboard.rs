//! The records kept: parameter sets under the hash of their content, and
//! for each prover and parameter set the best time so far.

use crate::crypto::{self, blake2b_digest};
use crate::endian::{self, as_signed, be_u64};
use crate::error::ApiError;
use crate::models::submission::{self, ProofType, Response};
use vstd::prelude::*;

verus! {

/// The best time of one prover on one parameter set.
#[derive(Clone, Debug)]
pub struct Entry {
    pub prover: String,
    /// Seconds between the start seed and the submission.
    pub repl_time: i64,
    pub params_id: i64,
}

/// An entry together with the parameter set it refers to.
#[derive(Clone, Debug)]
pub struct PrintableEntry {
    pub prover: String,
    pub repl_time: i64,
    pub params: Params,
}

/// A stored parameter set: its identifier and its fields, those of the
/// layered options side by side with the others.
#[derive(Clone, Copy, Debug, PartialEq, Eq, Structural)]
pub struct Params {
    pub id: i64,
    pub typ: ProofType,
    pub size: usize,
    pub challenge_count: usize,
    pub vde: usize,
    pub degree: usize,
    pub expansion_degree: Option<usize>,
    pub layers: Option<usize>,
    pub is_tapered: Option<bool>,
    pub taper_layers: Option<usize>,
    pub taper: Option<u64>,
}

/// What an upsert does to the row it is about.
#[derive(Clone, Copy, Debug, PartialEq, Eq, Structural)]
pub enum UpsertAction {
    /// There is no row yet: write one.
    Insert,
    /// The new time is better: lower the row's time to it.
    Update,
    /// The stored time is at least as good: leave the row alone.
    Keep,
}

/// The identifier of a parameter set: the first eight bytes of the BLAKE2b
/// digest of its canonical form, read as a signed big-endian number.
pub open spec fn content_id(val: submission::Params) -> int {
    as_signed(be_u64(blake2b_digest(val.canonical())))
}

/// What the store holds, as two maps: parameter sets by identifier, and
/// best times by prover and parameter set.
#[verifier::ext_equal]
pub struct Records {
    pub params: Map<i64, Params>,
    pub entries: Map<(Seq<char>, i64), i64>,
}

impl Records {
    /// The store with nothing in it.
    pub open spec fn empty() -> Records {
        Records { params: Map::empty(), entries: Map::empty() }
    }

    /// The store after a parameter set was resolved: a set that is already
    /// held is left as it is, a new one is added.
    pub open spec fn resolve(self, row: Params) -> Records {
        if self.params.contains_key(row.id) {
            self
        } else {
            Records { params: self.params.insert(row.id, row), entries: self.entries }
        }
    }

    /// The best time held for a prover on a parameter set.
    pub open spec fn best(self, prover: Seq<char>, params_id: i64) -> Option<i64> {
        if self.entries.contains_key((prover, params_id)) {
            Some(self.entries[(prover, params_id)])
        } else {
            None
        }
    }

    /// The store after an upsert: the time is written where there was none
    /// or a worse one, and nothing changes otherwise.
    pub open spec fn upsert(self, prover: Seq<char>, params_id: i64, repl_time: i64) -> Records {
        match upsert_decision(self.best(prover, params_id), repl_time) {
            UpsertAction::Keep => self,
            _ => Records {
                params: self.params,
                entries: self.entries.insert((prover, params_id), repl_time),
            },
        }
    }

    /// The store after a run of upserts for one prover and parameter set,
    /// in the order of the times given.
    pub open spec fn upsert_all(self, prover: Seq<char>, params_id: i64, times: Seq<i64>) -> Records
        decreases times.len(),
    {
        if times.len() == 0 {
            self
        } else {
            self.upsert_all(prover, params_id, times.drop_last()).upsert(
                prover,
                params_id,
                times.last(),
            )
        }
    }
}

/// What an upsert of a time does, given the time that is held.
pub open spec fn upsert_decision(existing: Option<i64>, repl_time: i64) -> UpsertAction {
    match existing {
        None => UpsertAction::Insert,
        Some(held) => if repl_time < held {
            UpsertAction::Update
        } else {
            UpsertAction::Keep
        },
    }
}

/// Decides what an upsert of a time does, given the time that is held.
pub fn upsert_action(existing: Option<i64>, repl_time: i64) -> (action: UpsertAction)
    ensures
        action == upsert_decision(existing, repl_time),
{
    match existing {
        None => UpsertAction::Insert,
        Some(held) => if repl_time < held {
            UpsertAction::Update
        } else {
            UpsertAction::Keep
        },
    }
}

/// How a conditional write ended at a storage engine that several
/// writers share.
#[derive(Clone, Copy, Debug, PartialEq, Eq, Structural)]
pub enum WriteOutcome {
    /// The write went through.
    Written,
    /// Another writer got there first.
    Conflict,
}

/// What follows an attempt at a conditional write.
#[derive(Clone, Copy, Debug, PartialEq, Eq, Structural)]
pub enum WriteStep {
    /// The write is done.
    Done,
    /// Read the row again and make the write that then applies.
    Retry,
    /// No attempt is left: report the conflict.
    GiveUp(ApiError),
}

/// What follows an attempt, as a function of how it ended and of how many
/// more attempts may be made.
pub open spec fn write_step(outcome: WriteOutcome, attempts_left: u32) -> WriteStep {
    match outcome {
        WriteOutcome::Written => WriteStep::Done,
        WriteOutcome::Conflict => if attempts_left > 0 {
            WriteStep::Retry
        } else {
            WriteStep::GiveUp(ApiError::StoreConflict)
        },
    }
}

/// Decides what follows an attempt at a conditional write: a conflict is
/// met by another attempt while one is left, and surfaces as
/// `StoreConflict` only when none is.
pub fn after_write(outcome: WriteOutcome, attempts_left: u32) -> (step: WriteStep)
    ensures
        step == write_step(outcome, attempts_left),
{
    match outcome {
        WriteOutcome::Written => WriteStep::Done,
        WriteOutcome::Conflict => if attempts_left > 0 {
            WriteStep::Retry
        } else {
            WriteStep::GiveUp(ApiError::StoreConflict)
        },
    }
}

/// The prover and parameter set that an entry is about.
pub open spec fn entry_key(e: Entry) -> (Seq<char>, i64) {
    (e.prover@, e.params_id)
}

/// The prover and parameter set that a listed entry is about.
pub open spec fn listed_key(e: PrintableEntry) -> (Seq<char>, i64) {
    (e.prover@, e.params.id)
}

/// A listing of a store: every entry whose parameter set is held, once,
/// with its best time and its parameter set, in ascending order of time.
pub open spec fn is_listing(store: Records, rows: Seq<PrintableEntry>) -> bool {
    &&& forall|a: int, b: int|
        0 <= a < b < rows.len() ==> rows[a].repl_time <= rows[b].repl_time
    &&& forall|a: int, b: int|
        0 <= a < b < rows.len() ==> listed_key(rows[a]) != listed_key(rows[b])
    &&& forall|a: int|
        0 <= a < rows.len() ==> {
            &&& store.best(rows[a].prover@, rows[a].params.id) == Some(rows[a].repl_time)
            &&& store.params.contains_key(rows[a].params.id)
            &&& store.params[rows[a].params.id] == rows[a].params
        }
    &&& forall|prover: Seq<char>, id: i64|
        store.entries.contains_key((prover, id)) && store.params.contains_key(id) ==> exists|
            a: int,
        |
            0 <= a < rows.len() && #[trigger] listed_key(rows[a]) == (prover, id)
}

spec fn has_id(rows: Seq<Params>, id: i64) -> bool {
    exists|i: int| 0 <= i < rows.len() && (#[trigger] rows[i]).id == id
}

spec fn has_key(entries: Seq<Entry>, key: (Seq<char>, i64)) -> bool {
    exists|i: int| 0 <= i < entries.len() && entry_key(#[trigger] entries[i]) == key
}

spec fn params_map(rows: Seq<Params>) -> Map<i64, Params> {
    Map::new(
        |id: i64| has_id(rows, id),
        |id: i64| rows[choose|i: int| 0 <= i < rows.len() && (#[trigger] rows[i]).id == id],
    )
}

spec fn entries_map(entries: Seq<Entry>) -> Map<(Seq<char>, i64), i64> {
    Map::new(
        |key: (Seq<char>, i64)| has_key(entries, key),
        |key: (Seq<char>, i64)|
            entries[choose|i: int|
                0 <= i < entries.len() && entry_key(#[trigger] entries[i]) == key].repl_time,
    )
}

spec fn listed_from(rows: Seq<Params>, entry: Entry, listed: PrintableEntry) -> bool {
    &&& listed.prover@ == entry.prover@
    &&& listed.repl_time == entry.repl_time
    &&& listed.params.id == entry.params_id
    &&& has_id(rows, entry.params_id)
    &&& listed.params == params_map(rows)[entry.params_id]
}

spec fn distinct_ids(rows: Seq<Params>) -> bool {
    forall|i: int, j: int| 0 <= i < j < rows.len() ==> rows[i].id != rows[j].id
}

spec fn distinct_keys(entries: Seq<Entry>) -> bool {
    forall|i: int, j: int|
        0 <= i < j < entries.len() ==> entry_key(entries[i]) != entry_key(entries[j])
}

proof fn lemma_row_at(rows: Seq<Params>, i: int)
    requires
        distinct_ids(rows),
        0 <= i < rows.len(),
    ensures
        params_map(rows).contains_key(rows[i].id),
        params_map(rows)[rows[i].id] == rows[i],
{
    let id = rows[i].id;
    assert(has_id(rows, id));
    let j = choose|j: int| 0 <= j < rows.len() && (#[trigger] rows[j]).id == id;
    assert(j == i);
}

proof fn lemma_entry_at(entries: Seq<Entry>, i: int)
    requires
        distinct_keys(entries),
        0 <= i < entries.len(),
    ensures
        entries_map(entries).contains_key(entry_key(entries[i])),
        entries_map(entries)[entry_key(entries[i])] == entries[i].repl_time,
{
    let key = entry_key(entries[i]);
    assert(has_key(entries, key));
    let j = choose|j: int| 0 <= j < entries.len() && entry_key(#[trigger] entries[j]) == key;
    assert(j == i);
}

proof fn lemma_params_pushed(rows: Seq<Params>, row: Params)
    requires
        distinct_ids(rows),
        !has_id(rows, row.id),
    ensures
        distinct_ids(rows.push(row)),
        params_map(rows.push(row)) == params_map(rows).insert(row.id, row),
{
    let after = rows.push(row);
    assert forall|i: int, j: int| 0 <= i < j < after.len() implies after[i].id
        != after[j].id by {
        if j == rows.len() {
            assert(rows[i].id != row.id);
        }
    }
    assert forall|id: i64| has_id(after, id) <==> (id == row.id || has_id(rows, id)) by {
        if has_id(after, id) {
            let i = choose|i: int| 0 <= i < after.len() && (#[trigger] after[i]).id == id;
            if i < rows.len() {
                assert(rows[i].id == id);
            }
        }
        if has_id(rows, id) {
            let i = choose|i: int| 0 <= i < rows.len() && (#[trigger] rows[i]).id == id;
            assert(after[i].id == id);
        }
        if id == row.id {
            assert(after[rows.len() as int].id == id);
        }
    }
    assert forall|id: i64| has_id(after, id) implies params_map(after)[id] == params_map(
        rows,
    ).insert(row.id, row)[id] by {
        let i = choose|i: int| 0 <= i < after.len() && (#[trigger] after[i]).id == id;
        lemma_row_at(after, i);
        if i < rows.len() {
            lemma_row_at(rows, i);
        }
    }
    assert(params_map(after) =~= params_map(rows).insert(row.id, row));
}

proof fn lemma_entry_pushed(entries: Seq<Entry>, entry: Entry)
    requires
        distinct_keys(entries),
        !has_key(entries, entry_key(entry)),
    ensures
        distinct_keys(entries.push(entry)),
        entries_map(entries.push(entry)) == entries_map(entries).insert(
            entry_key(entry),
            entry.repl_time,
        ),
{
    let after = entries.push(entry);
    assert forall|i: int, j: int| 0 <= i < j < after.len() implies entry_key(after[i])
        != entry_key(after[j]) by {
        if j == entries.len() {
            assert(entry_key(entries[i]) != entry_key(entry));
        }
    }
    assert forall|key: (Seq<char>, i64)|
        has_key(after, key) <==> (key == entry_key(entry) || has_key(entries, key)) by {
        if has_key(after, key) {
            let i = choose|i: int| 0 <= i < after.len() && entry_key(#[trigger] after[i]) == key;
            if i < entries.len() {
                assert(entry_key(entries[i]) == key);
            }
        }
        if has_key(entries, key) {
            let i = choose|i: int|
                0 <= i < entries.len() && entry_key(#[trigger] entries[i]) == key;
            assert(entry_key(after[i]) == key);
        }
        if key == entry_key(entry) {
            assert(entry_key(after[entries.len() as int]) == key);
        }
    }
    assert forall|key: (Seq<char>, i64)| has_key(after, key) implies entries_map(after)[key]
        == entries_map(entries).insert(entry_key(entry), entry.repl_time)[key] by {
        let i = choose|i: int| 0 <= i < after.len() && entry_key(#[trigger] after[i]) == key;
        lemma_entry_at(after, i);
        if i < entries.len() {
            lemma_entry_at(entries, i);
        }
    }
    assert(entries_map(after) =~= entries_map(entries).insert(
        entry_key(entry),
        entry.repl_time,
    ));
}

proof fn lemma_entry_replaced(entries: Seq<Entry>, at: int, entry: Entry)
    requires
        distinct_keys(entries),
        0 <= at < entries.len(),
        entry_key(entries[at]) == entry_key(entry),
    ensures
        distinct_keys(entries.update(at, entry)),
        entries_map(entries.update(at, entry)) == entries_map(entries).insert(
            entry_key(entry),
            entry.repl_time,
        ),
{
    let after = entries.update(at, entry);
    assert forall|i: int, j: int| 0 <= i < j < after.len() implies entry_key(after[i])
        != entry_key(after[j]) by {
        assert(entry_key(after[i]) == entry_key(entries[i]));
        assert(entry_key(after[j]) == entry_key(entries[j]));
    }
    assert forall|key: (Seq<char>, i64)| has_key(after, key) <==> has_key(entries, key) by {
        if has_key(after, key) {
            let i = choose|i: int| 0 <= i < after.len() && entry_key(#[trigger] after[i]) == key;
            assert(entry_key(entries[i]) == key);
        }
        if has_key(entries, key) {
            let i = choose|i: int|
                0 <= i < entries.len() && entry_key(#[trigger] entries[i]) == key;
            assert(entry_key(after[i]) == key);
        }
    }
    assert(has_key(entries, entry_key(entry))) by {
        assert(entry_key(entries[at]) == entry_key(entry));
    }
    assert forall|key: (Seq<char>, i64)| has_key(after, key) implies entries_map(after)[key]
        == entries_map(entries).insert(entry_key(entry), entry.repl_time)[key] by {
        let i = choose|i: int| 0 <= i < after.len() && entry_key(#[trigger] after[i]) == key;
        lemma_entry_at(after, i);
        lemma_entry_at(entries, i);
    }
    assert(entries_map(after) =~= entries_map(entries).insert(
        entry_key(entry),
        entry.repl_time,
    ));
}

fn find_params(rows: &Vec<Params>, id: i64) -> (found: Option<usize>)
    ensures
        match found {
            Some(i) => i < rows@.len() && rows@[i as int].id == id,
            None => !has_id(rows@, id),
        },
{
    let mut i: usize = 0;
    while i < rows.len()
        invariant
            i <= rows@.len(),
            forall|j: int| 0 <= j < i ==> rows@[j].id != id,
        decreases rows@.len() - i,
    {
        if rows[i].id == id {
            return Some(i);
        }
        i += 1;
    }
    None
}

fn find_entry(entries: &Vec<Entry>, prover: &String, params_id: i64) -> (found: Option<usize>)
    ensures
        match found {
            Some(i) => i < entries@.len() && entry_key(entries@[i as int]) == (
                prover@,
                params_id,
            ),
            None => !has_key(entries@, (prover@, params_id)),
        },
{
    let mut i: usize = 0;
    while i < entries.len()
        invariant
            i <= entries@.len(),
            forall|j: int| 0 <= j < i ==> entry_key(entries@[j]) != (prover@, params_id),
        decreases entries@.len() - i,
    {
        if entries[i].params_id == params_id && entries[i].prover == *prover {
            return Some(i);
        }
        i += 1;
    }
    None
}

/// The in-memory store behind the leaderboard. It never holds two
/// parameter sets under one identifier, nor two entries for one prover and
/// parameter set.
pub struct Store {
    params: Vec<Params>,
    entries: Vec<Entry>,
}

impl View for Store {
    type V = Records;

    closed spec fn view(&self) -> Records {
        Records { params: params_map(self.params@), entries: entries_map(self.entries@) }
    }
}

impl Store {
    #[verifier::type_invariant]
    spec fn one_row_per_key(self) -> bool {
        distinct_ids(self.params@) && distinct_keys(self.entries@)
    }

    /// How many parameter sets the store holds.
    pub closed spec fn params_count(self) -> nat {
        self.params@.len()
    }

    /// How many entries the store holds.
    pub closed spec fn entries_count(self) -> nat {
        self.entries@.len()
    }

    /// An empty store.
    pub fn new() -> (store: Store)
        ensures
            store@ == Records::empty(),
            store.params_count() == 0,
            store.entries_count() == 0,
    {
        let store = Store { params: Vec::new(), entries: Vec::new() };
        assert(store@.params =~= Map::empty());
        assert(store@.entries =~= Map::empty());
        store
    }

    /// The number of parameter sets held.
    pub fn params_len(&self) -> (n: usize)
        ensures
            n == self.params_count(),
    {
        self.params.len()
    }

    /// The number of entries held.
    pub fn entries_len(&self) -> (n: usize)
        ensures
            n == self.entries_count(),
    {
        self.entries.len()
    }

    fn take(&mut self) -> (parts: (Vec<Params>, Vec<Entry>))
        ensures
            parts.0 == old(self).params,
            parts.1 == old(self).entries,
    {
        let mut held = Store { params: Vec::new(), entries: Vec::new() };
        core::mem::swap(self, &mut held);
        let Store { params, entries } = held;
        (params, entries)
    }

    /// Holds a parameter set under its identifier, unless one is held
    /// there already.
    pub fn resolve(&mut self, row: Params)
        ensures
            final(self)@ == old(self)@.resolve(row),
            final(self).params_count() == old(self).params_count() + (if old(
                self,
            )@.params.contains_key(row.id) {
                0nat
            } else {
                1nat
            }),
            final(self).entries_count() == old(self).entries_count(),
    {
        proof {
            use_type_invariant(&*self);
        }
        let (mut params, entries) = self.take();
        if find_params(&params, row.id).is_none() {
            let ghost before = params@;
            params.push(row);
            proof {
                lemma_params_pushed(before, row);
            }
        }
        *self = Store { params, entries };
    }

    /// Records a time for a prover on a parameter set: written where none
    /// is held or a worse one, a no-op otherwise.
    pub fn upsert(&mut self, prover: &str, params_id: i64, repl_time: i64)
        ensures
            final(self)@ == old(self)@.upsert(prover@, params_id, repl_time),
            final(self).params_count() == old(self).params_count(),
            final(self).entries_count() == old(self).entries_count() + (if old(
                self,
            )@.entries.contains_key((prover@, params_id)) {
                0nat
            } else {
                1nat
            }),
    {
        proof {
            use_type_invariant(&*self);
        }
        let name = prover.to_owned();
        let (params, mut entries) = self.take();
        let ghost before = entries@;
        match find_entry(&entries, &name, params_id) {
            Some(i) => {
                proof {
                    lemma_entry_at(before, i as int);
                }
                let held = entries[i].repl_time;
                match upsert_action(Some(held), repl_time) {
                    UpsertAction::Keep => {},
                    _ => {
                        let entry = Entry { prover: name, repl_time, params_id };
                        entries.set(i, entry);
                        proof {
                            lemma_entry_replaced(before, i as int, entry);
                        }
                    },
                }
            },
            None => {
                let entry = Entry { prover: name, repl_time, params_id };
                entries.push(entry);
                proof {
                    lemma_entry_pushed(before, entry);
                }
            },
        }
        *self = Store { params, entries };
    }

    /// Every entry whose parameter set is held, with that set, in
    /// ascending order of time.
    #[verifier::rlimit(40)]
    pub fn list(&self) -> (rows: Vec<PrintableEntry>)
        ensures
            is_listing(self@, rows@),
    {
        proof {
            use_type_invariant(self);
        }
        let mut out: Vec<PrintableEntry> = Vec::new();
        let ghost mut from: Seq<int> = Seq::empty();
        let mut i: usize = 0;
        while i < self.entries.len()
            invariant
                i <= self.entries@.len(),
                distinct_ids(self.params@),
                distinct_keys(self.entries@),
                from.len() == out@.len(),
                forall|a: int|
                    0 <= a < out@.len() ==> 0 <= #[trigger] from[a] < i && listed_from(
                        self.params@,
                        self.entries@[from[a]],
                        out@[a],
                    ),
                forall|a: int, b: int| 0 <= a < b < out@.len() ==> from[a] != from[b],
                forall|a: int, b: int|
                    0 <= a < b < out@.len() ==> out@[a].repl_time <= out@[b].repl_time,
                forall|j: int|
                    0 <= j < i && has_id(self.params@, (#[trigger] self.entries@[j]).params_id)
                        ==> from.contains(j),
            decreases self.entries@.len() - i,
        {
            let entry = &self.entries[i];
            match find_params(&self.params, entry.params_id) {
                None => {},
                Some(r) => {
                    proof {
                        lemma_row_at(self.params@, r as int);
                    }
                    let row = PrintableEntry {
                        prover: entry.prover.clone(),
                        repl_time: entry.repl_time,
                        params: self.params[r],
                    };
                    let mut at: usize = 0;
                    while at < out.len() && out[at].repl_time <= entry.repl_time
                        invariant
                            at <= out@.len(),
                            forall|a: int| 0 <= a < at ==> out@[a].repl_time <= entry.repl_time,
                        decreases out@.len() - at,
                    {
                        at += 1;
                    }
                    let ghost before = out@;
                    let ghost from_before = from;
                    out.insert(at, row);
                    proof {
                        from = from.insert(at as int, i as int);
                        assert forall|a: int| 0 <= a < out@.len() implies 0 <= #[trigger] from[a]
                            < i + 1 && listed_from(
                            self.params@,
                            self.entries@[from[a]],
                            out@[a],
                        ) by {
                            if a < at {
                                assert(from[a] == from_before[a] && out@[a] == before[a]);
                            } else if a > at {
                                assert(from[a] == from_before[a - 1] && out@[a] == before[a - 1]);
                            }
                        }
                        assert forall|a: int, b: int| 0 <= a < b < out@.len() implies from[a]
                            != from[b] && out@[a].repl_time <= out@[b].repl_time by {
                            let a0 = if a < at {
                                a
                            } else {
                                a - 1
                            };
                            let b0 = if b < at {
                                b
                            } else {
                                b - 1
                            };
                            if a != at {
                                assert(from[a] == from_before[a0] && out@[a] == before[a0]);
                            }
                            if b != at {
                                assert(from[b] == from_before[b0] && out@[b] == before[b0]);
                            }
                        }
                        assert forall|j: int|
                            0 <= j < i + 1 && has_id(
                                self.params@,
                                (#[trigger] self.entries@[j]).params_id,
                            ) implies from.contains(j) by {
                            if j == i {
                                assert(from[at as int] == j);
                            } else {
                                assert(from_before.contains(j));
                                let a = choose|a: int|
                                    0 <= a < from_before.len() && from_before[a] == j;
                                if a < at {
                                    assert(from[a] == j);
                                } else {
                                    assert(from[a + 1] == j);
                                }
                            }
                        }
                    }
                },
            }
            i += 1;
        }
        proof {
            let view = self@;
            assert forall|a: int, b: int| 0 <= a < b < out@.len() implies listed_key(out@[a])
                != listed_key(out@[b]) by {
                assert(listed_from(self.params@, self.entries@[from[a]], out@[a]));
                assert(listed_from(self.params@, self.entries@[from[b]], out@[b]));
                let x = from[a];
                let y = from[b];
                if x < y {
                    assert(entry_key(self.entries@[x]) != entry_key(self.entries@[y]));
                } else {
                    assert(entry_key(self.entries@[y]) != entry_key(self.entries@[x]));
                }
            }
            assert forall|a: int| 0 <= a < out@.len() implies {
                &&& view.best(out@[a].prover@, out@[a].params.id) == Some(out@[a].repl_time)
                &&& view.params.contains_key(out@[a].params.id)
                &&& view.params[out@[a].params.id] == out@[a].params
            } by {
                assert(listed_from(self.params@, self.entries@[from[a]], out@[a]));
                lemma_entry_at(self.entries@, from[a]);
            }
            assert forall|prover: Seq<char>, id: i64|
                view.entries.contains_key((prover, id)) && view.params.contains_key(
                    id,
                ) implies exists|a: int|
                0 <= a < out@.len() && #[trigger] listed_key(out@[a]) == (prover, id) by {
                let j = choose|j: int|
                    0 <= j < self.entries@.len() && entry_key(#[trigger] self.entries@[j]) == (
                        prover,
                        id,
                    );
                assert(has_id(self.params@, self.entries@[j].params_id));
                assert(from.contains(j));
                let a = choose|a: int| 0 <= a < from.len() && from[a] == j;
                assert(listed_from(self.params@, self.entries@[from[a]], out@[a]));
                assert(listed_key(out@[a]) == (prover, id));
            }
        }
        out
    }

    /// The parameter set held under an identifier.
    pub fn params_of(&self, id: i64) -> (row: Option<Params>)
        ensures
            row is Some <==> self@.params.contains_key(id),
            row is Some ==> row->Some_0 == self@.params[id],
    {
        proof {
            use_type_invariant(self);
        }
        match find_params(&self.params, id) {
            Some(i) => {
                proof {
                    lemma_row_at(self.params@, i as int);
                }
                Some(self.params[i])
            },
            None => None,
        }
    }

    /// The best time held for a prover on a parameter set.
    pub fn best_time(&self, prover: &str, params_id: i64) -> (held: Option<i64>)
        ensures
            held == self@.best(prover@, params_id),
    {
        proof {
            use_type_invariant(self);
        }
        let name = prover.to_owned();
        match find_entry(&self.entries, &name, params_id) {
            Some(i) => {
                proof {
                    lemma_entry_at(self.entries@, i as int);
                }
                Some(self.entries[i].repl_time)
            },
            None => None,
        }
    }
}

impl Params {
    /// The stored form of a parameter set under an identifier.
    pub open spec fn row_of(id: i64, val: submission::Params) -> Params {
        Params {
            id,
            typ: val.typ,
            size: val.size,
            challenge_count: val.challenge_count,
            vde: val.vde,
            degree: val.degree,
            expansion_degree: match val.zigzag {
                Some(z) => Some(z.expansion_degree),
                None => None,
            },
            layers: match val.zigzag {
                Some(z) => Some(z.layers),
                None => None,
            },
            is_tapered: match val.zigzag {
                Some(z) => Some(z.is_tapered),
                None => None,
            },
            taper_layers: match val.zigzag {
                Some(z) => Some(z.taper_layers),
                None => None,
            },
            taper: match val.zigzag {
                Some(z) => Some(z.taper),
                None => None,
            },
        }
    }

    /// Puts a parameter set in its stored form.
    pub fn row(id: i64, val: &submission::Params) -> (row: Params)
        ensures
            row == Params::row_of(id, *val),
    {
        match val.zigzag {
            Some(z) => Params {
                id,
                typ: val.typ,
                size: val.size,
                challenge_count: val.challenge_count,
                vde: val.vde,
                degree: val.degree,
                expansion_degree: Some(z.expansion_degree),
                layers: Some(z.layers),
                is_tapered: Some(z.is_tapered),
                taper_layers: Some(z.taper_layers),
                taper: Some(z.taper),
            },
            None => Params {
                id,
                typ: val.typ,
                size: val.size,
                challenge_count: val.challenge_count,
                vde: val.vde,
                degree: val.degree,
                expansion_degree: None,
                layers: None,
                is_tapered: None,
                taper_layers: None,
                taper: None,
            },
        }
    }

    /// The identifier of a parameter set, from its content alone.
    pub fn id_of(val: &submission::Params) -> (id: i64)
        ensures
            id == content_id(*val),
    {
        let serialized_params = val.canonical_bytes();
        let hash = crypto::digest(serialized_params.as_slice());
        endian::read_i64(hash.as_slice())
    }

    /// Resolves a parameter set to its identifier; the set is stored
    /// unless one is held under that identifier already, in which case the
    /// store is not written to. The identifier is eight bytes of a digest:
    /// two sets whose digests begin alike are taken for one, and the set
    /// that came first stays.
    pub fn insert(val: &submission::Params, store: &mut Store) -> (id: i64)
        ensures
            id == content_id(*val),
            final(store)@ == old(store)@.resolve(Params::row_of(id, *val)),
            final(store)@.params.contains_key(id),
            final(store).params_count() == old(store).params_count() + (if old(
                store,
            )@.params.contains_key(id) {
                0nat
            } else {
                1nat
            }),
            final(store).entries_count() == old(store).entries_count(),
    {
        let id = Params::id_of(val);
        store.resolve(Params::row(id, val));
        id
    }
}

impl Entry {
    /// All entries with their parameter sets, best time first.
    pub fn all(store: &Store) -> (rows: Vec<PrintableEntry>)
        ensures
            is_listing(store@, rows@),
    {
        store.list()
    }

    /// Records a time for a prover on a parameter set. The first time for
    /// the pair makes its entry; a later one lowers the entry's time if it
    /// is strictly better and is otherwise dropped.
    pub fn insert(prover: &str, repl_time: i64, params_id: i64, store: &mut Store)
        ensures
            final(store)@ == old(store)@.upsert(prover@, params_id, repl_time),
            final(store).params_count() == old(store).params_count(),
            final(store).entries_count() == old(store).entries_count() + (if old(
                store,
            )@.entries.contains_key((prover@, params_id)) {
                0nat
            } else {
                1nat
            }),
    {
        store.upsert(prover, params_id, repl_time)
    }
}

/// The store after an accepted submission was recorded with its time.
pub open spec fn recorded(store: Records, res: Response, repl_time: i64) -> Records {
    let id = content_id(res.proof_params) as i64;
    store.resolve(Params::row_of(id, res.proof_params)).upsert(res.prover@, id, repl_time)
}

/// Records an accepted submission: resolves its parameter set, then
/// upserts the prover's time on it.
pub fn upsert_entry_with_params(res: &Response, repl_time: i64, store: &mut Store)
    ensures
        final(store)@ == recorded(old(store)@, *res, repl_time),
{
    let params_id = Params::insert(&res.proof_params, store);
    Entry::insert(res.prover.as_str(), repl_time, params_id, store);
}

/// The least of some times.
pub open spec fn least(times: Seq<i64>) -> i64
    recommends
        times.len() > 0,
    decreases times.len(),
{
    if times.len() <= 1 {
        times[0]
    } else if times.last() < least(times.drop_last()) {
        times.last()
    } else {
        least(times.drop_last())
    }
}

/// The least of some times is one of them and none is below it.
pub proof fn lemma_least(times: Seq<i64>)
    requires
        times.len() > 0,
    ensures
        times.contains(least(times)),
        forall|i: int| 0 <= i < times.len() ==> least(times) <= times[i],
    decreases times.len(),
{
    if times.len() <= 1 {
        assert(times[0] == least(times));
    } else {
        let head = times.drop_last();
        lemma_least(head);
        let i = choose|i: int| 0 <= i < head.len() && head[i] == least(head);
        assert(times[i] == least(head));
        assert(times[times.len() - 1] == times.last());
        assert forall|i: int| 0 <= i < times.len() implies least(times) <= times[i] by {
            if i < head.len() {
                assert(head[i] == times[i]);
            }
        }
    }
}

/// Resolving a parameter set a second time gives the same identifier and
/// changes nothing: the store holds the set once, under that identifier.
pub proof fn law_resolve_twice(store: Records, p: submission::Params, q: submission::Params)
    requires
        p == q,
    ensures
        content_id(p) == content_id(q),
        ({
            let id = content_id(p) as i64;
            let once = store.resolve(Params::row_of(id, p));
            let twice = once.resolve(Params::row_of(id, q));
            &&& once.params.contains_key(id)
            &&& twice == once
        }),
{
}

/// After any run of upserts for one prover and parameter set the time held
/// is the least of the times sent and of the time held before; no other
/// entry and no parameter set has changed.
pub proof fn law_best_time(store: Records, prover: Seq<char>, params_id: i64, times: Seq<i64>)
    requires
        times.len() > 0,
    ensures
        ({
            let after = store.upsert_all(prover, params_id, times);
            let goal = match store.best(prover, params_id) {
                Some(held) if held <= least(times) => held,
                _ => least(times),
            };
            &&& after.best(prover, params_id) == Some(goal)
            &&& after.entries == store.entries.insert((prover, params_id), goal)
            &&& after.params == store.params
        }),
    decreases times.len(),
{
    let key = (prover, params_id);
    if times.len() <= 1 {
        assert(times.drop_last().len() == 0);
        let start = store.upsert_all(prover, params_id, times.drop_last());
        assert(start == store);
        let after = start.upsert(prover, params_id, times.last());
        assert(times.last() == times[0]);
        if store.best(prover, params_id) is Some && store.best(prover, params_id).unwrap()
            <= times[0] {
            assert(store.entries =~= store.entries.insert(key, store.entries[key]));
        }
    } else {
        let head = times.drop_last();
        law_best_time(store, prover, params_id, head);
        let mid = store.upsert_all(prover, params_id, head);
        let after = mid.upsert(prover, params_id, times.last());
        let goal = after.best(prover, params_id).unwrap();
        assert(after.entries =~= store.entries.insert(key, goal));
    }
}

/// The order in which the times of a run of upserts arrive does not
/// matter: two runs of the same times, each as often, leave the same store.
pub proof fn law_order_free(
    store: Records,
    prover: Seq<char>,
    params_id: i64,
    first: Seq<i64>,
    second: Seq<i64>,
)
    requires
        first.to_multiset() == second.to_multiset(),
    ensures
        store.upsert_all(prover, params_id, first) == store.upsert_all(prover, params_id, second),
{
    broadcast use vstd::seq_lib::group_to_multiset_ensures;

    first.to_multiset_ensures();
    second.to_multiset_ensures();
    if first.len() == 0 {
        assert(second.len() == 0);
    } else {
        assert(second.len() > 0);
        lemma_least(first);
        lemma_least(second);
        assert(second.contains(least(first))) by {
            assert(first.to_multiset().count(least(first)) > 0);
        }
        assert(first.contains(least(second))) by {
            assert(second.to_multiset().count(least(second)) > 0);
        }
        assert(least(first) == least(second));
        law_best_time(store, prover, params_id, first);
        law_best_time(store, prover, params_id, second);
        let a = store.upsert_all(prover, params_id, first);
        let b = store.upsert_all(prover, params_id, second);
        assert(a.entries == b.entries);
        assert(a.params == b.params);
    }
}

/// Two listings of one store show the same rows: what one lists, the
/// other lists too, with the same time and the same parameter set.
pub proof fn law_listings_agree(store: Records, a: Seq<PrintableEntry>, b: Seq<PrintableEntry>)
    requires
        is_listing(store, a),
        is_listing(store, b),
    ensures
        forall|i: int|
            0 <= i < a.len() ==> exists|j: int|
                0 <= j < b.len() && listed_key(#[trigger] b[j]) == listed_key(#[trigger] a[i])
                    && b[j].repl_time == a[i].repl_time && b[j].params == a[i].params,
{
    assert forall|i: int| 0 <= i < a.len() implies exists|j: int|
        0 <= j < b.len() && listed_key(#[trigger] b[j]) == listed_key(#[trigger] a[i])
            && b[j].repl_time == a[i].repl_time && b[j].params == a[i].params by {
        let prover = a[i].prover@;
        let id = a[i].params.id;
        assert(store.best(prover, id) == Some(a[i].repl_time));
        assert(store.entries.contains_key((prover, id)) && store.params.contains_key(id));
        let j = choose|j: int| 0 <= j < b.len() && #[trigger] listed_key(b[j]) == (prover, id);
        assert(store.best(b[j].prover@, b[j].params.id) == Some(b[j].repl_time));
    }
}

/// An upsert of a time that is no better than the one held changes
/// nothing.
pub proof fn law_worse_time_is_dropped(
    store: Records,
    prover: Seq<char>,
    params_id: i64,
    repl_time: i64,
)
    requires
        store.best(prover, params_id) is Some,
        store.best(prover, params_id).unwrap() <= repl_time,
    ensures
        store.upsert(prover, params_id, repl_time) == store,
{
}

} // verus!
