//! A prover's submission: its declared parameters, its proof and the
//! commitments that go with it.

use crate::domain::Domain;
use crate::endian::{be_bytes, byte_at, lemma_be_round_trip};
use crate::models::seed::Seed;
use vstd::prelude::*;

verus! {

/// The kinds of proof that can be submitted.
#[derive(Clone, Copy, Debug, PartialEq, Eq, Structural)]
pub enum ProofType {
    /// The layered variant.
    Zigzag,
    /// The plain DRG-based variant.
    DrgPoRep,
}

/// The options that only the layered variant has.
#[derive(Clone, Copy, Debug, PartialEq, Eq, Structural)]
pub struct ZigZagParams {
    pub expansion_degree: usize,
    pub layers: usize,
    pub is_tapered: bool,
    pub taper_layers: usize,
    /// The taper factor, as the bit pattern of an IEEE 754 double.
    pub taper: u64,
}

/// The declared configuration of a replication. Two values with the same
/// fields are the same parameter set.
#[derive(Clone, Copy, Debug)]
pub struct Params {
    pub typ: ProofType,
    /// Size of the replicated data in bytes.
    pub size: usize,
    pub challenge_count: usize,
    /// Iterations of the delay function.
    pub vde: usize,
    pub degree: usize,
    pub zigzag: Option<ZigZagParams>,
    pub seed: Option<Domain>,
}

/// How many challenges each layer of a layered proof gets.
#[derive(Clone, Copy, Debug, PartialEq, Eq, Structural)]
pub enum LayerChallenges {
    /// The same count on every layer.
    Fixed { layers: usize, count: usize },
    /// A count that shrinks by the taper factor over the last layers.
    Tapered { layers: usize, count: usize, taper_layers: usize, taper: u64 },
}

/// The pair of commitments of a replication: to the replica and to the data.
#[derive(Clone, Copy, Debug)]
pub struct Tau {
    pub comm_r: Domain,
    pub comm_d: Domain,
}

/// A proof of the plain variant: the replica root it claims, and the rest
/// of it in the form that the verifier reads.
#[derive(Clone, Debug)]
pub struct DrgProof {
    pub replica_root: Domain,
    pub body: Vec<u8>,
}

/// One partition of a proof of the layered variant: the commitments of its
/// layers, first layer first, and the rest of it in the form that the
/// verifier reads.
#[derive(Clone, Debug)]
pub struct LayeredProof {
    pub tau: Vec<Tau>,
    pub body: Vec<u8>,
}

/// A submitted proof, of one kind or the other.
#[derive(Clone, Debug)]
pub enum Proof {
    Zigzag(Vec<LayeredProof>),
    DrgPoRep(DrgProof),
}

/// Everything a prover submits.
#[derive(Clone, Debug)]
pub struct Response {
    pub prover: String,
    pub seed_start: Seed,
    pub seed_challenge: Seed,
    pub proof_params: Params,
    pub proof: Proof,
    pub tau: Tau,
    /// The aggregate commitment over all layers; only the layered variant
    /// has one.
    pub comm_r_star: Option<Domain>,
}

impl ProofType {
    /// The name under which the kind is stored.
    pub open spec fn stored_name(self) -> Seq<char> {
        match self {
            ProofType::Zigzag => "zigzag"@,
            ProofType::DrgPoRep => "drgporep"@,
        }
    }

    /// The name under which the kind is stored.
    pub fn name(&self) -> (name: &'static str)
        ensures
            name@ == self.stored_name(),
    {
        match self {
            ProofType::Zigzag => "zigzag",
            ProofType::DrgPoRep => "drgporep",
        }
    }

    /// The kind that is stored under a name, if the name is that of a kind.
    pub fn from_name(name: &str) -> (kind: Option<ProofType>)
        ensures
            match kind {
                Some(k) => name@ == k.stored_name(),
                None => name@ != ProofType::Zigzag.stored_name() && name@
                    != ProofType::DrgPoRep.stored_name(),
            },
    {
        let given = name.to_owned();
        if given == "zigzag".to_owned() {
            Some(ProofType::Zigzag)
        } else if given == "drgporep".to_owned() {
            Some(ProofType::DrgPoRep)
        } else {
            None
        }
    }

    /// The byte that stands for the kind in the canonical form.
    pub open spec fn tag(self) -> u8 {
        match self {
            ProofType::Zigzag => 0,
            ProofType::DrgPoRep => 1,
        }
    }
}

impl ZigZagParams {
    /// The canonical form: every field in order, numbers as eight bytes.
    pub open spec fn canonical(self) -> Seq<u8> {
        be_bytes(self.expansion_degree as u64) + be_bytes(self.layers as u64) + seq![
            if self.is_tapered {
                1u8
            } else {
                0u8
            },
        ] + be_bytes(self.taper_layers as u64) + be_bytes(self.taper)
    }
}

/// The canonical form of the layered options: a zero byte for none, a one
/// byte and the options otherwise.
pub open spec fn canonical_zigzag(zigzag: Option<ZigZagParams>) -> Seq<u8> {
    match zigzag {
        None => seq![0u8],
        Some(z) => seq![1u8] + z.canonical(),
    }
}

/// The canonical form of an optional domain value: a zero byte for none, a
/// one byte and the value otherwise.
pub open spec fn canonical_domain(value: Option<Domain>) -> Seq<u8> {
    match value {
        None => seq![0u8],
        Some(d) => seq![1u8] + d@,
    }
}

fn push_be(out: &mut Vec<u8>, v: u64)
    ensures
        final(out)@ == old(out)@ + be_bytes(v),
{
    let v1: u64 = v / 256;
    let v2: u64 = v1 / 256;
    let v3: u64 = v2 / 256;
    let v4: u64 = v3 / 256;
    let v5: u64 = v4 / 256;
    let v6: u64 = v5 / 256;
    let v7: u64 = v6 / 256;
    proof {
        reveal(be_bytes);
        reveal_with_fuel(byte_at, 8);
    }
    out.push((v7 % 256) as u8);
    out.push((v6 % 256) as u8);
    out.push((v5 % 256) as u8);
    out.push((v4 % 256) as u8);
    out.push((v3 % 256) as u8);
    out.push((v2 % 256) as u8);
    out.push((v1 % 256) as u8);
    out.push((v % 256) as u8);
    assert(out@ =~= old(out)@ + be_bytes(v));
}

fn push_domain(out: &mut Vec<u8>, d: &Domain)
    ensures
        final(out)@ == old(out)@ + d@,
{
    let mut i: usize = 0;
    while i < 32
        invariant
            i <= 32,
            out@ == old(out)@ + d@.subrange(0, i as int),
        decreases 32 - i,
    {
        out.push(d.bytes[i]);
        assert(out@ =~= old(out)@ + d@.subrange(0, i + 1));
        i += 1;
    }
    assert(d@.subrange(0, 32) =~= d@);
}

fn push_zigzag(out: &mut Vec<u8>, zigzag: &Option<ZigZagParams>)
    ensures
        final(out)@ == old(out)@ + canonical_zigzag(*zigzag),
        final(out)@.len() <= old(out)@.len() + 34,
{
    match zigzag {
        None => {
            out.push(0u8);
            assert(out@ =~= old(out)@ + canonical_zigzag(*zigzag));
        },
        Some(z) => {
            proof {
                lemma_be_round_trip(z.expansion_degree as u64);
                lemma_be_round_trip(z.layers as u64);
                lemma_be_round_trip(z.taper_layers as u64);
                lemma_be_round_trip(z.taper);
            }
            out.push(1u8);
            push_be(out, z.expansion_degree as u64);
            push_be(out, z.layers as u64);
            out.push(
                if z.is_tapered {
                    1u8
                } else {
                    0u8
                },
            );
            push_be(out, z.taper_layers as u64);
            push_be(out, z.taper);
            assert(out@ =~= old(out)@ + canonical_zigzag(*zigzag));
        },
    }
}

fn push_optional_domain(out: &mut Vec<u8>, value: &Option<Domain>)
    ensures
        final(out)@ == old(out)@ + canonical_domain(*value),
        final(out)@.len() <= old(out)@.len() + 33,
{
    match value {
        None => {
            out.push(0u8);
            assert(out@ =~= old(out)@ + canonical_domain(*value));
        },
        Some(d) => {
            out.push(1u8);
            push_domain(out, d);
            assert(out@ =~= old(out)@ + canonical_domain(*value));
        },
    }
}

impl Params {
    /// The canonical form of a parameter set: the kind, the four numbers as
    /// eight bytes each, the layered options, the seed.
    pub open spec fn canonical(self) -> Seq<u8> {
        seq![self.typ.tag()] + be_bytes(self.size as u64) + be_bytes(self.challenge_count as u64)
            + be_bytes(self.vde as u64) + be_bytes(self.degree as u64) + canonical_zigzag(
            self.zigzag,
        ) + canonical_domain(self.seed)
    }

    /// Writes the parameter set in its canonical form.
    pub fn canonical_bytes(&self) -> (bytes: Vec<u8>)
        ensures
            bytes@ == self.canonical(),
            bytes@.len() <= 100,
    {
        let mut out: Vec<u8> = Vec::new();
        proof {
            lemma_be_round_trip(self.size as u64);
            lemma_be_round_trip(self.challenge_count as u64);
            lemma_be_round_trip(self.vde as u64);
            lemma_be_round_trip(self.degree as u64);
        }
        match self.typ {
            ProofType::Zigzag => out.push(0u8),
            ProofType::DrgPoRep => out.push(1u8),
        }
        assert(out@ =~= seq![self.typ.tag()]);
        push_be(&mut out, self.size as u64);
        push_be(&mut out, self.challenge_count as u64);
        push_be(&mut out, self.vde as u64);
        push_be(&mut out, self.degree as u64);
        push_zigzag(&mut out, &self.zigzag);
        push_optional_domain(&mut out, &self.seed);
        out
    }

    /// The expansion degree and the challenge schedule of the layered
    /// variant, where the parameters have its options.
    pub fn as_zigzag_params(&self) -> (r: Option<(usize, LayerChallenges)>)
        ensures
            r == self.zigzag_params(),
    {
        match self.zigzag {
            None => None,
            Some(zigzag) => {
                let layer_challenges = if zigzag.is_tapered {
                    LayerChallenges::Tapered {
                        layers: zigzag.layers,
                        count: self.challenge_count,
                        taper_layers: zigzag.taper_layers,
                        taper: zigzag.taper,
                    }
                } else {
                    LayerChallenges::Fixed { layers: zigzag.layers, count: self.challenge_count }
                };
                Some((zigzag.expansion_degree, layer_challenges))
            },
        }
    }

    /// What [`Params::as_zigzag_params`] returns.
    pub open spec fn zigzag_params(self) -> Option<(usize, LayerChallenges)> {
        match self.zigzag {
            None => None,
            Some(z) => Some(
                (
                    z.expansion_degree,
                    if z.is_tapered {
                        LayerChallenges::Tapered {
                            layers: z.layers,
                            count: self.challenge_count,
                            taper_layers: z.taper_layers,
                            taper: z.taper,
                        }
                    } else {
                        LayerChallenges::Fixed { layers: z.layers, count: self.challenge_count }
                    },
                ),
            ),
        }
    }

    /// The layered options are there exactly for the layered kind.
    pub open spec fn well_formed(self) -> bool {
        self.zigzag is Some <==> self.typ == ProofType::Zigzag
    }

    /// Whether the layered options are there exactly for the layered kind.
    pub fn is_well_formed(&self) -> (ok: bool)
        ensures
            ok == self.well_formed(),
    {
        match self.typ {
            ProofType::Zigzag => self.zigzag.is_some(),
            ProofType::DrgPoRep => self.zigzag.is_none(),
        }
    }
}

impl Proof {
    /// The kind of the proof.
    pub open spec fn kind(self) -> ProofType {
        match self {
            Proof::Zigzag(_) => ProofType::Zigzag,
            Proof::DrgPoRep(_) => ProofType::DrgPoRep,
        }
    }

    /// The commitment to the replica that the proof itself claims: the
    /// replica root of a plain proof; for a layered proof the replica
    /// commitment of the last layer of its first partition. A layered proof
    /// without a partition, or without a layer in the first one, claims none.
    pub open spec fn replica_root(self) -> Option<Domain> {
        match self {
            Proof::Zigzag(parts) => if parts@.len() > 0 && parts@[0].tau@.len() > 0 {
                Some(parts@[0].tau@[parts@[0].tau@.len() - 1].comm_r)
            } else {
                None
            },
            Proof::DrgPoRep(proof) => Some(proof.replica_root),
        }
    }

    /// Whether the proof claims a replica commitment.
    pub fn has_replica_root(&self) -> (has: bool)
        ensures
            has <==> self.replica_root() is Some,
    {
        match self {
            Proof::Zigzag(parts) => parts.len() > 0 && parts[0].tau.len() > 0,
            Proof::DrgPoRep(_) => true,
        }
    }

    /// The replica commitment that the proof claims.
    pub fn get_replica_root(&self) -> (root: &Domain)
        requires
            self.replica_root() is Some,
        ensures
            Some(*root) == self.replica_root(),
    {
        match self {
            Proof::Zigzag(parts) => {
                let layers = &parts[0].tau;
                &layers[layers.len() - 1].comm_r
            },
            Proof::DrgPoRep(proof) => &proof.replica_root,
        }
    }
}

/// Two byte strings that are equal and begin with parts of one length
/// begin with the same part and go on with the same rest.
pub proof fn lemma_split(a: Seq<u8>, rest_a: Seq<u8>, b: Seq<u8>, rest_b: Seq<u8>)
    requires
        a + rest_a == b + rest_b,
        a.len() == b.len(),
    ensures
        a == b,
        rest_a == rest_b,
{
    let whole = a + rest_a;
    assert(a =~= whole.subrange(0, a.len() as int));
    assert(b =~= (b + rest_b).subrange(0, b.len() as int));
    assert(rest_a =~= whole.subrange(a.len() as int, whole.len() as int));
    assert(rest_b =~= (b + rest_b).subrange(b.len() as int, whole.len() as int));
}

proof fn lemma_number_first(a: u64, rest_a: Seq<u8>, b: u64, rest_b: Seq<u8>)
    requires
        be_bytes(a) + rest_a == be_bytes(b) + rest_b,
    ensures
        a == b,
        rest_a == rest_b,
{
    lemma_be_round_trip(a);
    lemma_be_round_trip(b);
    lemma_split(be_bytes(a), rest_a, be_bytes(b), rest_b);
}

proof fn lemma_regroup(
    a: Seq<u8>,
    b: Seq<u8>,
    c: Seq<u8>,
    d: Seq<u8>,
    e: Seq<u8>,
    f: Seq<u8>,
    rest: Seq<u8>,
)
    ensures
        (a + (b + c + d + e + f)) + rest == a + (b + (c + (d + (e + (f + rest))))),
        (a + b + c + d + e + f) + rest == a + (b + (c + (d + (e + (f + rest))))),
{
    assert((a + (b + c + d + e + f)) + rest =~= a + (b + (c + (d + (e + (f + rest))))));
    assert((a + b + c + d + e + f) + rest =~= a + (b + (c + (d + (e + (f + rest))))));
}

#[verifier::rlimit(40)]
proof fn lemma_options_first(x: ZigZagParams, rest_a: Seq<u8>, y: ZigZagParams, rest_b: Seq<u8>)
    requires
        (seq![1u8] + x.canonical()) + rest_a == (seq![1u8] + y.canonical()) + rest_b,
    ensures
        x == y,
        rest_a == rest_b,
{
    let flag_x = seq![if x.is_tapered { 1u8 } else { 0u8 }];
    let flag_y = seq![if y.is_tapered { 1u8 } else { 0u8 }];
    let x4 = be_bytes(x.taper) + rest_a;
    let y4 = be_bytes(y.taper) + rest_b;
    let x3 = be_bytes(x.taper_layers as u64) + x4;
    let y3 = be_bytes(y.taper_layers as u64) + y4;
    let x2 = flag_x + x3;
    let y2 = flag_y + y3;
    let x1 = be_bytes(x.layers as u64) + x2;
    let y1 = be_bytes(y.layers as u64) + y2;
    let x0 = be_bytes(x.expansion_degree as u64) + x1;
    let y0 = be_bytes(y.expansion_degree as u64) + y1;
    lemma_regroup(
        seq![1u8],
        be_bytes(x.expansion_degree as u64),
        be_bytes(x.layers as u64),
        flag_x,
        be_bytes(x.taper_layers as u64),
        be_bytes(x.taper),
        rest_a,
    );
    lemma_regroup(
        seq![1u8],
        be_bytes(y.expansion_degree as u64),
        be_bytes(y.layers as u64),
        flag_y,
        be_bytes(y.taper_layers as u64),
        be_bytes(y.taper),
        rest_b,
    );
    lemma_split(seq![1u8], x0, seq![1u8], y0);
    lemma_number_first(x.expansion_degree as u64, x1, y.expansion_degree as u64, y1);
    lemma_number_first(x.layers as u64, x2, y.layers as u64, y2);
    lemma_split(flag_x, x3, flag_y, y3);
    assert(flag_x[0] == flag_y[0]);
    lemma_number_first(x.taper_layers as u64, x4, y.taper_layers as u64, y4);
    lemma_number_first(x.taper, rest_a, y.taper, rest_b);
}

proof fn lemma_zigzag_first(
    a: Option<ZigZagParams>,
    rest_a: Seq<u8>,
    b: Option<ZigZagParams>,
    rest_b: Seq<u8>,
)
    requires
        canonical_zigzag(a) + rest_a == canonical_zigzag(b) + rest_b,
    ensures
        a == b,
        rest_a == rest_b,
{
    let ca = canonical_zigzag(a);
    let cb = canonical_zigzag(b);
    assert((ca + rest_a)[0] == ca[0]);
    assert((cb + rest_b)[0] == cb[0]);
    match (a, b) {
        (Some(x), Some(y)) => {
            lemma_options_first(x, rest_a, y, rest_b);
        },
        (None, None) => {
            lemma_split(ca, rest_a, cb, rest_b);
        },
        _ => {},
    }
}

proof fn lemma_domain_first(a: Option<Domain>, rest_a: Seq<u8>, b: Option<Domain>, rest_b: Seq<u8>)
    requires
        canonical_domain(a) + rest_a == canonical_domain(b) + rest_b,
    ensures
        a == b,
        rest_a == rest_b,
{
    let ca = canonical_domain(a);
    let cb = canonical_domain(b);
    assert((ca + rest_a)[0] == ca[0]);
    assert((cb + rest_b)[0] == cb[0]);
    match (a, b) {
        (Some(x), Some(y)) => {
            lemma_split(ca, rest_a, cb, rest_b);
            assert(x@ =~= ca.subrange(1, 33));
            assert(y@ =~= cb.subrange(1, 33));
            Domain::lemma_same_bytes(x, y);
        },
        (None, None) => {
            lemma_split(ca, rest_a, cb, rest_b);
        },
        _ => {},
    }
}

/// Parameter sets with the same canonical form are the same parameter
/// set: the form leaves nothing out.
#[verifier::rlimit(40)]
pub proof fn law_canonical_is_one_to_one(p: Params, q: Params)
    requires
        p.canonical() == q.canonical(),
    ensures
        p == q,
{
    let p5 = canonical_domain(p.seed);
    let q5 = canonical_domain(q.seed);
    let p4 = canonical_zigzag(p.zigzag) + p5;
    let q4 = canonical_zigzag(q.zigzag) + q5;
    let p3 = be_bytes(p.degree as u64) + p4;
    let q3 = be_bytes(q.degree as u64) + q4;
    let p2 = be_bytes(p.vde as u64) + p3;
    let q2 = be_bytes(q.vde as u64) + q3;
    let p1 = be_bytes(p.challenge_count as u64) + p2;
    let q1 = be_bytes(q.challenge_count as u64) + q2;
    let p0 = be_bytes(p.size as u64) + p1;
    let q0 = be_bytes(q.size as u64) + q1;
    lemma_regroup(
        seq![p.typ.tag()],
        be_bytes(p.size as u64),
        be_bytes(p.challenge_count as u64),
        be_bytes(p.vde as u64),
        be_bytes(p.degree as u64),
        canonical_zigzag(p.zigzag),
        p5,
    );
    lemma_regroup(
        seq![q.typ.tag()],
        be_bytes(q.size as u64),
        be_bytes(q.challenge_count as u64),
        be_bytes(q.vde as u64),
        be_bytes(q.degree as u64),
        canonical_zigzag(q.zigzag),
        q5,
    );
    lemma_split(seq![p.typ.tag()], p0, seq![q.typ.tag()], q0);
    assert(seq![p.typ.tag()][0] == seq![q.typ.tag()][0]);
    lemma_number_first(p.size as u64, p1, q.size as u64, q1);
    lemma_number_first(p.challenge_count as u64, p2, q.challenge_count as u64, q2);
    lemma_number_first(p.vde as u64, p3, q.vde as u64, q3);
    lemma_number_first(p.degree as u64, p4, q.degree as u64, q4);
    lemma_zigzag_first(p.zigzag, p5, q.zigzag, q5);
    assert(p5 + Seq::<u8>::empty() =~= p5);
    assert(q5 + Seq::<u8>::empty() =~= q5);
    lemma_domain_first(p.seed, Seq::<u8>::empty(), q.seed, Seq::<u8>::empty());
}

} // verus!
