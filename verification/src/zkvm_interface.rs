//! Test vectors of the zkVM accelerator C interface: the accelerators, the
//! recorded calls, their outcomes and the on-disk fixture form.

use vstd::prelude::*;

use crate::encoding::{
    hex_decode, hex_decode_str, hex_encode, hex_lower, lemma_hex_round_trip, opt_bytes, opt_text,
    seq_bytes, seq_texts,
};
use crate::text::{
    lemma_seq_lt_total, lemma_seq_lt_transitive,
    seq_lt, str_eq, str_lt,
};

verus! {

/// Accelerator one test vector runs. Its name is the stem of its fixture file.
#[derive(Clone, Copy, Debug, PartialEq, Eq, Structural, PartialOrd, Ord, Hash)]
pub enum Accelerator {
    Sha256,
    Ripemd160,
    Bn254G1Add,
    Bn254G1Mul,
    Bn254PairingCheck,
    Secp256k1Ecrecover,
    Modexp,
    Blake2Compress,
    Secp256r1VerifySignature,
    VerifyKzgProof,
    Bls12381G1Add,
    Bls12381G1Msm,
    Bls12381G2Add,
    Bls12381G2Msm,
    Bls12381PairingCheck,
    Bls12381FpToG1,
    Bls12381Fp2ToG2,
}

/// Number of accelerators.
pub const NUM_ACCELERATORS: usize = 17;

/// Every accelerator, in declaration order.
pub open spec fn all_accelerators() -> Seq<Accelerator> {
    seq![
        Accelerator::Sha256,
        Accelerator::Ripemd160,
        Accelerator::Bn254G1Add,
        Accelerator::Bn254G1Mul,
        Accelerator::Bn254PairingCheck,
        Accelerator::Secp256k1Ecrecover,
        Accelerator::Modexp,
        Accelerator::Blake2Compress,
        Accelerator::Secp256r1VerifySignature,
        Accelerator::VerifyKzgProof,
        Accelerator::Bls12381G1Add,
        Accelerator::Bls12381G1Msm,
        Accelerator::Bls12381G2Add,
        Accelerator::Bls12381G2Msm,
        Accelerator::Bls12381PairingCheck,
        Accelerator::Bls12381FpToG1,
        Accelerator::Bls12381Fp2ToG2,
    ]
}

/// Snake-case name of an accelerator.
pub open spec fn accelerator_name(a: Accelerator) -> Seq<char> {
    match a {
        Accelerator::Sha256 => "sha256"@,
        Accelerator::Ripemd160 => "ripemd160"@,
        Accelerator::Bn254G1Add => "bn254_g1_add"@,
        Accelerator::Bn254G1Mul => "bn254_g1_mul"@,
        Accelerator::Bn254PairingCheck => "bn254_pairing_check"@,
        Accelerator::Secp256k1Ecrecover => "secp256k1_ecrecover"@,
        Accelerator::Modexp => "modexp"@,
        Accelerator::Blake2Compress => "blake2_compress"@,
        Accelerator::Secp256r1VerifySignature => "secp256r1_verify_signature"@,
        Accelerator::VerifyKzgProof => "verify_kzg_proof"@,
        Accelerator::Bls12381G1Add => "bls12_381_g1_add"@,
        Accelerator::Bls12381G1Msm => "bls12_381_g1_msm"@,
        Accelerator::Bls12381G2Add => "bls12_381_g2_add"@,
        Accelerator::Bls12381G2Msm => "bls12_381_g2_msm"@,
        Accelerator::Bls12381PairingCheck => "bls12_381_pairing_check"@,
        Accelerator::Bls12381FpToG1 => "bls12_381_fp_to_g1"@,
        Accelerator::Bls12381Fp2ToG2 => "bls12_381_fp2_to_g2"@,
    }
}

/// Byte size of one pair of the packed array argument, for the accelerators
/// that take one.
pub open spec fn spec_pair_size(a: Accelerator) -> Option<usize> {
    match a {
        Accelerator::Bn254PairingCheck => Some(192),
        Accelerator::Bls12381G1Msm => Some(128),
        Accelerator::Bls12381G2Msm => Some(224),
        Accelerator::Bls12381PairingCheck => Some(288),
        _ => None,
    }
}

/// The accelerator a name stands for, if any.
pub open spec fn accelerator_named(name: Seq<char>) -> Option<Accelerator> {
    if exists|i: int| 0 <= i < all_accelerators().len() && accelerator_name(all_accelerators()[i]) == name {
        Some(all_accelerators()[choose|i: int| 0 <= i < all_accelerators().len() && accelerator_name(all_accelerators()[i]) == name])
    } else {
        None
    }
}

impl Accelerator {
    /// Every accelerator, in declaration order.
    pub fn iter() -> (v: Vec<Accelerator>)
        ensures
            v@ == all_accelerators(),
    {
        let v = vec![
            Accelerator::Sha256,
            Accelerator::Ripemd160,
            Accelerator::Bn254G1Add,
            Accelerator::Bn254G1Mul,
            Accelerator::Bn254PairingCheck,
            Accelerator::Secp256k1Ecrecover,
            Accelerator::Modexp,
            Accelerator::Blake2Compress,
            Accelerator::Secp256r1VerifySignature,
            Accelerator::VerifyKzgProof,
            Accelerator::Bls12381G1Add,
            Accelerator::Bls12381G1Msm,
            Accelerator::Bls12381G2Add,
            Accelerator::Bls12381G2Msm,
            Accelerator::Bls12381PairingCheck,
            Accelerator::Bls12381FpToG1,
            Accelerator::Bls12381Fp2ToG2,
        ];
        assert(v@ =~= all_accelerators());
        v
    }

    /// Byte size of one pair of the packed array in `inputs[0]`. An
    /// accelerator that takes no array returns `None`.
    pub fn pair_size(self) -> (r: Option<usize>)
        ensures
            r == spec_pair_size(self),
    {
        match self {
            Accelerator::Bn254PairingCheck => Some(192),
            Accelerator::Bls12381G1Msm => Some(128),
            Accelerator::Bls12381G2Msm => Some(224),
            Accelerator::Bls12381PairingCheck => Some(288),
            _ => None,
        }
    }

    /// Snake-case name, the stem of the accelerator's fixture file.
    pub fn name(self) -> (s: &'static str)
        ensures
            s@ == accelerator_name(self),
    {
        match self {
            Accelerator::Sha256 => "sha256",
            Accelerator::Ripemd160 => "ripemd160",
            Accelerator::Bn254G1Add => "bn254_g1_add",
            Accelerator::Bn254G1Mul => "bn254_g1_mul",
            Accelerator::Bn254PairingCheck => "bn254_pairing_check",
            Accelerator::Secp256k1Ecrecover => "secp256k1_ecrecover",
            Accelerator::Modexp => "modexp",
            Accelerator::Blake2Compress => "blake2_compress",
            Accelerator::Secp256r1VerifySignature => "secp256r1_verify_signature",
            Accelerator::VerifyKzgProof => "verify_kzg_proof",
            Accelerator::Bls12381G1Add => "bls12_381_g1_add",
            Accelerator::Bls12381G1Msm => "bls12_381_g1_msm",
            Accelerator::Bls12381G2Add => "bls12_381_g2_add",
            Accelerator::Bls12381G2Msm => "bls12_381_g2_msm",
            Accelerator::Bls12381PairingCheck => "bls12_381_pairing_check",
            Accelerator::Bls12381FpToG1 => "bls12_381_fp_to_g1",
            Accelerator::Bls12381Fp2ToG2 => "bls12_381_fp2_to_g2",
        }
    }

    /// The accelerator whose name is `name`, or `None` for an unknown name.
    pub fn from_name(name: &str) -> (r: Option<Accelerator>)
        ensures
            r == accelerator_named(name@),
    {
        let all = Accelerator::iter();
        let mut i: usize = 0;
        while i < all.len()
            invariant
                all@ == all_accelerators(),
                0 <= i <= all.len(),
                forall|j: int| 0 <= j < i ==> accelerator_name(all@[j]) != name@,
            decreases all.len() - i,
        {
            if str_eq(all[i].name(), name) {
                proof {
                    lemma_names_distinct();
                }
                return Some(all[i]);
            }
            i = i + 1;
        }
        None
    }
}

/// A few characters that tell the accelerator names apart.
spec fn name_key(s: Seq<char>) -> (nat, char, char, char, char, char) {
    let at = |k: int| if k < s.len() { s[k] } else { ' ' };
    (s.len(), at(0), at(1), at(9), at(11), at(13))
}

/// The key of each accelerator's name.
spec fn name_key_of(a: Accelerator) -> (nat, char, char, char, char, char) {
    match a {
        Accelerator::Sha256 => (6, 's', 'h', ' ', ' ', ' '),
        Accelerator::Ripemd160 => (9, 'r', 'i', ' ', ' ', ' '),
        Accelerator::Bn254G1Add => (12, 'b', 'n', 'a', 'd', ' '),
        Accelerator::Bn254G1Mul => (12, 'b', 'n', 'm', 'l', ' '),
        Accelerator::Bn254PairingCheck => (19, 'b', 'n', 'r', 'n', '_'),
        Accelerator::Secp256k1Ecrecover => (19, 's', 'e', '_', 'c', 'e'),
        Accelerator::Modexp => (6, 'm', 'o', ' ', ' ', ' '),
        Accelerator::Blake2Compress => (15, 'b', 'l', 'm', 'r', 's'),
        Accelerator::Secp256r1VerifySignature => (26, 's', 'e', '_', 'e', 'i'),
        Accelerator::VerifyKzgProof => (16, 'v', 'e', 'g', 'p', 'o'),
        Accelerator::Bls12381G1Add => (16, 'b', 'l', '_', '1', 'a'),
        Accelerator::Bls12381G1Msm => (16, 'b', 'l', '_', '1', 'm'),
        Accelerator::Bls12381G2Add => (16, 'b', 'l', '_', '2', 'a'),
        Accelerator::Bls12381G2Msm => (16, 'b', 'l', '_', '2', 'm'),
        Accelerator::Bls12381PairingCheck => (23, 'b', 'l', '_', 'a', 'r'),
        Accelerator::Bls12381FpToG1 => (18, 'b', 'l', '_', 'p', 't'),
        Accelerator::Bls12381Fp2ToG2 => (19, 'b', 'l', '_', 'p', '_'),
    }
}

proof fn lemma_name_key(a: Accelerator)
    ensures
        name_key(accelerator_name(a)) == name_key_of(a),
{
    match a {
        Accelerator::Sha256 => {
            reveal_strlit("sha256");
        },
        Accelerator::Ripemd160 => {
            reveal_strlit("ripemd160");
        },
        Accelerator::Bn254G1Add => {
            reveal_strlit("bn254_g1_add");
        },
        Accelerator::Bn254G1Mul => {
            reveal_strlit("bn254_g1_mul");
        },
        Accelerator::Bn254PairingCheck => {
            reveal_strlit("bn254_pairing_check");
        },
        Accelerator::Secp256k1Ecrecover => {
            reveal_strlit("secp256k1_ecrecover");
        },
        Accelerator::Modexp => {
            reveal_strlit("modexp");
        },
        Accelerator::Blake2Compress => {
            reveal_strlit("blake2_compress");
        },
        Accelerator::Secp256r1VerifySignature => {
            reveal_strlit("secp256r1_verify_signature");
        },
        Accelerator::VerifyKzgProof => {
            reveal_strlit("verify_kzg_proof");
        },
        Accelerator::Bls12381G1Add => {
            reveal_strlit("bls12_381_g1_add");
        },
        Accelerator::Bls12381G1Msm => {
            reveal_strlit("bls12_381_g1_msm");
        },
        Accelerator::Bls12381G2Add => {
            reveal_strlit("bls12_381_g2_add");
        },
        Accelerator::Bls12381G2Msm => {
            reveal_strlit("bls12_381_g2_msm");
        },
        Accelerator::Bls12381PairingCheck => {
            reveal_strlit("bls12_381_pairing_check");
        },
        Accelerator::Bls12381FpToG1 => {
            reveal_strlit("bls12_381_fp_to_g1");
        },
        Accelerator::Bls12381Fp2ToG2 => {
            reveal_strlit("bls12_381_fp2_to_g2");
        },
    }
}

/// No two accelerators share a name.
pub proof fn lemma_names_distinct()
    ensures
        forall|a: Accelerator, b: Accelerator| a != b ==> #[trigger] accelerator_name(a) != #[trigger] accelerator_name(b),
{
    assert forall|a: Accelerator, b: Accelerator| a != b implies #[trigger] accelerator_name(a) != #[trigger] accelerator_name(b) by {
        lemma_name_key(a);
        lemma_name_key(b);
    }
}


/// Decoding an accelerator's name gives the accelerator back.
pub proof fn lemma_name_round_trip(a: Accelerator)
    ensures
        accelerator_named(accelerator_name(a)) == Some(a),
{
    lemma_names_distinct();
    lemma_all_accelerators_complete(a);
    let all = all_accelerators();
    let k = choose|k: int| 0 <= k < all.len() && all[k] == a;
    assert(accelerator_name(all[k]) == accelerator_name(a));
    let j = choose|i: int| 0 <= i < all.len() && accelerator_name(all[i]) == accelerator_name(a);
    assert(all[j] == a);
}

/// Outcome of one accelerator call. A failed call writes nothing, so `output`
/// is `None` exactly when `status` is non-zero.
#[derive(Clone, Debug, Default, PartialEq, Eq, PartialOrd, Ord, Hash)]
pub struct Outcome {
    /// `0` on success, `-1` on failure.
    pub status: i32,
    /// Output buffer, or `None` when the call failed.
    pub output: Option<Vec<u8>>,
}

impl Outcome {
    /// A failed call writes nothing, so a non-zero `status` drops `output`.
    pub fn new(status: i32, output: Vec<u8>) -> (o: Outcome)
        ensures
            o.status == status,
            opt_bytes(o.output) == (if status == 0 {
                Some(output@)
            } else {
                None
            }),
    {
        Outcome { status, output: if status == 0 { Some(output) } else { None } }
    }
}

/// One recorded call: every argument as bytes, and the reference outcome.
#[derive(Clone, Debug, PartialEq, Eq, PartialOrd, Ord, Hash)]
pub struct Vector {
    /// Accelerator this test vector runs.
    pub accelerator: Accelerator,
    /// Unpadded arguments, in call order. The by-value integers come last.
    pub inputs: Vec<Vec<u8>>,
    /// Outcome the reference implementation produced from the same arguments.
    pub expected: Outcome,
}

/// The value of a vector: its accelerator, its inputs, the expected status
/// and the expected output.
pub open spec fn vector_view(v: Vector) -> (Accelerator, Seq<Seq<u8>>, i32, Option<Seq<u8>>) {
    (v.accelerator, seq_bytes(v.inputs@), v.expected.status, opt_bytes(v.expected.output))
}

/// Number of pairs that `v`'s packed array argument holds; `1` for an
/// accelerator that takes no array.
pub open spec fn spec_num_pairs(v: Vector) -> int {
    match spec_pair_size(v.accelerator) {
        Some(p) => v.inputs@[0]@.len() as int / p as int,
        None => 1,
    }
}

impl Vector {
    /// Number of pairs of the packed array argument. An accelerator that takes
    /// no array returns `1`.
    pub fn num_pairs(&self) -> (n: usize)
        requires
            spec_pair_size(self.accelerator) is Some ==> self.inputs.len() > 0
                && (self.inputs@[0]@.len() as int) % (spec_pair_size(self.accelerator)->0 as int) == 0,
        ensures
            n == spec_num_pairs(*self),
    {
        match self.accelerator.pair_size() {
            Some(pair_size) => self.inputs[0].len() / pair_size,
            None => 1,
        }
    }
}

/// Vectors of one accelerator, in the order the guest runs them.
#[derive(Clone, Debug, PartialEq, Eq)]
pub struct Vectors(pub Vec<Vector>);

/// Runs the test vectors and checks each result against the recorded
/// outcome. A host build only carries the vectors, so it runs none of them.
pub struct ZkvmInterfaceProgram;

impl ZkvmInterfaceProgram {
    /// Output of the program on `input`: nothing, since every check happens in
    /// place.
    pub fn compute(input: Vectors) {
        check(&input.0);
    }
}

/// Runs every test vector. A host build carries the vectors to the guest and
/// runs none of them.
pub fn check(vectors: &[Vector]) {
}

/// The bytes of `bytes` as an array of the declared length.
pub fn to_array<const N: usize>(bytes: &[u8]) -> (a: [u8; N])
    requires
        bytes@.len() == N,
    ensures
        a@ == bytes@,
{
    let mut a: [u8; N] = vstd::array::array_fill_for_copy_types(0u8);
    let mut i: usize = 0;
    while i < N
        invariant
            0 <= i <= N,
            bytes@.len() == N,
            a@.len() == N,
            forall|j: int| 0 <= j < i ==> a@[j] == bytes@[j],
        decreases N - i,
    {
        a[i] = bytes[i];
        i = i + 1;
    }
    assert(a@ =~= bytes@);
    a
}

/// The one byte of a one-byte argument.
pub fn to_byte(bytes: &[u8]) -> (b: u8)
    requires
        bytes@.len() == 1,
    ensures
        b == bytes@[0],
{
    let a = to_array::<1>(bytes);
    a[0]
}

/// Little-endian words of the whole 8-byte chunks of `bytes`.
pub open spec fn le_words(bytes: Seq<u8>) -> Seq<u64> {
    Seq::new(
        bytes.len() / 8,
        |i: int| vstd::bytes::spec_u64_from_le_bytes(bytes.subrange(8 * i, 8 * i + 8)),
    )
}

/// The packed pair array of `vector`, copied into 8-byte words so it can be
/// handed to an accelerator that expects 8-aligned structs. A trailing
/// partial chunk is left out.
pub fn to_aligned_pairs(vector: &Vector) -> (words: Vec<u64>)
    requires
        vector.inputs.len() > 0,
    ensures
        words@ == le_words(vector.inputs@[0]@),
{
    let bytes = &vector.inputs[0];
    let n = bytes.len() / 8;
    let mut words: Vec<u64> = Vec::new();
    let mut i: usize = 0;
    while i < n
        invariant
            n == bytes@.len() / 8,
            0 <= i <= n,
            words@ =~= le_words(bytes@).take(i as int),
        decreases n - i,
    {
        assert(8 * i + 8 <= bytes@.len()) by (nonlinear_arith)
            requires
                i < n,
                n == bytes@.len() / 8,
        ;
        assert(bytes@.len() == bytes.len());
        let chunk = &bytes.as_slice()[8 * i..8 * i + 8];
        words.push(vstd::bytes::u64_from_le_bytes(chunk));
        i = i + 1;
    }
    assert(words@ =~= le_words(bytes@));
    words
}

/// `0x`-prefixed lowercase hex of `bytes`.
pub open spec fn hex_text(bytes: Seq<u8>) -> Seq<char> {
    seq!['0', 'x'] + hex_lower(bytes)
}

/// The bytes that `0x`-prefixed hex text spells, or `None` when the text has
/// no such prefix or is not hex.
pub open spec fn hex_text_decode(text: Seq<char>) -> Option<Seq<u8>> {
    if text.len() >= 2 && text[0] == '0' && text[1] == 'x' {
        hex_decode(text.skip(2))
    } else {
        None
    }
}

/// Hex text read back gives the bytes that were written.
pub proof fn lemma_hex_text_round_trip(bytes: Seq<u8>)
    ensures
        hex_text_decode(hex_text(bytes)) == Some(bytes),
{
    lemma_hex_round_trip(bytes);
    assert(hex_text(bytes).skip(2) =~= hex_lower(bytes));
}

/// Encodes `bytes` as a `0x`-prefixed lowercase hex string.
pub fn to_hex(bytes: &[u8]) -> (s: String)
    ensures
        s@ == hex_text(bytes@),
{
    let encoded = hex_encode(bytes);
    let s = String::from_str("0x").concat(encoded.as_str());
    proof {
        reveal_strlit("0x");
    }
    assert(s@ =~= hex_text(bytes@));
    s
}

/// Decodes a `0x`-prefixed hex string, or `None` when `text` is not one.
pub fn from_hex(text: &str) -> (r: Option<Vec<u8>>)
    ensures
        opt_bytes(r) == hex_text_decode(text@),
{
    let n = text.unicode_len();
    if n >= 2 && text.get_char(0) == '0' && text.get_char(1) == 'x' {
        let rest = text.substring_char(2, n);
        assert(rest@ =~= text@.skip(2));
        let r = hex_decode_str(rest);
        match r {
            Some(v) => Some(v),
            None => None,
        }
    } else {
        None
    }
}

/// One fixture file, holding every recorded vector of a single accelerator.
#[derive(Debug)]
pub struct Fixture {
    /// Name of the accelerator these vectors run.
    pub accelerator: String,
    /// Recorded vectors, in the order the guest runs them.
    pub vectors: Vec<FixtureVector>,
}

/// One recorded call in its on-disk form, with every byte string
/// `0x`-prefixed hex.
#[derive(Debug)]
pub struct FixtureVector {
    /// Unpadded arguments, in call order. The by-value integers come last.
    pub inputs: Vec<String>,
    /// Reference output buffer, and `None` when the call failed.
    pub output: Option<String>,
    /// `0` when the reference call succeeded, `-1` when it failed.
    pub status: i32,
}

/// `fv` is the on-disk form of `v`.
pub open spec fn fixture_vector_describes(fv: FixtureVector, v: Vector) -> bool {
    &&& seq_texts(fv.inputs@) == seq_bytes(v.inputs@).map_values(|b: Seq<u8>| hex_text(b))
    &&& opt_text(fv.output) == match opt_bytes(v.expected.output) {
        Some(b) => Some(hex_text(b)),
        None => None,
    }
    &&& fv.status == v.expected.status
}

/// `f` is the fixture of the vectors `vs` of accelerator `a`.
pub open spec fn fixture_describes(f: Fixture, a: Accelerator, vs: Seq<Vector>) -> bool {
    &&& f.accelerator@ == accelerator_name(a)
    &&& f.vectors@.len() == vs.len()
    &&& forall|i: int| 0 <= i < vs.len() ==> fixture_vector_describes(#[trigger] f.vectors@[i], vs[i])
}

/// Every byte string of `fv` is `0x`-prefixed hex.
pub open spec fn fixture_vector_is_hex(fv: FixtureVector) -> bool {
    &&& forall|j: int| 0 <= j < fv.inputs@.len() ==> (#[trigger] hex_text_decode(fv.inputs@[j]@)) is Some
    &&& opt_text(fv.output) matches Some(o) ==> hex_text_decode(o) is Some
}

/// A fixture names a known accelerator and holds only hex byte strings.
pub open spec fn fixture_is_well_formed(f: Fixture) -> bool {
    &&& accelerator_named(f.accelerator@) is Some
    &&& forall|i: int| 0 <= i < f.vectors@.len() ==> fixture_vector_is_hex(#[trigger] f.vectors@[i])
}

/// `v` is the vector that the on-disk form `fv` of accelerator `a` spells.
pub open spec fn vector_decoded_from(v: Vector, fv: FixtureVector, a: Accelerator) -> bool {
    &&& v.accelerator == a
    &&& seq_bytes(v.inputs@) == seq_texts(fv.inputs@).map_values(|t: Seq<char>| hex_text_decode(t)->0)
    &&& v.expected.status == fv.status
    &&& opt_bytes(v.expected.output) == match opt_text(fv.output) {
        Some(t) => Some(hex_text_decode(t)->0),
        None => None,
    }
}

/// Hex strings of each byte string of `inputs`.
fn hex_texts(inputs: &Vec<Vec<u8>>) -> (texts: Vec<String>)
    ensures
        seq_texts(texts@) == seq_bytes(inputs@).map_values(|b: Seq<u8>| hex_text(b)),
{
    let mut texts: Vec<String> = Vec::new();
    let mut i: usize = 0;
    while i < inputs.len()
        invariant
            0 <= i <= inputs.len(),
            texts@.len() == i,
            forall|j: int| 0 <= j < i ==> (#[trigger] texts@[j])@ == hex_text(inputs@[j]@),
        decreases inputs.len() - i,
    {
        texts.push(to_hex(inputs[i].as_slice()));
        i = i + 1;
    }
    assert(seq_texts(texts@) =~= seq_bytes(inputs@).map_values(|b: Seq<u8>| hex_text(b)));
    texts
}

/// Byte strings that each hex string of `texts` spells.
fn decode_texts(texts: &Vec<String>) -> (inputs: Vec<Vec<u8>>)
    requires
        forall|j: int| 0 <= j < texts@.len() ==> (#[trigger] hex_text_decode(texts@[j]@)) is Some,
    ensures
        seq_bytes(inputs@) == seq_texts(texts@).map_values(|t: Seq<char>| hex_text_decode(t)->0),
{
    let mut inputs: Vec<Vec<u8>> = Vec::new();
    let mut i: usize = 0;
    while i < texts.len()
        invariant
            0 <= i <= texts.len(),
            forall|j: int| 0 <= j < texts@.len() ==> (#[trigger] hex_text_decode(texts@[j]@)) is Some,
            inputs@.len() == i,
            forall|j: int| 0 <= j < i ==> (#[trigger] inputs@[j])@ == hex_text_decode(texts@[j]@)->0,
        decreases texts.len() - i,
    {
        let decoded = from_hex(texts[i].as_str());
        assert(hex_text_decode(texts@[i as int]@) is Some);
        assert(texts[i as int]@ == texts@[i as int]@);
        let bytes = match decoded {
            Some(b) => b,
            None => Vec::new(),
        };
        inputs.push(bytes);
        i = i + 1;
    }
    assert(seq_bytes(inputs@) =~= seq_texts(texts@).map_values(|t: Seq<char>| hex_text_decode(t)->0));
    inputs
}

impl Fixture {
    /// Fixture holding `vectors`, which must all belong to `accelerator`.
    pub fn new(accelerator: Accelerator, vectors: &[Vector]) -> (f: Fixture)
        requires
            forall|i: int| 0 <= i < vectors@.len() ==> (#[trigger] vectors@[i]).accelerator == accelerator,
        ensures
            fixture_describes(f, accelerator, vectors@),
    {
        let mut out: Vec<FixtureVector> = Vec::new();
        let mut i: usize = 0;
        while i < vectors.len()
            invariant
                0 <= i <= vectors.len(),
                out@.len() == i,
                forall|j: int| 0 <= j < i ==> fixture_vector_describes(#[trigger] out@[j], vectors@[j]),
            decreases vectors.len() - i,
        {
            let vector = &vectors[i];
            let output = match &vector.expected.output {
                Some(o) => Some(to_hex(o.as_slice())),
                None => None,
            };
            let fv = FixtureVector {
                inputs: hex_texts(&vector.inputs),
                output,
                status: vector.expected.status,
            };
            assert(fixture_vector_describes(fv, vectors@[i as int]));
            out.push(fv);
            i = i + 1;
        }
        let name = String::from_str(accelerator.name());
        Fixture { accelerator: name, vectors: out }
    }

    /// The vectors this fixture spells. The accelerator name must be known
    /// and every byte string must be hex.
    pub fn into_vectors(self) -> (vs: Vec<Vector>)
        requires
            fixture_is_well_formed(self),
        ensures
            vs@.len() == self.vectors@.len(),
            forall|i: int|
                0 <= i < vs@.len() ==> vector_decoded_from(
                    #[trigger] vs@[i],
                    self.vectors@[i],
                    accelerator_named(self.accelerator@)->0,
                ),
    {
        let accelerator = match Accelerator::from_name(self.accelerator.as_str()) {
            Some(a) => a,
            None => Accelerator::Sha256,
        };
        let mut vs: Vec<Vector> = Vec::new();
        let mut i: usize = 0;
        while i < self.vectors.len()
            invariant
                0 <= i <= self.vectors.len(),
                fixture_is_well_formed(self),
                accelerator == accelerator_named(self.accelerator@)->0,
                vs@.len() == i,
                forall|j: int|
                    0 <= j < i ==> vector_decoded_from(#[trigger] vs@[j], self.vectors@[j], accelerator),
            decreases self.vectors.len() - i,
        {
            let fv = &self.vectors[i];
            assert(fixture_vector_is_hex(self.vectors@[i as int]));
            let output = match &fv.output {
                Some(t) => match from_hex(t.as_str()) {
                    Some(b) => Some(b),
                    None => Some(Vec::new()),
                },
                None => None,
            };
            vs.push(Vector {
                accelerator,
                inputs: decode_texts(&fv.inputs),
                expected: Outcome { status: fv.status, output },
            });
            i = i + 1;
        }
        vs
    }
}

/// A fixture written from vectors reads back as the same vectors.
pub proof fn lemma_fixture_round_trip(f: Fixture, a: Accelerator, vs: Seq<Vector>)
    requires
        fixture_describes(f, a, vs),
        forall|i: int| 0 <= i < vs.len() ==> (#[trigger] vs[i]).accelerator == a,
    ensures
        fixture_is_well_formed(f),
        accelerator_named(f.accelerator@) == Some(a),
        forall|i: int, v: Vector|
            0 <= i < vs.len() && #[trigger] vector_decoded_from(v, f.vectors@[i], a) ==> vector_view(v)
                == vector_view(vs[i]),
{
    lemma_name_round_trip(a);
    assert forall|i: int| 0 <= i < f.vectors@.len() implies fixture_vector_is_hex(#[trigger] f.vectors@[i]) by {
        let fv = f.vectors@[i];
        assert(fixture_vector_describes(fv, vs[i]));
        assert forall|j: int| 0 <= j < fv.inputs@.len() implies (#[trigger] hex_text_decode(fv.inputs@[j]@)) is Some by {
            
            assert(seq_texts(fv.inputs@).len() == seq_bytes(vs[i].inputs@).len());
            assert(seq_texts(fv.inputs@)[j] == fv.inputs@[j]@);
            lemma_hex_text_round_trip(seq_bytes(vs[i].inputs@)[j]);
        }
        if let Some(b) = opt_bytes(vs[i].expected.output) {
            lemma_hex_text_round_trip(b);
        }
    }
    assert forall|i: int, v: Vector|
        0 <= i < vs.len() && #[trigger] vector_decoded_from(v, f.vectors@[i], a) implies vector_view(v)
            == vector_view(vs[i]) by {
        let fv = f.vectors@[i];
        assert(fixture_vector_describes(fv, vs[i]));
        let orig = seq_bytes(vs[i].inputs@);
        assert forall|j: int| 0 <= j < orig.len() implies #[trigger] hex_text_decode(hex_text(orig[j]))->0 == orig[j] by {
            lemma_hex_text_round_trip(orig[j]);
        }
        assert(seq_bytes(v.inputs@) =~= orig);
        if let Some(b) = opt_bytes(vs[i].expected.output) {
            lemma_hex_text_round_trip(b);
        }
    }
}

/// Whether, with fixtures of accelerators `accs`, fixture `i` comes before
/// fixture `j`: ascending by accelerator name, and fixtures of one
/// accelerator in the order they were found.
pub open spec fn fixture_before(accs: Seq<Accelerator>, i: int, j: int) -> bool {
    seq_lt(accelerator_name(accs[i]), accelerator_name(accs[j])) || (accelerator_name(accs[i])
        == accelerator_name(accs[j]) && i < j)
}

/// Fixture order is transitive.
proof fn lemma_fixture_before_transitive(accs: Seq<Accelerator>, i: int, j: int, k: int)
    requires
        fixture_before(accs, i, j),
        fixture_before(accs, j, k),
    ensures
        fixture_before(accs, i, k),
{
    let (a, b, c) = (
        accelerator_name(accs[i]),
        accelerator_name(accs[j]),
        accelerator_name(accs[k]),
    );
    if seq_lt(a, b) && seq_lt(b, c) {
        lemma_seq_lt_transitive(a, b, c);
    }
}

/// Whether `order` lists each of the `n` fixtures exactly once.
pub open spec fn is_permutation(order: Seq<usize>, n: int) -> bool {
    &&& order.len() == n
    &&& forall|k: int| 0 <= k < order.len() ==> order[k] < n
    &&& order.no_duplicates()
}

/// The order in which fixtures whose vectors run `accelerators` are taken:
/// ascending by accelerator name, and fixtures of one accelerator in the
/// order they were found. The result lists each fixture's position once.
pub fn fixture_order(accelerators: &[Accelerator]) -> (order: Vec<usize>)
    ensures
        is_permutation(order@, accelerators@.len() as int),
        forall|a: int, b: int|
            0 <= a < b < order@.len() ==> fixture_before(
                accelerators@,
                #[trigger] order@[a] as int,
                #[trigger] order@[b] as int,
            ),
{
    let ghost accs = accelerators@;
    let mut order: Vec<usize> = Vec::new();
    let mut i: usize = 0;
    while i < accelerators.len()
        invariant
            0 <= i <= accs.len(),
            accs == accelerators@,
            is_permutation(order@, i as int),
            forall|a: int, b: int|
                0 <= a < b < order@.len() ==> fixture_before(
                    accs,
                    #[trigger] order@[a] as int,
                    #[trigger] order@[b] as int,
                ),
        decreases accs.len() - i,
    {
        let name = accelerators[i].name();
        let mut k: usize = 0;
        while k < order.len() && !str_lt(name, accelerators[order[k]].name())
            invariant
                0 <= k <= order@.len(),
                i < accs.len(),
                accs == accelerators@,
                name@ == accelerator_name(accs[i as int]),
                is_permutation(order@, i as int),
                forall|q: int| 0 <= q < k ==> fixture_before(accs, #[trigger] order@[q] as int, i as int),
            decreases order.len() - k,
        {
            proof {
                let x = accelerator_name(accs[order@[k as int] as int]);
                if x != name@ {
                    lemma_seq_lt_total(x, name@);
                }
            }
            k = k + 1;
        }
        proof {
            if k < order@.len() {
                let x = accelerator_name(accs[order@[k as int] as int]);
                assert(fixture_before(accs, i as int, order@[k as int] as int));
                assert forall|q: int| k <= q < order@.len() implies fixture_before(
                    accs,
                    i as int,
                    #[trigger] order@[q] as int,
                ) by {
                    if q > k {
                        assert(fixture_before(accs, order@[k as int] as int, order@[q] as int));
                        lemma_fixture_before_transitive(
                            accs,
                            i as int,
                            order@[k as int] as int,
                            order@[q] as int,
                        );
                    }
                }
            }
        }
        let ghost before = order@;
        order.insert(k, i);
        proof {
            assert(order@ =~= before.insert(k as int, i));
            assert forall|a: int, b: int| 0 <= a < b < order@.len() implies fixture_before(
                accs,
                #[trigger] order@[a] as int,
                #[trigger] order@[b] as int,
            ) by {
                if a < k && b == k {
                    assert(order@[a] == before[a]);
                } else if a < k && b > k {
                    assert(order@[a] == before[a]);
                    assert(order@[b] == before[b - 1]);
                    if a < b - 1 {
                        assert(fixture_before(accs, before[a] as int, before[b - 1] as int));
                    }
                } else if a == k {
                    assert(order@[b] == before[b - 1]);
                } else if b < k {
                    assert(order@[a] == before[a]);
                    assert(order@[b] == before[b]);
                } else {
                    assert(order@[a] == before[a - 1]);
                    assert(order@[b] == before[b - 1]);
                }
            }
            assert forall|p: int, q: int|
                0 <= p < order@.len() && 0 <= q < order@.len() && p != q implies order@[p]
                != order@[q] by {
                if p != k && q != k {
                    let pp = if p < k { p } else { p - 1 };
                    let qq = if q < k { q } else { q - 1 };
                    assert(order@[p] == before[pp]);
                    assert(order@[q] == before[qq]);
                } else if p == k {
                    let qq = if q < k { q } else { q - 1 };
                    assert(order@[q] == before[qq]);
                } else {
                    let pp = if p < k { p } else { p - 1 };
                    assert(order@[p] == before[pp]);
                }
            }
            assert forall|q: int| 0 <= q < order@.len() implies order@[q] < i + 1 by {
                if q < k {
                    assert(order@[q] == before[q]);
                } else if q > k {
                    assert(order@[q] == before[q - 1]);
                }
            }
        }
        i = i + 1;
    }
    order
}

/// The accelerators, in declaration order, that none of `loaded` runs.
pub open spec fn missing_from(loaded: Seq<Accelerator>) -> Seq<Accelerator> {
    all_accelerators().filter(|a: Accelerator| !loaded.contains(a))
}

/// Every accelerator is among all the accelerators.
proof fn lemma_all_accelerators_complete(a: Accelerator)
    ensures
        all_accelerators().contains(a),
{
    let all = all_accelerators();
    let i: int = match a {
        Accelerator::Sha256 => 0,
        Accelerator::Ripemd160 => 1,
        Accelerator::Bn254G1Add => 2,
        Accelerator::Bn254G1Mul => 3,
        Accelerator::Bn254PairingCheck => 4,
        Accelerator::Secp256k1Ecrecover => 5,
        Accelerator::Modexp => 6,
        Accelerator::Blake2Compress => 7,
        Accelerator::Secp256r1VerifySignature => 8,
        Accelerator::VerifyKzgProof => 9,
        Accelerator::Bls12381G1Add => 10,
        Accelerator::Bls12381G1Msm => 11,
        Accelerator::Bls12381G2Add => 12,
        Accelerator::Bls12381G2Msm => 13,
        Accelerator::Bls12381PairingCheck => 14,
        Accelerator::Bls12381FpToG1 => 15,
        Accelerator::Bls12381Fp2ToG2 => 16,
    };
    assert(all[i] == a);
}

/// A corpus misses no accelerator exactly when it has a fixture for every
/// accelerator.
pub proof fn lemma_complete_corpus(loaded: Seq<Accelerator>)
    ensures
        missing_from(loaded).len() == 0 <==> forall|a: Accelerator| loaded.contains(a),
{
    let all = all_accelerators();
    let pred = |a: Accelerator| !loaded.contains(a);
    if missing_from(loaded).len() == 0 {
        assert forall|a: Accelerator| loaded.contains(a) by {
            lemma_all_accelerators_complete(a);
            let i = choose|i: int| 0 <= i < all.len() && all[i] == a;
            if !loaded.contains(a) {
                all.lemma_filter_contains(pred, i);
            }
        }
    }
    if forall|a: Accelerator| loaded.contains(a) {
        if missing_from(loaded).len() > 0 {
            all.lemma_filter_pred(pred, 0);
        }
    }
}

/// The accelerators, in declaration order, that none of the loaded fixtures
/// runs: a complete corpus has none, and an incomplete one fails rather than
/// shrinking the test.
pub fn missing_accelerators(loaded: &[Accelerator]) -> (missing: Vec<Accelerator>)
    ensures
        missing@ == missing_from(loaded@),
{
    let all = Accelerator::iter();
    let mut missing: Vec<Accelerator> = Vec::new();
    let ghost pred = |a: Accelerator| !loaded@.contains(a);
    let mut i: usize = 0;
    while i < all.len()
        invariant
            0 <= i <= all@.len(),
            all@ == all_accelerators(),
            pred == (|a: Accelerator| !loaded@.contains(a)),
            missing@ == all@.take(i as int).filter(pred),
        decreases all.len() - i,
    {
        let a = all[i];
        let mut found = false;
        let mut j: usize = 0;
        while j < loaded.len()
            invariant
                0 <= j <= loaded@.len(),
                found <==> exists|q: int| 0 <= q < j && loaded@[q] == a,
            decreases loaded.len() - j,
        {
            if loaded[j] == a {
                found = true;
            }
            j = j + 1;
        }
        proof {
            reveal(Seq::filter);
            assert(all@.take(i + 1).drop_last() =~= all@.take(i as int));
            assert(all@.take(i + 1).last() == a);
            if found {
                let q = choose|q: int| 0 <= q < loaded@.len() && loaded@[q] == a;
                assert(loaded@.contains(a));
            } else {
                assert(!loaded@.contains(a));
            }
        }
        if !found {
            missing.push(a);
        }
        i = i + 1;
    }
    assert(all@.take(all@.len() as int) =~= all@);
    missing
}

/// Whether two outcomes agree: the same status and the same output.
pub open spec fn same_outcome(a: Outcome, b: Outcome) -> bool {
    a.status == b.status && opt_bytes(a.output) == opt_bytes(b.output)
}

/// Whether two outcomes agree.
fn outcomes_agree(a: &Outcome, b: &Outcome) -> (r: bool)
    ensures
        r == same_outcome(*a, *b),
{
    if a.status != b.status {
        return false;
    }
    match (&a.output, &b.output) {
        (None, None) => true,
        (Some(x), Some(y)) => {
            if x.len() != y.len() {
                return false;
            }
            let mut i: usize = 0;
            while i < x.len()
                invariant
                    0 <= i <= x@.len(),
                    x@.len() == y@.len(),
                    opt_bytes(a.output) == Some(x@),
                    opt_bytes(b.output) == Some(y@),
                    forall|j: int| 0 <= j < i ==> x@[j] == y@[j],
                decreases x.len() - i,
            {
                if x[i] != y[i] {
                    return false;
                }
                i = i + 1;
            }
            assert(x@ =~= y@);
            true
        },
        _ => false,
    }
}

/// The first vector whose run gave an outcome other than the recorded one,
/// given the outcome of each run in order; the guest fails there.
pub fn first_mismatch(outcomes: &[Outcome], vectors: &[Vector]) -> (r: Option<usize>)
    requires
        outcomes@.len() == vectors@.len(),
    ensures
        r matches Some(i) ==> i < vectors@.len() && !same_outcome(outcomes@[i as int], vectors@[i as int].expected)
            && forall|j: int| 0 <= j < i ==> same_outcome(outcomes@[j], vectors@[j].expected),
        r is None ==> forall|j: int| 0 <= j < vectors@.len() ==> same_outcome(outcomes@[j], vectors@[j].expected),
{
    let mut i: usize = 0;
    while i < vectors.len()
        invariant
            0 <= i <= vectors@.len(),
            outcomes@.len() == vectors@.len(),
            forall|j: int| 0 <= j < i ==> same_outcome(outcomes@[j], vectors@[j].expected),
        decreases vectors.len() - i,
    {
        if !outcomes_agree(&outcomes[i], &vectors[i].expected) {
            return Some(i);
        }
        i = i + 1;
    }
    None
}

/// The output buffer of a modular exponentiation with `modulus`: zeros, as
/// many bytes as the modulus has, which the accelerator overwrites with the
/// result.
pub fn modexp_output(modulus: &[u8]) -> (out: Vec<u8>)
    ensures
        out@.len() == modulus@.len(),
        forall|i: int| 0 <= i < out@.len() ==> out@[i] == 0,
{
    let mut out: Vec<u8> = Vec::new();
    let mut i: usize = 0;
    while i < modulus.len()
        invariant
            0 <= i <= modulus@.len(),
            out@.len() == i,
            forall|j: int| 0 <= j < i ==> out@[j] == 0,
        decreases modulus.len() - i,
    {
        out.push(0);
        i = i + 1;
    }
    out
}

/// The address that a recovered public key's Keccak-256 `hash` stands for,
/// left-padded to 32 bytes: the hash with its first 12 bytes zeroed, as the
/// reference implementation returns it.
pub fn ecrecover_address(hash: [u8; 32]) -> (a: [u8; 32])
    ensures
        forall|i: int| 0 <= i < 12 ==> a@[i] == 0,
        forall|i: int| 12 <= i < 32 ==> a@[i] == hash@[i],
{
    let mut a = hash;
    let mut i: usize = 0;
    while i < 12
        invariant
            0 <= i <= 12,
            forall|j: int| 0 <= j < i ==> a@[j] == 0,
            forall|j: int| 12 <= j < 32 ==> a@[j] == hash@[j],
        decreases 12 - i,
    {
        a[i] = 0;
        i = i + 1;
    }
    a
}

/// The outcome of a signature or proof check whose reference implementation
/// returns one boolean: a failed call counts as a failed check, so the call
/// always succeeds with `1` exactly when it succeeded and verified.
pub fn verification_outcome(status: i32, verified: bool) -> (o: Outcome)
    ensures
        o.status == 0,
        opt_bytes(o.output) == Some(seq![if status == 0 && verified { 1u8 } else { 0u8 }]),
{
    let flag: u8 = if status == 0 && verified {
        1
    } else {
        0
    };
    let o = Outcome::new(0, vec![flag]);
    proof {
        assert(opt_bytes(o.output)->0 =~= seq![flag]);
    }
    o
}

/// The outcome of a pairing check: its status, and its verdict as one byte.
pub fn pairing_outcome(status: i32, verified: bool) -> (o: Outcome)
    ensures
        o.status == status,
        opt_bytes(o.output) == (if status == 0 {
            Some(seq![if verified { 1u8 } else { 0u8 }])
        } else {
            None
        }),
{
    let flag: u8 = if verified {
        1
    } else {
        0
    };
    let o = Outcome::new(status, vec![flag]);
    proof {
        if status == 0 {
            assert(opt_bytes(o.output)->0 =~= seq![flag]);
        }
    }
    o
}

} // verus!
