//! Viewing keys: the capability tokens that authenticate read queries.
//! A key is derived from the stored seed, the block height and time, the
//! sender and caller-supplied entropy; only its SHA-256 hash is stored.
//! Checking a presented key is a fixed-cost byte comparison, so a missing
//! account and a wrong key are indistinguishable by timing.

use vstd::prelude::*;

verus! {

/// Number of bytes of a key hash as stored.
pub const VIEWING_KEY_SIZE: usize = 32;

/// The SHA-256 digest of `data`: a pure function of the input alone,
/// computed by an outside crate and therefore only named here.
pub uninterp spec fn sha256_of(data: Seq<u8>) -> Seq<u8>;

/// The 32 bytes drawn from the deterministic generator seeded with
/// `seed` and `entropy`.
pub uninterp spec fn prng_bytes_of(seed: Seq<u8>, entropy: Seq<u8>) -> Seq<u8>;

/// The standard padded base64 notation of `data`.
pub uninterp spec fn base64_of(data: Seq<u8>) -> Seq<char>;

/// Relies on `secret_toolkit::crypto::sha_256`: the SHA-256 digest of the
/// input, 32 bytes, depending on the input bytes alone.
#[verifier::external_body]
pub(crate) fn sha256(data: &[u8]) -> (r: Vec<u8>)
    ensures
        r@ == sha256_of(data@),
        r@.len() == 32,
{
    secret_toolkit::crypto::sha_256(data).to_vec()
}

/// Relies on `secret_toolkit::crypto::ContractPrng`: `new(seed, entropy)`
/// seeds a ChaCha20 generator with the SHA-256 of `seed` then `entropy`,
/// and `rand_bytes` fills 32 bytes from its stream — a deterministic
/// function of the two arguments alone.
#[verifier::external_body]
fn prng_bytes(seed: &[u8], entropy: &[u8]) -> (r: Vec<u8>)
    ensures
        r@ == prng_bytes_of(seed@, entropy@),
        r@.len() == 32,
{
    secret_toolkit::crypto::ContractPrng::new(seed, entropy).rand_bytes().to_vec()
}

/// Relies on `base64::Engine::encode` with the standard padded alphabet:
/// the base64 string of the input bytes, depending on them alone.
#[verifier::external_body]
pub(crate) fn base64_encode(data: &[u8]) -> (r: String)
    ensures
        r@ == base64_of(data@),
{
    base64::Engine::encode(&base64::engine::general_purpose::STANDARD, data)
}

/// Byte `i` of the big-endian representation of `x`.
pub open spec fn be_byte(x: u64, i: int) -> u8 {
    ((x >> (((7 - i) * 8) as u64)) & 0xff) as u8
}

/// The eight big-endian bytes of `x`.
pub open spec fn be_bytes_of(x: u64) -> Seq<u8> {
    Seq::new(8, |i: int| be_byte(x, i))
}

/// Writes `x` as its eight big-endian bytes.
pub fn u64_be_bytes(x: u64) -> (r: Vec<u8>)
    ensures
        r@ == be_bytes_of(x),
{
    let mut r: Vec<u8> = Vec::new();
    let mut i: usize = 0;
    while i < 8
        invariant
            i <= 8,
            r@.len() == i,
            forall|j: int| 0 <= j < i ==> r@[j] == be_byte(x, j),
        decreases 8 - i,
    {
        let sh: u64 = ((7 - i) as u64) * 8;
        let b: u64 = (x >> sh) & 0xff;
        proof {
            assert((x >> sh) & 0xff < 256u64) by (bit_vector);
        }
        r.push(b as u8);
        i = i + 1;
    }
    proof {
        assert(r@ =~= be_bytes_of(x));
    }
    r
}

/// Constant-time equality of two equal-length byte strings: every byte is
/// inspected whatever the outcome, so the comparison's cost does not
/// depend on where the inputs differ.
pub fn ct_eq_bytes(a: &[u8], b: &[u8]) -> (r: bool)
    requires
        a@.len() == b@.len(),
    ensures
        r == (a@ == b@),
{
    let n = a.len();
    let mut diff: u8 = 0;
    let mut i: usize = 0;
    while i < n
        invariant
            i <= n == a@.len() == b@.len(),
            (diff == 0) <==> (forall|j: int| 0 <= j < i ==> a@[j] == b@[j]),
        decreases n - i,
    {
        let x: u8 = a[i] ^ b[i];
        proof {
            let ai = a@[i as int];
            let bi = b@[i as int];
            assert(((ai ^ bi) == 0) == (ai == bi)) by (bit_vector);
            let d = diff;
            assert(((d | (ai ^ bi)) == 0) == (d == 0 && (ai ^ bi) == 0)) by (bit_vector);
        }
        diff = diff | x;
        i = i + 1;
    }
    if diff == 0 {
        proof {
            assert(a@ =~= b@);
        }
        true
    } else {
        proof {
            let j = choose|j: int| 0 <= j < n && a@[j] != b@[j];
            assert(a@[j] != b@[j]);
        }
        false
    }
}

/// The entropy block the generator is fed: block height and time in
/// big-endian bytes, then the sender's identity, then the caller-supplied
/// entropy.
pub open spec fn rng_entropy_of(
    height: u64,
    time: u64,
    sender_bytes: Seq<u8>,
    entropy_bytes: Seq<u8>,
) -> Seq<u8> {
    be_bytes_of(height) + be_bytes_of(time) + sender_bytes + entropy_bytes
}

/// The characters of a freshly derived viewing key: the fixed prefix and
/// the base64 digest of the drawn bytes.
pub open spec fn viewing_key_chars(
    seed: Seq<u8>,
    height: u64,
    time: u64,
    sender_bytes: Seq<u8>,
    entropy_bytes: Seq<u8>,
) -> Seq<char> {
    "anubis_key_"@ + base64_of(
        sha256_of(prng_bytes_of(seed, rng_entropy_of(height, time, sender_bytes, entropy_bytes))),
    )
}

/// A capability token in transit.  Only its hash is ever stored.
#[derive(Debug, PartialEq)]
pub struct ViewingKey(pub String);

impl View for ViewingKey {
    type V = Seq<char>;

    open spec fn view(&self) -> Seq<char> {
        self.0@
    }
}

impl ViewingKey {
    /// The key as a plain string.
    pub fn to_string(&self) -> (r: String)
        ensures
            r@ == self@,
    {
        self.0.clone()
    }

    /// Derives a fresh key from the stored seed, the block height and
    /// time, the sender and the caller-supplied entropy.
    pub fn new_key(
        seed: &Vec<u8>,
        height: u64,
        time: u64,
        sender: &String,
        entropy: &String,
    ) -> (r: ViewingKey)
        ensures
            r@ == viewing_key_chars(
                seed@,
                height,
                time,
                vstd::utf8::encode_utf8(sender@),
                vstd::utf8::encode_utf8(entropy@),
            ),
    {
        let mut rng_entropy = u64_be_bytes(height);
        let mut time_bytes = u64_be_bytes(time);
        rng_entropy.append(&mut time_bytes);
        let mut sender_bytes = sender.as_str().as_bytes_vec();
        rng_entropy.append(&mut sender_bytes);
        let mut entropy_bytes = entropy.as_str().as_bytes_vec();
        rng_entropy.append(&mut entropy_bytes);
        proof {
            assert(rng_entropy@ =~= rng_entropy_of(
                height,
                time,
                vstd::utf8::encode_utf8(sender@),
                vstd::utf8::encode_utf8(entropy@),
            ));
        }
        let drawn = prng_bytes(seed.as_slice(), rng_entropy.as_slice());
        let digest = sha256(drawn.as_slice());
        let encoded = base64_encode(digest.as_slice());
        let key = String::from_str("anubis_key_").concat(encoded.as_str());
        ViewingKey(key)
    }

    /// The stored form of the key: the SHA-256 hash of its characters.
    pub fn to_hashed(&self) -> (r: Vec<u8>)
        ensures
            r@ == sha256_of(vstd::utf8::encode_utf8(self@)),
            r@.len() == 32,
    {
        sha256(self.0.as_str().as_bytes())
    }

    /// Compares the presented key's hash against an expected hash without
    /// short-circuiting.
    pub fn check_viewing_key(&self, expected_hash: &Vec<u8>) -> (b: bool)
        requires
            expected_hash@.len() == 32,
        ensures
            b == (sha256_of(vstd::utf8::encode_utf8(self@)) == expected_hash@),
    {
        let hashed = self.to_hashed();
        ct_eq_bytes(hashed.as_slice(), expected_hash.as_slice())
    }
}

} // verus!
