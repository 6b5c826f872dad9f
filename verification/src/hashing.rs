//! The one-way hashing primitive of the chain: a fixed-size digest value and
//! the two chain steps (idle advance, and advance mixing in a transaction
//! digest).

use vstd::prelude::*;
use sha2::Digest;

verus! {

/// Number of bytes in a chain digest.
pub const HASH_BYTES: usize = 32;

/// What the SHA-256 digest of a byte sequence is. The digest depends on the
/// input bytes alone; its value is stated nowhere, so every fact about chain
/// ids goes through this name.
pub uninterp spec fn digest_of(input: Seq<u8>) -> Seq<u8>;

/// A fixed-size digest identifying a position in the hash chain. Ordering of
/// positions is meaningful only through the chain, never by byte value.
pub struct HashValue {
    pub bytes: Vec<u8>,
}

impl HashValue {
    /// A well-formed digest holds exactly `HASH_BYTES` bytes.
    pub open spec fn wf(&self) -> bool {
        self.bytes@.len() == HASH_BYTES
    }

    /// Byte-for-byte equality of two digests.
    pub fn same_as(&self, other: &HashValue) -> (r: bool)
        ensures
            r == (self.bytes@ == other.bytes@),
    {
        if self.bytes.len() != other.bytes.len() {
            assert(self.bytes@ != other.bytes@);
            return false;
        }
        let n = self.bytes.len();
        let mut i: usize = 0;
        while i < n
            invariant
                n == self.bytes@.len(),
                n == other.bytes@.len(),
                0 <= i <= n,
                forall|j: int| 0 <= j < i ==> self.bytes@[j] == other.bytes@[j],
            decreases n - i,
        {
            if self.bytes[i] != other.bytes[i] {
                assert(self.bytes@ != other.bytes@);
                return false;
            }
            i = i + 1;
        }
        assert(self.bytes@ =~= other.bytes@);
        true
    }

    pub fn clone_value(&self) -> (r: HashValue)
        ensures
            r.bytes@ == self.bytes@,
    {
        let mut bytes: Vec<u8> = Vec::new();
        let n = self.bytes.len();
        let mut i: usize = 0;
        while i < n
            invariant
                n == self.bytes@.len(),
                0 <= i <= n,
                bytes@ == self.bytes@.subrange(0, i as int),
            decreases n - i,
        {
            bytes.push(self.bytes[i]);
            i = i + 1;
        }
        assert(bytes@ =~= self.bytes@);
        HashValue { bytes }
    }
}

/// Relies on sha2::Sha256 through digest::Digest::digest: SHA-256 is a pure
/// function of the input bytes, and its output is 32 bytes.
#[verifier::external_body]
fn sha256_bytes(input: &Vec<u8>) -> (r: Vec<u8>)
    ensures
        r@ == digest_of(input@),
        r@.len() == HASH_BYTES,
{
    sha2::Sha256::digest(input.as_slice()).to_vec()
}

/// The id after one idle chain advance: H(id).
pub open spec fn next_digest(id: Seq<u8>) -> Seq<u8> {
    digest_of(id)
}

/// The id after a chain advance that mixes in a transaction digest:
/// H(H(id) ++ mixin).
pub open spec fn mixed_digest(id: Seq<u8>, mixin: Seq<u8>) -> Seq<u8> {
    digest_of(digest_of(id) + mixin)
}

/// One idle advance of the chain.
pub fn extend_id(id: &HashValue) -> (r: HashValue)
    ensures
        r.bytes@ == next_digest(id.bytes@),
        r.wf(),
{
    HashValue { bytes: sha256_bytes(&id.bytes) }
}

/// One advance of the chain that mixes in a digest of external data.
pub fn extend_id_with(id: &HashValue, mixin: &HashValue) -> (r: HashValue)
    ensures
        r.bytes@ == mixed_digest(id.bytes@, mixin.bytes@),
        r.wf(),
{
    let mut buf = sha256_bytes(&id.bytes);
    let ghost pre = buf@;
    let n = mixin.bytes.len();
    let mut i: usize = 0;
    while i < n
        invariant
            n == mixin.bytes@.len(),
            0 <= i <= n,
            buf@ == pre + mixin.bytes@.subrange(0, i as int),
        decreases n - i,
    {
        buf.push(mixin.bytes[i]);
        i = i + 1;
    }
    assert(buf@ =~= digest_of(id.bytes@) + mixin.bytes@);
    HashValue { bytes: sha256_bytes(&buf) }
}

/// The digest of a flat byte payload, as a chain-mixable value.
pub fn digest_bytes(payload: &Vec<u8>) -> (r: HashValue)
    ensures
        r.bytes@ == digest_of(payload@),
        r.wf(),
{
    HashValue { bytes: sha256_bytes(payload) }
}

} // verus!
