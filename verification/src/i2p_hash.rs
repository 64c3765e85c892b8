//! The fixed-length digest identifier: an immutable 32-byte value with
//! byte-exact equality, a zero default and an unpadded base64 textual form.

use vstd::prelude::*;
use vstd::std_specs::cmp::PartialEqSpec;
use crate::base64::base64_of;

verus! {

/// The length of an `I2pHash` in bytes.
const I2P_SHA256_HASH_LENGTH: usize = 32;

/// A fixed 32-byte digest value, used as an opaque identity token.
/// It owns its bytes outright and is never resized or mutated.
#[derive(Eq, Copy, Hash, Debug)]
pub struct I2pHash {
    data: [u8; 32],
}

impl View for I2pHash {
    type V = Seq<u8>;

    closed spec fn view(&self) -> Seq<u8> {
        self.data@
    }
}

impl I2pHash {
    /// Builds a digest holding exactly the 32 bytes given.
    pub fn new(data: [u8; 32]) -> (r: I2pHash)
        ensures
            r@ == data@,
    {
        I2pHash { data: data }
    }

    /// Returns the length of an `I2pHash` in bytes.
    pub fn len(&self) -> (n: usize)
        ensures
            n == 32,
            n == self@.len(),
    {
        I2P_SHA256_HASH_LENGTH
    }

    /// A read-only view over the 32 bytes, without copying.
    pub fn as_slice(&self) -> (r: &[u8])
        ensures
            r@ == self@,
    {
        self.data.as_slice()
    }

    /// Builds a digest from a dynamically-sized byte source, rejecting any
    /// source whose length is not exactly 32: the bytes are never truncated
    /// or padded.
    pub fn try_from_slice(bytes: &[u8]) -> (r: Result<I2pHash, I2pHashError>)
        ensures
            bytes@.len() == 32 ==> (r matches Ok(h) && h@ == bytes@),
            bytes@.len() != 32 ==> r == Err::<I2pHash, I2pHashError>(I2pHashError::LengthMismatch),
    {
        if bytes.len() != I2P_SHA256_HASH_LENGTH {
            return Err(I2pHashError::LengthMismatch);
        }
        let mut data: [u8; 32] = [0u8; 32];
        let mut i: usize = 0;
        while i < 32
            invariant
                i <= 32,
                bytes@.len() == 32,
                forall|j: int| 0 <= j < i ==> data@[j] == bytes@[j],
            decreases 32 - i,
        {
            data[i] = bytes[i];
            i = i + 1;
        }
        proof {
            assert(data@ =~= bytes@);
        }
        Ok(I2pHash::new(data))
    }

    /// The canonical textual form: the 32 bytes encoded as base64 with the
    /// standard alphabet, no `=` padding and no line wrapping, which for a
    /// 32-byte payload is exactly 43 characters.
    pub fn to_display_string(&self) -> (r: String)
        ensures
            r@ == base64_of(self@),
            r@.len() == 43,
            forall|i: int| 0 <= i < r@.len() ==> #[trigger] crate::base64::is_base64_char(r@[i]),
    {
        let r = crate::base64::base64_encode(self.as_slice());
        proof {
            crate::base64::lemma_base64_of_len(self@);
            crate::base64::lemma_base64_of_alphabet(self@);
        }
        r
    }
}

/// The one failure of this library: a dynamically-sized byte source whose
/// length is not exactly 32 cannot become a digest.
#[derive(Clone, Copy, PartialEq, Eq, Structural, Hash, Debug)]
pub enum I2pHashError {
    LengthMismatch,
}

impl Default for I2pHash {
    /// The all-zero digest, a sentinel that names no real entity.
    fn default() -> (r: I2pHash)
        ensures
            r@.len() == 32,
            forall|i: int| 0 <= i < 32 ==> r@[i] == 0u8,
    {
        I2pHash::new([0u8; 32])
    }
}

impl Clone for I2pHash {
    /// An independently-owned copy of the digest, byte for byte.
    fn clone(&self) -> (r: I2pHash)
        ensures
            r@ == self@,
    {
        let mut cloned_hash: [u8; 32] = [0u8; 32];
        let mut i: usize = 0;
        while i < 32
            invariant
                i <= 32,
                forall|j: int| 0 <= j < i ==> cloned_hash@[j] == self@[j],
            decreases 32 - i,
        {
            cloned_hash[i] = self.data[i];
            i = i + 1;
        }
        proof {
            assert(cloned_hash@ =~= self@);
        }
        I2pHash::new(cloned_hash)
    }
}

impl PartialEq for I2pHash {
    /// Byte-exact equality over all 32 positions.
    fn eq(&self, other: &I2pHash) -> (r: bool) {
        let mut i: usize = 0;
        while i < 32
            invariant
                i <= 32,
                forall|j: int| 0 <= j < i ==> self@[j] == other@[j],
            decreases 32 - i,
        {
            if self.data[i] != other.data[i] {
                return false;
            }
            i = i + 1;
        }
        proof {
            assert(self@ =~= other@);
        }
        true
    }
}

impl vstd::std_specs::cmp::PartialEqSpecImpl for I2pHash {
    open spec fn obeys_eq_spec() -> bool {
        true
    }

    open spec fn eq_spec(&self, other: &I2pHash) -> bool {
        self@ == other@
    }
}

impl From<[u8; 32]> for I2pHash {
    /// Takes ownership of the 32 bytes and wraps them as a digest.
    fn from(data: [u8; 32]) -> (r: I2pHash) {
        let r = I2pHash::new(data);
        proof {
            assert(r.data =~= data);
        }
        r
    }
}

impl vstd::std_specs::convert::FromSpecImpl<[u8; 32]> for I2pHash {
    open spec fn obeys_from_spec() -> bool {
        true
    }

    closed spec fn from_spec(data: [u8; 32]) -> I2pHash {
        I2pHash { data: data }
    }
}

impl<'a> From<&'a [u8; 32]> for I2pHash {
    /// Copies the 32 borrowed bytes into an independently-owned digest.
    fn from(data: &'a [u8; 32]) -> (r: I2pHash) {
        let mut cloned_data: [u8; 32] = [0u8; 32];
        let mut i: usize = 0;
        while i < 32
            invariant
                i <= 32,
                forall|j: int| 0 <= j < i ==> cloned_data@[j] == data@[j],
            decreases 32 - i,
        {
            cloned_data[i] = data[i];
            i = i + 1;
        }
        let r = I2pHash::new(cloned_data);
        proof {
            assert(cloned_data@ =~= data@);
            assert(r.data =~= *data);
        }
        r
    }
}

impl<'a> vstd::std_specs::convert::FromSpecImpl<&'a [u8; 32]> for I2pHash {
    open spec fn obeys_from_spec() -> bool {
        true
    }

    closed spec fn from_spec(data: &'a [u8; 32]) -> I2pHash {
        I2pHash { data: *data }
    }
}

/// What conversion from an owned 32-byte array builds: the digest whose
/// bytes are exactly the array's.
pub proof fn lemma_from_array_view(data: [u8; 32])
    ensures
        <I2pHash as vstd::std_specs::convert::FromSpec<[u8; 32]>>::from_spec(data)@ == data@,
{
}

/// What conversion from a borrowed 32-byte array builds: the digest whose
/// bytes are exactly the array's.
pub proof fn lemma_from_borrowed_array_view(data: &[u8; 32])
    ensures
        <I2pHash as vstd::std_specs::convert::FromSpec<&[u8; 32]>>::from_spec(data)@ == data@,
{
}

/// The capability of naming a value by a digest.
pub trait Hashable {
    /// The digest that the value's current state determines.
    spec fn hash_spec(&self) -> I2pHash;

    /// Computes the digest naming `self`: a pure function of the value, so
    /// repeated calls on an unchanged value return the same digest.
    fn hash(&self) -> (r: I2pHash)
        ensures
            r == self.hash_spec(),
    ;
}

/// The invariant of the type: every digest holds exactly 32 bytes.
pub proof fn lemma_view_len(x: &I2pHash)
    ensures
        x@.len() == 32,
{
}

/// Round trip: a digest built by `new` from 32 bytes reads back, through
/// `as_slice`, exactly the bytes it was given.
pub proof fn lemma_construct_round_trip(data: [u8; 32], h: I2pHash, bytes_out: Seq<u8>)
    requires
        h@ == data@,
        bytes_out == h@,
    ensures
        bytes_out == data@,
{
}

/// Equality between digests is reflexive.
pub proof fn lemma_equals_reflexive(x: &I2pHash)
    ensures
        x.eq_spec(x),
{
}

/// Equality between digests is symmetric.
pub proof fn lemma_equals_symmetric(x: &I2pHash, y: &I2pHash)
    ensures
        x.eq_spec(y) == y.eq_spec(x),
{
}

/// Equality between digests is transitive.
pub proof fn lemma_equals_transitive(x: &I2pHash, y: &I2pHash, z: &I2pHash)
    requires
        x.eq_spec(y),
        y.eq_spec(z),
    ensures
        x.eq_spec(z),
{
}

/// A difference at any single byte position falsifies equality.
pub proof fn lemma_equals_detects_difference(x: &I2pHash, y: &I2pHash, i: int)
    requires
        0 <= i < 32,
        x@[i] != y@[i],
    ensures
        !x.eq_spec(y),
{
}

/// A clone, which holds the same bytes as its source, is equal to it.
pub proof fn lemma_clone_equals(x: &I2pHash, c: &I2pHash)
    requires
        c@ == x@,
    ensures
        c.eq_spec(x),
{
}

/// Digests with identical bytes display identically.
pub proof fn lemma_display_deterministic(x: &I2pHash, y: &I2pHash)
    requires
        x@ == y@,
    ensures
        base64_of(x@) == base64_of(y@),
{
}

/// Digests that differ in any byte display differently: the textual form
/// has no collisions.
pub proof fn lemma_display_injective(x: &I2pHash, y: &I2pHash)
    requires
        x@ != y@,
    ensures
        base64_of(x@) != base64_of(y@),
{
    crate::base64::lemma_base64_of_injective(x@, y@);
}

/// Two results of `Hashable::hash` on one unchanged value are the same
/// digest: the capability is deterministic.
pub proof fn lemma_hash_deterministic<T: Hashable>(t: &T, r1: I2pHash, r2: I2pHash)
    requires
        r1 == t.hash_spec(),
        r2 == t.hash_spec(),
    ensures
        r1 == r2,
{
}

} // verus!
