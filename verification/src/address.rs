//! Account addresses: fixed-width validator identifiers derived from
//! public keys, with the lexicographic order the canonical encoding uses.

use vstd::prelude::*;
use crate::crypto;

verus! {

/// Lexicographic order on byte strings, with a proper prefix ordered before
/// every extension of it. On the fixed-width strings used for addresses this
/// is a total order.
pub open spec fn bytes_le(a: Seq<u8>, b: Seq<u8>) -> bool
    decreases a.len(),
{
    if a.len() == 0 {
        true
    } else if b.len() == 0 {
        false
    } else if a[0] < b[0] {
        true
    } else if a[0] > b[0] {
        false
    } else {
        bytes_le(a.drop_first(), b.drop_first())
    }
}

pub proof fn lemma_bytes_le_reflexive(a: Seq<u8>)
    ensures
        bytes_le(a, a),
    decreases a.len(),
{
    if a.len() > 0 {
        lemma_bytes_le_reflexive(a.drop_first());
    }
}

pub proof fn lemma_bytes_le_total(a: Seq<u8>, b: Seq<u8>)
    ensures
        bytes_le(a, b) || bytes_le(b, a),
    decreases a.len(),
{
    if a.len() > 0 && b.len() > 0 && a[0] == b[0] {
        lemma_bytes_le_total(a.drop_first(), b.drop_first());
    }
}

pub proof fn lemma_bytes_le_transitive(a: Seq<u8>, b: Seq<u8>, c: Seq<u8>)
    requires
        bytes_le(a, b),
        bytes_le(b, c),
    ensures
        bytes_le(a, c),
    decreases a.len(),
{
    if a.len() > 0 && b.len() > 0 && c.len() > 0 && a[0] == b[0] && b[0] == c[0] {
        lemma_bytes_le_transitive(a.drop_first(), b.drop_first(), c.drop_first());
    }
}

pub proof fn lemma_bytes_le_antisymmetric(a: Seq<u8>, b: Seq<u8>)
    requires
        bytes_le(a, b),
        bytes_le(b, a),
    ensures
        a == b,
    decreases a.len(),
{
    if a.len() > 0 && b.len() > 0 && a[0] == b[0] {
        lemma_bytes_le_antisymmetric(a.drop_first(), b.drop_first());
        assert(a =~= seq![a[0]] + a.drop_first());
        assert(b =~= seq![b[0]] + b.drop_first());
    } else {
        assert(a =~= b);
    }
}

/// A fixed-size validator identifier, deterministically derived from a
/// public key as that key's SHA3-256 digest.
pub struct AccountAddress {
    pub bytes: Vec<u8>,
}

impl AccountAddress {
    /// The identifier has its fixed width.
    pub open spec fn wf(self) -> bool {
        self.bytes@.len() == 32
    }

    /// Derives the address that identifies `public_key`.
    pub fn from_public_key(public_key: &Vec<u8>) -> (r: AccountAddress)
        ensures
            r.bytes@ == crypto::sha3_256_of(public_key@),
            r.wf(),
    {
        AccountAddress { bytes: crypto::sha3_256(public_key) }
    }

    /// Byte-for-byte equality of two addresses.
    pub fn equals(&self, other: &AccountAddress) -> (r: bool)
        ensures
            r == (self.bytes@ == other.bytes@),
    {
        if self.bytes.len() != other.bytes.len() {
            assert(self.bytes@ != other.bytes@);
            return false;
        }
        let n = self.bytes.len();
        let mut i: usize = 0;
        while i < n
            invariant
                i <= n,
                n == self.bytes@.len() == other.bytes@.len(),
                forall|k: int| 0 <= k < i ==> self.bytes@[k] == other.bytes@[k],
            decreases n - i,
        {
            if self.bytes[i] != other.bytes[i] {
                return false;
            }
            i = i + 1;
        }
        proof {
            assert(self.bytes@ =~= other.bytes@);
        }
        true
    }

    /// Lexicographic comparison of two addresses.
    pub fn le(&self, other: &AccountAddress) -> (r: bool)
        ensures
            r == bytes_le(self.bytes@, other.bytes@),
    {
        proof {
            assert(self.bytes@.skip(0) =~= self.bytes@);
            assert(other.bytes@.skip(0) =~= other.bytes@);
        }
        bytes_le_from(&self.bytes, &other.bytes, 0)
    }
}

fn bytes_le_from(a: &Vec<u8>, b: &Vec<u8>, i: usize) -> (r: bool)
    requires
        i <= a@.len(),
        i <= b@.len(),
    ensures
        r == bytes_le(a@.skip(i as int), b@.skip(i as int)),
    decreases a@.len() - i,
{
    if i == a.len() {
        true
    } else if i == b.len() {
        false
    } else if a[i] < b[i] {
        true
    } else if a[i] > b[i] {
        false
    } else {
        proof {
            assert(a@.skip(i as int).drop_first() =~= a@.skip(i as int + 1));
            assert(b@.skip(i as int).drop_first() =~= b@.skip(i as int + 1));
        }
        bytes_le_from(a, b, i + 1)
    }
}

} // verus!
