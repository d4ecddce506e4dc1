//! Identifier types.
//!
//! Accounts are opaque numeric identifiers handed in by the host after it
//! has authenticated the caller. Service, chain, domain and alert-type
//! identifiers are short byte strings with a common length bound.

use vstd::prelude::*;

verus! {

/// An authenticated account identifier; the host resolves raw input to one.
pub type AccountId = u64;

/// Longest identifier byte string the registry accepts.
pub const MAX_ID_LEN: usize = 32;

/// A byte string of at most `MAX_ID_LEN` bytes.
#[derive(Debug, PartialEq, Eq)]
pub struct BoundedBytes {
    bytes: Vec<u8>,
}

/// Identifies a service; the unique key of the service store.
pub type ServiceId = BoundedBytes;

/// Identifies the chain a service runs on.
pub type ChainId = BoundedBytes;

/// Identifies the domain an alert was observed on.
pub type DomainId = BoundedBytes;

/// Classifies an alert; part of the uniqueness triple.
pub type AlertType = BoundedBytes;

impl View for BoundedBytes {
    type V = Seq<u8>;

    closed spec fn view(&self) -> Seq<u8> {
        self.bytes@
    }
}

impl BoundedBytes {
    /// The length bound every value of this type satisfies.
    pub open spec fn wf(self) -> bool {
        self@.len() <= MAX_ID_LEN
    }

    /// Accepts the bytes exactly when they fit the length bound.
    pub fn new(bytes: Vec<u8>) -> (r: Option<BoundedBytes>)
        ensures
            bytes@.len() <= MAX_ID_LEN ==> (r matches Some(b) && b@ == bytes@ && b.wf()),
            bytes@.len() > MAX_ID_LEN ==> r is None,
    {
        if bytes.len() <= MAX_ID_LEN {
            Some(BoundedBytes { bytes })
        } else {
            None
        }
    }

    /// A fresh value holding the same bytes.
    pub fn dup(&self) -> (r: BoundedBytes)
        ensures
            r@ == self@,
            r.wf() == self.wf(),
    {
        let mut bytes: Vec<u8> = Vec::new();
        let mut i: usize = 0;
        while i < self.bytes.len()
            invariant
                i <= self.bytes.len(),
                bytes@ == self.bytes@.subrange(0, i as int),
            decreases self.bytes.len() - i,
        {
            bytes.push(self.bytes[i]);
            proof {
                assert(bytes@ =~= self.bytes@.subrange(0, i + 1));
            }
            i += 1;
        }
        proof {
            assert(bytes@ =~= self.bytes@);
        }
        BoundedBytes { bytes }
    }

    /// Whether the two values hold the same bytes.
    pub fn eq_bytes(&self, other: &BoundedBytes) -> (r: bool)
        ensures
            r == (self@ == other@),
    {
        if self.bytes.len() != other.bytes.len() {
            proof {
                assert(self@ != other@);
            }
            return false;
        }
        let mut i: usize = 0;
        while i < self.bytes.len()
            invariant
                i <= self.bytes.len(),
                self.bytes@.len() == other.bytes@.len(),
                forall|j: int| 0 <= j < i ==> self.bytes@[j] == other.bytes@[j],
            decreases self.bytes.len() - i,
        {
            if self.bytes[i] != other.bytes[i] {
                proof {
                    assert(self@[i as int] != other@[i as int]);
                }
                return false;
            }
            i += 1;
        }
        proof {
            assert(self@ =~= other@);
        }
        true
    }

    /// How many bytes the value holds.
    pub fn byte_len(&self) -> (n: usize)
        ensures
            n == self@.len(),
    {
        self.bytes.len()
    }

    /// The bytes themselves.
    pub fn as_bytes(&self) -> (r: &Vec<u8>)
        ensures
            r@ == self@,
    {
        &self.bytes
    }
}

impl Default for BoundedBytes {
    /// The empty byte string.
    fn default() -> (r: BoundedBytes)
        ensures
            r@ == Seq::<u8>::empty(),
            r.wf(),
    {
        BoundedBytes { bytes: Vec::new() }
    }
}

} // verus!
