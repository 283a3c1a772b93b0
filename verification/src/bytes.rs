//! Byte sequences of a fixed size.

use vstd::prelude::*;

verus! {

/// The bytes as an array, if there are 32.
pub fn array_of_32(bytes: &Vec<u8>) -> (res: Option<[u8; 32]>)
    ensures
        match res {
            Some(array) => array@ == bytes@,
            None => bytes@.len() != 32,
        },
{
    if bytes.len() != 32 {
        return None;
    }
    let mut array: [u8; 32] = [0u8; 32];
    let mut i: usize = 0;
    while i < 32
        invariant
            i <= 32,
            bytes@.len() == 32,
            forall|k: int| 0 <= k < i ==> array@[k] == bytes@[k],
        decreases 32 - i,
    {
        array[i] = bytes[i];
        i += 1;
    }
    proof {
        assert(array@ =~= bytes@);
    }
    Some(array)
}

/// The bytes as an array, if there are 24.
pub fn array_of_24(bytes: &Vec<u8>) -> (res: Option<[u8; 24]>)
    ensures
        match res {
            Some(array) => array@ == bytes@,
            None => bytes@.len() != 24,
        },
{
    if bytes.len() != 24 {
        return None;
    }
    let mut array: [u8; 24] = [0u8; 24];
    let mut i: usize = 0;
    while i < 24
        invariant
            i <= 24,
            bytes@.len() == 24,
            forall|k: int| 0 <= k < i ==> array@[k] == bytes@[k],
        decreases 24 - i,
    {
        array[i] = bytes[i];
        i += 1;
    }
    proof {
        assert(array@ =~= bytes@);
    }
    Some(array)
}

/// A secret of 32 bytes. It is overwritten when it is dropped.
pub struct Secret([u8; 32]);

impl View for Secret {
    type V = Seq<u8>;

    closed spec fn view(&self) -> Seq<u8> {
        self.0@
    }
}

impl Secret {
    /// The secret with the given bytes.
    pub(crate) fn new(bytes: [u8; 32]) -> (res: Secret)
        ensures
            res@ == bytes@,
    {
        Secret(bytes)
    }

    /// The bytes of the secret.
    pub(crate) fn bytes(&self) -> (res: &[u8; 32])
        ensures
            res@ == self@,
    {
        &self.0
    }
}

impl Drop for Secret {
    fn drop(&mut self)
        ensures
            final(self)@ == Seq::new(32, |i: int| 0u8),
        opens_invariants none
        no_unwind
    {
        wipe(&mut self.0);
    }
}

/// Overwrites a secret with zeros.
pub(crate) fn wipe(secret: &mut [u8; 32])
    ensures
        final(secret)@ == Seq::new(32, |i: int| 0u8),
    opens_invariants none
    no_unwind
{
    let mut i: usize = 0;
    while i < 32
        invariant
            i <= 32,
            forall|k: int| 0 <= k < i ==> secret@[k] == 0u8,
        decreases 32 - i,
    {
        secret[i] = 0u8;
        i += 1;
    }
    proof {
        assert(secret@ =~= Seq::new(32, |i: int| 0u8));
    }
}

} // verus!
