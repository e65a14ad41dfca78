//! Owned zero-terminated byte strings.
use crate::text::find_nul;
use vstd::prelude::*;
use vstd::slice::{slice_subrange, slice_to_vec};

verus! {

/// `bytes` end in a zero byte and hold no other.
pub open spec fn is_terminated(bytes: Seq<u8>) -> bool {
    &&& bytes.len() > 0
    &&& bytes.last() == 0
    &&& !bytes.drop_last().contains(0u8)
}

/// An owned byte string without zero bytes, stored with a terminating zero.
#[derive(Debug, PartialEq, Eq)]
pub struct CString {
    inner: Vec<u8>,
}

impl View for CString {
    type V = Seq<u8>;

    /// The bytes of the string, without the terminator.
    closed spec fn view(&self) -> Seq<u8> {
        self.inner@.drop_last()
    }
}

impl Clone for CString {
    fn clone(&self) -> (copy: Self)
        ensures
            copy@ == self@,
    {
        proof {
            use_type_invariant(self);
        }
        CString { inner: slice_to_vec(self.inner.as_slice()) }
    }
}

impl CString {
    #[verifier::type_invariant]
    spec fn terminated(&self) -> bool {
        is_terminated(self.inner@)
    }

    /// The string that `bytes` hold, if they end in their only zero byte.
    pub fn from_bytes_with_nul(bytes: &[u8]) -> (r: Option<CString>)
        ensures
            match r {
                Some(string) => is_terminated(bytes@) && string@.push(0) == bytes@,
                None => !is_terminated(bytes@),
            },
    {
        match find_nul(bytes) {
            Some(n) => {
                if n == bytes.len() - 1 {
                    Some(CString { inner: slice_to_vec(bytes) })
                } else {
                    assert(bytes@.drop_last()[n as int] == 0);
                    None
                }
            },
            None => None,
        }
    }

    /// The bytes of the string, without the terminator.
    pub fn as_bytes(&self) -> (bytes: &[u8])
        ensures
            bytes@ == self@,
            !bytes@.contains(0u8),
    {
        proof {
            use_type_invariant(self);
        }
        slice_subrange(self.inner.as_slice(), 0, self.inner.len() - 1)
    }

    /// The bytes of the string, with the terminator.
    pub fn as_bytes_with_nul(&self) -> (bytes: &[u8])
        ensures
            bytes@ == self@.push(0),
            is_terminated(bytes@),
    {
        proof {
            use_type_invariant(self);
        }
        self.inner.as_slice()
    }
}

} // verus!
