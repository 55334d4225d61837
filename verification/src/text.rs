//! Byte-preserving conversion between an owned string-like value and its raw
//! bytes. Process arguments are platform-native byte sequences that need not
//! be valid text, so every conversion on this boundary must keep each byte as
//! it is — never a lossy re-encoding.

use vstd::prelude::*;

verus! {

/// An owned value that converts to and from its raw bytes without loss.
pub trait OwnedByteConversion: Sized {
    /// The bytes this value stands for.
    spec fn byte_view(&self) -> Seq<u8>;

    /// Convert this data into a `Vec` of bytes.
    fn into_vec(self) -> (v: Vec<u8>)
        ensures
            v@ == self.byte_view(),
    ;

    /// Convert a `Vec` of bytes into an instance of this string.
    fn from_vec(vec: Vec<u8>) -> (r: Self)
        ensures
            r.byte_view() == vec@,
    ;
}

} // verus!
