//! Structural hashing: every hashed value is first laid out as bytes, and the
//! bytes are fed to the standard library's default hasher in one write.

use core::hash::Hasher;
use std::collections::hash_map::DefaultHasher;
use vstd::bytes::{spec_u64_to_le_bytes, u64_to_le_bytes};
use vstd::prelude::*;
use vstd::std_specs::hash::DefaultHasherAdditionalSpecFns;

verus! {

/// The hash of a byte string: what the default hasher returns after one
/// write of `bytes`.
pub open spec fn spec_hash(bytes: Seq<u8>) -> u64 {
    DefaultHasher::spec_finish(seq![bytes])
}

/// A value with a byte layout that the hasher can be fed.
pub trait Encode {
    /// The bytes that stand for this value.
    spec fn encoding(&self) -> Seq<u8>;

    /// Appends the bytes of this value to `out`.
    fn encode(&self, out: &mut Vec<u8>)
        ensures
            final(out)@ == old(out)@ + self.encoding(),
    ;
}

/// A value whose bytes depend on its view alone, so that what is known of
/// the view settles the hash.
pub trait EncodeView: Encode + View {
    /// The bytes of a value with the view `view`.
    spec fn encoding_of(view: Self::V) -> Seq<u8>;

    /// The bytes of a value are those of its view.
    proof fn lemma_encoding_of_view(&self)
        ensures
            self.encoding() == Self::encoding_of(self@),
    ;
}

impl Encode for u64 {
    open spec fn encoding(&self) -> Seq<u8> {
        spec_u64_to_le_bytes(*self)
    }

    fn encode(&self, out: &mut Vec<u8>) {
        let mut bytes = u64_to_le_bytes(*self);
        out.append(&mut bytes);
    }
}

impl Encode for u8 {
    open spec fn encoding(&self) -> Seq<u8> {
        seq![*self]
    }

    fn encode(&self, out: &mut Vec<u8>) {
        out.push(*self);
        assert(out@ == old(out)@ + seq![*self]);
    }
}

impl Encode for usize {
    open spec fn encoding(&self) -> Seq<u8> {
        spec_u64_to_le_bytes(*self as u64)
    }

    fn encode(&self, out: &mut Vec<u8>) {
        let wide: u64 = *self as u64;
        let mut bytes = u64_to_le_bytes(wide);
        out.append(&mut bytes);
        assert(out@ == old(out)@ + spec_u64_to_le_bytes(wide));
        assert(self.encoding() == spec_u64_to_le_bytes(wide));
    }
}

impl<T: Encode> Encode for Option<T> {
    /// A byte that tells whether a value is there, then the value.
    open spec fn encoding(&self) -> Seq<u8> {
        match self {
            None => seq![0u8],
            Some(value) => seq![1u8] + value.encoding(),
        }
    }

    fn encode(&self, out: &mut Vec<u8>) {
        match self {
            None => {
                out.push(0);
                assert(out@ == old(out)@ + seq![0u8]);
            },
            Some(value) => {
                out.push(1);
                assert(out@ == old(out)@ + seq![1u8]);
                value.encode(out);
                assert(out@ == old(out)@ + (seq![1u8] + value.encoding()));
            },
        }
    }
}

/// The bytes of a run of values: those of each value, one after the other.
pub open spec fn encoding_of_all<T: Encode>(items: Seq<T>) -> Seq<u8>
    decreases items.len(),
{
    if items.len() == 0 {
        Seq::empty()
    } else {
        encoding_of_all(items.drop_last()) + items.last().encoding()
    }
}

/// The bytes of a vector that holds `items`: their number, then the items
/// in order.
pub open spec fn encoding_of_items<T: Encode>(items: Seq<T>) -> Seq<u8> {
    spec_u64_to_le_bytes(items.len() as u64) + encoding_of_all(items)
}

impl<T: Encode> Encode for Vec<T> {
    open spec fn encoding(&self) -> Seq<u8> {
        encoding_of_items(self@)
    }

    fn encode(&self, out: &mut Vec<u8>) {
        self.len().encode(out);
        let mut i: usize = 0;
        while i < self.len()
            invariant
                i <= self.len(),
                out@ == old(out)@ + spec_u64_to_le_bytes(self@.len() as u64) + encoding_of_all(
                    self@.take(i as int),
                ),
            decreases self.len() - i,
        {
            self[i].encode(out);
            proof {
                let done = self@.take(i as int);
                let next = self@.take(i + 1);
                assert(next.drop_last() == done);
                assert(next.last() == self@[i as int]);
            }
            i += 1;
        }
        assert(self@.take(i as int) == self@);
    }
}

/// Hashes a value by its byte layout.
pub fn hash<T: Encode>(t: &T) -> (h: u64)
    ensures
        h == spec_hash(t.encoding()),
{
    let mut bytes: Vec<u8> = Vec::new();
    t.encode(&mut bytes);
    let mut state = DefaultHasher::new();
    state.write(bytes.as_slice());
    assert(bytes@ == t.encoding());
    assert(state@ == seq![t.encoding()]);
    state.finish()
}

} // verus!
