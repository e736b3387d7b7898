//! Byte sequences padded on both ends so that a block may read past the end.
use vstd::prelude::*;
use crate::scores::Matrix;
use vstd::string::StringSliceAdditionalSpecFns;

verus! {

/// A converted byte sequence with one padding symbol before the start and
/// `block_size` padding symbols after the end.
#[derive(Clone, Debug, PartialEq, Eq)]
pub struct PaddedBytes {
    s: Vec<u8>,
    len: usize,
}

/// What a sequence becomes once padded: the converted padding symbol, the
/// converted bytes, then `pad` more converted padding symbols.
pub open spec fn padded_of<M: Matrix>(b: Seq<u8>, pad: nat) -> Seq<u8> {
    seq![M::convert_spec(M::null_spec())] + b.map_values(|c: u8| M::convert_spec(c)) + Seq::new(
        pad,
        |k: int| M::convert_spec(M::null_spec()),
    )
}

impl PaddedBytes {
    /// All stored symbols, padding included; index `p` in `1..=len` holds the
    /// `p`-th byte of the sequence.
    pub closed spec fn padded(&self) -> Seq<u8> {
        self.s@
    }

    /// Length of the sequence without padding.
    pub closed spec fn len_spec(&self) -> nat {
        self.len as nat
    }

    /// Creates a padded sequence from a byte slice.
    pub fn from_bytes<M: Matrix>(b: &[u8], block_size: usize) -> (r: PaddedBytes)
        requires
            b@.len() + block_size + 1 <= usize::MAX,
        ensures
            r.len_spec() == b@.len(),
            r.padded() == padded_of::<M>(b@, block_size as nat),
    {
        let null = M::convert_char(M::null());
        let mut v: Vec<u8> = Vec::new();
        v.push(null);
        let mut k: usize = 0;
        while k < b.len()
            invariant
                k <= b@.len(),
                v@ == seq![M::convert_spec(M::null_spec())] + b@.subrange(0, k as int).map_values(
                    |c: u8| M::convert_spec(c),
                ),
            decreases b@.len() - k,
        {
            let c = M::convert_char(b[k]);
            v.push(c);
            k += 1;
            assert(b@.subrange(0, k as int).map_values(|c: u8| M::convert_spec(c)) =~= b@.subrange(
                0,
                k - 1,
            ).map_values(|c: u8| M::convert_spec(c)).push(M::convert_spec(b@[k - 1])));
        }
        assert(b@.subrange(0, b@.len() as int) =~= b@);
        let ghost head = v@;
        let mut p: usize = 0;
        while p < block_size
            invariant
                p <= block_size,
                null == M::convert_spec(M::null_spec()),
                v@ == head + Seq::new(p as nat, |k: int| M::convert_spec(M::null_spec())),
            decreases block_size - p,
        {
            v.push(null);
            p += 1;
            assert(head + Seq::new(p as nat, |k: int| M::convert_spec(M::null_spec())) =~= head
                + Seq::new((p - 1) as nat, |k: int| M::convert_spec(M::null_spec())).push(null));
        }
        assert(v@ =~= padded_of::<M>(b@, block_size as nat));
        PaddedBytes { s: v, len: b.len() }
    }

    /// Creates a padded sequence from the bytes of a string slice.
    pub fn from_str<M: Matrix>(s: &str, block_size: usize) -> (r: PaddedBytes)
        requires
            s.spec_bytes().len() + block_size + 1 <= usize::MAX,
        ensures
            r.len_spec() == s.spec_bytes().len(),
            r.padded() == padded_of::<M>(s.spec_bytes(), block_size as nat),
    {
        Self::from_bytes::<M>(s.as_bytes(), block_size)
    }

    /// Creates a padded sequence from the bytes of a string.
    pub fn from_string<M: Matrix>(s: String, block_size: usize) -> (r: PaddedBytes)
        requires
            vstd::utf8::encode_utf8(s@).len() + block_size + 1 <= usize::MAX,
        ensures
            r.len_spec() == vstd::utf8::encode_utf8(s@).len(),
            r.padded() == padded_of::<M>(vstd::utf8::encode_utf8(s@), block_size as nat),
    {
        Self::from_bytes::<M>(s.as_str().as_bytes(), block_size)
    }

    /// The symbol at index `i` of the padded sequence.
    pub fn get(&self, i: usize) -> (r: u8)
        requires
            i < self.padded().len(),
        ensures
            r == self.padded()[i as int],
    {
        self.s[i]
    }

    /// Replaces the symbol at index `i` of the padded sequence.
    pub fn set(&mut self, i: usize, c: u8)
        requires
            i < old(self).padded().len(),
        ensures
            final(self).padded() == old(self).padded().update(i as int, c),
            final(self).len_spec() == old(self).len_spec(),
    {
        self.s.set(i, c);
    }

    /// Length of the sequence without padding.
    pub fn len(&self) -> (r: usize)
        ensures
            r == self.len_spec(),
    {
        self.len
    }

    /// Length of the sequence with its padding.
    pub fn padded_len(&self) -> (r: usize)
        ensures
            r == self.padded().len(),
    {
        self.s.len()
    }
}

} // verus!
