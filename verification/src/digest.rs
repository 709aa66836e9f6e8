//! Digests of file contents.
//!
//! The digest is BLAKE3, computed by the `blake3` crate. What the crate
//! computes is not proved here: the digest of a sequence of bytes is a name
//! without a definition, and the calls into the crate are believed to return
//! it. What is proved is that the bytes are fed in the order in which they
//! are handed over, whatever the chunks are, and that the digest is written
//! in hexadecimal digits.

use crate::text::text_of;
use vstd::prelude::*;

verus! {

/// `blake3::Hasher`, the state of a digest in the making. Nothing is known
/// of what it holds but what the names below say of it.
#[verifier::external_type_specification]
#[verifier::external_body]
pub struct ExHasher(blake3::Hasher);

/// The bytes that a hasher has been fed since it was made.
pub uninterp spec fn hasher_input(h: blake3::Hasher) -> Seq<u8>;

/// Whether a hasher is one for the regular hash function that starts at
/// the beginning of its input, as `blake3::Hasher::new` makes it.
pub uninterp spec fn hasher_is_plain(h: blake3::Hasher) -> bool;

/// The BLAKE3 digest of `data`: 32 bytes.
pub uninterp spec fn blake3_digest(data: Seq<u8>) -> Seq<u8>;

/// The hexadecimal digit for `n`, for `n` from 0 to 15, in lower case.
pub open spec fn hex_digit(n: int) -> char {
    if n == 0 {
        '0'
    } else if n == 1 {
        '1'
    } else if n == 2 {
        '2'
    } else if n == 3 {
        '3'
    } else if n == 4 {
        '4'
    } else if n == 5 {
        '5'
    } else if n == 6 {
        '6'
    } else if n == 7 {
        '7'
    } else if n == 8 {
        '8'
    } else if n == 9 {
        '9'
    } else if n == 10 {
        'a'
    } else if n == 11 {
        'b'
    } else if n == 12 {
        'c'
    } else if n == 13 {
        'd'
    } else if n == 14 {
        'e'
    } else {
        'f'
    }
}

/// The bytes written in hexadecimal, two digits in lower case for each.
pub open spec fn hex_lower(bytes: Seq<u8>) -> Seq<char>
    decreases bytes.len(),
{
    if bytes.len() == 0 {
        Seq::empty()
    } else {
        hex_lower(bytes.drop_last()) + seq![
            hex_digit(bytes.last() as int / 16),
            hex_digit(bytes.last() as int % 16),
        ]
    }
}

/// The BLAKE3 digest of `data`, written in hexadecimal digits in lower
/// case.
pub open spec fn blake3_hex(data: Seq<u8>) -> Seq<char> {
    hex_lower(blake3_digest(data))
}

/// `blake3::Hasher::new`: a hasher for the regular hash function that has
/// been fed nothing.
#[verifier::external_body]
fn hasher_new() -> (h: blake3::Hasher)
    ensures
        hasher_is_plain(h),
        hasher_input(h) == Seq::<u8>::empty(),
{
    blake3::Hasher::new()
}

/// `blake3::Hasher::update`: feeds the bytes of `chunk` to the hasher,
/// behind those that it has been fed before. The hasher counts its input in
/// 64 bits, so the whole input must stay within them.
#[verifier::external_body]
fn hasher_update(h: &mut blake3::Hasher, chunk: &[u8])
    requires
        hasher_is_plain(*old(h)),
        hasher_input(*old(h)).len() + chunk@.len() <= u64::MAX,
    ensures
        hasher_is_plain(*final(h)),
        hasher_input(*final(h)) == hasher_input(*old(h)) + chunk@,
{
    h.update(chunk);
}

/// `blake3::Hasher::finalize`: the digest of all that the hasher has been
/// fed, as its bytes. A hasher that was not made to start at the beginning
/// of its input refuses to finalize.
#[verifier::external_body]
fn hasher_finalize(h: &blake3::Hasher) -> (r: Vec<u8>)
    requires
        hasher_is_plain(*h),
    ensures
        r@ == blake3_digest(hasher_input(*h)),
{
    h.finalize().as_bytes().to_vec()
}

fn hex_digit_of(n: u8) -> (c: char)
    requires
        n < 16,
    ensures
        c == hex_digit(n as int),
{
    if n == 0 {
        '0'
    } else if n == 1 {
        '1'
    } else if n == 2 {
        '2'
    } else if n == 3 {
        '3'
    } else if n == 4 {
        '4'
    } else if n == 5 {
        '5'
    } else if n == 6 {
        '6'
    } else if n == 7 {
        '7'
    } else if n == 8 {
        '8'
    } else if n == 9 {
        '9'
    } else if n == 10 {
        'a'
    } else if n == 11 {
        'b'
    } else if n == 12 {
        'c'
    } else if n == 13 {
        'd'
    } else if n == 14 {
        'e'
    } else {
        'f'
    }
}

/// The bytes written in hexadecimal digits in lower case.
pub fn to_hex(bytes: &Vec<u8>) -> (r: String)
    ensures
        r@ == hex_lower(bytes@),
{
    let mut out: Vec<char> = Vec::new();
    let mut i: usize = 0;
    assert(bytes@.take(0) == Seq::<u8>::empty());
    while i < bytes.len()
        invariant
            i <= bytes.len(),
            out@ == hex_lower(bytes@.take(i as int)),
        decreases bytes.len() - i,
    {
        let b = bytes[i];
        proof {
            assert(bytes@.take(i + 1).drop_last() == bytes@.take(i as int));
            assert(bytes@.take(i + 1).last() == b);
        }
        let ghost before = out@;
        out.push(hex_digit_of(b / 16));
        out.push(hex_digit_of(b % 16));
        assert(out@ == before + seq![hex_digit(b as int / 16), hex_digit(b as int % 16)]);
        i += 1;
    }
    assert(bytes@.take(bytes.len() as int) == bytes@);
    text_of(&out)
}

/// Computes the digest of contents that arrive in chunks.
pub struct ContentHasher {
    hasher: blake3::Hasher,
    fed: u64,
    overflowed: bool,
}

impl ContentHasher {
    /// The hasher is as `new` and `feed` leave it.
    pub closed spec fn well_formed(&self) -> bool {
        &&& hasher_is_plain(self.hasher)
        &&& hasher_input(self.hasher).len() == self.fed
    }

    /// The bytes taken in so far.
    pub closed spec fn content(&self) -> Seq<u8> {
        hasher_input(self.hasher)
    }

    /// Whether more bytes were handed over than a digest can be taken of.
    pub closed spec fn overfull(&self) -> bool {
        self.overflowed
    }

    /// A hasher that has taken in nothing.
    pub fn new() -> (r: Self)
        ensures
            r.well_formed(),
            r.content() == Seq::<u8>::empty(),
            !r.overfull(),
    {
        ContentHasher { hasher: hasher_new(), fed: 0, overflowed: false }
    }

    /// Takes in the next chunk of the contents. Contents of 2^64 bytes or
    /// more are beyond the digest: from the chunk that would reach them on,
    /// nothing is taken in.
    pub fn feed(&mut self, chunk: &[u8])
        requires
            old(self).well_formed(),
        ensures
            final(self).well_formed(),
            final(self).overfull() == (old(self).overfull() || old(self).content().len()
                + chunk@.len() > u64::MAX),
            final(self).content() == if final(self).overfull() {
                old(self).content()
            } else {
                old(self).content() + chunk@
            },
    {
        if self.overflowed {
            return ;
        }
        let n = chunk.len() as u64;
        if n > u64::MAX - self.fed {
            self.overflowed = true;
            return ;
        }
        hasher_update(&mut self.hasher, chunk);
        self.fed = self.fed + n;
    }

    /// The digest of all that was taken in; none where that was too much.
    pub fn finish(&self) -> (r: Option<String>)
        requires
            self.well_formed(),
        ensures
            match r {
                Some(hex) => !self.overfull() && self.content().len() <= u64::MAX && hex@
                    == blake3_hex(self.content()),
                None => self.overfull(),
            },
    {
        if self.overflowed {
            None
        } else {
            Some(to_hex(&hasher_finalize(&self.hasher)))
        }
    }
}

/// The bytes of the chunks one after the other.
pub open spec fn joined(chunks: Seq<Vec<u8>>) -> Seq<u8>
    decreases chunks.len(),
{
    if chunks.len() == 0 {
        Seq::empty()
    } else {
        joined(chunks.drop_last()) + chunks.last()@
    }
}

/// The digest of contents that were read in `chunks`: that of their bytes
/// one after the other, however they were cut. None where the contents hold
/// 2^64 bytes or more.
pub fn hash_chunks(chunks: &Vec<Vec<u8>>) -> (r: Option<String>)
    ensures
        match r {
            Some(hex) => hex@ == blake3_hex(joined(chunks@)),
            None => joined(chunks@).len() > u64::MAX,
        },
{
    let mut hasher = ContentHasher::new();
    let mut i: usize = 0;
    assert(chunks@.take(0) == Seq::<Vec<u8>>::empty());
    while i < chunks.len()
        invariant
            i <= chunks.len(),
            hasher.well_formed(),
            !hasher.overfull(),
            hasher.content() == joined(chunks@.take(i as int)),
        decreases chunks.len() - i,
    {
        proof {
            assert(chunks@.take(i + 1).drop_last() == chunks@.take(i as int));
            assert(chunks@.take(i + 1).last() == chunks@[i as int]);
        }
        hasher.feed(chunks[i].as_slice());
        if hasher.finish().is_none() {
            proof {
                lemma_joined_grows(chunks@, i + 1);
            }
            return None;
        }
        i += 1;
    }
    assert(chunks@.take(chunks.len() as int) == chunks@);
    hasher.finish()
}

/// More chunks make the joined bytes no shorter.
pub proof fn lemma_joined_grows(chunks: Seq<Vec<u8>>, n: int)
    requires
        0 <= n <= chunks.len(),
    ensures
        joined(chunks.take(n)).len() <= joined(chunks).len(),
    decreases chunks.len() - n,
{
    if n < chunks.len() {
        lemma_joined_grows(chunks, n + 1);
        assert(chunks.take(n + 1).drop_last() == chunks.take(n));
    } else {
        assert(chunks.take(n) == chunks);
    }
}

} // verus!
