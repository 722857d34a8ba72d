//! Per-frame byte memory with word-granular (32-byte) expansion accounting.
use vstd::prelude::*;

verus! {

/// `n` rounded up to a multiple of 32.
pub open spec fn ceil32(n: int) -> int {
    ((n + 31) / 32) * 32
}

/// Number of 32-byte words needed to cover `n` bytes.
pub open spec fn word_count(n: int) -> int {
    (n + 31) / 32
}

/// Rounding up to a word multiple never falls short of the length and adds
/// less than one word.
pub proof fn lemma_ceil32_ge(n: int)
    requires
        0 <= n,
    ensures
        n <= ceil32(n),
        ceil32(n) < n + 32,
{
    vstd::arithmetic::div_mod::lemma_fundamental_div_mod(n + 31, 32);
    vstd::arithmetic::div_mod::lemma_mod_bound(n + 31, 32);
}

/// The byte image of `m` extended with zeros so that it covers at least
/// `minimal` bytes, rounded up to whole words; never shorter than `m`.
pub open spec fn mem_extend(m: Seq<u8>, minimal: int) -> Seq<u8> {
    if ceil32(minimal) > m.len() {
        Seq::new(ceil32(minimal) as nat, |i: int| if i < m.len() { m[i] } else { 0u8 })
    } else {
        m
    }
}

/// `dst` with `src` written at position `at`; `dst` must already cover the
/// written range.
pub open spec fn mem_overwrite(dst: Seq<u8>, at: int, src: Seq<u8>) -> Seq<u8> {
    Seq::new(dst.len(), |i: int| if at <= i < at + src.len() { src[i - at] } else { dst[i] })
}

/// A call frame's byte-addressable memory. It grows monotonically in 32-byte
/// words during the frame's lifetime and never shrinks.
pub struct Memory {
    pub bytes: Vec<u8>,
}

impl View for Memory {
    type V = Seq<u8>;

    open spec fn view(&self) -> Seq<u8> {
        self.bytes@
    }
}

impl Clone for Memory {
    /// An independent copy with the same bytes.
    fn clone(&self) -> (r: Memory)
        ensures
            r@ == self@,
    {
        let mut bytes: Vec<u8> = Vec::new();
        let mut i: usize = 0;
        while i < self.bytes.len()
            invariant
                i <= self.bytes.len(),
                bytes@ == self.bytes@.subrange(0, i as int),
            decreases self.bytes.len() - i,
        {
            bytes.push(self.bytes[i]);
            i = i + 1;
        }
        proof {
            assert(bytes@ =~= self.bytes@);
        }
        Memory { bytes }
    }
}

impl Memory {
    /// An empty memory image.
    pub fn new() -> (r: Memory)
        ensures
            r@ == Seq::<u8>::empty(),
            r@.len() == 0,
    {
        Memory { bytes: Vec::new() }
    }

    /// Builds a memory image over the given bytes.
    pub fn from_bytes(bytes: Vec<u8>) -> (r: Memory)
        ensures
            r@ == bytes@,
    {
        Memory { bytes }
    }

    /// Byte length of the image.
    pub fn len(&self) -> (r: usize)
        ensures
            r == self@.len(),
    {
        self.bytes.len()
    }

    /// Number of 32-byte words the image covers.
    pub fn word_size(&self) -> (r: u64)
        requires
            self@.len() + 31 <= u64::MAX,
        ensures
            r == word_count(self@.len() as int),
    {
        ((self.bytes.len() as u64) + 31) / 32
    }

    /// Extends the image with zero bytes until it covers `minimal` bytes,
    /// rounded up to a whole number of 32-byte words. Never shrinks the image
    /// and never changes a byte already present.
    pub fn extend_at_least(&mut self, minimal: usize)
        requires
            minimal + 31 <= usize::MAX,
        ensures
            final(self)@ == mem_extend(old(self)@, minimal as int),
            final(self)@.len() >= old(self)@.len(),
            forall|i: int| 0 <= i < old(self)@.len() ==> final(self)@[i] == old(self)@[i],
    {
        let target: usize = ((minimal + 31) / 32) * 32;
        proof {
            assert(target == ceil32(minimal as int));
        }
        while self.bytes.len() < target
            invariant
                self.bytes@.len() >= old(self)@.len(),
                self.bytes@.len() <= target || self.bytes@.len() == old(self)@.len(),
                forall|i: int|
                    0 <= i < self.bytes@.len() ==> self.bytes@[i] == (if i < old(self)@.len() {
                        old(self)@[i]
                    } else {
                        0u8
                    }),
            decreases target - self.bytes.len(),
        {
            self.bytes.push(0u8);
        }
        proof {
            if ceil32(minimal as int) > old(self)@.len() {
                assert(self.bytes@ =~= mem_extend(old(self)@, minimal as int));
            } else {
                assert(self.bytes@ =~= old(self)@);
            }
        }
    }

    /// Reads the byte at `i`.
    pub fn get(&self, i: usize) -> (r: u8)
        requires
            i < self@.len(),
        ensures
            r == self@[i as int],
    {
        self.bytes[i]
    }

    /// Writes `len` bytes taken from `src` at `src_off` into the image at
    /// `at`; both ranges must already be covered.
    pub fn write_range(&mut self, at: usize, src: &Vec<u8>, src_off: usize, len: usize)
        requires
            at + len <= old(self)@.len(),
            src_off + len <= src@.len(),
        ensures
            final(self)@ == mem_overwrite(
                old(self)@,
                at as int,
                src@.subrange(src_off as int, src_off + len),
            ),
            final(self)@.len() == old(self)@.len(),
    {
        let src_len: usize = src.len();
        let dst_len: usize = self.bytes.len();
        let mut k: usize = 0;
        while k < len
            invariant
                k <= len,
                at + len <= dst_len,
                src_off + len <= src_len,
                src_len == src@.len(),
                dst_len == old(self)@.len(),
                self.bytes@.len() == old(self)@.len(),
                forall|i: int|
                    0 <= i < self.bytes@.len() ==> self.bytes@[i] == (if at <= i < at + k {
                        src@[i - at + src_off]
                    } else {
                        old(self)@[i]
                    }),
            decreases len - k,
        {
            let b: u8 = src[src_off + k];
            set_byte(&mut self.bytes, at + k, b);
            k = k + 1;
        }
        proof {
            assert(self.bytes@ =~= mem_overwrite(
                old(self)@,
                at as int,
                src@.subrange(src_off as int, src_off + len),
            ));
        }
    }
}

/// An independent copy of `len` bytes of `src` starting at `off`.
pub fn bytes_slice(src: &Vec<u8>, off: usize, len: usize) -> (r: Vec<u8>)
    requires
        off + len <= src@.len(),
    ensures
        r@ == src@.subrange(off as int, off + len),
{
    let src_len: usize = src.len();
    let mut r: Vec<u8> = Vec::new();
    let mut k: usize = 0;
    while k < len
        invariant
            k <= len,
            off + len <= src_len,
            src_len == src@.len(),
            r@ == src@.subrange(off as int, off + k),
        decreases len - k,
    {
        r.push(src[off + k]);
        proof {
            assert(r@ =~= src@.subrange(off as int, off + k + 1));
        }
        k = k + 1;
    }
    r
}

/// Stores one byte of a buffer.
fn set_byte(v: &mut Vec<u8>, i: usize, b: u8)
    requires
        i < old(v)@.len(),
    ensures
        final(v)@ == old(v)@.update(i as int, b),
{
    let r = &mut v[i];
    *r = b;
}

} // verus!
