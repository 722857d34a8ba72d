//! 256-bit EVM words, held as two 128-bit limbs.
use vstd::prelude::*;

verus! {

/// Base of the high limb: 2^128.
pub open spec fn limb_base() -> int {
    0x100000000000000000000000000000000int
}

/// 2^256, the modulus of word arithmetic.
pub open spec fn word_modulus() -> nat {
    0x10000000000000000000000000000000000000000000000000000000000000000nat
}

/// A 256-bit EVM word. `hi` carries bits 128..256, `lo` bits 0..128.
#[derive(Clone, Copy, PartialEq, Eq, Structural, Debug)]
pub struct Word {
    pub hi: u128,
    pub lo: u128,
}

/// The word whose value is `x`.
pub open spec fn word64(x: u64) -> Word {
    Word { hi: 0, lo: x as u128 }
}

/// 0 for `false`, 1 for `true`, as a word.
pub open spec fn word_bool(b: bool) -> Word {
    Word { hi: 0, lo: if b { 1 } else { 0 } }
}

/// The zero word.
pub open spec fn word_zero() -> Word {
    Word { hi: 0, lo: 0 }
}

/// A word truncated to its low 160 bits: an account address.
pub open spec fn addr_of(w: Word) -> Word {
    Word { hi: w.hi % 0x100000000, lo: w.lo }
}

/// Keccak-256 hash of the empty byte string, the code hash of an account
/// without code.
pub open spec fn empty_code_hash() -> Word {
    Word { hi: 0xc5d2460186f7233c927e7db2dcc703c0, lo: 0xe500b653ca82273b7bfad8045d85a456 }
}

/// `a - b` limb by limb, defined when `b <= a`.
pub open spec fn spec_word_sub(a: Word, b: Word) -> Word {
    if a.lo >= b.lo {
        Word { hi: (a.hi - b.hi) as u128, lo: (a.lo - b.lo) as u128 }
    } else {
        Word { hi: (a.hi - b.hi - 1) as u128, lo: ((u128::MAX - b.lo) + a.lo + 1) as u128 }
    }
}

/// `a + b` limb by limb, defined when the sum fits in 256 bits.
pub open spec fn spec_word_add(a: Word, b: Word) -> Word {
    if a.lo > u128::MAX - b.lo {
        Word { hi: (a.hi + b.hi + 1) as u128, lo: (a.lo - (u128::MAX - b.lo) - 1) as u128 }
    } else {
        Word { hi: (a.hi + b.hi) as u128, lo: (a.lo + b.lo) as u128 }
    }
}

impl Word {
    /// The numeric value of the word.
    pub open spec fn as_nat(self) -> nat {
        (self.hi as nat) * 0x100000000000000000000000000000000 + (self.lo as nat)
    }

    /// Whether the value fits in a `u64`.
    pub open spec fn spec_fits_u64(self) -> bool {
        self.hi == 0 && self.lo <= u64::MAX
    }

    /// Builds the word with value `x`.
    pub fn from_u64(x: u64) -> (r: Word)
        ensures
            r == word64(x),
            r.as_nat() == x as nat,
    {
        Word { hi: 0, lo: x as u128 }
    }

    /// Builds 0 for `false`, 1 for `true`.
    pub fn from_bool(b: bool) -> (r: Word)
        ensures
            r == word_bool(b),
    {
        Word { hi: 0, lo: if b { 1 } else { 0 } }
    }

    /// The zero word.
    pub fn zero() -> (r: Word)
        ensures
            r == word_zero(),
            r.as_nat() == 0,
    {
        Word { hi: 0, lo: 0 }
    }

    /// Whether the value is zero.
    pub fn is_zero(&self) -> (r: bool)
        ensures
            r <==> self.as_nat() == 0,
    {
        self.hi == 0 && self.lo == 0
    }

    /// Whether the value fits in a `u64`; the gas operand of CALL is
    /// interpreted through this test.
    pub fn fits_u64(&self) -> (r: bool)
        ensures
            r <==> self.spec_fits_u64(),
            r <==> self.as_nat() <= u64::MAX,
    {
        self.hi == 0 && self.lo <= u64::MAX as u128
    }

    /// The low 64 bits, meaningful when the value fits in a `u64`.
    pub fn to_u64(&self) -> (r: u64)
        requires
            self.spec_fits_u64(),
        ensures
            r as nat == self.as_nat(),
            word64(r) == *self,
    {
        self.lo as u64
    }

    /// The address the word designates: its low 160 bits.
    pub fn to_address(&self) -> (r: Word)
        ensures
            r == addr_of(*self),
    {
        Word { hi: self.hi % 0x100000000, lo: self.lo }
    }

    /// `self - other`, defined when no underflow occurs.
    pub fn sub(&self, other: &Word) -> (r: Word)
        requires
            other.as_nat() <= self.as_nat(),
        ensures
            r == spec_word_sub(*self, *other),
            r.as_nat() == self.as_nat() - other.as_nat(),
    {
        if self.lo >= other.lo {
            Word { hi: self.hi - other.hi, lo: self.lo - other.lo }
        } else {
            Word { hi: self.hi - other.hi - 1, lo: (u128::MAX - other.lo) + self.lo + 1 }
        }
    }

    /// `self + other` when the sum still fits in 256 bits, else `None`.
    pub fn checked_add(&self, other: &Word) -> (r: Option<Word>)
        ensures
            match r {
                Some(w) => w == spec_word_add(*self, *other) && w.as_nat() == self.as_nat()
                    + other.as_nat(),
                None => self.as_nat() + other.as_nat() >= word_modulus(),
            },
    {
        let carry: bool = self.lo > u128::MAX - other.lo;
        let lo: u128 = if carry {
            self.lo - (u128::MAX - other.lo) - 1
        } else {
            self.lo + other.lo
        };
        let hi_extra: u128 = if carry { 1 } else { 0 };
        if self.hi > u128::MAX - other.hi || (carry && self.hi + other.hi == u128::MAX) {
            None
        } else {
            Some(Word { hi: self.hi + other.hi + hi_extra, lo })
        }
    }

    /// Whether `self >= other`.
    pub fn ge(&self, other: &Word) -> (r: bool)
        ensures
            r <==> self.as_nat() >= other.as_nat(),
    {
        self.hi > other.hi || (self.hi == other.hi && self.lo >= other.lo)
    }
}

/// The canonical code hash of empty code, for classifying call targets.
pub fn make_empty_code_hash() -> (r: Word)
    ensures
        r == empty_code_hash(),
{
    Word { hi: 0xc5d2460186f7233c927e7db2dcc703c0, lo: 0xe500b653ca82273b7bfad8045d85a456 }
}

} // verus!
