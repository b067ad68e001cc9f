use vstd::prelude::*;

verus! {

/// An unsigned integer type that can serve as one memory cell of the machine.
///
/// A cell holds a value in `0 .. modulus()`; increments and decrements wrap
/// around modulo `modulus()`.
pub trait BrainfuckCell: Copy + Sized {
    /// The number of distinct values a cell of this type can hold.
    spec fn modulus() -> nat;

    /// The numeric value held by the cell.
    spec fn value(&self) -> nat;

    /// Every cell value lies below the modulus, and the modulus is large
    /// enough to hold any byte.
    proof fn lemma_value_bounds(c: Self)
        ensures
            256 <= Self::modulus(),
            c.value() < Self::modulus(),
    ;

    /// The zero cell.
    fn zero() -> (r: Self)
        ensures
            r.value() == 0,
    ;

    /// A byte widened to the cell type.
    fn from_byte(b: u8) -> (r: Self)
        ensures
            r.value() == b as nat,
    ;

    /// Whether the cell holds zero.
    fn is_zero(&self) -> (r: bool)
        ensures
            r == (self.value() == 0),
    ;

    /// The value plus one, wrapping at the modulus.
    fn wrapping_incr(&self) -> (r: Self)
        ensures
            r.value() == (self.value() as int + 1) % (Self::modulus() as int),
    ;

    /// The value minus one, wrapping at the modulus.
    fn wrapping_decr(&self) -> (r: Self)
        ensures
            r.value() == (self.value() as int - 1) % (Self::modulus() as int),
    ;

    /// The value as a 32-bit code point candidate, if it fits in 32 bits.
    fn to_u32(&self) -> (r: Option<u32>)
        ensures
            r == (if self.value() <= u32::MAX as nat {
                Some(self.value() as u32)
            } else {
                None
            }),
    ;
}

/// Stepping by one modulo `m` wraps only at the ends of `0 .. m`.
proof fn lemma_wrapping_step(v: int, m: int)
    requires
        0 <= v < m,
    ensures
        (v + 1) % m == (if v + 1 == m { 0 } else { v + 1 }),
        (v - 1) % m == (if v == 0 { m - 1 } else { v - 1 }),
{
    assert((v + 1) % m == (if v + 1 == m { 0 } else { v + 1 })) by (nonlinear_arith)
        requires
            0 <= v < m,
    ;
    assert((v - 1) % m == (if v == 0 { m - 1 } else { v - 1 })) by (nonlinear_arith)
        requires
            0 <= v < m,
    ;
}

impl BrainfuckCell for u8 {
    open spec fn modulus() -> nat {
        0x100
    }

    open spec fn value(&self) -> nat {
        *self as nat
    }

    proof fn lemma_value_bounds(c: Self) {
    }

    fn zero() -> (r: Self) {
        0
    }

    fn from_byte(b: u8) -> (r: Self) {
        b
    }

    fn is_zero(&self) -> (r: bool) {
        *self == 0
    }

    fn wrapping_incr(&self) -> (r: Self) {
        proof {
            lemma_wrapping_step(*self as int, Self::modulus() as int);
        }
        self.wrapping_add(1)
    }

    fn wrapping_decr(&self) -> (r: Self) {
        proof {
            lemma_wrapping_step(*self as int, Self::modulus() as int);
        }
        self.wrapping_sub(1)
    }

    fn to_u32(&self) -> (r: Option<u32>) {
        Some(*self as u32)
    }
}

impl BrainfuckCell for u16 {
    open spec fn modulus() -> nat {
        u16::MAX as nat + 1
    }

    open spec fn value(&self) -> nat {
        *self as nat
    }

    proof fn lemma_value_bounds(c: Self) {
    }

    fn zero() -> (r: Self) {
        0
    }

    fn from_byte(b: u8) -> (r: Self) {
        b as u16
    }

    fn is_zero(&self) -> (r: bool) {
        *self == 0
    }

    fn wrapping_incr(&self) -> (r: Self) {
        proof {
            lemma_wrapping_step(*self as int, Self::modulus() as int);
        }
        self.wrapping_add(1)
    }

    fn wrapping_decr(&self) -> (r: Self) {
        proof {
            lemma_wrapping_step(*self as int, Self::modulus() as int);
        }
        self.wrapping_sub(1)
    }

    fn to_u32(&self) -> (r: Option<u32>) {
        Some(*self as u32)
    }
}

impl BrainfuckCell for u32 {
    open spec fn modulus() -> nat {
        u32::MAX as nat + 1
    }

    open spec fn value(&self) -> nat {
        *self as nat
    }

    proof fn lemma_value_bounds(c: Self) {
    }

    fn zero() -> (r: Self) {
        0
    }

    fn from_byte(b: u8) -> (r: Self) {
        b as u32
    }

    fn is_zero(&self) -> (r: bool) {
        *self == 0
    }

    fn wrapping_incr(&self) -> (r: Self) {
        proof {
            lemma_wrapping_step(*self as int, Self::modulus() as int);
        }
        self.wrapping_add(1)
    }

    fn wrapping_decr(&self) -> (r: Self) {
        proof {
            lemma_wrapping_step(*self as int, Self::modulus() as int);
        }
        self.wrapping_sub(1)
    }

    fn to_u32(&self) -> (r: Option<u32>) {
        Some(*self as u32)
    }
}

impl BrainfuckCell for u64 {
    open spec fn modulus() -> nat {
        u64::MAX as nat + 1
    }

    open spec fn value(&self) -> nat {
        *self as nat
    }

    proof fn lemma_value_bounds(c: Self) {
    }

    fn zero() -> (r: Self) {
        0
    }

    fn from_byte(b: u8) -> (r: Self) {
        b as u64
    }

    fn is_zero(&self) -> (r: bool) {
        *self == 0
    }

    fn wrapping_incr(&self) -> (r: Self) {
        proof {
            lemma_wrapping_step(*self as int, Self::modulus() as int);
        }
        self.wrapping_add(1)
    }

    fn wrapping_decr(&self) -> (r: Self) {
        proof {
            lemma_wrapping_step(*self as int, Self::modulus() as int);
        }
        self.wrapping_sub(1)
    }

    fn to_u32(&self) -> (r: Option<u32>) {
        if *self <= 0xFFFF_FFFF {
            Some(*self as u32)
        } else {
            None
        }
    }
}

impl BrainfuckCell for u128 {
    open spec fn modulus() -> nat {
        u128::MAX as nat + 1
    }

    open spec fn value(&self) -> nat {
        *self as nat
    }

    proof fn lemma_value_bounds(c: Self) {
    }

    fn zero() -> (r: Self) {
        0
    }

    fn from_byte(b: u8) -> (r: Self) {
        b as u128
    }

    fn is_zero(&self) -> (r: bool) {
        *self == 0
    }

    fn wrapping_incr(&self) -> (r: Self) {
        proof {
            lemma_wrapping_step(*self as int, Self::modulus() as int);
        }
        self.wrapping_add(1)
    }

    fn wrapping_decr(&self) -> (r: Self) {
        proof {
            lemma_wrapping_step(*self as int, Self::modulus() as int);
        }
        self.wrapping_sub(1)
    }

    fn to_u32(&self) -> (r: Option<u32>) {
        if *self <= 0xFFFF_FFFF {
            Some(*self as u32)
        } else {
            None
        }
    }
}

} // verus!
