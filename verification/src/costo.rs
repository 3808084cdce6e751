//! Prices as binary64 bit patterns, and their order.

use vstd::prelude::*;

verus! {

/// The sign bit of a binary64 pattern.
pub const BIT_DE_SIGNO: u64 = 0x8000_0000_0000_0000;

/// The pattern of positive infinity: every exponent bit set, no fraction bit.
pub const BITS_INFINITO: u64 = 0x7ff0_0000_0000_0000;

/// The pattern of the largest finite binary64 number.
pub const BITS_MAXIMO: u64 = 0x7fef_ffff_ffff_ffff;

/// A price, held as the bit pattern of an IEEE 754 binary64 number: what
/// `to_bits` gives for the number, and what `from_bits` turns back into it.
///
/// Every pattern is a valid price: zeros of either sign, subnormal numbers,
/// infinities and NaNs included.
#[derive(Clone, Copy, Debug)]
pub struct Costo {
    pub bits: u64,
}

impl Costo {
    /// The pattern without its sign bit.
    pub open spec fn magnitud(self) -> int {
        (self.bits % BIT_DE_SIGNO) as int
    }

    /// Whether the sign bit is set.
    pub open spec fn es_negativo(self) -> bool {
        self.bits >= BIT_DE_SIGNO
    }

    /// Whether the pattern encodes a NaN: all exponent bits set and some
    /// fraction bit set.
    pub open spec fn es_nan(self) -> bool {
        self.magnitud() > BITS_INFINITO
    }

    /// Where the price stands on the number line.
    ///
    /// Binary64 is a sign-and-magnitude format whose magnitudes grow with
    /// their patterns, so two prices that are not NaN compare as their
    /// positions do. Both zeros stand at 0.
    pub open spec fn posicion(self) -> int {
        if self.es_negativo() {
            -self.magnitud()
        } else {
            self.magnitud()
        }
    }

    /// The IEEE 754 comparison `self < otro`: false whenever either side is a
    /// NaN.
    pub open spec fn menor(self, otro: Costo) -> bool {
        &&& !self.es_nan()
        &&& !otro.es_nan()
        &&& self.posicion() < otro.posicion()
    }

    /// The IEEE 754 comparison `self == otro`: false whenever either side is
    /// a NaN, true of two zeros whatever their signs.
    pub open spec fn igual(self, otro: Costo) -> bool {
        &&& !self.es_nan()
        &&& !otro.es_nan()
        &&& self.posicion() == otro.posicion()
    }

    /// The IEEE 754 comparison `self <= otro`.
    pub open spec fn menor_o_igual(self, otro: Costo) -> bool {
        self.menor(otro) || self.igual(otro)
    }

    /// The largest finite price.
    pub open spec fn maximo_spec() -> Costo {
        Costo { bits: BITS_MAXIMO }
    }

    /// The largest finite price.
    #[verifier::when_used_as_spec(maximo_spec)]
    pub fn maximo() -> (c: Costo)
        ensures
            c == Costo::maximo_spec(),
    {
        Costo { bits: BITS_MAXIMO }
    }

    /// Decides `self < otro` as IEEE 754 does.
    pub fn menor_que(&self, otro: &Costo) -> (r: bool)
        ensures
            r == self.menor(*otro),
    {
        let propia: u64 = self.bits % BIT_DE_SIGNO;
        let ajena: u64 = otro.bits % BIT_DE_SIGNO;
        if propia > BITS_INFINITO || ajena > BITS_INFINITO {
            false
        } else if self.bits >= BIT_DE_SIGNO {
            if otro.bits >= BIT_DE_SIGNO {
                propia > ajena
            } else {
                propia > 0 || ajena > 0
            }
        } else {
            otro.bits < BIT_DE_SIGNO && propia < ajena
        }
    }
}

} // verus!
