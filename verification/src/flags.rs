//! The two registers of the chip that are sets of flags: the mixer settings
//! and the envelope shape. Each is a set of named flags with a raw byte, one
//! bit per flag.

use vstd::prelude::*;

verus! {

/// A flag of the mixer register.
#[derive(Debug, Clone, Copy, PartialEq, Eq)]
pub enum MixerFlag {
    /// Keep the tone generator out of channel A.
    DisableToneA,
    /// Keep the tone generator out of channel B.
    DisableToneB,
    /// Keep the tone generator out of channel C.
    DisableToneC,
    /// Keep the noise generator out of channel A.
    DisableNoiseA,
    /// Keep the noise generator out of channel B.
    DisableNoiseB,
    /// Keep the noise generator out of channel C.
    DisableNoiseC,
    /// Make I/O port A an output.
    OutputIOA,
    /// Make I/O port B an output.
    OutputIOB,
}

impl MixerFlag {
    /// The bit of the mixer register that stands for the flag.
    pub open spec fn mask(self) -> u8 {
        match self {
            MixerFlag::DisableToneA => 0b0000_0001,
            MixerFlag::DisableToneB => 0b0000_0010,
            MixerFlag::DisableToneC => 0b0000_0100,
            MixerFlag::DisableNoiseA => 0b0000_1000,
            MixerFlag::DisableNoiseB => 0b0001_0000,
            MixerFlag::DisableNoiseC => 0b0010_0000,
            MixerFlag::OutputIOA => 0b0100_0000,
            MixerFlag::OutputIOB => 0b1000_0000,
        }
    }

    /// The bit of the mixer register that stands for the flag.
    pub fn bits(self) -> (r: u8)
        ensures
            r == self.mask(),
    {
        match self {
            MixerFlag::DisableToneA => 0b0000_0001,
            MixerFlag::DisableToneB => 0b0000_0010,
            MixerFlag::DisableToneC => 0b0000_0100,
            MixerFlag::DisableNoiseA => 0b0000_1000,
            MixerFlag::DisableNoiseB => 0b0001_0000,
            MixerFlag::DisableNoiseC => 0b0010_0000,
            MixerFlag::OutputIOA => 0b0100_0000,
            MixerFlag::OutputIOB => 0b1000_0000,
        }
    }
}

/// A set of mixer flags. Its view is its raw byte: the union of the bits of
/// the flags it holds.
#[derive(Debug, Clone, Copy, PartialEq, Eq)]
pub struct MixerSettings {
    bits: u8,
}

impl View for MixerSettings {
    type V = u8;

    closed spec fn view(&self) -> u8 {
        self.bits
    }
}

impl MixerSettings {
    /// Whether the set holds `flag`.
    pub open spec fn has(self, flag: MixerFlag) -> bool {
        self@ & flag.mask() != 0
    }

    /// The set with no flag.
    pub fn empty() -> (r: MixerSettings)
        ensures
            r@ == 0,
    {
        MixerSettings { bits: 0 }
    }

    /// The set with every flag.
    pub fn all() -> (r: MixerSettings)
        ensures
            r@ == 0xff,
    {
        MixerSettings { bits: 0xff }
    }

    /// The set with the raw byte `bits`. Every bit of the mixer register is
    /// a flag, so every byte is a set.
    pub fn from_bits(bits: u8) -> (r: MixerSettings)
        ensures
            r@ == bits,
    {
        MixerSettings { bits }
    }

    /// The raw byte of the set.
    pub fn bits(&self) -> (r: u8)
        ensures
            r == self@,
    {
        self.bits
    }

    /// Whether the set holds `flag`.
    pub fn contains(&self, flag: MixerFlag) -> (r: bool)
        ensures
            r == self.has(flag),
    {
        self.bits & flag.bits() != 0
    }

    /// The set with `flag` added: it holds `flag`, and of the other flags
    /// those that `self` holds.
    pub fn with(self, flag: MixerFlag) -> (r: MixerSettings)
        ensures
            r@ == self@ | flag.mask(),
            forall|other: MixerFlag| r.has(other) == (other == flag || self.has(other)),
    {
        let r = MixerSettings { bits: self.bits | flag.bits() };
        proof {
            let a = self.bits;
            assert forall|other: MixerFlag| r.has(other) == (other == flag || self.has(other)) by {
                let m = flag.mask();
                let o = other.mask();
                assert(other == flag <==> o == m);
                assert((a | m) & o != 0 <==> (m & o != 0 || a & o != 0)) by (bit_vector);
                assert(m & o != 0 <==> o == m) by (bit_vector)
                    requires
                        m == 1 || m == 2 || m == 4 || m == 8 || m == 16 || m == 32 || m == 64 || m
                            == 128,
                        o == 1 || o == 2 || o == 4 || o == 8 || o == 16 || o == 32 || o == 64 || o
                            == 128,
                ;
            }
        }
        r
    }
}

/// A flag of the envelope shape register.
#[derive(Debug, Clone, Copy, PartialEq, Eq)]
pub enum EnvelopeFlag {
    /// Hold the last level when the first cycle ends.
    Hold,
    /// Reverse direction after each cycle.
    Alt,
    /// Count up in the first cycle.
    Att,
    /// Repeat the cycle.
    Cont,
}

impl EnvelopeFlag {
    /// The bit of the envelope shape register that stands for the flag.
    pub open spec fn mask(self) -> u8 {
        match self {
            EnvelopeFlag::Hold => 0b0001,
            EnvelopeFlag::Alt => 0b0010,
            EnvelopeFlag::Att => 0b0100,
            EnvelopeFlag::Cont => 0b1000,
        }
    }

    /// The bit of the envelope shape register that stands for the flag.
    pub fn bits(self) -> (r: u8)
        ensures
            r == self.mask(),
    {
        match self {
            EnvelopeFlag::Hold => 0b0001,
            EnvelopeFlag::Alt => 0b0010,
            EnvelopeFlag::Att => 0b0100,
            EnvelopeFlag::Cont => 0b1000,
        }
    }
}

/// The bits of the envelope shape register that are flags: the low four.
pub const ENVELOPE_SHAPE_BITS: u8 = 0b1111;

/// A set of envelope flags. Its view is its raw byte, which holds no bit
/// above the low four.
#[derive(Debug, Clone, Copy, PartialEq, Eq)]
pub struct EnvelopeShape {
    bits: u8,
}

impl View for EnvelopeShape {
    type V = u8;

    closed spec fn view(&self) -> u8 {
        self.bits
    }
}

impl EnvelopeShape {
    #[verifier::type_invariant]
    spec fn only_flags(self) -> bool {
        self.bits <= ENVELOPE_SHAPE_BITS
    }

    /// Whether the set holds `flag`.
    pub open spec fn has(self, flag: EnvelopeFlag) -> bool {
        self@ & flag.mask() != 0
    }

    /// The set with no flag.
    pub fn empty() -> (r: EnvelopeShape)
        ensures
            r@ == 0,
    {
        EnvelopeShape { bits: 0 }
    }

    /// The set with every flag.
    pub fn all() -> (r: EnvelopeShape)
        ensures
            r@ == ENVELOPE_SHAPE_BITS,
    {
        EnvelopeShape { bits: ENVELOPE_SHAPE_BITS }
    }

    /// The set with the raw byte `bits`, if `bits` holds nothing but flags.
    pub fn from_bits(bits: u8) -> (r: Option<EnvelopeShape>)
        ensures
            match r {
                Some(shape) => bits <= ENVELOPE_SHAPE_BITS && shape@ == bits,
                None => bits > ENVELOPE_SHAPE_BITS,
            },
    {
        if bits <= ENVELOPE_SHAPE_BITS {
            Some(EnvelopeShape { bits })
        } else {
            None
        }
    }

    /// The set with the low four bits of `bits` as its raw byte.
    pub fn from_bits_truncate(bits: u8) -> (r: EnvelopeShape)
        ensures
            r@ == bits % 16,
    {
        assert(bits & 0b1111 == bits % 16) by (bit_vector);
        EnvelopeShape { bits: bits & ENVELOPE_SHAPE_BITS }
    }

    /// The raw byte of the set.
    pub fn bits(&self) -> (r: u8)
        ensures
            r == self@,
            r <= ENVELOPE_SHAPE_BITS,
    {
        proof {
            use_type_invariant(self);
        }
        self.bits
    }

    /// Whether the set holds `flag`.
    pub fn contains(&self, flag: EnvelopeFlag) -> (r: bool)
        ensures
            r == self.has(flag),
    {
        self.bits & flag.bits() != 0
    }

    /// The set with `flag` added: it holds `flag`, and of the other flags
    /// those that `self` holds.
    pub fn with(self, flag: EnvelopeFlag) -> (r: EnvelopeShape)
        ensures
            r@ == self@ | flag.mask(),
            forall|other: EnvelopeFlag| r.has(other) == (other == flag || self.has(other)),
    {
        proof {
            use_type_invariant(&self);
        }
        let a = self.bits;
        let m = flag.bits();
        assert(a | m <= 0b1111) by (bit_vector)
            requires
                a <= 0b1111,
                m == 1 || m == 2 || m == 4 || m == 8,
        ;
        let r = EnvelopeShape { bits: a | m };
        proof {
            assert forall|other: EnvelopeFlag| r.has(other) == (other == flag || self.has(other)) by {
                let o = other.mask();
                assert(other == flag <==> o == m);
                assert((a | m) & o != 0 <==> (m & o != 0 || a & o != 0)) by (bit_vector);
                assert(m & o != 0 <==> o == m) by (bit_vector)
                    requires
                        m == 1 || m == 2 || m == 4 || m == 8,
                        o == 1 || o == 2 || o == 4 || o == 8,
                ;
            }
        }
        r
    }
}

} // verus!
