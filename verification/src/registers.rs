//! The register file of the chip: sixteen 8-bit registers, and the logical
//! parameters that map onto them.

use vstd::prelude::*;
use crate::flags::{EnvelopeShape, MixerSettings};
use crate::protocol::{
    lemma_write_registers_blocks, write_register_ops, write_registers_ops, WRITE_REGISTER_OPS,
};

verus! {

/// Number of registers in the chip's register file.
pub const REGISTER_COUNT: u8 = 16;

/// Noise period.
pub const NOISE_REGISTER: u8 = 0x6;

/// Mixer and I/O direction mask.
pub const MIXER_REGISTER: u8 = 0x7;

/// Envelope period, low byte.
pub const ENVELOPE_FINE_REGISTER: u8 = 0xB;

/// Envelope period, high byte.
pub const ENVELOPE_ROUGH_REGISTER: u8 = 0xC;

/// Envelope shape.
pub const ENVELOPE_SHAPE_REGISTER: u8 = 0xD;

/// What a channel-level register holds when the channel follows the envelope
/// generator: bit 4 set, the fixed level zero.
pub const ENVELOPE_LEVEL: u8 = 0b10000;

/// One of the three tone channels.
#[derive(Debug, Clone, Copy, PartialEq, Eq)]
pub enum Channel {
    A,
    B,
    C,
}

impl Channel {
    /// The register that holds the low byte of the channel's tone period.
    pub open spec fn fine_register(self) -> u8 {
        match self {
            Channel::A => 0x0,
            Channel::B => 0x2,
            Channel::C => 0x4,
        }
    }

    /// The register that holds the high byte of the channel's tone period.
    pub open spec fn rough_register(self) -> u8 {
        match self {
            Channel::A => 0x1,
            Channel::B => 0x3,
            Channel::C => 0x5,
        }
    }

    /// The register that holds the channel's level.
    pub open spec fn level_register(self) -> u8 {
        match self {
            Channel::A => 0x8,
            Channel::B => 0x9,
            Channel::C => 0xA,
        }
    }
}

/// The level of a channel: a fixed 4-bit level, or whatever the envelope
/// generator puts out.
#[derive(Debug, Clone, Copy, PartialEq, Eq)]
pub enum ChannelLevel {
    Fixed(u8),
    Envelope,
}

impl ChannelLevel {
    /// What the channel's level register is to hold: the low four bits of a
    /// fixed level, or the envelope marker.
    pub open spec fn register_value(self) -> u8 {
        match self {
            ChannelLevel::Fixed(level) => level % 16,
            ChannelLevel::Envelope => ENVELOPE_LEVEL,
        }
    }
}

/// One of the two 8-bit I/O ports.
#[derive(Debug, Clone, Copy, PartialEq, Eq)]
pub enum IoPort {
    A,
    B,
}

impl IoPort {
    /// The register through which the port's data is written. Port B shares
    /// its register with the envelope shape.
    pub open spec fn register(self) -> u8 {
        match self {
            IoPort::A => 0xE,
            IoPort::B => 0xD,
        }
    }
}

/// The low eight bits of a 16-bit period.
pub open spec fn low_byte(period: u16) -> u8 {
    (period % 256) as u8
}

/// The high eight bits of a 16-bit period.
pub open spec fn high_byte(period: u16) -> u8 {
    (period / 256) as u8
}

/// The two bytes of a period, split for the fine and the rough register.
pub(crate) fn split_period(period: u16) -> (bytes: (u8, u8))
    ensures
        bytes.0 == low_byte(period),
        bytes.1 == high_byte(period),
        bytes.0 + 256 * bytes.1 == period,
{
    let fine = period as u8;
    let rough = (period >> 8) as u8;
    assert(period as u8 == period % 256 && (period >> 8) as u8 == period / 256) by (bit_vector);
    (fine, rough)
}

/// The register writes that silence the chip: zero into every register, in
/// ascending order of address.
pub open spec fn clear_all_writes() -> Seq<(u8, u8)> {
    Seq::new(REGISTER_COUNT as nat, |i: int| (i as u8, 0u8))
}

/// The register writes that set a channel's tone period: the low byte into
/// the fine register, then the high byte into the rough register.
pub open spec fn channel_frequency_writes(channel: Channel, frequency: u16) -> Seq<(u8, u8)> {
    seq![
        (channel.fine_register(), low_byte(frequency)),
        (channel.rough_register(), high_byte(frequency)),
    ]
}

/// The register write that sets the noise period.
pub open spec fn noise_writes(frequency: u8) -> Seq<(u8, u8)> {
    seq![(NOISE_REGISTER, frequency)]
}

/// The register write that sets the mixer: the raw byte of the settings.
pub open spec fn mixer_settings_writes(settings: MixerSettings) -> Seq<(u8, u8)> {
    seq![(MIXER_REGISTER, settings@)]
}

/// The register write that sets a channel's level.
pub open spec fn channel_level_writes(channel: Channel, level: ChannelLevel) -> Seq<(u8, u8)> {
    seq![(channel.level_register(), level.register_value())]
}

/// The register writes that set the envelope period: the low byte into the
/// fine register, then the high byte into the rough register.
pub open spec fn envelope_frequency_writes(frequency: u16) -> Seq<(u8, u8)> {
    seq![
        (ENVELOPE_FINE_REGISTER, low_byte(frequency)),
        (ENVELOPE_ROUGH_REGISTER, high_byte(frequency)),
    ]
}

/// The register write that sets the envelope shape: the raw byte of the
/// shape.
pub open spec fn envelope_shape_writes(shape: EnvelopeShape) -> Seq<(u8, u8)> {
    seq![(ENVELOPE_SHAPE_REGISTER, shape@)]
}

/// The register write that puts `data` on an I/O port.
pub open spec fn io_port_data_writes(port: IoPort, data: u8) -> Seq<(u8, u8)> {
    seq![(port.register(), data)]
}

/// Clearing all registers is sixteen register writes and nothing else: write
/// `i` of them, counted from zero, puts zero into register `i`.
pub proof fn lemma_clear_all_is_sixteen_writes(i: int)
    requires
        0 <= i < 16,
    ensures
        clear_all_writes().len() == 16,
        clear_all_writes()[i] == (i as u8, 0u8),
        write_registers_ops(clear_all_writes()).len() == 16 * WRITE_REGISTER_OPS,
        write_registers_ops(clear_all_writes()).subrange(
            WRITE_REGISTER_OPS * i,
            WRITE_REGISTER_OPS * i + WRITE_REGISTER_OPS,
        ) == write_register_ops(i as u8, 0),
{
    lemma_write_registers_blocks(clear_all_writes(), i);
}

/// I/O port B is written through the register of the envelope shape: to put
/// a byte on the port is to set the shape with that raw byte, and the other
/// way round.
pub proof fn lemma_port_b_shares_the_shape_register(data: u8, shape: EnvelopeShape)
    requires
        shape@ == data,
    ensures
        IoPort::B.register() == ENVELOPE_SHAPE_REGISTER,
        io_port_data_writes(IoPort::B, data) == envelope_shape_writes(shape),
{
}

} // verus!
