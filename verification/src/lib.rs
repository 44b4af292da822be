//! A driver for the YM2149 programmable sound generator on a parallel bus of
//! nine output pins, verified: every operation is proved to ask of the bus
//! exactly the pin changes and delays that the chip's protocol prescribes,
//! in order, and to stop at the first pin that fails.

pub mod bus;
pub mod driver;
pub mod flags;
pub mod levels;
pub mod protocol;
pub mod registers;
pub mod run;

pub use bus::{DelayUs, OutputPin};
pub use driver::{Error, Ym2149};
pub use flags::{EnvelopeFlag, EnvelopeShape, MixerFlag, MixerSettings};
pub use registers::{Channel, ChannelLevel, IoPort};
