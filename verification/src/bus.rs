//! The bus between the driver and the chip: ten output lines and a delay,
//! the operations a driver can ask of them, and the record of what it asked.
//!
//! [`Bus`] is the only place where a pin is set or the delay is called, and
//! each of its two operations adds to the record what it asked and what it
//! was answered, in the same breath. The fields are private to this file, so
//! that the rest of the crate can reach the pins in no other way.

use vstd::prelude::*;

verus! {

/// A digital output the driver can set high or low.
///
/// Nothing is assumed of an implementation: a call may succeed or fail with
/// any value of `Error`, and the driver is verified for every answer.
pub trait OutputPin {
    /// What a failed attempt to set the pin reports.
    type Error;

    /// Drives the pin high (`true`) or low (`false`).
    fn set_state(&mut self, high: bool) -> Result<(), Self::Error>;
}

/// A blocking delay with microsecond resolution.
pub trait DelayUs {
    /// Returns after at least `us` microseconds.
    fn delay_us(&mut self, us: u32);
}

/// One of the ten lines of the bus: the two control lines and the eight data
/// lines, `D0` carrying the least significant bit.
#[derive(Debug, Clone, Copy, PartialEq, Eq)]
pub enum Line {
    Bdir,
    Bc1,
    D0,
    D1,
    D2,
    D3,
    D4,
    D5,
    D6,
    D7,
}

impl Line {
    /// The data line that carries bit `i` of a byte, for `i` in `0..8`; `D7`
    /// for every other `i`.
    pub open spec fn data(i: int) -> Line {
        if i == 0 {
            Line::D0
        } else if i == 1 {
            Line::D1
        } else if i == 2 {
            Line::D2
        } else if i == 3 {
            Line::D3
        } else if i == 4 {
            Line::D4
        } else if i == 5 {
            Line::D5
        } else if i == 6 {
            Line::D6
        } else {
            Line::D7
        }
    }

    /// The data line that carries bit `i` of a byte; `D7` for every `i` above
    /// 7.
    pub fn data_line(i: u8) -> (line: Line)
        ensures
            line == Line::data(i as int),
    {
        match i {
            0 => Line::D0,
            1 => Line::D1,
            2 => Line::D2,
            3 => Line::D3,
            4 => Line::D4,
            5 => Line::D5,
            6 => Line::D6,
            _ => Line::D7,
        }
    }

    /// The bit that a data line carries; `None` for a control line.
    pub open spec fn data_bit(self) -> Option<u8> {
        match self {
            Line::Bdir | Line::Bc1 => None,
            Line::D0 => Some(0u8),
            Line::D1 => Some(1u8),
            Line::D2 => Some(2u8),
            Line::D3 => Some(3u8),
            Line::D4 => Some(4u8),
            Line::D5 => Some(5u8),
            Line::D6 => Some(6u8),
            Line::D7 => Some(7u8),
        }
    }
}

/// One thing a driver asks of the bus.
pub enum BusOp {
    /// Set `line` high or low.
    Drive { line: Line, high: bool },
    /// Block for `us` microseconds.
    Wait { us: u32 },
}

/// One operation as it happened: what was asked, and the error it was
/// answered with, if any.
pub struct Event<E> {
    pub op: BusOp,
    pub failure: Option<E>,
}

/// The error in a pin's answer, if it is one.
pub open spec fn failure_in<E>(answer: Result<(), E>) -> Option<E> {
    match answer {
        Ok(()) => None,
        Err(e) => Some(e),
    }
}

/// The nine pins and the delay, with the record of everything that was asked
/// of them since the bus was made, in order, each with the answer it got.
/// The record is the view of the bus.
pub struct Bus<P: OutputPin, Delay: DelayUs> {
    bdir: P,
    bc1: P,
    d0: P,
    d1: P,
    d2: P,
    d3: P,
    d4: P,
    d5: P,
    d6: P,
    d7: P,
    delay: Delay,
    record: Ghost<Seq<Event<P::Error>>>,
}

impl<P: OutputPin, Delay: DelayUs> View for Bus<P, Delay> {
    type V = Seq<Event<P::Error>>;

    closed spec fn view(&self) -> Seq<Event<P::Error>> {
        self.record@
    }
}

impl<P: OutputPin, Delay: DelayUs> Bus<P, Delay> {
    /// A bus of which nothing has been asked yet.
    pub fn new(
        bdir: P,
        bc1: P,
        d0: P,
        d1: P,
        d2: P,
        d3: P,
        d4: P,
        d5: P,
        d6: P,
        d7: P,
        delay: Delay,
    ) -> (bus: Bus<P, Delay>)
        ensures
            bus@ == Seq::<Event<P::Error>>::empty(),
    {
        Bus { bdir, bc1, d0, d1, d2, d3, d4, d5, d6, d7, delay, record: Ghost(Seq::empty()) }
    }

    /// Sets `line` high or low, and hands back the pin's own answer.
    pub fn drive(&mut self, line: Line, high: bool) -> (answer: Result<(), P::Error>)
        ensures
            final(self)@ == old(self)@.push(
                Event { op: BusOp::Drive { line, high }, failure: failure_in(answer) },
            ),
    {
        let answer = match line {
            Line::Bdir => self.bdir.set_state(high),
            Line::Bc1 => self.bc1.set_state(high),
            Line::D0 => self.d0.set_state(high),
            Line::D1 => self.d1.set_state(high),
            Line::D2 => self.d2.set_state(high),
            Line::D3 => self.d3.set_state(high),
            Line::D4 => self.d4.set_state(high),
            Line::D5 => self.d5.set_state(high),
            Line::D6 => self.d6.set_state(high),
            Line::D7 => self.d7.set_state(high),
        };
        proof {
            self.record@ = self.record@.push(
                Event { op: BusOp::Drive { line, high }, failure: failure_in(answer) },
            );
        }
        answer
    }

    /// Blocks for `us` microseconds.
    pub fn wait(&mut self, us: u32)
        ensures
            final(self)@ == old(self)@.push(Event { op: BusOp::Wait { us }, failure: None }),
    {
        self.delay.delay_us(us);
        proof {
            self.record@ = self.record@.push(Event { op: BusOp::Wait { us }, failure: None });
        }
    }
}

} // verus!
