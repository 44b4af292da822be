//! The driver: the bus protocol engine, and the register operations built on
//! it.

use vstd::prelude::*;
use crate::bus::{Bus, BusOp, DelayUs, Event, Line, OutputPin};
use crate::flags::{EnvelopeShape, MixerSettings, ENVELOPE_SHAPE_BITS};
use crate::levels::{
    lemma_after_all_then, lemma_mode_ops, lemma_write_register_pauses,
    lemma_write_registers_pauses, modes, pauses, register_write_pauses, BusMode, Levels,
};
use crate::protocol::{
    address_mode_ops, drive_byte_ops, inactive_mode_ops, lemma_write_registers_one,
    lemma_write_registers_prefix, lemma_write_registers_push, set_address_ops, set_data_ops,
    settle_ops, write_mode_ops, write_register_ops, write_registers_ops, SETTLE_US,
};
use crate::registers::{
    channel_frequency_writes, channel_level_writes, clear_all_writes, envelope_frequency_writes,
    envelope_shape_writes, io_port_data_writes, mixer_settings_writes, noise_writes, split_period,
    Channel, ChannelLevel, IoPort, ENVELOPE_FINE_REGISTER, ENVELOPE_LEVEL,
    ENVELOPE_ROUGH_REGISTER, ENVELOPE_SHAPE_REGISTER, MIXER_REGISTER, NOISE_REGISTER,
    REGISTER_COUNT,
};
use crate::run::{
    asked, lemma_ran_failed, lemma_ran_nothing, lemma_ran_then, lemma_run_stops_at_failure,
    lemma_runs_agree, ran, succeeded,
};

verus! {

/// Why an operation of the driver did not complete.
#[derive(Debug, PartialEq, Eq)]
pub enum Error<P: OutputPin> {
    /// A pin could not be set; the value is the pin's own error.
    PinError(P::Error),
}

impl<P: OutputPin> Clone for Error<P> where P::Error: Clone {
    fn clone(&self) -> Self {
        match self {
            Error::PinError(e) => Error::PinError(e.clone()),
        }
    }
}

impl<P: OutputPin> Copy for Error<P> where P::Error: Copy {
}

impl<P: OutputPin> Error<P> {
    /// A pin's answer as the driver reports it: success as success, a
    /// failure as `PinError` with the pin's error unchanged.
    pub fn of_pin(answer: Result<(), P::Error>) -> (r: Result<(), Error<P>>)
        ensures
            match answer {
                Ok(()) => r == Ok::<(), Error<P>>(()),
                Err(e) => r == Err::<(), Error<P>>(Error::PinError(e)),
            },
    {
        match answer {
            Ok(()) => Ok(()),
            Err(e) => Err(Error::PinError(e)),
        }
    }
}

/// The pin error that ended an operation, if one did.
pub open spec fn failure_of<P: OutputPin>(r: Result<(), Error<P>>) -> Option<P::Error> {
    match r {
        Ok(()) => None,
        Err(Error::PinError(e)) => Some(e),
    }
}

/// A YM2149 on nine output pins, with the delay its bus timing needs.
///
/// The view of a driver is the record of its bus: everything the driver has
/// asked of its pins and its delay since it was made, in order, each with
/// the answer it got. Every operation states what it adds to that record.
pub struct Ym2149<P: OutputPin, Delay: DelayUs> {
    bus: Bus<P, Delay>,
}

impl<P: OutputPin, Delay: DelayUs> View for Ym2149<P, Delay> {
    type V = Seq<Event<P::Error>>;

    closed spec fn view(&self) -> Seq<Event<P::Error>> {
        self.bus@
    }
}

impl<P: OutputPin, Delay: DelayUs> Ym2149<P, Delay> {
    /// Takes the nine pins and the delay, and puts the bus into inactive
    /// mode. Returns the driver, or the error of the first pin that failed.
    pub fn new(
        bdir: P,
        bc1: P,
        d0: P,
        d1: P,
        d2: P,
        d3: P,
        d4: P,
        d5: P,
        d6: P,
        d7: P,
        delay: Delay,
    ) -> (r: Result<Ym2149<P, Delay>, Error<P>>)
        ensures
            r matches Ok(chip) ==> chip@ == succeeded::<P::Error>(inactive_mode_ops()),
    {
        let mut output = Ym2149 { bus: Bus::new(bdir, bc1, d0, d1, d2, d3, d4, d5, d6, d7, delay) };
        let forced = output.inactive_mode();
        assert(output@.skip(0) =~= output@);
        Ym2149::started(output, forced)
    }

    /// What `new` hands back once it has asked for inactive mode: the driver
    /// if every pin obeyed, and if one did not, its error as it came.
    fn started(chip: Ym2149<P, Delay>, forced: Result<(), Error<P>>) -> (r: Result<
        Ym2149<P, Delay>,
        Error<P>,
    >)
        ensures
            match forced {
                Ok(()) => r == Ok::<Ym2149<P, Delay>, Error<P>>(chip),
                Err(e) => r == Err::<Ym2149<P, Delay>, Error<P>>(e),
            },
    {
        match forced {
            Ok(()) => Ok(chip),
            Err(e) => Err(e),
        }
    }

    /// Sets one line.
    fn set_line(&mut self, line: Line, high: bool) -> (r: Result<(), Error<P>>)
        ensures
            final(self)@ == old(self)@.push(
                Event { op: BusOp::Drive { line, high }, failure: failure_of(r) },
            ),
    {
        Error::of_pin(self.bus.drive(line, high))
    }

    /// Holds the bus still for the settle time.
    fn settle(&mut self)
        ensures
            ran(old(self)@, final(self)@, settle_ops(), None),
    {
        self.bus.wait(SETTLE_US);
        proof {
            assert(self@.skip(old(self)@.len() as int) =~= succeeded(settle_ops()));
        }
    }

    /// Sets the two control lines, BDIR first.
    fn set_mode(&mut self, bdir: bool, bc1: bool) -> (r: Result<(), Error<P>>)
        ensures
            ran(
                old(self)@,
                final(self)@,
                seq![
                    BusOp::Drive { line: Line::Bdir, high: bdir },
                    BusOp::Drive { line: Line::Bc1, high: bc1 },
                ],
                failure_of(r),
            ),
    {
        let ghost plan = seq![
            BusOp::Drive { line: Line::Bdir, high: bdir },
            BusOp::Drive { line: Line::Bc1, high: bc1 },
        ];
        let first = self.set_line(Line::Bdir, bdir);
        if first.is_err() {
            assert(self@.skip(old(self)@.len() as int) =~= succeeded::<P::Error>(plan.take(0)).push(
                Event { op: plan[0], failure: failure_of(first) },
            ));
            return first;
        }
        let second = self.set_line(Line::Bc1, bc1);
        proof {
            let events = self@.skip(old(self)@.len() as int);
            if second.is_err() {
                assert(events =~= succeeded::<P::Error>(plan.take(1)).push(
                    Event { op: plan[1], failure: failure_of(second) },
                ));
            } else {
                assert(events =~= succeeded::<P::Error>(plan));
            }
        }
        second
    }

    /// BDIR high, BC1 low.
    fn write_mode(&mut self) -> (r: Result<(), Error<P>>)
        ensures
            ran(old(self)@, final(self)@, write_mode_ops(), failure_of(r)),
    {
        self.set_mode(true, false)
    }

    /// BDIR high, BC1 high.
    fn address_mode(&mut self) -> (r: Result<(), Error<P>>)
        ensures
            ran(old(self)@, final(self)@, address_mode_ops(), failure_of(r)),
    {
        self.set_mode(true, true)
    }

    /// BDIR low, BC1 low.
    fn inactive_mode(&mut self) -> (r: Result<(), Error<P>>)
        ensures
            ran(old(self)@, final(self)@, inactive_mode_ops(), failure_of(r)),
    {
        self.set_mode(false, false)
    }

    /// Puts `data` on the eight data lines, least significant bit first.
    fn write_u8(&mut self, data: u8) -> (r: Result<(), Error<P>>)
        ensures
            ran(old(self)@, final(self)@, drive_byte_ops(data), failure_of(r)),
    {
        let ghost plan = drive_byte_ops(data);
        let mut i: u8 = 0;
        while i < 8
            invariant
                i <= 8,
                plan == drive_byte_ops(data),
                self@ =~= old(self)@ + succeeded::<P::Error>(plan.take(i as int)),
            decreases 8 - i,
        {
            let high = (data >> i) & 0x01 == 1;
            let set = self.set_line(Line::data_line(i), high);
            proof {
                let events = self@.skip(old(self)@.len() as int);
                let event = Event { op: plan[i as int], failure: failure_of(set) };
                assert(events =~= succeeded::<P::Error>(plan.take(i as int)).push(event));
                assert(plan.take(i + 1) =~= plan.take(i as int).push(plan[i as int]));
            }
            if set.is_err() {
                return set;
            }
            i += 1;
        }
        proof {
            assert(plan.take(8) =~= plan);
            assert(self@.skip(old(self)@.len() as int) =~= succeeded::<P::Error>(plan));
        }
        Ok(())
    }

    /// Latches `address` into the chip as the register to be written.
    fn set_address(&mut self, address: u8) -> (r: Result<(), Error<P>>)
        ensures
            ran(old(self)@, final(self)@, set_address_ops(address), failure_of(r)),
    {
        let ghost start = self@;
        let ghost plan = set_address_ops(address);
        let ghost mode = address_mode_ops();
        let ghost byte = mode + drive_byte_ops(address);
        let ghost held = byte + settle_ops();
        let ghost idle = held + inactive_mode_ops();

        let r = self.address_mode();
        if r.is_err() {
            proof {
                lemma_ran_failed(start, self@, mode, plan, failure_of(r));
            }
            return r;
        }
        let ghost after_mode = self@;
        let r = self.write_u8(address);
        proof {
            lemma_ran_then(start, after_mode, self@, mode, drive_byte_ops(address), failure_of(r));
        }
        if r.is_err() {
            proof {
                lemma_ran_failed(start, self@, byte, plan, failure_of(r));
            }
            return r;
        }
        let ghost after_byte = self@;
        self.settle();
        proof {
            lemma_ran_then(start, after_byte, self@, byte, settle_ops(), None);
        }
        let ghost after_held = self@;
        let r = self.inactive_mode();
        proof {
            lemma_ran_then(start, after_held, self@, held, inactive_mode_ops(), failure_of(r));
        }
        if r.is_err() {
            proof {
                lemma_ran_failed(start, self@, idle, plan, failure_of(r));
            }
            return r;
        }
        let ghost after_idle = self@;
        self.settle();
        proof {
            lemma_ran_then(start, after_idle, self@, idle, settle_ops(), None);
        }
        Ok(())
    }

    /// Writes `data` into the register latched last.
    fn set_data(&mut self, data: u8) -> (r: Result<(), Error<P>>)
        ensures
            ran(old(self)@, final(self)@, set_data_ops(data), failure_of(r)),
    {
        let ghost start = self@;
        let ghost plan = set_data_ops(data);
        let ghost byte = drive_byte_ops(data);
        let ghost mode = byte + write_mode_ops();
        let ghost held = mode + settle_ops();
        let ghost idle = held + inactive_mode_ops();

        let r = self.write_u8(data);
        if r.is_err() {
            proof {
                lemma_ran_failed(start, self@, byte, plan, failure_of(r));
            }
            return r;
        }
        let ghost after_byte = self@;
        let r = self.write_mode();
        proof {
            lemma_ran_then(start, after_byte, self@, byte, write_mode_ops(), failure_of(r));
        }
        if r.is_err() {
            proof {
                lemma_ran_failed(start, self@, mode, plan, failure_of(r));
            }
            return r;
        }
        let ghost after_mode = self@;
        self.settle();
        proof {
            lemma_ran_then(start, after_mode, self@, mode, settle_ops(), None);
        }
        let ghost after_held = self@;
        let r = self.inactive_mode();
        proof {
            lemma_ran_then(start, after_held, self@, held, inactive_mode_ops(), failure_of(r));
        }
        if r.is_err() {
            proof {
                lemma_ran_failed(start, self@, idle, plan, failure_of(r));
            }
            return r;
        }
        let ghost after_idle = self@;
        self.settle();
        proof {
            lemma_ran_then(start, after_idle, self@, idle, settle_ops(), None);
        }
        Ok(())
    }

    /// Writes `data` into the register at `address`: the address phase, then
    /// the data phase. Stops at the first pin that fails, with that pin's
    /// error, and asks nothing more of the bus.
    pub fn set_register_value(&mut self, address: u8, data: u8) -> (r: Result<(), Error<P>>)
        ensures
            ran(old(self)@, final(self)@, write_register_ops(address, data), failure_of(r)),
    {
        let ghost start = self@;
        let r = self.set_address(address);
        if r.is_err() {
            proof {
                lemma_ran_failed(
                    start,
                    self@,
                    set_address_ops(address),
                    write_register_ops(address, data),
                    failure_of(r),
                );
            }
            return r;
        }
        let ghost latched = self@;
        let r = self.set_data(data);
        proof {
            lemma_ran_then(
                start,
                latched,
                self@,
                set_address_ops(address),
                set_data_ops(data),
                failure_of(r),
            );
        }
        r
    }

    /// Writes two registers, `first` then `second`, each an (address, value)
    /// pair.
    fn set_register_pair(&mut self, first: (u8, u8), second: (u8, u8)) -> (r: Result<
        (),
        Error<P>,
    >)
        ensures
            ran(
                old(self)@,
                final(self)@,
                write_registers_ops(seq![first, second]),
                failure_of(r),
            ),
    {
        let ghost start = self@;
        let ghost plan = write_registers_ops(seq![first, second]);
        let ghost head = write_register_ops(first.0, first.1);
        proof {
            lemma_write_registers_one(first.0, first.1);
            lemma_write_registers_push(seq![first], second.0, second.1);
            assert(seq![first].push(second) =~= seq![first, second]);
        }
        let r = self.set_register_value(first.0, first.1);
        if r.is_err() {
            proof {
                lemma_ran_failed(start, self@, head, plan, failure_of(r));
            }
            return r;
        }
        let ghost middle = self@;
        let r = self.set_register_value(second.0, second.1);
        proof {
            lemma_ran_then(
                start,
                middle,
                self@,
                head,
                write_register_ops(second.0, second.1),
                failure_of(r),
            );
        }
        r
    }

    /// Writes zero into every register, in ascending order of address. Stops
    /// at the first write that fails; the registers before it are then
    /// cleared, the others are not.
    pub fn clear_all_registers(&mut self) -> (r: Result<(), Error<P>>)
        ensures
            ran(
                old(self)@,
                final(self)@,
                write_registers_ops(clear_all_writes()),
                failure_of(r),
            ),
    {
        let ghost start = self@;
        let ghost writes = clear_all_writes();
        proof {
            lemma_ran_nothing(start);
            assert(writes.take(0) =~= Seq::<(u8, u8)>::empty());
        }
        for i in 0..REGISTER_COUNT
            invariant
                start == old(self)@,
                writes == clear_all_writes(),
                ran(start, self@, write_registers_ops(writes.take(i as int)), None),
        {
            let ghost before = self@;
            let ghost done = write_registers_ops(writes.take(i as int));
            let r = self.set_register_value(i, 0);
            proof {
                assert(writes.take(i + 1) =~= writes.take(i as int).push((i, 0u8)));
                lemma_write_registers_push(writes.take(i as int), i, 0);
                lemma_ran_then(start, before, self@, done, write_register_ops(i, 0), failure_of(r));
            }
            if r.is_err() {
                proof {
                    lemma_write_registers_prefix(writes, i + 1);
                    lemma_ran_failed(
                        start,
                        self@,
                        write_registers_ops(writes.take(i + 1)),
                        write_registers_ops(writes),
                        failure_of(r),
                    );
                }
                return r;
            }
        }
        proof {
            assert(writes.take(REGISTER_COUNT as int) =~= writes);
        }
        Ok(())
    }

    /// Sets the tone period of `channel`: the low byte of `frequency` into
    /// the channel's fine register, then the high byte into its rough
    /// register.
    pub fn set_channel_frequency(&mut self, channel: Channel, frequency: u16) -> (r: Result<
        (),
        Error<P>,
    >)
        ensures
            ran(
                old(self)@,
                final(self)@,
                write_registers_ops(channel_frequency_writes(channel, frequency)),
                failure_of(r),
            ),
    {
        let (fine_channel, rough_channel): (u8, u8) = match channel {
            Channel::A => (0x0, 0x1),
            Channel::B => (0x2, 0x3),
            Channel::C => (0x4, 0x5),
        };
        let (fine, rough) = split_period(frequency);
        self.set_register_pair((fine_channel, fine), (rough_channel, rough))
    }

    /// Sets the noise period.
    pub fn set_noise(&mut self, frequency: u8) -> (r: Result<(), Error<P>>)
        ensures
            ran(
                old(self)@,
                final(self)@,
                write_registers_ops(noise_writes(frequency)),
                failure_of(r),
            ),
    {
        proof {
            lemma_write_registers_one(NOISE_REGISTER, frequency);
        }
        self.set_register_value(NOISE_REGISTER, frequency)
    }

    /// Sets the mixer register to the raw byte of `settings`.
    pub fn set_mixer_settings(&mut self, settings: MixerSettings) -> (r: Result<(), Error<P>>)
        ensures
            ran(
                old(self)@,
                final(self)@,
                write_registers_ops(mixer_settings_writes(settings)),
                failure_of(r),
            ),
    {
        proof {
            lemma_write_registers_one(MIXER_REGISTER, settings@);
        }
        self.set_register_value(MIXER_REGISTER, settings.bits())
    }

    /// Sets the level of `channel`: the low four bits of a fixed level, or
    /// the marker that makes the channel follow the envelope generator.
    pub fn set_channel_level(&mut self, channel: Channel, level: ChannelLevel) -> (r: Result<
        (),
        Error<P>,
    >)
        ensures
            ran(
                old(self)@,
                final(self)@,
                write_registers_ops(channel_level_writes(channel, level)),
                failure_of(r),
            ),
    {
        let data: u8 = match level {
            ChannelLevel::Fixed(level) => {
                assert(level & 0b1111 == level % 16) by (bit_vector);
                level & 0b1111
            },
            ChannelLevel::Envelope => ENVELOPE_LEVEL,
        };
        let register: u8 = match channel {
            Channel::A => 0x8,
            Channel::B => 0x9,
            Channel::C => 0xA,
        };
        proof {
            lemma_write_registers_one(register, data);
        }
        self.set_register_value(register, data)
    }

    /// Sets the envelope period: the low byte of `frequency` into the fine
    /// register, then the high byte into the rough register.
    pub fn set_envelope_frequency(&mut self, frequency: u16) -> (r: Result<(), Error<P>>)
        ensures
            ran(
                old(self)@,
                final(self)@,
                write_registers_ops(envelope_frequency_writes(frequency)),
                failure_of(r),
            ),
    {
        let (fine, rough) = split_period(frequency);
        self.set_register_pair((ENVELOPE_FINE_REGISTER, fine), (ENVELOPE_ROUGH_REGISTER, rough))
    }

    /// Sets the envelope shape register to the raw byte of `shape`, which
    /// holds no bit above the low four.
    pub fn set_envelope_shape(&mut self, shape: EnvelopeShape) -> (r: Result<(), Error<P>>)
        ensures
            ran(
                old(self)@,
                final(self)@,
                write_registers_ops(envelope_shape_writes(shape)),
                failure_of(r),
            ),
            shape@ <= ENVELOPE_SHAPE_BITS,
    {
        proof {
            lemma_write_registers_one(ENVELOPE_SHAPE_REGISTER, shape@);
        }
        self.set_register_value(ENVELOPE_SHAPE_REGISTER, shape.bits())
    }

    /// Puts `data` on an I/O port. Port B is written through the register
    /// that also holds the envelope shape.
    pub fn set_io_port_data(&mut self, port: IoPort, data: u8) -> (r: Result<(), Error<P>>)
        ensures
            ran(
                old(self)@,
                final(self)@,
                write_registers_ops(io_port_data_writes(port, data)),
                failure_of(r),
            ),
    {
        let register: u8 = match port {
            IoPort::A => 0xE,
            IoPort::B => 0xD,
        };
        proof {
            lemma_write_registers_one(register, data);
        }
        self.set_register_value(register, data)
    }
}

/// What the chip sees of a register write that went through, wherever the
/// lines were before: address-latch mode with the address on the data lines,
/// inactive mode, write mode with the value on the data lines, inactive mode,
/// each held for the settle time.
pub proof fn lemma_register_write_seen<E>(
    before: Seq<Event<E>>,
    after: Seq<Event<E>>,
    address: u8,
    data: u8,
    start: Levels,
)
    requires
        ran(before, after, write_register_ops(address, data), None::<E>),
    ensures
        pauses(start, asked(after.skip(before.len() as int))) == register_write_pauses(
            address,
            data,
        ),
        modes(register_write_pauses(address, data)) == seq![
            Some(BusMode::AddressLatch),
            Some(BusMode::Inactive),
            Some(BusMode::Write),
            Some(BusMode::Inactive),
        ],
{
    lemma_run_stops_at_failure(
        write_register_ops(address, data),
        after.skip(before.len() as int),
        None::<E>,
    );
    lemma_write_register_pauses(start, address, data);
}

/// Clearing all registers twice asks the same of the bus both times: each
/// call works through the same plan from its start, and two calls that went
/// through left the same events.
pub proof fn lemma_clear_all_registers_repeats<E>(
    before: Seq<Event<E>>,
    between: Seq<Event<E>>,
    after: Seq<Event<E>>,
    first: Option<E>,
    second: Option<E>,
)
    requires
        ran(before, between, write_registers_ops(clear_all_writes()), first),
        ran(between, after, write_registers_ops(clear_all_writes()), second),
    ensures
        asked(between.skip(before.len() as int)).is_prefix_of(
            write_registers_ops(clear_all_writes()),
        ),
        asked(after.skip(between.len() as int)).is_prefix_of(
            write_registers_ops(clear_all_writes()),
        ),
        first is None && second is None ==> between.skip(before.len() as int) == after.skip(
            between.len() as int,
        ),
{
    let plan = write_registers_ops(clear_all_writes());
    lemma_run_stops_at_failure(plan, between.skip(before.len() as int), first);
    lemma_run_stops_at_failure(plan, after.skip(between.len() as int), second);
    if first is None && second is None {
        lemma_runs_agree(plan, between.skip(before.len() as int), after.skip(between.len() as int));
    }
}

/// A driver that was made without failure has left the bus in inactive
/// mode, wherever the lines were before.
pub proof fn lemma_new_leaves_bus_inactive<E>(record: Seq<Event<E>>, start: Levels)
    requires
        record == succeeded::<E>(inactive_mode_ops()),
    ensures
        start.after_all(asked(record)).mode() == Some(BusMode::Inactive),
{
    assert(asked(record) =~= inactive_mode_ops());
    lemma_mode_ops(start, false, false);
}

/// Register writes that went through have left the bus in inactive mode,
/// whatever was asked of it before and wherever the lines were at first.
pub proof fn lemma_writes_leave_bus_inactive<E>(
    before: Seq<Event<E>>,
    after: Seq<Event<E>>,
    writes: Seq<(u8, u8)>,
    start: Levels,
)
    requires
        ran(before, after, write_registers_ops(writes), None::<E>),
        writes.len() > 0,
    ensures
        start.after_all(asked(after)).mode() == Some(BusMode::Inactive),
{
    let plan = write_registers_ops(writes);
    lemma_run_stops_at_failure(plan, after.skip(before.len() as int), None::<E>);
    assert(asked(after) =~= asked(before) + plan);
    lemma_after_all_then(start, asked(before), plan);
    lemma_write_registers_pauses(start.after_all(asked(before)), writes);
}

} // verus!
