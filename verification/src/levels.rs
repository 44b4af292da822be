//! What the chip sees: the levels of the lines after the driver has driven
//! them, the bus mode they spell, and the levels that each settle delay
//! holds still.

use vstd::prelude::*;
use crate::bus::{BusOp, Line};
use crate::protocol::{
    address_mode_ops, bit, drive_byte_ops, inactive_mode_ops, set_address_ops, set_data_ops,
    settle_ops, write_mode_ops, write_register_ops, write_registers_ops, SETTLE_US,
};

verus! {

/// The mode of the bus, which the chip reads off the two control lines.
pub enum BusMode {
    /// BDIR low, BC1 low.
    Inactive,
    /// BDIR high, BC1 high.
    AddressLatch,
    /// BDIR high, BC1 low.
    Write,
}

/// The level each line was last driven to: the two control lines, and the
/// eight data lines as the byte they spell, `D0` being bit 0.
pub struct Levels {
    pub bdir: bool,
    pub bc1: bool,
    pub data: u8,
}

/// `byte` with bit `i` set or cleared.
pub open spec fn with_bit(byte: u8, i: u8, high: bool) -> u8 {
    if high {
        byte | (1u8 << i)
    } else {
        byte & !(1u8 << i)
    }
}

impl Levels {
    /// The bus mode that the control lines spell, if they spell one of the
    /// three modes that the driver uses.
    pub open spec fn mode(self) -> Option<BusMode> {
        if !self.bdir && !self.bc1 {
            Some(BusMode::Inactive)
        } else if self.bdir && self.bc1 {
            Some(BusMode::AddressLatch)
        } else if self.bdir && !self.bc1 {
            Some(BusMode::Write)
        } else {
            None
        }
    }

    /// The levels after one operation: a drive changes its line, a wait
    /// changes nothing.
    pub open spec fn after(self, op: BusOp) -> Levels {
        match op {
            BusOp::Wait { .. } => self,
            BusOp::Drive { line, high } => match line.data_bit() {
                Some(i) => Levels { data: with_bit(self.data, i, high), ..self },
                None => if line == Line::Bdir {
                    Levels { bdir: high, ..self }
                } else {
                    Levels { bc1: high, ..self }
                },
            },
        }
    }

    /// The levels after a sequence of operations.
    pub open spec fn after_all(self, ops: Seq<BusOp>) -> Levels
        decreases ops.len(),
    {
        if ops.len() == 0 {
            self
        } else {
            self.after_all(ops.drop_last()).after(ops.last())
        }
    }
}

/// A stretch of time in which the bus is held still: the levels of the
/// lines, and for how many microseconds.
pub struct Pause {
    pub levels: Levels,
    pub us: u32,
}

/// The pauses of a sequence of operations that starts with the lines at
/// `start`: one for each wait, in order, with the levels at that wait.
pub open spec fn pauses(start: Levels, ops: Seq<BusOp>) -> Seq<Pause>
    decreases ops.len(),
{
    if ops.len() == 0 {
        Seq::empty()
    } else {
        let before = pauses(start, ops.drop_last());
        match ops.last() {
            BusOp::Wait { us } => before.push(
                Pause { levels: start.after_all(ops.drop_last()), us },
            ),
            BusOp::Drive { .. } => before,
        }
    }
}

/// The bus mode of each pause.
pub open spec fn modes(pauses: Seq<Pause>) -> Seq<Option<BusMode>> {
    Seq::new(pauses.len(), |i: int| pauses[i].levels.mode())
}

/// The levels after two sequences, one after the other, are the levels after
/// the second, started where the first ended.
pub proof fn lemma_after_all_then(start: Levels, first: Seq<BusOp>, second: Seq<BusOp>)
    ensures
        start.after_all(first + second) == start.after_all(first).after_all(second),
    decreases second.len(),
{
    if second.len() == 0 {
        assert(first + second =~= first);
    } else {
        assert((first + second).drop_last() =~= first + second.drop_last());
        lemma_after_all_then(start, first, second.drop_last());
    }
}

/// The pauses of two sequences, one after the other, are the pauses of the
/// first followed by those of the second, started where the first ended.
pub proof fn lemma_pauses_then(start: Levels, first: Seq<BusOp>, second: Seq<BusOp>)
    ensures
        pauses(start, first + second) == pauses(start, first) + pauses(
            start.after_all(first),
            second,
        ),
    decreases second.len(),
{
    if second.len() == 0 {
        assert(first + second =~= first);
        assert(pauses(start, first) + Seq::<Pause>::empty() =~= pauses(start, first));
    } else {
        let front = second.drop_last();
        assert((first + second).drop_last() =~= first + front);
        lemma_pauses_then(start, first, front);
        lemma_after_all_then(start, first, front);
        let middle = start.after_all(first);
        match second.last() {
            BusOp::Wait { us } => {
                let pause = Pause { levels: middle.after_all(front), us };
                assert((pauses(start, first) + pauses(middle, front)).push(pause) =~= pauses(
                    start,
                    first,
                ) + pauses(middle, front).push(pause));
            },
            BusOp::Drive { .. } => {},
        }
    }
}

/// Setting the two control lines leaves them at the levels asked for, keeps
/// the data lines, and makes no pause.
pub proof fn lemma_mode_ops(start: Levels, bdir: bool, bc1: bool)
    ensures
        ({
            let ops = seq![
                BusOp::Drive { line: Line::Bdir, high: bdir },
                BusOp::Drive { line: Line::Bc1, high: bc1 },
            ];
            &&& start.after_all(ops) == Levels { bdir, bc1, data: start.data }
            &&& pauses(start, ops) == Seq::<Pause>::empty()
        }),
{
    let ops = seq![
        BusOp::Drive { line: Line::Bdir, high: bdir },
        BusOp::Drive { line: Line::Bc1, high: bc1 },
    ];
    let one = seq![BusOp::Drive { line: Line::Bdir, high: bdir }];
    assert(ops.drop_last() =~= one);
    assert(one.drop_last() =~= Seq::<BusOp>::empty());
    assert(start.after_all(one.drop_last()) == start);
    assert(start.after_all(one) == Levels { bdir, ..start });
    assert(pauses(start, one.drop_last()) =~= Seq::<Pause>::empty());
    assert(pauses(start, one) =~= Seq::<Pause>::empty());
}

/// A settle delay changes no line and holds the levels it finds for the
/// settle time.
pub proof fn lemma_settle_ops(start: Levels)
    ensures
        start.after_all(settle_ops()) == start,
        pauses(start, settle_ops()) == seq![Pause { levels: start, us: SETTLE_US }],
{
    let ops = settle_ops();
    assert(ops.drop_last() =~= Seq::<BusOp>::empty());
    assert(start.after_all(ops.drop_last()) == start);
    assert(pauses(start, ops.drop_last()) =~= Seq::<Pause>::empty());
    assert(pauses(start, ops) =~= seq![Pause { levels: start, us: SETTLE_US }]);
}

/// The low `k` bits of `new` over the other bits of `old`.
spec fn merged(old: u8, new: u8, k: u8) -> u8 {
    (old & (0xffu8 << k)) | (new & !(0xffu8 << k))
}

/// After the first `k` data lines have been driven to the bits of `value`,
/// the data lines spell the low `k` bits of `value` over what they held.
proof fn lemma_drive_byte_prefix(start: Levels, value: u8, k: int)
    requires
        0 <= k <= 8,
    ensures
        start.after_all(drive_byte_ops(value).take(k)) == (Levels {
            data: merged(start.data, value, k as u8),
            ..start
        }),
        pauses(start, drive_byte_ops(value).take(k)) == Seq::<Pause>::empty(),
    decreases k,
{
    let plan = drive_byte_ops(value);
    let old = start.data;
    if k == 0 {
        assert(plan.take(0) =~= Seq::<BusOp>::empty());
        assert(merged(old, value, 0) == old) by (bit_vector);
    } else {
        let j = (k - 1) as u8;
        lemma_drive_byte_prefix(start, value, k - 1);
        assert(plan.take(k).drop_last() =~= plan.take(k - 1));
        assert(plan.take(k).last() == BusOp::Drive { line: Line::data(j as int), high: bit(value, j) });
        assert(Line::data(j as int).data_bit() == Some(j));
        let next = (j + 1) as u8;
        assert(with_bit(merged(old, value, j), j, bit(value, j)) == merged(old, value, next))
            by (bit_vector)
            requires
                j < 8,
                next == j + 1,
        ;
    }
}

/// Driving a byte leaves the data lines spelling that byte, whatever they
/// held before, keeps the control lines, and makes no pause.
pub proof fn lemma_drive_byte_ops(start: Levels, value: u8)
    ensures
        start.after_all(drive_byte_ops(value)) == (Levels { data: value, ..start }),
        pauses(start, drive_byte_ops(value)) == Seq::<Pause>::empty(),
{
    lemma_drive_byte_prefix(start, value, 8);
    assert(drive_byte_ops(value).take(8) =~= drive_byte_ops(value));
    let old = start.data;
    assert(merged(old, value, 8) == value) by (bit_vector);
}

/// What the chip sees of one register write: address-latch mode with the
/// address on the data lines, inactive mode, write mode with the value on the
/// data lines, inactive mode, each held for the settle time.
pub open spec fn register_write_pauses(address: u8, value: u8) -> Seq<Pause> {
    seq![
        Pause { levels: Levels { bdir: true, bc1: true, data: address }, us: SETTLE_US },
        Pause { levels: Levels { bdir: false, bc1: false, data: address }, us: SETTLE_US },
        Pause { levels: Levels { bdir: true, bc1: false, data: value }, us: SETTLE_US },
        Pause { levels: Levels { bdir: false, bc1: false, data: value }, us: SETTLE_US },
    ]
}

/// What the chip sees of a list of register writes: the pauses of each, one
/// after the other.
pub open spec fn register_writes_pauses(writes: Seq<(u8, u8)>) -> Seq<Pause>
    decreases writes.len(),
{
    if writes.len() == 0 {
        Seq::empty()
    } else {
        register_writes_pauses(writes.drop_last()) + register_write_pauses(
            writes.last().0,
            writes.last().1,
        )
    }
}

/// The address phase holds address-latch mode with the address on the data
/// lines, then inactive mode, and ends there, whatever the lines were at.
pub proof fn lemma_set_address_pauses(start: Levels, address: u8)
    ensures
        pauses(start, set_address_ops(address)) == seq![
            Pause { levels: Levels { bdir: true, bc1: true, data: address }, us: SETTLE_US },
            Pause { levels: Levels { bdir: false, bc1: false, data: address }, us: SETTLE_US },
        ],
        start.after_all(set_address_ops(address)) == (Levels {
            bdir: false,
            bc1: false,
            data: address,
        }),
{
    let mode = address_mode_ops();
    let byte = mode + drive_byte_ops(address);
    let held = byte + settle_ops();
    let idle = held + inactive_mode_ops();
    let latch = Levels { bdir: true, bc1: true, data: address };
    let rest = Levels { bdir: false, bc1: false, data: address };

    lemma_mode_ops(start, true, true);
    let in_mode = start.after_all(mode);
    lemma_drive_byte_ops(in_mode, address);
    lemma_after_all_then(start, mode, drive_byte_ops(address));
    lemma_pauses_then(start, mode, drive_byte_ops(address));
    assert(start.after_all(byte) == latch);
    assert(pauses(start, byte) =~= Seq::<Pause>::empty());

    lemma_settle_ops(latch);
    lemma_after_all_then(start, byte, settle_ops());
    lemma_pauses_then(start, byte, settle_ops());
    assert(pauses(start, held) =~= seq![Pause { levels: latch, us: SETTLE_US }]);

    lemma_mode_ops(latch, false, false);
    lemma_after_all_then(start, held, inactive_mode_ops());
    lemma_pauses_then(start, held, inactive_mode_ops());
    assert(start.after_all(idle) == rest);
    assert(pauses(start, idle) =~= seq![Pause { levels: latch, us: SETTLE_US }]);

    lemma_settle_ops(rest);
    lemma_after_all_then(start, idle, settle_ops());
    lemma_pauses_then(start, idle, settle_ops());
    assert(pauses(start, idle + settle_ops()) =~= seq![
        Pause { levels: latch, us: SETTLE_US },
        Pause { levels: rest, us: SETTLE_US },
    ]);
}

/// The data phase holds write mode with the value on the data lines, then
/// inactive mode, and ends there, whatever the lines were at.
pub proof fn lemma_set_data_pauses(start: Levels, value: u8)
    ensures
        pauses(start, set_data_ops(value)) == seq![
            Pause { levels: Levels { bdir: true, bc1: false, data: value }, us: SETTLE_US },
            Pause { levels: Levels { bdir: false, bc1: false, data: value }, us: SETTLE_US },
        ],
        start.after_all(set_data_ops(value)) == (Levels { bdir: false, bc1: false, data: value }),
{
    let byte = drive_byte_ops(value);
    let mode = byte + write_mode_ops();
    let held = mode + settle_ops();
    let idle = held + inactive_mode_ops();
    let pulse = Levels { bdir: true, bc1: false, data: value };
    let rest = Levels { bdir: false, bc1: false, data: value };

    lemma_drive_byte_ops(start, value);
    let on_lines = start.after_all(byte);
    lemma_mode_ops(on_lines, true, false);
    lemma_after_all_then(start, byte, write_mode_ops());
    lemma_pauses_then(start, byte, write_mode_ops());
    assert(start.after_all(mode) == pulse);
    assert(pauses(start, mode) =~= Seq::<Pause>::empty());

    lemma_settle_ops(pulse);
    lemma_after_all_then(start, mode, settle_ops());
    lemma_pauses_then(start, mode, settle_ops());
    assert(pauses(start, held) =~= seq![Pause { levels: pulse, us: SETTLE_US }]);

    lemma_mode_ops(pulse, false, false);
    lemma_after_all_then(start, held, inactive_mode_ops());
    lemma_pauses_then(start, held, inactive_mode_ops());
    assert(start.after_all(idle) == rest);
    assert(pauses(start, idle) =~= seq![Pause { levels: pulse, us: SETTLE_US }]);

    lemma_settle_ops(rest);
    lemma_after_all_then(start, idle, settle_ops());
    lemma_pauses_then(start, idle, settle_ops());
    assert(pauses(start, idle + settle_ops()) =~= seq![
        Pause { levels: pulse, us: SETTLE_US },
        Pause { levels: rest, us: SETTLE_US },
    ]);
}

/// What the chip sees of a register write does not depend on where the
/// lines were: address-latch mode with the address, inactive mode, write mode
/// with the value, inactive mode, each held for the settle time; and the
/// write leaves the bus in inactive mode.
pub proof fn lemma_write_register_pauses(start: Levels, address: u8, value: u8)
    ensures
        pauses(start, write_register_ops(address, value)) == register_write_pauses(address, value),
        modes(register_write_pauses(address, value)) == seq![
            Some(BusMode::AddressLatch),
            Some(BusMode::Inactive),
            Some(BusMode::Write),
            Some(BusMode::Inactive),
        ],
        start.after_all(write_register_ops(address, value)) == (Levels {
            bdir: false,
            bc1: false,
            data: value,
        }),
{
    let latched = Levels { bdir: false, bc1: false, data: address };
    lemma_set_address_pauses(start, address);
    lemma_set_data_pauses(latched, value);
    lemma_after_all_then(start, set_address_ops(address), set_data_ops(value));
    lemma_pauses_then(start, set_address_ops(address), set_data_ops(value));
    assert(pauses(start, write_register_ops(address, value)) =~= register_write_pauses(
        address,
        value,
    ));
    assert(modes(register_write_pauses(address, value)) =~= seq![
        Some(BusMode::AddressLatch),
        Some(BusMode::Inactive),
        Some(BusMode::Write),
        Some(BusMode::Inactive),
    ]);
}

/// What the chip sees of a list of register writes is what it sees of each,
/// one after the other, wherever the lines were; and a list that is not empty
/// leaves the bus in inactive mode.
pub proof fn lemma_write_registers_pauses(start: Levels, writes: Seq<(u8, u8)>)
    ensures
        pauses(start, write_registers_ops(writes)) == register_writes_pauses(writes),
        writes.len() > 0 ==> start.after_all(write_registers_ops(writes)) == (Levels {
            bdir: false,
            bc1: false,
            data: writes.last().1,
        }),
    decreases writes.len(),
{
    if writes.len() > 0 {
        let front = writes.drop_last();
        let (address, value) = writes.last();
        lemma_write_registers_pauses(start, front);
        let middle = start.after_all(write_registers_ops(front));
        lemma_write_register_pauses(middle, address, value);
        lemma_after_all_then(start, write_registers_ops(front), write_register_ops(address, value));
        lemma_pauses_then(start, write_registers_ops(front), write_register_ops(address, value));
    }
}

} // verus!
