//! The bus protocol of the chip, as plans: the exact operations, in order,
//! that each step of a register write asks of the bus.

use vstd::prelude::*;
use crate::bus::{BusOp, Line};

verus! {

/// Microseconds the bus is held still after each change of mode.
pub const SETTLE_US: u32 = 1;

/// Bit `i` of `value`, bit 0 being the least significant.
pub open spec fn bit(value: u8, i: u8) -> bool {
    (value >> i) & 1 == 1
}

/// BDIR high, BC1 low: the chip samples the data lines into the latched
/// register.
pub open spec fn write_mode_ops() -> Seq<BusOp> {
    seq![
        BusOp::Drive { line: Line::Bdir, high: true },
        BusOp::Drive { line: Line::Bc1, high: false },
    ]
}

/// BDIR high, BC1 high: the chip latches the data lines as a register address.
pub open spec fn address_mode_ops() -> Seq<BusOp> {
    seq![
        BusOp::Drive { line: Line::Bdir, high: true },
        BusOp::Drive { line: Line::Bc1, high: true },
    ]
}

/// BDIR low, BC1 low: the chip ignores the data lines.
pub open spec fn inactive_mode_ops() -> Seq<BusOp> {
    seq![
        BusOp::Drive { line: Line::Bdir, high: false },
        BusOp::Drive { line: Line::Bc1, high: false },
    ]
}

/// One settle delay.
pub open spec fn settle_ops() -> Seq<BusOp> {
    seq![BusOp::Wait { us: SETTLE_US }]
}

/// Each data line set to its bit of `value`, `D0` first.
pub open spec fn drive_byte_ops(value: u8) -> Seq<BusOp> {
    Seq::new(8, |i: int| BusOp::Drive { line: Line::data(i), high: bit(value, i as u8) })
}

/// The address phase of a register write: enter address mode, put the
/// address on the data lines, settle, go inactive, settle.
pub open spec fn set_address_ops(address: u8) -> Seq<BusOp> {
    address_mode_ops() + drive_byte_ops(address) + settle_ops() + inactive_mode_ops()
        + settle_ops()
}

/// The data phase of a register write: put the value on the data lines, enter
/// write mode, settle, go inactive, settle.
pub open spec fn set_data_ops(value: u8) -> Seq<BusOp> {
    drive_byte_ops(value) + write_mode_ops() + settle_ops() + inactive_mode_ops() + settle_ops()
}

/// One register write: the address phase, then the data phase.
pub open spec fn write_register_ops(address: u8, value: u8) -> Seq<BusOp> {
    set_address_ops(address) + set_data_ops(value)
}

/// A list of register writes, each an (address, value) pair, one after the
/// other.
pub open spec fn write_registers_ops(writes: Seq<(u8, u8)>) -> Seq<BusOp>
    decreases writes.len(),
{
    if writes.len() == 0 {
        Seq::empty()
    } else {
        write_registers_ops(writes.drop_last()) + write_register_ops(
            writes.last().0,
            writes.last().1,
        )
    }
}

/// A list of one write is that register write.
pub proof fn lemma_write_registers_one(address: u8, value: u8)
    ensures
        write_registers_ops(seq![(address, value)]) == write_register_ops(address, value),
{
    let writes = seq![(address, value)];
    assert(writes.drop_last() =~= Seq::<(u8, u8)>::empty());
    assert(write_registers_ops(writes.drop_last()) =~= Seq::<BusOp>::empty());
    assert(write_registers_ops(writes) =~= write_register_ops(address, value));
}

/// One more write at the end of a list adds its operations at the end.
pub proof fn lemma_write_registers_push(writes: Seq<(u8, u8)>, address: u8, value: u8)
    ensures
        write_registers_ops(writes.push((address, value))) == write_registers_ops(writes)
            + write_register_ops(address, value),
{
    assert(writes.push((address, value)).drop_last() =~= writes);
}

/// The operations of the first writes of a list are the first operations of
/// the list.
pub proof fn lemma_write_registers_prefix(writes: Seq<(u8, u8)>, n: int)
    requires
        0 <= n <= writes.len(),
    ensures
        write_registers_ops(writes.take(n)).is_prefix_of(write_registers_ops(writes)),
    decreases writes.len() - n,
{
    if n == writes.len() {
        assert(writes.take(n) =~= writes);
    } else {
        lemma_write_registers_prefix(writes, n + 1);
        assert(writes.take(n + 1) =~= writes.take(n).push(writes[n]));
        lemma_write_registers_push(writes.take(n), writes[n].0, writes[n].1);
    }
}

/// Number of operations in one register write.
pub const WRITE_REGISTER_OPS: usize = 28;

/// The address phase, operation by operation.
pub proof fn lemma_set_address_ops_listed(address: u8)
    ensures
        set_address_ops(address) == seq![
            BusOp::Drive { line: Line::Bdir, high: true },
            BusOp::Drive { line: Line::Bc1, high: true },
            BusOp::Drive { line: Line::D0, high: bit(address, 0) },
            BusOp::Drive { line: Line::D1, high: bit(address, 1) },
            BusOp::Drive { line: Line::D2, high: bit(address, 2) },
            BusOp::Drive { line: Line::D3, high: bit(address, 3) },
            BusOp::Drive { line: Line::D4, high: bit(address, 4) },
            BusOp::Drive { line: Line::D5, high: bit(address, 5) },
            BusOp::Drive { line: Line::D6, high: bit(address, 6) },
            BusOp::Drive { line: Line::D7, high: bit(address, 7) },
            BusOp::Wait { us: 1 },
            BusOp::Drive { line: Line::Bdir, high: false },
            BusOp::Drive { line: Line::Bc1, high: false },
            BusOp::Wait { us: 1 },
        ],
{
    assert(drive_byte_ops(address) =~= seq![
        BusOp::Drive { line: Line::D0, high: bit(address, 0) },
        BusOp::Drive { line: Line::D1, high: bit(address, 1) },
        BusOp::Drive { line: Line::D2, high: bit(address, 2) },
        BusOp::Drive { line: Line::D3, high: bit(address, 3) },
        BusOp::Drive { line: Line::D4, high: bit(address, 4) },
        BusOp::Drive { line: Line::D5, high: bit(address, 5) },
        BusOp::Drive { line: Line::D6, high: bit(address, 6) },
        BusOp::Drive { line: Line::D7, high: bit(address, 7) },
    ]);
}

/// The data phase, operation by operation.
pub proof fn lemma_set_data_ops_listed(value: u8)
    ensures
        set_data_ops(value) == seq![
            BusOp::Drive { line: Line::D0, high: bit(value, 0) },
            BusOp::Drive { line: Line::D1, high: bit(value, 1) },
            BusOp::Drive { line: Line::D2, high: bit(value, 2) },
            BusOp::Drive { line: Line::D3, high: bit(value, 3) },
            BusOp::Drive { line: Line::D4, high: bit(value, 4) },
            BusOp::Drive { line: Line::D5, high: bit(value, 5) },
            BusOp::Drive { line: Line::D6, high: bit(value, 6) },
            BusOp::Drive { line: Line::D7, high: bit(value, 7) },
            BusOp::Drive { line: Line::Bdir, high: true },
            BusOp::Drive { line: Line::Bc1, high: false },
            BusOp::Wait { us: 1 },
            BusOp::Drive { line: Line::Bdir, high: false },
            BusOp::Drive { line: Line::Bc1, high: false },
            BusOp::Wait { us: 1 },
        ],
{
    assert(drive_byte_ops(value) =~= seq![
        BusOp::Drive { line: Line::D0, high: bit(value, 0) },
        BusOp::Drive { line: Line::D1, high: bit(value, 1) },
        BusOp::Drive { line: Line::D2, high: bit(value, 2) },
        BusOp::Drive { line: Line::D3, high: bit(value, 3) },
        BusOp::Drive { line: Line::D4, high: bit(value, 4) },
        BusOp::Drive { line: Line::D5, high: bit(value, 5) },
        BusOp::Drive { line: Line::D6, high: bit(value, 6) },
        BusOp::Drive { line: Line::D7, high: bit(value, 7) },
    ]);
}

/// A register write has the operations of its two phases and no other.
pub proof fn lemma_write_register_ops_len(address: u8, value: u8)
    ensures
        set_address_ops(address).len() == 14,
        set_data_ops(value).len() == 14,
        write_register_ops(address, value).len() == WRITE_REGISTER_OPS,
{
}

/// A list of register writes is one block of operations for each write, in
/// the order of the list: the block of write `i` is that register write.
pub proof fn lemma_write_registers_blocks(writes: Seq<(u8, u8)>, i: int)
    requires
        0 <= i < writes.len(),
    ensures
        write_registers_ops(writes).len() == WRITE_REGISTER_OPS * writes.len(),
        write_registers_ops(writes).subrange(
            WRITE_REGISTER_OPS * i,
            WRITE_REGISTER_OPS * i + WRITE_REGISTER_OPS,
        ) == write_register_ops(writes[i].0, writes[i].1),
    decreases writes.len(),
{
    let front = writes.drop_last();
    let (address, value) = writes.last();
    let ops = write_registers_ops(writes);
    lemma_write_registers_len(front);
    lemma_write_register_ops_len(address, value);
    if i == writes.len() - 1 {
        assert(ops.subrange(WRITE_REGISTER_OPS * i, WRITE_REGISTER_OPS * i + WRITE_REGISTER_OPS)
            =~= write_register_ops(address, value));
    } else {
        lemma_write_registers_blocks(front, i);
        assert(ops.subrange(WRITE_REGISTER_OPS * i, WRITE_REGISTER_OPS * i + WRITE_REGISTER_OPS)
            =~= write_registers_ops(front).subrange(
            WRITE_REGISTER_OPS * i,
            WRITE_REGISTER_OPS * i + WRITE_REGISTER_OPS,
        ));
    }
}

/// A list of register writes has as many operations as its writes have
/// together.
pub proof fn lemma_write_registers_len(writes: Seq<(u8, u8)>)
    ensures
        write_registers_ops(writes).len() == WRITE_REGISTER_OPS * writes.len(),
    decreases writes.len(),
{
    if writes.len() > 0 {
        lemma_write_registers_len(writes.drop_last());
        lemma_write_register_ops_len(writes.last().0, writes.last().1);
    }
}

} // verus!
