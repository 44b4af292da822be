use std::cell::RefCell;
use std::rc::Rc;

use ym2149::{
    Channel, ChannelLevel, DelayUs, EnvelopeFlag, EnvelopeShape, Error, IoPort, MixerFlag,
    MixerSettings, OutputPin, Ym2149,
};

/// What the pins and the delay of a test bench saw, in order.
#[derive(Debug, Clone, Copy, PartialEq, Eq)]
enum Seen {
    Pin(&'static str, bool),
    Delay(u32),
}

/// The error of a pin that was told to fail: the position, among everything
/// the bench saw, of the attempt that failed.
#[derive(Debug, Clone, Copy, PartialEq, Eq)]
struct Fault(usize);

#[derive(Debug, Default)]
struct Bench {
    seen: Vec<Seen>,
    fail_at: Option<usize>,
}

#[derive(Debug, Clone)]
struct Pin {
    name: &'static str,
    bench: Rc<RefCell<Bench>>,
}

impl PartialEq for Pin {
    fn eq(&self, other: &Pin) -> bool {
        self.name == other.name
    }
}

impl Eq for Pin {}

impl OutputPin for Pin {
    type Error = Fault;

    fn set_state(&mut self, high: bool) -> Result<(), Fault> {
        let mut bench = self.bench.borrow_mut();
        let at = bench.seen.len();
        bench.seen.push(Seen::Pin(self.name, high));
        if bench.fail_at == Some(at) {
            Err(Fault(at))
        } else {
            Ok(())
        }
    }
}

struct Clock {
    bench: Rc<RefCell<Bench>>,
}

impl DelayUs for Clock {
    fn delay_us(&mut self, us: u32) {
        self.bench.borrow_mut().seen.push(Seen::Delay(us));
    }
}

const DATA: [&str; 8] = ["d0", "d1", "d2", "d3", "d4", "d5", "d6", "d7"];

fn build(bench: &Rc<RefCell<Bench>>) -> Result<Ym2149<Pin, Clock>, Error<Pin>> {
    let pin = |name: &'static str| Pin { name, bench: bench.clone() };
    Ym2149::new(
        pin("bdir"),
        pin("bc1"),
        pin("d0"),
        pin("d1"),
        pin("d2"),
        pin("d3"),
        pin("d4"),
        pin("d5"),
        pin("d6"),
        pin("d7"),
        Clock { bench: bench.clone() },
    )
}

/// A driver on a fresh bench, with what `new` did wiped from the bench.
fn chip() -> (Ym2149<Pin, Clock>, Rc<RefCell<Bench>>) {
    let bench = Rc::new(RefCell::new(Bench::default()));
    let chip = match build(&bench) {
        Ok(chip) => chip,
        Err(e) => panic!("no pin was told to fail: {:?}", e),
    };
    bench.borrow_mut().seen.clear();
    (chip, bench)
}

/// A driver on a fresh bench whose pins fail at attempt `at`, counted from
/// the first thing the bench sees after `new`.
fn chip_failing_at(at: usize) -> (Ym2149<Pin, Clock>, Rc<RefCell<Bench>>) {
    let (chip, bench) = chip();
    bench.borrow_mut().fail_at = Some(at);
    (chip, bench)
}

fn byte(value: u8) -> Vec<Seen> {
    (0..8).map(|i| Seen::Pin(DATA[i], (value >> i) & 1 == 1)).collect()
}

fn register_write(address: u8, value: u8) -> Vec<Seen> {
    let mut seen = vec![Seen::Pin("bdir", true), Seen::Pin("bc1", true)];
    seen.extend(byte(address));
    seen.push(Seen::Delay(1));
    seen.extend([Seen::Pin("bdir", false), Seen::Pin("bc1", false), Seen::Delay(1)]);
    seen.extend(byte(value));
    seen.extend([Seen::Pin("bdir", true), Seen::Pin("bc1", false), Seen::Delay(1)]);
    seen.extend([Seen::Pin("bdir", false), Seen::Pin("bc1", false), Seen::Delay(1)]);
    seen
}

fn register_writes(writes: &[(u8, u8)]) -> Vec<Seen> {
    writes.iter().flat_map(|&(address, value)| register_write(address, value)).collect()
}

fn seen(bench: &Rc<RefCell<Bench>>) -> Vec<Seen> {
    bench.borrow().seen.clone()
}

#[test]
fn it_works() {
    let (mut chip, bench) = chip();
    assert_eq!(chip.set_noise(0x1f), Ok(()));
    assert_eq!(seen(&bench), register_write(0x6, 0x1f));
    assert_eq!(seen(&bench).len(), 28);
}

#[test]
fn new_forces_inactive_mode() {
    let bench = Rc::new(RefCell::new(Bench::default()));
    assert!(build(&bench).is_ok());
    assert_eq!(seen(&bench), vec![Seen::Pin("bdir", false), Seen::Pin("bc1", false)]);
}

#[test]
fn new_reports_a_failing_bdir_and_sets_nothing_more() {
    let bench = Rc::new(RefCell::new(Bench { seen: Vec::new(), fail_at: Some(0) }));
    match build(&bench) {
        Ok(_) => panic!("bdir was told to fail"),
        Err(e) => assert_eq!(e, Error::PinError(Fault(0))),
    }
    assert_eq!(seen(&bench), vec![Seen::Pin("bdir", false)]);
}

#[test]
fn new_reports_a_failing_bc1() {
    let bench = Rc::new(RefCell::new(Bench { seen: Vec::new(), fail_at: Some(1) }));
    match build(&bench) {
        Ok(_) => panic!("bc1 was told to fail"),
        Err(e) => assert_eq!(e, Error::PinError(Fault(1))),
    }
    assert_eq!(seen(&bench), vec![Seen::Pin("bdir", false), Seen::Pin("bc1", false)]);
}

#[test]
fn set_register_value_sequences_one_write() {
    let (mut chip, bench) = chip();
    assert_eq!(chip.set_register_value(0x7, 0b1010_0101), Ok(()));
    let expected = vec![
        Seen::Pin("bdir", true),
        Seen::Pin("bc1", true),
        Seen::Pin("d0", true),
        Seen::Pin("d1", true),
        Seen::Pin("d2", true),
        Seen::Pin("d3", false),
        Seen::Pin("d4", false),
        Seen::Pin("d5", false),
        Seen::Pin("d6", false),
        Seen::Pin("d7", false),
        Seen::Delay(1),
        Seen::Pin("bdir", false),
        Seen::Pin("bc1", false),
        Seen::Delay(1),
        Seen::Pin("d0", true),
        Seen::Pin("d1", false),
        Seen::Pin("d2", true),
        Seen::Pin("d3", false),
        Seen::Pin("d4", false),
        Seen::Pin("d5", true),
        Seen::Pin("d6", false),
        Seen::Pin("d7", true),
        Seen::Pin("bdir", true),
        Seen::Pin("bc1", false),
        Seen::Delay(1),
        Seen::Pin("bdir", false),
        Seen::Pin("bc1", false),
        Seen::Delay(1),
    ];
    assert_eq!(seen(&bench), expected);
}

#[test]
fn set_register_value_holds_each_mode_for_one_microsecond() {
    let (mut chip, bench) = chip();
    assert_eq!(chip.set_register_value(0xA, 0x0f), Ok(()));
    let seen = seen(&bench);
    let delays: Vec<usize> =
        (0..seen.len()).filter(|&i| matches!(seen[i], Seen::Delay(_))).collect();
    assert_eq!(delays, vec![10, 13, 24, 27]);
    for &i in &delays {
        assert_eq!(seen[i], Seen::Delay(1));
    }
    // The two delays at 13 and 27 each follow a return to inactive mode.
    for &i in &[13usize, 27] {
        assert_eq!(seen[i - 2], Seen::Pin("bdir", false));
        assert_eq!(seen[i - 1], Seen::Pin("bc1", false));
    }
}

#[test]
fn set_register_value_covers_every_address_and_value() {
    let (mut chip, bench) = chip();
    for address in 0..16u8 {
        for value in 0..=255u8 {
            bench.borrow_mut().seen.clear();
            assert_eq!(chip.set_register_value(address, value), Ok(()));
            assert_eq!(seen(&bench), register_write(address, value));
        }
    }
}

#[test]
fn set_register_value_drives_all_eight_bits_of_the_address() {
    let (mut chip, bench) = chip();
    assert_eq!(chip.set_register_value(0xff, 0x00), Ok(()));
    let seen = seen(&bench);
    assert_eq!(&seen[2..10], &byte(0xff)[..]);
    assert_eq!(&seen[14..22], &byte(0x00)[..]);
}

#[test]
fn set_register_value_stops_at_the_pin_that_fails() {
    let expected = register_write(0x3, 0xc5);
    for at in 0..expected.len() {
        let (mut chip, bench) = chip_failing_at(at);
        let result = chip.set_register_value(0x3, 0xc5);
        match expected[at] {
            Seen::Pin(..) => {
                assert_eq!(result, Err(Error::PinError(Fault(at))));
                assert_eq!(seen(&bench), expected[..at + 1].to_vec());
            }
            Seen::Delay(_) => {
                assert_eq!(result, Ok(()));
                assert_eq!(seen(&bench), expected);
            }
        }
    }
}

#[test]
fn a_failure_leaves_the_driver_usable() {
    let (mut chip, bench) = chip_failing_at(5);
    assert_eq!(chip.set_register_value(0x1, 0x2), Err(Error::PinError(Fault(5))));
    bench.borrow_mut().fail_at = None;
    bench.borrow_mut().seen.clear();
    assert_eq!(chip.set_register_value(0x1, 0x2), Ok(()));
    assert_eq!(seen(&bench), register_write(0x1, 0x2));
}

#[test]
fn clear_all_registers_writes_zero_to_sixteen_registers_in_order() {
    let (mut chip, bench) = chip();
    assert_eq!(chip.clear_all_registers(), Ok(()));
    let writes: Vec<(u8, u8)> = (0..16u8).map(|address| (address, 0)).collect();
    assert_eq!(writes.len(), 16);
    assert_eq!(seen(&bench), register_writes(&writes));
    assert_eq!(seen(&bench).len(), 16 * 28);
}

#[test]
fn clear_all_registers_twice_asks_the_same_twice() {
    let (mut chip, bench) = chip();
    assert_eq!(chip.clear_all_registers(), Ok(()));
    let first = seen(&bench);
    bench.borrow_mut().seen.clear();
    assert_eq!(chip.clear_all_registers(), Ok(()));
    let second = seen(&bench);
    assert_eq!(first.len(), 448);
    assert_eq!(first, second);
}

#[test]
fn clear_all_registers_stops_at_the_write_that_fails() {
    // Attempt 3 * 28 + 4 is the drive of d2 in the address phase of the write
    // to register 3.
    let at = 3 * 28 + 4;
    let (mut chip, bench) = chip_failing_at(at);
    assert_eq!(chip.clear_all_registers(), Err(Error::PinError(Fault(at))));
    let writes: Vec<(u8, u8)> = (0..16u8).map(|address| (address, 0)).collect();
    assert_eq!(seen(&bench), register_writes(&writes)[..at + 1].to_vec());
    assert_eq!(seen(&bench)[at], Seen::Pin("d2", false));
}

#[test]
fn set_channel_frequency_writes_fine_then_rough() {
    let (mut chip, bench) = chip();
    assert_eq!(chip.set_channel_frequency(Channel::A, 0x1234), Ok(()));
    assert_eq!(seen(&bench), register_writes(&[(0x0, 0x34), (0x1, 0x12)]));
}

#[test]
fn set_channel_frequency_maps_channel_b() {
    let (mut chip, bench) = chip();
    assert_eq!(chip.set_channel_frequency(Channel::B, 0x1234), Ok(()));
    assert_eq!(seen(&bench), register_writes(&[(0x2, 0x34), (0x3, 0x12)]));
}

#[test]
fn set_channel_frequency_maps_channel_c() {
    let (mut chip, bench) = chip();
    assert_eq!(chip.set_channel_frequency(Channel::C, 0x1234), Ok(()));
    assert_eq!(seen(&bench), register_writes(&[(0x4, 0x34), (0x5, 0x12)]));
}

#[test]
fn set_channel_frequency_keeps_all_eight_bits_of_the_high_byte() {
    let (mut chip, bench) = chip();
    assert_eq!(chip.set_channel_frequency(Channel::A, 0xffff), Ok(()));
    assert_eq!(seen(&bench), register_writes(&[(0x0, 0xff), (0x1, 0xff)]));
    bench.borrow_mut().seen.clear();
    assert_eq!(chip.set_channel_frequency(Channel::A, 0x0000), Ok(()));
    assert_eq!(seen(&bench), register_writes(&[(0x0, 0x00), (0x1, 0x00)]));
    bench.borrow_mut().seen.clear();
    assert_eq!(chip.set_channel_frequency(Channel::A, 0xf00f), Ok(()));
    assert_eq!(seen(&bench), register_writes(&[(0x0, 0x0f), (0x1, 0xf0)]));
}

#[test]
fn set_channel_frequency_gives_up_the_rough_write_when_the_fine_write_fails() {
    let (mut chip, bench) = chip_failing_at(22);
    assert_eq!(
        chip.set_channel_frequency(Channel::A, 0x1234),
        Err(Error::PinError(Fault(22)))
    );
    assert_eq!(seen(&bench), register_write(0x0, 0x34)[..23].to_vec());
}

#[test]
fn set_channel_frequency_reports_a_failure_in_the_rough_write() {
    let (mut chip, bench) = chip_failing_at(28);
    assert_eq!(
        chip.set_channel_frequency(Channel::C, 0x1234),
        Err(Error::PinError(Fault(28)))
    );
    let mut expected = register_write(0x4, 0x34);
    expected.push(Seen::Pin("bdir", true));
    assert_eq!(seen(&bench), expected);
}

#[test]
fn set_noise_writes_the_noise_register() {
    let (mut chip, bench) = chip();
    assert_eq!(chip.set_noise(0xab), Ok(()));
    assert_eq!(seen(&bench), register_writes(&[(0x6, 0xab)]));
}

#[test]
fn set_mixer_settings_writes_the_raw_byte() {
    let (mut chip, bench) = chip();
    let settings = MixerSettings::empty()
        .with(MixerFlag::DisableToneA)
        .with(MixerFlag::DisableNoiseB)
        .with(MixerFlag::OutputIOB);
    assert_eq!(chip.set_mixer_settings(settings), Ok(()));
    assert_eq!(seen(&bench), register_writes(&[(0x7, 0b1001_0001)]));
}

#[test]
fn set_mixer_settings_writes_every_byte_as_it_is() {
    let (mut chip, bench) = chip();
    for bits in [0x00u8, 0x01, 0x80, 0x3f, 0xc0, 0xff] {
        bench.borrow_mut().seen.clear();
        assert_eq!(chip.set_mixer_settings(MixerSettings::from_bits(bits)), Ok(()));
        assert_eq!(seen(&bench), register_writes(&[(0x7, bits)]));
    }
}

#[test]
fn set_channel_level_masks_a_fixed_level_to_four_bits() {
    let (mut chip, bench) = chip();
    assert_eq!(chip.set_channel_level(Channel::A, ChannelLevel::Fixed(20)), Ok(()));
    assert_eq!(seen(&bench), register_writes(&[(0x8, 0b0100)]));
}

#[test]
fn set_channel_level_marks_the_envelope() {
    let (mut chip, bench) = chip();
    assert_eq!(chip.set_channel_level(Channel::B, ChannelLevel::Envelope), Ok(()));
    assert_eq!(seen(&bench), register_writes(&[(0x9, 0b10000)]));
}

#[test]
fn set_channel_level_maps_channel_c() {
    let (mut chip, bench) = chip();
    assert_eq!(chip.set_channel_level(Channel::C, ChannelLevel::Fixed(15)), Ok(()));
    assert_eq!(seen(&bench), register_writes(&[(0xA, 15)]));
    bench.borrow_mut().seen.clear();
    assert_eq!(chip.set_channel_level(Channel::C, ChannelLevel::Fixed(16)), Ok(()));
    assert_eq!(seen(&bench), register_writes(&[(0xA, 0)]));
    bench.borrow_mut().seen.clear();
    assert_eq!(chip.set_channel_level(Channel::C, ChannelLevel::Fixed(255)), Ok(()));
    assert_eq!(seen(&bench), register_writes(&[(0xA, 15)]));
}

#[test]
fn set_envelope_frequency_writes_fine_then_rough() {
    let (mut chip, bench) = chip();
    assert_eq!(chip.set_envelope_frequency(0xbeef), Ok(()));
    assert_eq!(seen(&bench), register_writes(&[(0xB, 0xef), (0xC, 0xbe)]));
}

#[test]
fn set_envelope_shape_writes_the_raw_byte() {
    let (mut chip, bench) = chip();
    let shape = EnvelopeShape::empty().with(EnvelopeFlag::Att).with(EnvelopeFlag::Cont);
    assert_eq!(chip.set_envelope_shape(shape), Ok(()));
    assert_eq!(seen(&bench), register_writes(&[(0xD, 0b1100)]));
}

#[test]
fn set_io_port_data_writes_port_a_through_register_e() {
    let (mut chip, bench) = chip();
    assert_eq!(chip.set_io_port_data(IoPort::A, 0x5a), Ok(()));
    assert_eq!(seen(&bench), register_writes(&[(0xE, 0x5a)]));
}

#[test]
fn set_io_port_data_writes_port_b_through_the_envelope_shape_register() {
    let (mut chip, bench) = chip();
    assert_eq!(chip.set_io_port_data(IoPort::B, 0x0b), Ok(()));
    let port = seen(&bench);
    assert_eq!(port, register_writes(&[(0xD, 0x0b)]));

    bench.borrow_mut().seen.clear();
    let shape = match EnvelopeShape::from_bits(0x0b) {
        Some(shape) => shape,
        None => panic!("0x0b holds nothing but flags"),
    };
    assert_eq!(chip.set_envelope_shape(shape), Ok(()));
    assert_eq!(seen(&bench), port);
}

#[test]
fn set_io_port_data_keeps_the_high_bits_on_port_b() {
    let (mut chip, bench) = chip();
    assert_eq!(chip.set_io_port_data(IoPort::B, 0xf0), Ok(()));
    assert_eq!(seen(&bench), register_writes(&[(0xD, 0xf0)]));
}

#[test]
fn an_error_can_be_cloned_and_copied() {
    let error = Error::<Pin>::PinError(Fault(3));
    let cloned = error.clone();
    let copied = error;
    assert_eq!(cloned, Error::PinError(Fault(3)));
    assert_eq!(copied, cloned);
    assert_eq!(error, copied);
}

#[test]
fn of_pin_wraps_the_error_unchanged() {
    assert_eq!(Error::<Pin>::of_pin(Ok(())), Ok(()));
    assert_eq!(Error::<Pin>::of_pin(Err(Fault(7))), Err(Error::PinError(Fault(7))));
}
