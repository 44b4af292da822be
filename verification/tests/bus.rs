use ym2149::bus::{Bus, DelayUs, Line, OutputPin};

#[derive(Debug, Default)]
struct Latch {
    level: Option<bool>,
    sets: usize,
    stuck: bool,
}

impl OutputPin for Latch {
    type Error = &'static str;

    fn set_state(&mut self, high: bool) -> Result<(), &'static str> {
        self.sets += 1;
        if self.stuck {
            Err("stuck")
        } else {
            self.level = Some(high);
            Ok(())
        }
    }
}

struct NoDelay;

impl DelayUs for NoDelay {
    fn delay_us(&mut self, _us: u32) {}
}

fn bus(stuck: bool) -> Bus<Latch, NoDelay> {
    let latch = || Latch { level: None, sets: 0, stuck };
    Bus::new(
        latch(),
        latch(),
        latch(),
        latch(),
        latch(),
        latch(),
        latch(),
        latch(),
        latch(),
        latch(),
        NoDelay,
    )
}

#[test]
fn data_line_maps_each_bit_to_its_line() {
    let lines = [
        Line::D0,
        Line::D1,
        Line::D2,
        Line::D3,
        Line::D4,
        Line::D5,
        Line::D6,
        Line::D7,
    ];
    for i in 0..8u8 {
        assert_eq!(Line::data_line(i), lines[i as usize]);
    }
}

#[test]
fn drive_hands_back_the_answer_of_the_pin() {
    let mut free = bus(false);
    assert_eq!(free.drive(Line::Bdir, true), Ok(()));
    assert_eq!(free.drive(Line::D7, false), Ok(()));
    free.wait(1);

    let mut stuck = bus(true);
    assert_eq!(stuck.drive(Line::Bc1, true), Err("stuck"));
    assert_eq!(stuck.drive(Line::D0, false), Err("stuck"));
}
