use ym2149::{EnvelopeFlag, EnvelopeShape, MixerFlag, MixerSettings};

const MIXER_FLAGS: [(MixerFlag, u8); 8] = [
    (MixerFlag::DisableToneA, 0b0000_0001),
    (MixerFlag::DisableToneB, 0b0000_0010),
    (MixerFlag::DisableToneC, 0b0000_0100),
    (MixerFlag::DisableNoiseA, 0b0000_1000),
    (MixerFlag::DisableNoiseB, 0b0001_0000),
    (MixerFlag::DisableNoiseC, 0b0010_0000),
    (MixerFlag::OutputIOA, 0b0100_0000),
    (MixerFlag::OutputIOB, 0b1000_0000),
];

const ENVELOPE_FLAGS: [(EnvelopeFlag, u8); 4] = [
    (EnvelopeFlag::Hold, 0b0001),
    (EnvelopeFlag::Alt, 0b0010),
    (EnvelopeFlag::Att, 0b0100),
    (EnvelopeFlag::Cont, 0b1000),
];

#[test]
fn mixer_flags_have_their_bits() {
    for (flag, bits) in MIXER_FLAGS {
        assert_eq!(flag.bits(), bits);
        assert_eq!(MixerSettings::empty().with(flag).bits(), bits);
    }
}

#[test]
fn mixer_settings_empty_and_all() {
    assert_eq!(MixerSettings::empty().bits(), 0x00);
    assert_eq!(MixerSettings::all().bits(), 0xff);
    for (flag, _) in MIXER_FLAGS {
        assert!(!MixerSettings::empty().contains(flag));
        assert!(MixerSettings::all().contains(flag));
    }
}

#[test]
fn mixer_settings_from_bits_keeps_every_byte() {
    for bits in 0..=255u8 {
        assert_eq!(MixerSettings::from_bits(bits).bits(), bits);
    }
}

#[test]
fn mixer_settings_with_adds_one_flag_and_keeps_the_others() {
    for bits in 0..=255u8 {
        let settings = MixerSettings::from_bits(bits);
        for (flag, mask) in MIXER_FLAGS {
            let added = settings.with(flag);
            assert_eq!(added.bits(), bits | mask);
            for (other, other_mask) in MIXER_FLAGS {
                assert_eq!(settings.contains(other), bits & other_mask != 0);
                assert_eq!(added.contains(other), other == flag || settings.contains(other));
            }
        }
    }
}

#[test]
fn envelope_flags_have_their_bits() {
    for (flag, bits) in ENVELOPE_FLAGS {
        assert_eq!(flag.bits(), bits);
        assert_eq!(EnvelopeShape::empty().with(flag).bits(), bits);
    }
}

#[test]
fn envelope_shape_empty_and_all() {
    assert_eq!(EnvelopeShape::empty().bits(), 0b0000);
    assert_eq!(EnvelopeShape::all().bits(), 0b1111);
    for (flag, _) in ENVELOPE_FLAGS {
        assert!(!EnvelopeShape::empty().contains(flag));
        assert!(EnvelopeShape::all().contains(flag));
    }
}

#[test]
fn envelope_shape_from_bits_takes_the_low_four_bits_only() {
    for bits in 0..=255u8 {
        match EnvelopeShape::from_bits(bits) {
            Some(shape) => {
                assert!(bits <= 0b1111);
                assert_eq!(shape.bits(), bits);
            }
            None => assert!(bits > 0b1111),
        }
    }
    assert_eq!(EnvelopeShape::from_bits(0b1111).map(|shape| shape.bits()), Some(0b1111));
    assert_eq!(EnvelopeShape::from_bits(0b1_0000), None);
}

#[test]
fn envelope_shape_from_bits_truncate_drops_the_high_bits() {
    for bits in 0..=255u8 {
        assert_eq!(EnvelopeShape::from_bits_truncate(bits).bits(), bits & 0b1111);
    }
    assert_eq!(EnvelopeShape::from_bits_truncate(0xf5).bits(), 0x05);
}

#[test]
fn envelope_shape_with_adds_one_flag_and_keeps_the_others() {
    for bits in 0..16u8 {
        let shape = EnvelopeShape::from_bits_truncate(bits);
        for (flag, mask) in ENVELOPE_FLAGS {
            let added = shape.with(flag);
            assert_eq!(added.bits(), bits | mask);
            assert!(added.bits() <= 0b1111);
            for (other, other_mask) in ENVELOPE_FLAGS {
                assert_eq!(shape.contains(other), bits & other_mask != 0);
                assert_eq!(added.contains(other), other == flag || shape.contains(other));
            }
        }
    }
}
