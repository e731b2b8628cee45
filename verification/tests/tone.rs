use signal_tones::{Frequency, ToneKey};

fn hz(value: f64) -> Frequency {
    Frequency::from_bits(value.to_bits())
}

#[test]
fn frequency_keeps_its_bits() {
    let tone = hz(440.0);
    assert_eq!(tone.to_bits(), 0x407B_8000_0000_0000);
    assert_eq!(f64::from_bits(tone.to_bits()), 440.0);
    assert_eq!(Frequency::from_bits(7).to_bits(), 7);
}

#[test]
fn positive_frequencies_are_those_above_zero() {
    let values = [
        440.0,
        220.0,
        0.5,
        261.625_565_3,
        f64::MIN_POSITIVE,
        5e-324,
        f64::MAX,
        f64::INFINITY,
        0.0,
        -0.0,
        -1.0,
        -440.0,
        f64::MIN,
        f64::NEG_INFINITY,
        f64::NAN,
        -f64::NAN,
    ];
    for value in values {
        assert_eq!(hz(value).is_positive(), value > 0.0, "{value}");
    }
}

#[test]
fn positive_range_ends_at_infinity() {
    assert!(!Frequency::from_bits(0).is_positive());
    assert!(Frequency::from_bits(1).is_positive());
    assert!(Frequency::from_bits(0x7FF0_0000_0000_0000).is_positive());
    assert!(!Frequency::from_bits(0x7FF0_0000_0000_0001).is_positive());
    assert!(!Frequency::from_bits(0x8000_0000_0000_0000).is_positive());
    assert!(!Frequency::from_bits(u64::MAX).is_positive());
}

#[test]
fn tone_key_holds_source_and_tone() {
    let key = ToneKey::new("1-1", hz(440.0));
    assert_eq!(key.source(), "1-1");
    assert_eq!(key.tone(), hz(440.0));
}

#[test]
fn tone_keys_are_equal_when_source_and_tone_are() {
    let lid = ToneKey::new("Lid", hz(220.0));
    assert_eq!(lid, ToneKey::new("Lid", hz(220.0)));
    assert_ne!(lid, ToneKey::new("Lid", hz(220.5)));
    assert_ne!(lid, ToneKey::new("lid", hz(220.0)));
    assert_ne!(lid, ToneKey::new("1-1", hz(220.0)));
    assert_ne!(ToneKey::new("", hz(0.0)), ToneKey::new("", hz(-0.0)));
}

#[test]
fn tone_key_clone_is_equal() {
    let key = ToneKey::new("2-1.4", hz(880.0));
    let copy = key.clone();
    assert_eq!(copy, key);
    assert_eq!(copy.source(), "2-1.4");
    assert_eq!(copy.tone().to_bits(), 880.0f64.to_bits());
}
