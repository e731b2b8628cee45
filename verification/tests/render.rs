use signal_tones::{mix, render, select, Config, Frequency, Lid, OscillatorBank, ToneKey, Usb};

fn hz(value: f64) -> Frequency {
    Frequency::from_bits(value.to_bits())
}

fn key(source: &str, value: f64) -> ToneKey {
    ToneKey::new(source, hz(value))
}

fn sample_bank() -> OscillatorBank {
    OscillatorBank::from_config(&Config::new(
        vec![Usb::new("1-1", hz(440.0)), Usb::new("1-2", hz(880.0))],
        Some(Lid::new(hz(220.0))),
    ))
}

#[test]
fn mix_of_nothing_is_silence() {
    assert_eq!(mix(&Vec::new()), 0);
}

#[test]
fn mix_of_one_sample_is_that_sample() {
    for sample in [0, 1, -1, 12345, -12345, i16::MAX, i16::MIN] {
        assert_eq!(mix(&vec![sample]), sample);
    }
}

#[test]
fn mix_is_the_sum_where_it_fits() {
    assert_eq!(mix(&vec![1000, 2000]), 3000);
    assert_eq!(mix(&vec![1000, -2000]), -1000);
    assert_eq!(mix(&vec![100, 200, 300, 400]), 1000);
    assert_eq!(mix(&vec![16383, 16384]), 32767);
    assert_eq!(mix(&vec![-16384, -16384]), -32768);
    assert_eq!(mix(&vec![i16::MAX, i16::MIN]), -1);
    assert_eq!(mix(&vec![0, 0, 0]), 0);
}

#[test]
fn mix_clamps_a_sum_that_is_too_large() {
    assert_eq!(mix(&vec![16384, 16384]), 32767);
    assert_eq!(mix(&vec![30000, 10000]), 32767);
    assert_eq!(mix(&vec![i16::MAX, 1]), 32767);
    assert_eq!(mix(&vec![i16::MAX, i16::MAX, i16::MAX]), 32767);
}

#[test]
fn mix_clamps_a_sum_that_is_too_small() {
    assert_eq!(mix(&vec![-16384, -16385]), -32768);
    assert_eq!(mix(&vec![-30000, -10000]), -32768);
    assert_eq!(mix(&vec![i16::MIN, -1]), -32768);
    assert_eq!(mix(&vec![i16::MIN, i16::MIN]), -32768);
}

#[test]
fn mix_clamps_the_whole_sum_and_not_each_step() {
    assert_eq!(mix(&vec![i16::MAX, i16::MAX, -i16::MAX]), 32767);
    assert_eq!(mix(&vec![30000, 30000, -30000, -30000]), 0);
    assert_eq!(mix(&vec![i16::MIN, i16::MIN, i16::MAX, i16::MAX]), -2);
    assert_eq!(mix(&vec![-30000, -30000, 30000]), -30000);
}

#[test]
fn mix_of_very_many_loud_tones_stays_in_range() {
    assert_eq!(mix(&vec![i16::MAX; 200_000]), i16::MAX);
    assert_eq!(mix(&vec![i16::MIN; 200_000]), i16::MIN);
    let mut both = vec![i16::MAX; 100_000];
    both.extend(vec![i16::MIN; 100_000]);
    assert_eq!(mix(&both), i16::MIN);
    both.extend(vec![20_000; 5]);
    assert_eq!(mix(&both), 0);
    both.push(-123);
    assert_eq!(mix(&both), -123);
}

#[test]
fn select_keeps_the_samples_of_active_tones_in_bank_order() {
    let bank = sample_bank();
    let samples = vec![10, 20, 30];
    assert_eq!(select(&bank, &samples, &Vec::new()), Vec::<i16>::new());
    assert_eq!(select(&bank, &samples, &vec![key("1-2", 880.0)]), vec![20]);
    assert_eq!(
        select(&bank, &samples, &vec![key("Lid", 220.0), key("1-1", 440.0)]),
        vec![10, 30]
    );
    assert_eq!(
        select(
            &bank,
            &samples,
            &vec![key("Lid", 220.0), key("1-2", 880.0), key("1-1", 440.0)]
        ),
        vec![10, 20, 30]
    );
}

#[test]
fn select_ignores_keys_without_an_entry_and_repeated_keys() {
    let bank = sample_bank();
    let samples = vec![10, 20, 30];
    let active =
        vec![key("1-3", 440.0), key("1-1", 441.0), key("1-1", 440.0), key("1-1", 440.0)];
    assert_eq!(select(&bank, &samples, &active), vec![10]);
    assert_eq!(select(&bank, &samples, &vec![key("lid", 220.0)]), Vec::<i16>::new());
}

#[test]
fn render_is_silent_when_nothing_is_active() {
    let bank = sample_bank();
    assert_eq!(render(&bank, &vec![10, 20, 30], &Vec::new()), 0);
    assert_eq!(render(&bank, &vec![i16::MAX, i16::MIN, 1], &Vec::new()), 0);
    assert_eq!(render(&bank, &vec![1, 2, 3], &vec![key("9-9", 1.0)]), 0);
    let empty = OscillatorBank::from_config(&Config::new(Vec::new(), None));
    assert_eq!(render(&empty, &Vec::new(), &Vec::new()), 0);
    assert_eq!(render(&empty, &Vec::new(), &vec![key("Lid", 220.0)]), 0);
}

#[test]
fn render_emits_a_lone_tone_unchanged() {
    let bank = sample_bank();
    let samples = vec![-7, i16::MIN, i16::MAX];
    assert_eq!(render(&bank, &samples, &vec![key("1-1", 440.0)]), -7);
    assert_eq!(render(&bank, &samples, &vec![key("1-2", 880.0)]), i16::MIN);
    assert_eq!(render(&bank, &samples, &vec![key("Lid", 220.0)]), i16::MAX);
}

#[test]
fn render_adds_the_active_tones_and_clamps() {
    let bank = sample_bank();
    let samples = vec![20000, 15000, -30000];
    let usb1 = || key("1-1", 440.0);
    let usb2 = || key("1-2", 880.0);
    let lid = || key("Lid", 220.0);
    assert_eq!(render(&bank, &samples, &vec![usb1(), usb2()]), 32767);
    assert_eq!(render(&bank, &samples, &vec![usb2(), usb1()]), 32767);
    assert_eq!(render(&bank, &samples, &vec![usb1(), lid()]), -10000);
    assert_eq!(render(&bank, &samples, &vec![usb2(), lid()]), -15000);
    assert_eq!(render(&bank, &samples, &vec![usb1(), usb2(), lid()]), 5000);
    let low = vec![-20000, -15000, 100];
    assert_eq!(render(&bank, &low, &vec![usb1(), usb2()]), -32768);
    assert_eq!(render(&bank, &low, &vec![usb1(), usb2(), lid()]), -32768);
}

#[test]
fn render_does_not_hear_inactive_oscillators() {
    let bank = sample_bank();
    let active = vec![key("1-2", 880.0)];
    for other in [i16::MIN, -1, 0, 1, i16::MAX] {
        assert_eq!(render(&bank, &vec![other, 1234, other], &active), 1234);
    }
}

#[test]
fn render_with_every_tone_of_a_large_bank_at_full_scale() {
    let usb: Vec<Usb> =
        (0..500).map(|i| Usb::new(&format!("1-{i}"), hz(100.0 + f64::from(i)))).collect();
    let bank = OscillatorBank::from_config(&Config::new(usb, Some(Lid::new(hz(220.0)))));
    assert_eq!(bank.len(), 501);
    let active: Vec<ToneKey> = bank.keys().iter().map(|k| k.clone()).collect();
    assert_eq!(render(&bank, &vec![i16::MAX; 501], &active), i16::MAX);
    assert_eq!(render(&bank, &vec![i16::MIN; 501], &active), i16::MIN);
    assert_eq!(render(&bank, &vec![3; 501], &active), 1503);
    assert_eq!(render(&bank, &vec![-60; 501], &active), -30060);
}
