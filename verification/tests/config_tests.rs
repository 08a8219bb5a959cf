use tsic::config::{Config, Sound};
use tsic::section::TimeSignature;

#[test]
fn default_profile_values() {
    let c = Config::default();
    assert_eq!(c.name, "default");
    assert_eq!(c.sample_rate, 44100);
    assert_eq!(c.bpm, 120);
    assert_eq!(c.beats_per_bar, 4);
    assert_eq!(c.beat_unit, 4);
    assert_eq!(c.num_meassures_fallback, 128);
    assert_eq!(f64::from_bits(c.sound.frequency_hz_bits), 1400.0);
    assert_eq!(f64::from_bits(c.sound.accent_frequency_hz_bits), 800.0);
    assert_eq!(f64::from_bits(c.sound.sound_duration_secs_bits), 0.2);
    assert_eq!(f64::from_bits(c.sound.envelope_decay_secs_bits), 0.1);
    assert_eq!(Sound::default(), c.sound);
}

#[test]
fn profile_setters() {
    let mut c = Config::default();
    c.name("fast");
    c.sample_rate(48000);
    c.bpm(180);
    c.beats_per_bar(7);
    c.beat_unit(8);
    c.measure_fallback(16);
    c.sound_frequency_hz(1500.0f64.to_bits());
    c.sound_accent_frequency_hz(900.0f64.to_bits());
    c.sound_sound_duration_secs(0.05f64.to_bits());
    c.sound_envelope_decay_secs(0.02f64.to_bits());
    assert_eq!(c.name, "fast");
    assert_eq!((c.sample_rate, c.bpm, c.beats_per_bar, c.beat_unit), (48000, 180, 7, 8));
    assert_eq!(c.num_meassures_fallback, 16);
    assert_eq!(f64::from_bits(c.sound.frequency_hz_bits), 1500.0);
    assert_eq!(f64::from_bits(c.sound.accent_frequency_hz_bits), 900.0);
    assert_eq!(f64::from_bits(c.sound.sound_duration_secs_bits), 0.05);
    assert_eq!(f64::from_bits(c.sound.envelope_decay_secs_bits), 0.02);
    assert_eq!(c.get_time_signature(), TimeSignature { beats_per_bar: 7, beat_unit: 8 });
}
