//! Profiles: the tempo, metre and sound settings that a project starts from.
use vstd::prelude::*;
use crate::section::TimeSignature;

verus! {

pub const DEFAULT_SAMPLE_RATE: u32 = 44100;
pub const DEFAULT_BPM: u32 = 120;
pub const DEFAULT_BEATS_PER_BAR: u32 = 4;
pub const DEFAULT_BEAT_UNIT: u32 = 4;
pub const DEFAULT_NUM_MEASSURES: u32 = 128;

/// 1400.0 Hz, as the bits of an IEEE-754 double.
pub const DEFAULT_FREQUENCY_HZ_BITS: u64 = 0x4095_e000_0000_0000;
/// 800.0 Hz, as the bits of an IEEE-754 double.
pub const DEFAULT_ACCENT_FREQUENCY_HZ_BITS: u64 = 0x4089_0000_0000_0000;
/// 0.2 seconds, as the bits of an IEEE-754 double.
pub const DEFAULT_SOUND_DURATION_SECS_BITS: u64 = 0x3fc9_9999_9999_999a;
/// 0.1 seconds, as the bits of an IEEE-754 double.
pub const DEFAULT_ENVELOPE_DECAY_SECS_BITS: u64 = 0x3fb9_9999_9999_999a;

/// The shape of the click sound. Each value is a double kept as its IEEE-754
/// bit pattern: the library carries these values and never computes with them.
#[derive(Clone, Copy, Debug, PartialEq, Eq, Structural)]
pub struct Sound {
    pub frequency_hz_bits: u64,
    pub accent_frequency_hz_bits: u64,
    pub sound_duration_secs_bits: u64,
    pub envelope_decay_secs_bits: u64,
}

impl Default for Sound {
    fn default() -> (r: Self)
        ensures
            r == default_sound(),
    {
        Sound {
            frequency_hz_bits: DEFAULT_FREQUENCY_HZ_BITS,
            accent_frequency_hz_bits: DEFAULT_ACCENT_FREQUENCY_HZ_BITS,
            sound_duration_secs_bits: DEFAULT_SOUND_DURATION_SECS_BITS,
            envelope_decay_secs_bits: DEFAULT_ENVELOPE_DECAY_SECS_BITS,
        }
    }
}

/// The sound of the default profile.
pub open spec fn default_sound() -> Sound {
    Sound {
        frequency_hz_bits: DEFAULT_FREQUENCY_HZ_BITS,
        accent_frequency_hz_bits: DEFAULT_ACCENT_FREQUENCY_HZ_BITS,
        sound_duration_secs_bits: DEFAULT_SOUND_DURATION_SECS_BITS,
        envelope_decay_secs_bits: DEFAULT_ENVELOPE_DECAY_SECS_BITS,
    }
}

/// A profile.
#[derive(Debug)]
pub struct Config {
    pub name: String,
    pub sample_rate: u32,
    pub bpm: u32,
    pub beats_per_bar: u32,
    pub beat_unit: u32,
    pub num_meassures_fallback: u32,
    pub sound: Sound,
}

impl Clone for Config {
    fn clone(&self) -> (r: Self)
        ensures
            r == *self,
    {
        Config {
            name: self.name.clone(),
            sample_rate: self.sample_rate,
            bpm: self.bpm,
            beats_per_bar: self.beats_per_bar,
            beat_unit: self.beat_unit,
            num_meassures_fallback: self.num_meassures_fallback,
            sound: self.sound,
        }
    }
}

impl Default for Config {
    fn default() -> (r: Self)
        ensures
            r.name@ == "default"@,
            r.sample_rate == DEFAULT_SAMPLE_RATE,
            r.bpm == DEFAULT_BPM,
            r.beats_per_bar == DEFAULT_BEATS_PER_BAR,
            r.beat_unit == DEFAULT_BEAT_UNIT,
            r.num_meassures_fallback == DEFAULT_NUM_MEASSURES,
            r.sound == default_sound(),
    {
        Self {
            name: String::from_str("default"),
            sample_rate: DEFAULT_SAMPLE_RATE,
            bpm: DEFAULT_BPM,
            beats_per_bar: DEFAULT_BEATS_PER_BAR,
            beat_unit: DEFAULT_BEAT_UNIT,
            num_meassures_fallback: DEFAULT_NUM_MEASSURES,
            sound: Sound::default(),
        }
    }
}

impl Config {
    pub fn name(&mut self, name: &str)
        ensures
            final(self).name@ == name@,
            final(self).sample_rate == old(self).sample_rate,
            final(self).bpm == old(self).bpm,
            final(self).beats_per_bar == old(self).beats_per_bar,
            final(self).beat_unit == old(self).beat_unit,
            final(self).num_meassures_fallback == old(self).num_meassures_fallback,
            final(self).sound == old(self).sound,
    {
        self.name = String::from_str(name);
    }

    pub fn sample_rate(&mut self, sample_rate: u32)
        ensures
            *final(self) == (Config { sample_rate, ..*old(self) }),
    {
        self.sample_rate = sample_rate;
    }

    pub fn bpm(&mut self, bpm: u32)
        ensures
            *final(self) == (Config { bpm, ..*old(self) }),
    {
        self.bpm = bpm;
    }

    pub fn beats_per_bar(&mut self, beats_per_bar: u32)
        ensures
            *final(self) == (Config { beats_per_bar, ..*old(self) }),
    {
        self.beats_per_bar = beats_per_bar;
    }

    pub fn beat_unit(&mut self, beat_unit: u32)
        ensures
            *final(self) == (Config { beat_unit, ..*old(self) }),
    {
        self.beat_unit = beat_unit;
    }

    pub fn measure_fallback(&mut self, num: u32)
        ensures
            *final(self) == (Config { num_meassures_fallback: num, ..*old(self) }),
    {
        self.num_meassures_fallback = num;
    }

    /// Sets the click frequency, given as the bits of a double.
    pub fn sound_frequency_hz(&mut self, sound_frequency_hz_bits: u64)
        ensures
            *final(self) == (Config {
                sound: Sound { frequency_hz_bits: sound_frequency_hz_bits, ..old(self).sound },
                ..*old(self)
            }),
    {
        self.sound.frequency_hz_bits = sound_frequency_hz_bits;
    }

    /// Sets the accent frequency, given as the bits of a double.
    pub fn sound_accent_frequency_hz(&mut self, accent_frequency_hz_bits: u64)
        ensures
            *final(self) == (Config {
                sound: Sound { accent_frequency_hz_bits, ..old(self).sound },
                ..*old(self)
            }),
    {
        self.sound.accent_frequency_hz_bits = accent_frequency_hz_bits;
    }

    /// Sets the click duration, given as the bits of a double.
    pub fn sound_sound_duration_secs(&mut self, sound_duration_secs_bits: u64)
        ensures
            *final(self) == (Config {
                sound: Sound { sound_duration_secs_bits, ..old(self).sound },
                ..*old(self)
            }),
    {
        self.sound.sound_duration_secs_bits = sound_duration_secs_bits;
    }

    /// Sets the envelope decay, given as the bits of a double.
    pub fn sound_envelope_decay_secs(&mut self, envelope_decay_secs_bits: u64)
        ensures
            *final(self) == (Config {
                sound: Sound { envelope_decay_secs_bits, ..old(self).sound },
                ..*old(self)
            }),
    {
        self.sound.envelope_decay_secs_bits = envelope_decay_secs_bits;
    }

    /// The time signature of the profile.
    pub fn get_time_signature(&self) -> (ts: TimeSignature)
        ensures
            ts == (TimeSignature { beats_per_bar: self.beats_per_bar, beat_unit: self.beat_unit }),
    {
        TimeSignature { beats_per_bar: self.beats_per_bar, beat_unit: self.beat_unit }
    }
}

} // verus!
