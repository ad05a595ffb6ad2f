//! The synthesizer: finite streams of samples, made on demand. A sample is
//! a whole number of millionths of full scale, a phase a whole number of
//! millionths of a cycle.

use crate::simple_random::{lcg_output, lcg_step, scale_into, SimpleRng};
use crate::utils::{div_toward_zero, trunc_div};
use vstd::prelude::*;

verus! {

/// Samples per second of every stream.
pub const SAMPLE_RATE: u32 = 44100;

/// Gain of a pitched tone, in tenths.
pub const TONE_GAIN: u32 = 3;

/// Gain of a noise burst, in tenths.
pub const NOISE_GAIN: u32 = 4;

/// The shapes of a pitched tone.
#[derive(Clone, Copy, Debug, PartialEq, Eq, Structural)]
pub enum Waveform {
    Square,
    Saw,
    Triangle,
}

/// The square wave: `+1` in the first half of the cycle, `-1` in the second.
pub open spec fn spec_square_wave(phase: int) -> int {
    if phase < 500_000 {
        1_000_000
    } else {
        -1_000_000
    }
}

/// The sawtooth wave: `2 * phase - 1`.
pub open spec fn spec_saw_wave(phase: int) -> int {
    2 * phase - 1_000_000
}

/// The triangle wave: `4 * |phase - 0.5| - 1`.
pub open spec fn spec_triangle_wave(phase: int) -> int {
    if phase < 500_000 {
        4 * (500_000 - phase) - 1_000_000
    } else {
        4 * (phase - 500_000) - 1_000_000
    }
}

/// The square wave at `phase`.
pub fn square_wave(phase: u32) -> (v: i64)
    ensures
        v == spec_square_wave(phase as int),
{
    if phase < 500_000 {
        1_000_000
    } else {
        -1_000_000
    }
}

/// The sawtooth wave at `phase`.
pub fn saw_wave(phase: u32) -> (v: i64)
    ensures
        v == spec_saw_wave(phase as int),
{
    2 * (phase as i64) - 1_000_000
}

/// The triangle wave at `phase`.
pub fn _triangle_wave(phase: u32) -> (v: i64)
    ensures
        v == spec_triangle_wave(phase as int),
{
    if phase < 500_000 {
        4 * (500_000 - phase as i64) - 1_000_000
    } else {
        4 * (phase as i64 - 500_000) - 1_000_000
    }
}

impl Waveform {
    /// The value of the wave at `phase`.
    pub open spec fn spec_at(self, phase: int) -> int {
        match self {
            Waveform::Square => spec_square_wave(phase),
            Waveform::Saw => spec_saw_wave(phase),
            Waveform::Triangle => spec_triangle_wave(phase),
        }
    }

    /// The value of the wave at `phase`.
    pub fn at(self, phase: u32) -> (v: i64)
        ensures
            v == self.spec_at(phase as int),
    {
        match self {
            Waveform::Square => square_wave(phase),
            Waveform::Saw => saw_wave(phase),
            Waveform::Triangle => _triangle_wave(phase),
        }
    }
}

/// Number of samples in `duration` millionths of a second, rounded down
/// and held within `u32`.
pub open spec fn spec_duration_samples(duration: int) -> int {
    if (duration * 44100) / 1_000_000 > u32::MAX {
        u32::MAX as int
    } else {
        (duration * 44100) / 1_000_000
    }
}

/// Number of samples in `duration` millionths of a second.
pub fn duration_samples(duration: u32) -> (n: u32)
    ensures
        n == spec_duration_samples(duration as int),
{
    let wide: u64 = (duration as u64 * 44100) / 1_000_000;
    if wide > u32::MAX as u64 {
        u32::MAX
    } else {
        wide as u32
    }
}

/// `value` under the linear fade-out `1 - t / total` and a gain of `gain`
/// tenths, rounded toward zero.
pub open spec fn spec_shaped(value: int, t: int, total: int, gain: int) -> int {
    trunc_div(value * ((total - t) * gain), total * 10)
}

/// Applies envelope and gain to one raw value.
pub fn shaped(value: i64, t: u32, total: u32, gain: u32) -> (s: i64)
    requires
        t < total,
        gain <= 10,
    ensures
        s == spec_shaped(value as int, t as int, total as int, gain as int),
{
    assert(0 <= (total - t) * gain <= total * 10 && total * 10 <= 0xA_0000_0000)
        by (nonlinear_arith)
        requires
            0 <= t < total <= 0xFFFF_FFFF,
            0 <= gain <= 10,
    ;
    let weight: i128 = ((total - t) as i128) * (gain as i128);
    let den: i128 = (total as i128) * 10;
    let ghost n: int = value as int * weight as int;
    proof {
        if value >= 0 {
            assert(0 <= n <= value * den) by (nonlinear_arith)
                requires
                    n == value * weight,
                    0 <= weight <= den,
                    value >= 0,
            ;
            assert(n / (den as int) <= value) by (nonlinear_arith)
                requires
                    0 <= n <= value * den,
                    den > 0,
            ;
        } else {
            assert(0 <= -n <= (-value) * den) by (nonlinear_arith)
                requires
                    n == value * weight,
                    0 <= weight <= den,
                    value < 0,
            ;
            assert((-n) / (den as int) <= -value) by (nonlinear_arith)
                requires
                    0 <= -n <= (-value) * den,
                    den > 0,
            ;
        }
        assert(-0x8000_0000_0000_0000 * 0xA_0000_0000 <= n <= 0x8000_0000_0000_0000
            * 0xA_0000_0000) by (nonlinear_arith)
            requires
                n == value * weight,
                -0x8000_0000_0000_0000 <= value <= 0x8000_0000_0000_0000,
                0 <= weight <= 0xA_0000_0000,
        ;
    }
    let q: i128 = div_toward_zero((value as i128) * weight, den);
    q as i64
}

/// A pitched tone: `duration_samples` samples of a wave of `freq` cycles
/// per second, fading out linearly.
#[derive(Clone, Copy, Debug, PartialEq, Eq, Structural)]
pub struct PitchedTone {
    pub freq: u32,
    pub sample_rate: u32,
    pub duration_samples: u32,
    pub t: u32,
    pub waveform: Waveform,
}

impl PitchedTone {
    /// A tone of `freq` cycles per second that lasts `duration` millionths
    /// of a second, at the fixed sample rate.
    pub fn new(freq: u32, duration: u32, waveform: Waveform) -> (tone: Self)
        ensures
            tone == (PitchedTone {
                freq,
                sample_rate: SAMPLE_RATE,
                duration_samples: spec_duration_samples(duration as int) as u32,
                t: 0,
                waveform,
            }),
    {
        PitchedTone {
            freq,
            sample_rate: SAMPLE_RATE,
            duration_samples: duration_samples(duration),
            t: 0,
            waveform,
        }
    }

    /// Phase of the sample at time `t`: `freq * t / sample_rate` modulo one.
    pub open spec fn spec_phase(self) -> int {
        (((self.freq as int * self.t as int) % (self.sample_rate as int)) * 1_000_000) / (
        self.sample_rate as int)
    }

    /// The sample at time `t`.
    pub open spec fn spec_sample(self) -> int {
        spec_shaped(
            self.waveform.spec_at(self.spec_phase()),
            self.t as int,
            self.duration_samples as int,
            TONE_GAIN as int,
        )
    }

    /// The next sample, or `None` once the tone has run out.
    pub fn next(&mut self) -> (sample: Option<i64>)
        requires
            old(self).sample_rate > 0,
        ensures
            old(self).t >= old(self).duration_samples ==> sample.is_none() && *final(self) == *old(
                self,
            ),
            old(self).t < old(self).duration_samples ==> sample == Some(
                old(self).spec_sample() as i64,
            ) && *final(self) == (PitchedTone { t: (old(self).t + 1) as u32, ..*old(self) }),
    {
        if self.t >= self.duration_samples {
            return None;
        }
        assert(0 <= self.freq * self.t <= 0xFFFF_FFFF * 0xFFFF_FFFF) by (nonlinear_arith)
            requires
                0 <= self.freq <= 0xFFFF_FFFF,
                0 <= self.t <= 0xFFFF_FFFF,
        ;
        let turns: u64 = (self.freq as u64) * (self.t as u64);
        let rest: u64 = turns % (self.sample_rate as u64);
        assert(0 <= rest * 1_000_000 < self.sample_rate * 1_000_000 && (rest * 1_000_000) / (
        self.sample_rate as int) < 1_000_000) by (nonlinear_arith)
            requires
                0 <= rest < self.sample_rate,
                self.sample_rate <= 0xFFFF_FFFF,
        ;
        let phase: u32 = ((rest * 1_000_000) / (self.sample_rate as u64)) as u32;
        let value: i64 = self.waveform.at(phase);
        let sample: i64 = shaped(value, self.t, self.duration_samples, TONE_GAIN);
        self.t += 1;
        Some(sample)
    }

    /// Number of channels: one.
    pub fn channels(&self) -> (n: u16)
        ensures
            n == 1,
    {
        1
    }

    /// Samples per second.
    pub fn sample_rate(&self) -> (rate: u32)
        ensures
            rate == self.sample_rate,
    {
        self.sample_rate
    }

    /// Length of the whole tone in millionths of a second:
    /// `duration_samples / sample_rate`, rounded down.
    pub fn total_duration(&self) -> (micros: u64)
        requires
            self.sample_rate > 0,
        ensures
            micros == (self.duration_samples as int * 1_000_000) / (self.sample_rate as int),
    {
        (self.duration_samples as u64 * 1_000_000) / (self.sample_rate as u64)
    }
}

/// A burst of noise: `duration_samples` samples of uniform noise, fading
/// out linearly.
#[derive(Clone, Copy, Debug, PartialEq, Eq, Structural)]
pub struct NoiseBurst {
    pub duration_samples: u32,
    pub t: u32,
}

impl NoiseBurst {
    /// A burst that lasts `duration` millionths of a second.
    pub fn new(duration: u32) -> (burst: Self)
        ensures
            burst == (NoiseBurst {
                duration_samples: spec_duration_samples(duration as int) as u32,
                t: 0,
            }),
    {
        NoiseBurst { duration_samples: duration_samples(duration), t: 0 }
    }

    /// The sample at time `t` if the generator, freshly seeded with `seed`,
    /// supplies the noise.
    pub open spec fn spec_sample(self, seed: u64) -> int {
        spec_shaped(
            scale_into(-1_000_000, 1_000_000, lcg_output(lcg_step(seed)) as int),
            self.t as int,
            self.duration_samples as int,
            NOISE_GAIN as int,
        )
    }

    /// The next sample with its noise drawn from `rng`, or `None` once the
    /// burst has run out.
    pub fn next_with(&mut self, rng: &mut SimpleRng) -> (sample: Option<i64>)
        ensures
            old(self).t >= old(self).duration_samples ==> sample.is_none() && *final(self) == *old(
                self,
            ) && *final(rng) == *old(rng),
            old(self).t < old(self).duration_samples ==> sample == Some(
                old(self).spec_sample(old(rng).0) as i64,
            ) && *final(self) == (NoiseBurst { t: (old(self).t + 1) as u32, ..*old(self) })
                && final(rng).0 == lcg_step(old(rng).0),
    {
        if self.t >= self.duration_samples {
            return None;
        }
        let noise: i32 = rng.random_range_f32(-1_000_000..1_000_000);
        let sample: i64 = shaped(noise as i64, self.t, self.duration_samples, NOISE_GAIN);
        self.t += 1;
        Some(sample)
    }

    /// The next sample, its noise drawn from a generator seeded by the
    /// clock, or `None` once the burst has run out. Whatever the seed, a
    /// sample lies within four tenths of full scale.
    pub fn next(&mut self) -> (sample: Option<i64>)
        ensures
            old(self).t >= old(self).duration_samples ==> sample.is_none() && *final(self) == *old(
                self,
            ),
            old(self).t < old(self).duration_samples ==> *final(self) == (NoiseBurst {
                t: (old(self).t + 1) as u32,
                ..*old(self)
            }) && exists|seed: u64| sample == Some(#[trigger] old(self).spec_sample(seed) as i64),
    {
        let mut rng = SimpleRng::new();
        let ghost seed = rng.0;
        let sample = self.next_with(&mut rng);
        proof {
            if old(self).t < old(self).duration_samples {
                assert(sample == Some(old(self).spec_sample(seed) as i64));
            }
        }
        sample
    }

    /// Number of channels: one.
    pub fn channels(&self) -> (n: u16)
        ensures
            n == 1,
    {
        1
    }

    /// Samples per second.
    pub fn sample_rate(&self) -> (rate: u32)
        ensures
            rate == SAMPLE_RATE,
    {
        SAMPLE_RATE
    }

    /// Length of the whole burst in millionths of a second.
    pub fn total_duration(&self) -> (micros: u64)
        ensures
            micros == (self.duration_samples as int * 1_000_000) / 44100,
    {
        (self.duration_samples as u64 * 1_000_000) / 44100
    }
}

/// The sounds that the game gives rise to.
#[derive(Clone, Copy, Debug, PartialEq, Eq, Structural)]
pub enum Cue {
    /// A big star escaped.
    Miss,
    /// The ship ran into a big star.
    Crunch,
    /// A shot went off.
    Laser,
    /// A shot exploded a big star.
    Boom,
}

/// What a cue sounds like: a pitched tone or a burst of noise.
#[derive(Clone, Copy, Debug, PartialEq, Eq, Structural)]
pub enum Sound {
    Tone(PitchedTone),
    Noise(NoiseBurst),
}

impl Cue {
    /// The sound of the cue: a miss is a square tone of 50 Hz for a quarter
    /// second, a crunch a sawtooth of 110 Hz for as long, a laser a square
    /// tone of 500 Hz for 0.35 s, a boom a tenth of a second of noise.
    pub open spec fn spec_sound(self) -> Sound {
        match self {
            Cue::Miss => Sound::Tone(
                PitchedTone {
                    freq: 50,
                    sample_rate: SAMPLE_RATE,
                    duration_samples: 11025,
                    t: 0,
                    waveform: Waveform::Square,
                },
            ),
            Cue::Crunch => Sound::Tone(
                PitchedTone {
                    freq: 110,
                    sample_rate: SAMPLE_RATE,
                    duration_samples: 11025,
                    t: 0,
                    waveform: Waveform::Saw,
                },
            ),
            Cue::Laser => Sound::Tone(
                PitchedTone {
                    freq: 500,
                    sample_rate: SAMPLE_RATE,
                    duration_samples: 15435,
                    t: 0,
                    waveform: Waveform::Square,
                },
            ),
            Cue::Boom => Sound::Noise(NoiseBurst { duration_samples: 4410, t: 0 }),
        }
    }

    /// The sound of the cue, at its start.
    pub fn sound(self) -> (s: Sound)
        ensures
            s == self.spec_sound(),
    {
        match self {
            Cue::Miss => Sound::Tone(PitchedTone::new(50, 250_000, Waveform::Square)),
            Cue::Crunch => Sound::Tone(PitchedTone::new(110, 250_000, Waveform::Saw)),
            Cue::Laser => Sound::Tone(PitchedTone::new(500, 350_000, Waveform::Square)),
            Cue::Boom => Sound::Noise(NoiseBurst::new(100_000)),
        }
    }
}

} // verus!
