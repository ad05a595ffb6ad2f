use starfield::simple_random::SimpleRng;
use starfield::sound::{
    _triangle_wave, duration_samples, saw_wave, shaped, square_wave, Cue, NoiseBurst, PitchedTone,
    Sound, Waveform, SAMPLE_RATE,
};

#[test]
fn waves_at_known_phases() {
    assert_eq!(square_wave(0), 1_000_000);
    assert_eq!(square_wave(499_999), 1_000_000);
    assert_eq!(square_wave(500_000), -1_000_000);
    assert_eq!(saw_wave(0), -1_000_000);
    assert_eq!(saw_wave(500_000), 0);
    assert_eq!(saw_wave(750_000), 500_000);
    assert_eq!(_triangle_wave(0), 1_000_000);
    assert_eq!(_triangle_wave(250_000), 0);
    assert_eq!(_triangle_wave(500_000), -1_000_000);
    assert_eq!(_triangle_wave(750_000), 0);
    assert_eq!(Waveform::Square.at(600_000), -1_000_000);
    assert_eq!(Waveform::Saw.at(600_000), 200_000);
    assert_eq!(Waveform::Triangle.at(600_000), -600_000);
}

#[test]
fn durations_in_samples() {
    assert_eq!(duration_samples(250_000), 11025);
    assert_eq!(duration_samples(350_000), 15435);
    assert_eq!(duration_samples(100_000), 4410);
    assert_eq!(duration_samples(22), 0);
    assert_eq!(duration_samples(23), 1);
    assert_eq!(duration_samples(u32::MAX), 189_408_057);
}

#[test]
fn envelope_fades_linearly() {
    assert_eq!(shaped(1_000_000, 0, 100, 3), 300_000);
    assert_eq!(shaped(1_000_000, 50, 100, 3), 150_000);
    assert_eq!(shaped(-1_000_000, 99, 100, 4), -4_000);
    assert_eq!(shaped(1, 0, 3, 3), 0);
    assert_eq!(shaped(-7, 1, 3, 3), -1);
}

#[test]
fn square_tone_samples() {
    let mut tone = PitchedTone::new(50, 250_000, Waveform::Square);
    assert_eq!(tone.duration_samples, 11025);
    assert_eq!(tone.sample_rate(), SAMPLE_RATE);
    assert_eq!(tone.channels(), 1);
    assert_eq!(tone.total_duration(), 250_000);
    assert_eq!(tone.next(), Some(300_000));
    assert_eq!(tone.next(), Some(299_972));
    tone.t = 441;
    assert_eq!(tone.next(), Some(-288_000));
    assert_eq!(tone.t, 442);
    tone.t = 11024;
    assert_eq!(tone.next(), Some(27));
    assert_eq!(tone.next(), None);
    assert_eq!(tone.t, 11025);
}

#[test]
fn saw_tone_samples() {
    let mut tone = PitchedTone::new(110, 250_000, Waveform::Saw);
    assert_eq!(tone.next(), Some(-300_000));
    assert_eq!(tone.next(), Some(-298_476));
    tone.t = 100;
    assert_eq!(tone.next(), Some(-148_976));
    tone.t = 11024;
    assert_eq!(tone.next(), Some(0));
    assert_eq!(tone.next(), None);
}

#[test]
fn tone_yields_as_many_samples_as_it_lasts() {
    let mut tone = PitchedTone::new(500, 1_000, Waveform::Square);
    let mut count = 0;
    while let Some(sample) = tone.next() {
        assert!(-300_000 <= sample && sample <= 300_000);
        count += 1;
    }
    assert_eq!(count, 44);
    assert_eq!(PitchedTone::new(500, 0, Waveform::Saw).next(), None);
}

#[test]
fn noise_burst_samples() {
    let mut burst = NoiseBurst::new(100_000);
    assert_eq!(burst.duration_samples, 4410);
    assert_eq!(burst.channels(), 1);
    assert_eq!(burst.sample_rate(), 44100);
    assert_eq!(burst.total_duration(), 100_000);
    let mut rng = SimpleRng::from_seed(1);
    assert_eq!(burst.next_with(&mut rng), Some(-123_999));
    assert_eq!(burst.t, 1);
    assert_eq!(rng.0, 6364136223846793006);
    let mut count = 1;
    while let Some(sample) = burst.next() {
        assert!(-400_000 <= sample && sample <= 400_000);
        count += 1;
    }
    assert_eq!(count, 4410);
    let before = rng.0;
    assert_eq!(burst.next_with(&mut rng), None);
    assert_eq!(rng.0, before);
}

#[test]
fn cues_have_their_sounds() {
    assert_eq!(Cue::Miss.sound(), Sound::Tone(PitchedTone::new(50, 250_000, Waveform::Square)));
    assert_eq!(Cue::Crunch.sound(), Sound::Tone(PitchedTone::new(110, 250_000, Waveform::Saw)));
    assert_eq!(
        Cue::Laser.sound(),
        Sound::Tone(PitchedTone {
            freq: 500,
            sample_rate: 44100,
            duration_samples: 15435,
            t: 0,
            waveform: Waveform::Square,
        })
    );
    assert_eq!(Cue::Boom.sound(), Sound::Noise(NoiseBurst { duration_samples: 4410, t: 0 }));
}
