use std::f32::consts::TAU;

use fm_transmit::demodulate::Demodulator;
use fm_transmit::error::ConfigError;
use fm_transmit::modulate::Modulator;
use num_complex::Complex;

type C = Complex<f32>;

fn zero() -> C {
    Complex::new(0.0, 0.0)
}

fn mix_identity(x: C, _n: u64) -> C {
    x
}

fn blend_iq(y: C, x: C) -> C {
    x * 0.9 + y * 0.1
}

fn disc_unit_gain(a: C, b: C) -> f32 {
    (b * a.conj()).arg()
}

fn blend_audio(y: f32, x: f32) -> f32 {
    0.9 * x + 0.1 * y
}

fn add(s: f32, x: f32) -> f32 {
    s + x
}

fn div(s: f32, n: usize) -> f32 {
    s / n as f32
}

fn sub(x: f32, m: f32) -> f32 {
    x - m
}

fn tone_chunk(freq: f32, rate: f32, phase0: f32, range: std::ops::Range<u64>) -> Vec<C> {
    range
        .map(|n| (Complex::new(0.0, 1.0) * (TAU * freq * n as f32 / rate + phase0)).exp())
        .collect()
}

#[test]
fn demodulator_rejects_bad_configuration() {
    let r = Demodulator::<C, f32>::new(zero(), 0, 0, 10, 10, 1000);
    assert_eq!(r.unwrap_err(), ConfigError::ZeroCutoff);
    let r = Demodulator::<C, f32>::new(zero(), 0, 1000, 0, 10, 1000);
    assert_eq!(r.unwrap_err(), ConfigError::ZeroCutoff);
    let r = Demodulator::<C, f32>::new(zero(), 0, 1000, 10, 10, 0);
    assert_eq!(r.unwrap_err(), ConfigError::ZeroAudioRate);
    let r = Demodulator::<C, f32>::new(zero(), 0, 10, 10, 10, 1000);
    assert_eq!(r.unwrap_err(), ConfigError::ZeroRatio);
}

#[test]
fn constant_frequency_gives_constant_discriminator_output() {
    // A complex exponential at 50 Hz deviation, sampled at 1 kHz,
    // demodulates to the constant 2*pi*50/1000, reported as this
    // call's DC offset; the DC-corrected output is near zero.
    let mut d = Demodulator::<C, f32>::new(zero(), 0, 1000, 400, 400, 1000).unwrap();
    assert_eq!(d.decimator.ratio, 1);

    d.replace(tone_chunk(50.0, 1000.0, 0.0, 0..400));
    let _ = d.audio(
        mix_identity,
        blend_iq,
        disc_unit_gain,
        blend_audio,
        add,
        div,
        sub,
    );

    // The second chunk continues the stream without a transient.
    d.replace(tone_chunk(50.0, 1000.0, 0.0, 400..800));
    let (out, dc, _) = d.audio(
        mix_identity,
        blend_iq,
        disc_unit_gain,
        blend_audio,
        add,
        div,
        sub,
    );

    let expected = TAU * 50.0 / 1000.0;
    let dc = dc.unwrap();
    assert!((dc - expected).abs() < 1e-3, "dc {dc} vs {expected}");
    assert_eq!(out.len(), 400);
    // The prepended boundary sample re-settles the filters over a few
    // samples; past that the corrected output is flat at zero.
    for y in &out[50..] {
        assert!(y.abs() < 1e-3, "residual {y}");
    }
}

#[test]
fn discriminator_output_ignores_starting_phase() {
    let expected = TAU * 50.0 / 1000.0;
    let mut offsets = Vec::new();
    for phase0 in [0.0f32, 1.234, -2.5] {
        let mut d = Demodulator::<C, f32>::new(zero(), 0, 1000, 400, 400, 1000).unwrap();
        d.replace(tone_chunk(50.0, 1000.0, phase0, 0..400));
        let _ = d.audio(
            mix_identity,
            blend_iq,
            disc_unit_gain,
            blend_audio,
            add,
            div,
            sub,
        );
        d.replace(tone_chunk(50.0, 1000.0, phase0, 400..800));
        let (_, dc, _) = d.audio(
            mix_identity,
            blend_iq,
            disc_unit_gain,
            blend_audio,
            add,
            div,
            sub,
        );
        offsets.push(dc.unwrap());
    }
    for dc in offsets {
        assert!((dc - expected).abs() < 1e-3);
    }
}

#[test]
fn demodulator_state_advances_per_chunk() {
    let mut d = Demodulator::<C, f32>::new(zero(), -900_000, 2_000_000, 200_000, 22_000, 44_100)
        .unwrap();
    assert_eq!(d.decimator.ratio, 45);
    assert_eq!(d.mixer.index, 0);

    d.replace(vec![Complex::new(0.1, 0.2); 100]);
    let (out, _, _) = d.audio(
        mix_identity,
        blend_iq,
        disc_unit_gain,
        blend_audio,
        add,
        div,
        sub,
    );
    // 100 samples in: the frame is 101 long, the mixer consumed it,
    // the decimator kept ceil(100/45) samples and sits at phase
    // 100 mod 45.
    assert_eq!(d.mixer.index, 101);
    assert_eq!(d.decimator.phase, 100 % 45);
    assert_eq!(out.len(), 3);
    // The carried predecessor is the chunk's last raw sample.
    assert_eq!(d.carry, Complex::new(0.1, 0.2));

    d.replace(Vec::new());
    let (out, dc, _) = d.audio(
        mix_identity,
        blend_iq,
        disc_unit_gain,
        blend_audio,
        add,
        div,
        sub,
    );
    // An empty chunk produces no audio and keeps the carry.
    assert!(out.is_empty());
    assert!(dc.is_none());
    assert_eq!(d.mixer.index, 102);
    assert_eq!(d.carry, Complex::new(0.1, 0.2));
}

#[test]
fn modulate_then_demodulate_recovers_the_tone() {
    // Round trip: a 50 Hz tone at 4 kHz audio, FM-modulated to 40 kHz
    // RF with 1 kHz deviation, then demodulated back to 4 kHz audio.
    let audio_rate = 4000u32;
    let rf_rate = 40_000u32;
    let bandwidth = 1000u32;
    let total = 4000u32;
    let tone: Vec<f32> = (0..total)
        .map(|k| 0.9 * (TAU * 50.0 * k as f32 / audio_rate as f32).sin())
        .collect();

    // Modulate: the control core decides, the test supplies the
    // floating-point kernel exactly as the radio path would.
    let mut m = Modulator::<f32>::new(rf_rate, audio_rate, total, bandwidth, 0.0).unwrap();
    let mut cursor = 0usize;
    let mut phase = 0.0f32;
    let mut rf = Vec::new();
    for _ in 0..rf_rate {
        if m.needs_refill() {
            let fetched = tone.get(cursor).copied();
            cursor += 1;
            m.refill(fetched);
        }
        let (current, next, pos) = m.emit();
        let t = pos as f32 / m.ratio as f32;
        let deviation = (current + (next - current) * t) * bandwidth as f32;
        phase += TAU * deviation / rf_rate as f32;
        rf.push((Complex::new(0.0, 1.0) * phase).exp());
    }

    // Demodulate in chunks, with the discriminator gain chosen to undo
    // the deviation scaling.
    let gain = rf_rate as f32 / (TAU * bandwidth as f32);
    let disc = move |a: C, b: C| (b * a.conj()).arg() * gain;
    let mut d =
        Demodulator::<C, f32>::new(zero(), 0, rf_rate, 4000, 2000, audio_rate).unwrap();
    assert_eq!(d.decimator.ratio, 10);
    let mut recovered: Vec<f32> = Vec::new();
    for chunk in rf.chunks(8192) {
        d.replace(chunk.to_vec());
        let (out, _, _) = d.audio(
            mix_identity,
            blend_iq,
            disc,
            blend_audio,
            add,
            div,
            sub,
        );
        recovered.extend(out);
    }
    assert_eq!(recovered.len(), 4000);

    // The middle of the recovered stream is a tone of the same
    // frequency (zero crossings) and comparable amplitude (RMS).
    let mid = &recovered[1000..3000];
    let mut crossings = 0;
    for w in mid.windows(2) {
        if (w[0] >= 0.0) != (w[1] >= 0.0) {
            crossings += 1;
        }
    }
    // 2000 samples at 4 kHz hold half a second: a 50 Hz tone crosses
    // zero about 50 times in it.
    assert!((35..=65).contains(&crossings), "crossings {crossings}");

    let rms = (mid.iter().map(|x| x * x).sum::<f32>() / mid.len() as f32).sqrt();
    let expected_rms = 0.9 / 2.0f32.sqrt();
    assert!(
        (rms - expected_rms).abs() < 0.25 * expected_rms,
        "rms {rms} vs {expected_rms}"
    );
}
