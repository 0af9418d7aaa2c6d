use fm_transmit::lowpass::LowPass;

fn blend_quarter(y: f32, x: f32) -> f32 {
    // A single-pole step with alpha = 0.25: y' = alpha*x + (1-alpha)*y.
    0.25 * x + 0.75 * y
}

#[test]
fn lowpass_seeds_from_first_sample() {
    let mut lp = LowPass::new();
    let out = lp.filter_chunk(&vec![0.8f32, 0.8, 0.8], blend_quarter);
    // No startup transient: the state is seeded from the first sample,
    // so a constant stream passes through unchanged.
    assert_eq!(out, vec![0.8f32, 0.8, 0.8]);
    assert_eq!(lp.state, Some(0.8));
}

#[test]
fn lowpass_constant_input_converges_to_it() {
    let mut lp = LowPass::new();
    // Seed at zero, then feed a constant: the output must climb
    // monotonically to the constant and settle within tolerance.
    let seeded = lp.filter_chunk(&vec![0.0f32], blend_quarter);
    assert_eq!(seeded, vec![0.0f32]);
    let input = vec![1.0f32; 100];
    let out = lp.filter_chunk(&input, blend_quarter);
    for i in 1..out.len() {
        assert!(out[i] >= out[i - 1]);
        assert!(out[i] <= 1.0);
    }
    assert!((out[out.len() - 1] - 1.0).abs() < 1e-3);
}

#[test]
fn lowpass_converged_state_is_a_no_op() {
    let mut lp = LowPass::new();
    lp.filter_chunk(&vec![0.5f32], blend_quarter);
    let out = lp.filter_chunk(&vec![0.5f32; 10], blend_quarter);
    for y in out {
        assert_eq!(y, 0.5);
    }
    assert_eq!(lp.state, Some(0.5));
}

#[test]
fn lowpass_state_carries_across_chunks() {
    // Filtering one stream in two chunks equals filtering it whole.
    let stream: Vec<f32> = (0..40).map(|i| if i % 3 == 0 { 1.0 } else { -0.5 }).collect();

    let mut whole = LowPass::new();
    let expected = whole.filter_chunk(&stream, blend_quarter);

    let mut split = LowPass::new();
    let mut got = split.filter_chunk(&stream[..17].to_vec(), blend_quarter);
    got.extend(split.filter_chunk(&stream[17..].to_vec(), blend_quarter));

    assert_eq!(expected, got);
    assert_eq!(whole.state, split.state);
}

#[test]
fn lowpass_empty_chunk_keeps_state() {
    let mut lp = LowPass::new();
    lp.filter_chunk(&vec![2.0f32], blend_quarter);
    let out = lp.filter_chunk(&Vec::new(), blend_quarter);
    assert!(out.is_empty());
    assert_eq!(lp.state, Some(2.0));
}

#[test]
fn lowpass_filters_complex_parts_independently() {
    // Complex samples are filtered per component by a componentwise
    // kernel.
    let blend = |y: (f32, f32), x: (f32, f32)| -> (f32, f32) {
        (0.25 * x.0 + 0.75 * y.0, 0.25 * x.1 + 0.75 * y.1)
    };
    let mut lp = LowPass::new();
    let out = lp.filter_chunk(&vec![(1.0f32, -1.0f32), (1.0, -1.0)], blend);
    assert_eq!(out, vec![(1.0, -1.0), (1.0, -1.0)]);
}
