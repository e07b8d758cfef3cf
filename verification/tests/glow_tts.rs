//! Glow-TTS: durations, conditioning, folding and the flow's shapes.

use tongues_tts::checkpoint::LoadReport;
use tongues_tts::double::Double;
use tongues_tts::glow_tts::{
    check_conditioning, check_decoder_checkpoint, check_encoder_checkpoint, decoder_remappings,
    encoder_remappings, validate_explicit_durations, GlowDurations,
    GlowTtsEncoderConfig, GlowTtsError, GlowTtsNetworkConfig, DEFAULT_GLOW_MAX_OUTPUT_FRAMES,
};
use tongues_tts::layout::{
    absolute_to_relative, merge_channels, relative_shift, relative_to_absolute, relative_window,
    split_channels,
};
use tongues_tts::matrix::invert_square_matrix;
use tongues_tts::speedy_speech::expand_by_durations;

fn double(value: f64) -> Double {
    Double { bits: value.to_bits() }
}

fn tiny_config() -> GlowTtsNetworkConfig {
    GlowTtsNetworkConfig {
        num_chars: 8,
        out_channels: 4,
        hidden_channels_enc: 4,
        hidden_channels_dec: 4,
        hidden_channels_dp: 4,
        encoder_params: GlowTtsEncoderConfig {
            kernel_size: 3,
            num_layers: 2,
            num_heads: 2,
            hidden_channels_ffn: 8,
            rel_attn_window_size: None,
        },
        mean_only: false,
        num_flow_blocks_dec: 2,
        kernel_size_dec: 3,
        dilation_rate: 1,
        num_block_layers: 2,
        num_splits: 2,
        num_squeeze: 2,
        sigmoid_scale: false,
        use_sdp: false,
        speaker_conditioning_channels: 0,
        length_scale: double(1.0),
        inference_noise_scale: double(0.33),
        inference_noise_scale_dp: double(0.8),
    }
}

#[test]
fn split_invertible_convolution_uses_cached_matrix_inverse() {
    let inverse = inverse(&vec![2.0, 1.0, 1.0, 1.0], 2).expect("inverse");
    assert_eq!(inverse, vec![1.0, -1.0, -1.0, 2.0]);
    let input = vec![vec![1.0, 2.0], vec![3.0, 4.0], vec![5.0, 6.0], vec![7.0, 8.0]];
    let splits = split_channels(&input, 2, 1, 2);
    let mixed: Vec<Vec<f64>> = inverse
        .chunks(2)
        .map(|row| {
            (0..splits[0].len())
                .map(|at| row[0] * splits[0][at] + row[1] * splits[1][at])
                .collect()
        })
        .collect();
    let output = merge_channels(&mixed, 2, 1, 2);
    assert_eq!([1, output.len(), output[0].len()], [1, 4, 2]);
    assert_eq!(output.concat(), vec![-4.0, -4.0, -4.0, -4.0, 9.0, 10.0, 11.0, 12.0]);
}

fn inverse(values: &Vec<f64>, size: usize) -> Result<Vec<f64>, GlowTtsError> {
    invert_square_matrix(
        values,
        size,
        0.0,
        1.0,
        |entry: f64, divisor: f64| entry / divisor,
        |entry: f64, factor: f64, other: f64| entry - factor * other,
        |left: f64, right: f64| left.abs() > right.abs(),
        |entry: f64| entry.abs() < 1.0e-12,
    )
}

#[test]
fn inverses_multiply_to_the_identity() {
    let matrix = vec![0.0, 2.0, 1.0, 4.0, 0.0, 0.0, 1.0, 1.0, 1.0];
    let inverse = inverse(&matrix, 3).expect("regular");
    for row in 0..3 {
        for column in 0..3 {
            let sum: f64 =
                (0..3).map(|k| inverse[row * 3 + k] * matrix[k * 3 + column]).sum();
            let expected = if row == column { 1.0 } else { 0.0 };
            assert!((sum - expected).abs() < 1e-12);
            let sum: f64 =
                (0..3).map(|k| matrix[row * 3 + k] * inverse[k * 3 + column]).sum();
            assert!((sum - expected).abs() < 1e-12);
        }
    }
}

#[test]
fn columns_of_zeros_have_no_inverse() {
    for column in 0..3 {
        let mut matrix = vec![0.0, 2.0, 1.0, 4.0, 0.0, 0.0, 1.0, 1.0, 1.0];
        for row in 0..3 {
            matrix[row * 3 + column] = 0.0;
        }
        assert_eq!(
            inverse(&matrix, 3),
            Err(GlowTtsError::Checkpoint("invertible convolution weight is singular".to_owned()))
        );
    }
}

#[test]
fn singular_and_misshapen_matrices_are_refused() {
    assert_eq!(
        inverse(&vec![1.0, 2.0, 2.0, 4.0], 2),
        Err(GlowTtsError::Checkpoint("invertible convolution weight is singular".to_owned()))
    );
    for (values, size) in [(vec![1.0, 2.0, 3.0], 2), (vec![], 0), (vec![1.0], usize::MAX)] {
        assert_eq!(
            inverse(&values, size),
            Err(GlowTtsError::Checkpoint(
                "invertible convolution has an invalid matrix shape".to_owned()
            ))
        );
    }
}

#[test]
fn glow_duration_rule_subtracts_one_and_is_seed_independent() {
    let logits = [2.0_f32.ln(), 3.2_f32.ln()];
    let predicted =
        vec![logits.iter().map(|value| double(f64::from(value.exp() - 1.0))).collect()];
    let durations = GlowDurations::Deterministic
        .ceil_durations(&predicted, &vec![vec![true, true]], 100)
        .expect("Glow durations");
    assert_eq!(durations, vec![vec![1, 3]]);
}

#[test]
fn stochastic_duration_rule_uses_log_duration_directly() {
    let logits = [2.0_f32.ln(), 3.2_f32.ln()];
    let predicted = vec![logits.iter().map(|value| double(f64::from(value.exp()))).collect()];
    let durations = GlowDurations::Stochastic
        .ceil_durations(&predicted, &vec![vec![true, true]], 100)
        .expect("stochastic durations");
    assert_eq!(durations, vec![vec![2, 4]]);
}

#[test]
fn tiny_encoder_and_decoder_preserve_acoustic_shapes() {
    let config = tiny_config();
    config.encoder_topology(Ok(())).expect("encoder");
    config.decoder_topology(Ok(())).expect("decoder");
    config.check_encoding(1, 2, 1, &None).expect("encoded");
    let mean = vec![vec![vec![0.0_f32, 1.0]; 4]];
    let expanded = expand_by_durations(
        &mean,
        &vec![vec![2, 2]],
        0.0,
        DEFAULT_GLOW_MAX_OUTPUT_FRAMES,
    )
    .expect("expanded");
    let frames = config
        .plan_reverse(&[1, 4, expanded.frames], &[1, 1, expanded.frames], &None)
        .expect("decoded");
    let (folded, mask) = config.squeeze(&expanded.values[0], &expanded.mask[0], 0.0);
    let mel = config.unsqueeze(&folded, &mask, 0.0);
    assert_eq!([1, mel.len(), mel[0].len()], [1, 4, 4]);
    assert_eq!(frames, 4);
    assert_eq!(mel, expanded.values[0]);
}

#[test]
fn speaker_conditioning_contract_rejects_missing_malformed_and_conflicting_inputs() {
    let valid = Some([1, 256, 1]);
    assert!(check_conditioning(&valid, 1, 0, 4).is_err());
    assert!(check_conditioning(&None, 1, 256, 4).is_err());
    assert!(check_conditioning(&Some([1, 255, 1]), 1, 256, 4).is_err());
    assert!(check_conditioning(&Some([1, 256, 2]), 1, 256, 4).is_err());
    check_conditioning(&valid, 1, 256, 4).expect("valid conditioning");
    assert_eq!(valid.expect("conditioning tensor"), [1, 256, 1]);
}

#[test]
fn durations_are_at_least_one_frame_for_valid_tokens() {
    let predicted = vec![vec![double(-3.0), double(0.2), double(2.0), double(5.5)]];
    let valid = vec![vec![true, true, true, false]];
    let durations =
        GlowDurations::Deterministic.ceil_durations(&predicted, &valid, 100).expect("durations");
    assert_eq!(durations, vec![vec![1, 1, 2, 0]]);
}

#[test]
fn durations_are_finite_and_within_the_limit() {
    let rule = GlowDurations::Stochastic;
    let valid = vec![vec![true]];
    assert!(matches!(
        rule.ceil_durations(&vec![vec![double(f64::NAN)]], &valid, 100),
        Err(GlowTtsError::InvalidInput(_))
    ));
    assert!(rule.ceil_durations(&vec![vec![double(101.0)]], &valid, 100).is_err());
    assert!(rule.ceil_durations(&vec![vec![double(1e300)]], &valid, 100).is_err());
    assert_eq!(
        rule.ceil_durations(&vec![vec![double(99.5)]], &valid, 100).expect("limit"),
        vec![vec![100]]
    );
}

#[test]
fn explicit_durations_are_positive_whole_numbers() {
    let checked = |values: Vec<f64>| {
        let row: Vec<Double> = values.into_iter().map(double).collect();
        validate_explicit_durations(&[1, row.len()], &vec![row], 1, 2, 100)
    };
    assert_eq!(checked(vec![2.0, 3.0]).expect("durations"), vec![vec![2, 3]]);
    assert!(checked(vec![2.0]).is_err());
    assert!(checked(vec![2.0, 2.5]).is_err());
    assert!(checked(vec![2.0, 0.0]).is_err());
    assert!(checked(vec![2.0, f64::INFINITY]).is_err());
    assert!(checked(vec![60.0, 60.0]).is_err());
}

#[test]
fn controls_are_checked_and_seeds_kept_apart() {
    let one = double(1.0);
    assert!(GlowDurations::Deterministic.check_controls(one, one, one).is_ok());
    assert!(GlowDurations::Deterministic.check_controls(double(0.0), one, one).is_err());
    assert!(GlowDurations::Stochastic.check_controls(one, double(-1.0), one).is_err());
    assert!(GlowDurations::Stochastic.check_controls(one, one, double(f64::NAN)).is_err());
    assert_eq!(GlowDurations::Deterministic.acoustic_seed(Some(7)), Some(7));
    assert_ne!(GlowDurations::Stochastic.acoustic_seed(Some(7)), Some(7));
    assert_eq!(GlowDurations::Stochastic.acoustic_seed(None), None);
}

#[test]
fn rules_belong_to_their_checkpoints() {
    let mut config = tiny_config();
    assert!(config.check_deterministic().is_ok());
    assert!(config.check_stochastic().is_err());
    config.use_sdp = true;
    assert!(config.check_deterministic().is_err());
    assert!(config.check_stochastic().is_ok());
}

#[test]
fn unusable_topologies_are_refused() {
    assert!(matches!(
        tiny_config().encoder_topology(Err("bad".to_owned())),
        Err(GlowTtsError::InvalidTopology(_))
    ));
    assert!(tiny_config().decoder_topology(Err("bad".to_owned())).is_err());
    assert!(tiny_config().plan_reverse(&[1, 5, 4], &[1, 1, 4], &None).is_err());
    assert!(tiny_config().plan_reverse(&[1, 4, 1], &[1, 1, 1], &None).is_err());
    assert_eq!(tiny_config().plan_reverse(&[1, 4, 5], &[1, 1, 5], &None).unwrap(), 4);
}

#[test]
fn padded_groups_are_masked() {
    let config = tiny_config();
    let values = vec![vec![1, 2, 3, 4]];
    let (folded, mask) = config.squeeze(&values, &vec![true, true, true, false], 0);
    assert_eq!(folded, vec![vec![1, 0], vec![2, 0]]);
    assert_eq!(mask, vec![true, false]);
}

#[test]
fn distances_and_places_give_each_other_back() {
    let weights = vec![vec![1, 2], vec![3, 4]];
    let relative = absolute_to_relative(&weights, 0);
    assert_eq!(relative, vec![vec![0, 1, 2], vec![3, 4, 0]]);
    assert_eq!(relative_to_absolute(&relative, 0), weights);
    assert_eq!(relative_shift(&vec![vec![1, 2], vec![3, 4]], 0), vec![vec![2, 0], vec![3, 4]]);
    let window = relative_window(3, 1);
    assert_eq!((window.padding, window.start, window.end), (1, 0, 5));
    let window = relative_window(2, 4);
    assert_eq!((window.padding, window.start, window.end), (0, 3, 6));
}

#[test]
fn glow_checkpoints_are_complete_or_refused() {
    let complete = LoadReport { missing: vec![], errors: vec![], unused: vec![] };
    assert!(check_encoder_checkpoint(&complete, true).is_ok());
    assert!(check_decoder_checkpoint(&complete).is_ok());
    let partial = LoadReport {
        missing: vec![("decoder.flows.0.logs".to_owned(), "flows".to_owned())],
        errors: vec![],
        unused: vec![],
    };
    assert!(matches!(check_decoder_checkpoint(&partial), Err(GlowTtsError::Checkpoint(_))));
    assert!(check_encoder_checkpoint(&partial, false).is_err());
    assert!(!encoder_remappings().is_empty());
    assert!(decoder_remappings(2).len() > decoder_remappings(1).len());
}
