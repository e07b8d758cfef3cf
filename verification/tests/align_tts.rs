//! AlignTTS: configuration, controls, alignment and training phases.

use tongues_tts::align_tts::{
    durations_to_alignment, length_mask, AlignTtsConfig, AlignTtsError, AlignTtsTrainingConfig,
    TrainingBatch, TrainingPlan,
};
use tongues_tts::alignment::{alignment_durations, maximum_monotonic_alignment};
use tongues_tts::checkpoint::LoadReport;
use tongues_tts::double::Double;
use tongues_tts::fast_pitch::FeedForwardTransformerConfig;
use tongues_tts::json::Json;
use tongues_tts::tokens::TokenBatch;
use tongues_tts::training::AcousticTrainingPhase;

fn double(value: f64) -> Double {
    Double { bits: value.to_bits() }
}

fn transformer() -> FeedForwardTransformerConfig {
    FeedForwardTransformerConfig {
        hidden_channels_ffn: 16,
        num_heads: 2,
        num_layers: 1,
        dropout: double(0.1),
    }
}

fn config() -> AlignTtsConfig {
    AlignTtsConfig {
        num_chars: 8,
        out_channels: 4,
        hidden_channels: 8,
        hidden_channels_dp: 8,
        encoder: transformer(),
        decoder: transformer(),
        length_scale: double(1.0),
        max_duration: 10,
        max_output_frames: 100,
        training: AlignTtsTrainingConfig::default(),
    }
}

fn upstream(model: &str, dropout: &str) -> Json {
    let text = format!(
        "{{ \"model\": \"{model}\", \"model_args\": {{
            \"num_chars\": 100, \"out_channels\": 80, \"hidden_channels\": 256,
            \"hidden_channels_dp\": 256, \"encoder_type\": \"fftransformer\",
            \"encoder_params\": {{\"hidden_channels_ffn\": 1024, \"num_heads\": 2,
                \"num_layers\": 6, \"dropout_p\": {dropout}}},
            \"decoder_type\": \"fftransformer\",
            \"decoder_params\": {{\"hidden_channels_ffn\": 1024, \"num_heads\": 2,
                \"num_layers\": 6, \"dropout_p\": 0.1}},
            \"length_scale\": 1.0 }} }}"
    );
    Json::from_value(serde_json::from_str(&text).expect("JSON"))
}

#[test]
fn explicit_durations_control_alignment_and_mel_length() {
    let config = config();
    let tokens = TokenBatch::single(vec![1, 2, 3]);
    config
        .check_inference(&tokens, double(1.0), &Some([1, 3]), true)
        .expect("inference");
    let durations = vec![vec![1, 2, 1]];
    let encoded: Vec<Vec<Vec<f32>>> = vec![vec![vec![0.5, 1.5, 2.5]; 8]];
    let expanded = config.expand(&encoded, &durations, 0.0).expect("expansion");
    let shapes = config.output_shapes(&tokens, expanded.frames);
    assert_eq!(shapes.mel, [1, 4, 4]);
    assert_eq!(shapes.durations, [1, 3]);
    assert_eq!(shapes.alignment, [1, 4, 3]);
    let alignment = durations_to_alignment(&durations, expanded.frames);
    assert_eq!([alignment.len(), alignment[0].len(), alignment[0][0].len()], [1, 4, 3]);
    let flat: Vec<f32> = alignment[0]
        .iter()
        .flatten()
        .map(|marked| if *marked { 1.0 } else { 0.0 })
        .collect();
    assert_eq!(
        flat,
        vec![1.0, 0.0, 0.0, 0.0, 1.0, 0.0, 0.0, 1.0, 0.0, 0.0, 0.0, 1.0]
    );
}

#[test]
fn parses_upstream_defaults() {
    assert_eq!(
        AlignTtsConfig::from_json_value(&upstream("align_tts", "0.1"))
            .unwrap()
            .hidden_channels_dp,
        256
    );
}

#[test]
fn a_document_of_another_model_is_refused() {
    let error = AlignTtsConfig::from_json_value(&upstream("glow_tts", "0.1")).unwrap_err();
    assert!(matches!(error, AlignTtsError::InvalidConfig(_)));
    assert!(error.describe().contains("glow_tts"));
}

#[test]
fn a_dropout_beyond_one_is_refused() {
    let error = AlignTtsConfig::from_json_value(&upstream("align_tts", "1.5")).unwrap_err();
    assert!(matches!(error, AlignTtsError::InvalidConfig(_)));
}

#[test]
fn unusable_controls_are_refused() {
    let config = config();
    let tokens = TokenBatch::single(vec![1, 2, 3]);
    for scale in [0.0, -1.0, f64::NAN, f64::INFINITY] {
        assert!(matches!(
            config.check_inference(&tokens, double(scale), &None, true),
            Err(AlignTtsError::InvalidInput(_))
        ));
    }
    assert!(config.check_inference(&tokens, double(1.0), &Some([1, 2]), true).is_err());
    assert!(config.check_inference(&tokens, double(1.0), &None, false).is_ok());
    let foreign = TokenBatch::single(vec![1, 8]);
    assert!(config.check_inference(&foreign, double(1.0), &None, false).is_err());
}

#[test]
fn expansions_stay_within_the_limit() {
    let config = config();
    let encoded: Vec<Vec<Vec<f32>>> = vec![vec![vec![0.0, 0.0]; 8]];
    assert!(config.expand(&encoded, &vec![vec![50, 51]], 0.0).is_err());
    assert!(config.expand(&encoded, &vec![vec![0, 0]], 0.0).is_err());
    assert_eq!(config.expand(&encoded, &vec![vec![50, 50]], 0.0).unwrap().frames, 100);
}

#[test]
fn shorter_rows_are_filled_and_masked() {
    let config = config();
    let encoded = vec![vec![vec![1, 2]], vec![vec![3, 4]]];
    let expanded = config.expand(&encoded, &vec![vec![1, 2], vec![0, 1]], 0).unwrap();
    assert_eq!(expanded.values, vec![vec![vec![1, 2, 2]], vec![vec![4, 0, 0]]]);
    assert_eq!(expanded.mask, vec![vec![true, true, true], vec![true, false, false]]);
}

#[test]
fn phases_follow_their_start_steps() {
    let mut training = AlignTtsTrainingConfig::default();
    training.phase_start_steps = Some(vec![10, 20, 30, 40]);
    training.validate().expect("steps ascend");
    assert_eq!(training.phase(0), AcousticTrainingPhase::Alignment);
    assert_eq!(training.phase(11), AcousticTrainingPhase::Decoder);
    assert_eq!(training.phase(21), AcousticTrainingPhase::Acoustic);
    assert_eq!(training.phase(31), AcousticTrainingPhase::DurationPredictor);
    assert_eq!(training.phase(41), AcousticTrainingPhase::Joint);
}

#[test]
fn a_joint_step_computes_everything() {
    let mut config = config();
    config.num_chars = 120;
    config.out_channels = 80;
    config.training.phase_start_steps = Some(vec![10, 20, 30, 40]);
    let batch = TrainingBatch {
        tokens: TokenBatch::single(vec![15, 110, 44, 112]),
        token_lengths: vec![4],
        target_shape: [1, 6, 80],
        mel_lengths: vec![6],
    };
    assert_eq!(
        config.plan_training(&batch, 41).expect("joint step"),
        TrainingPlan {
            phase: AcousticTrainingPhase::Joint,
            predict_durations: true,
            predict_mel: true,
            detach_decoder_input: false,
        }
    );
    let alignment = config.plan_training(&batch, 0).expect("alignment step");
    assert_eq!(alignment.phase, AcousticTrainingPhase::Alignment);
    assert!(!alignment.predict_durations && !alignment.predict_mel);
}

#[test]
fn batches_that_cannot_be_aligned_are_refused() {
    let config = config();
    let batch = TrainingBatch {
        tokens: TokenBatch::single(vec![1, 2, 3]),
        token_lengths: vec![3],
        target_shape: [1, 2, 4],
        mel_lengths: vec![2],
    };
    assert!(config.plan_training(&batch, 0).is_err());
}

#[test]
fn targets_beyond_the_positional_table_are_only_aligned() {
    let mut config = config();
    config.training.phase_start_steps = Some(vec![10, 20, 30, 40]);
    let mut batch = TrainingBatch {
        tokens: TokenBatch::single(vec![1, 2, 3]),
        token_lengths: vec![3],
        target_shape: [1, 5_001, config.out_channels],
        mel_lengths: vec![5_001],
    };
    assert!(config.plan_training(&batch, 0).is_ok());
    for step in [11, 21, 31, 41] {
        assert_eq!(
            config.plan_training(&batch, step),
            Err("invalid SpeedySpeech input: predicted 5001 frames but positional encoding is \
                 limited to 5000"
                .to_owned())
        );
    }
    batch.target_shape[1] = 5_000;
    batch.mel_lengths = vec![5_000];
    assert!(config.plan_training(&batch, 41).is_ok());
}

#[test]
fn attention_without_heads_is_a_configuration_error() {
    let mut config = config();
    config.decoder.num_heads = 0;
    assert!(matches!(config.topology(), Err(AlignTtsError::InvalidConfig(_))));
}

#[test]
fn masks_follow_lengths() {
    assert_eq!(
        length_mask(&[2, 0, 3], 3),
        vec![vec![true, true, false], vec![false; 3], vec![true; 3]]
    );
}

#[test]
fn the_best_path_is_monotonic_and_complete() {
    let scores = vec![vec![
        vec![0.9_f32, 0.8, 0.1, 0.1],
        vec![0.1, 0.2, 0.9, 0.1],
        vec![0.0, 0.0, 0.1, 0.9],
    ]];
    let aligned = maximum_monotonic_alignment(
        &scores,
        &vec![3],
        &vec![4],
        3,
        4,
        f32::NEG_INFINITY,
        |stay: f32, advance: f32, score: f32| stay.max(advance) + score,
        |left: f32, right: f32| left > right,
    );
    assert_eq!(
        aligned,
        vec![vec![
            vec![true, false, false],
            vec![true, false, false],
            vec![false, true, false],
            vec![false, false, true],
        ]]
    );
    let durations = alignment_durations(&aligned[0], 3);
    assert_eq!(durations, vec![2, 1, 1]);
    assert_eq!(durations.iter().sum::<usize>(), 4);
}

/// The values of all monotonic paths that start at the first token and end at the last.
fn path_values(scores: &[Vec<i64>], token: usize, frame: usize, value: i64, out: &mut Vec<i64>) {
    let value = value + scores[token][frame];
    if frame + 1 == scores[0].len() {
        if token + 1 == scores.len() {
            out.push(value);
        }
        return;
    }
    path_values(scores, token, frame + 1, value, out);
    if token + 1 < scores.len() {
        path_values(scores, token + 1, frame + 1, value, out);
    }
}

#[test]
fn no_path_is_better_than_the_best() {
    let scores = vec![
        vec![4, -1, 7, 0, 2, 5],
        vec![3, 8, -6, 9, 1, 1],
        vec![-2, 5, 5, -4, 6, 0],
        vec![1, 0, 2, 3, -7, 8],
    ];
    let aligned = maximum_monotonic_alignment(
        &vec![scores.clone()],
        &vec![4],
        &vec![6],
        4,
        6,
        i64::MIN / 4,
        |stay: i64, advance: i64, score: i64| stay.max(advance) + score,
        |left: i64, right: i64| left > right,
    );
    let mut value = 0;
    for (frame, marks) in aligned[0].iter().enumerate() {
        let token = marks.iter().position(|marked| *marked).expect("one token per frame");
        value += scores[token][frame];
    }
    let mut values = Vec::new();
    path_values(&scores, 0, 0, 0, &mut values);
    assert_eq!(values.len(), 10);
    assert_eq!(Some(value), values.into_iter().max());
}

#[test]
fn checkpoints_are_complete_or_refused() {
    let complete = LoadReport { missing: vec![], errors: vec![], unused: vec![] };
    assert!(AlignTtsConfig::check_checkpoint(&complete).is_ok());
    let missing = LoadReport {
        missing: vec![("emb.weight".to_owned(), "Model.emb".to_owned())],
        errors: vec![],
        unused: vec![],
    };
    let error = AlignTtsConfig::check_checkpoint(&missing).unwrap_err();
    assert!(matches!(error, AlignTtsError::Checkpoint(_)));
}
