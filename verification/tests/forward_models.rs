//! FastPitch, FastSpeech and SpeedySpeech: configuration, controls and expansion.

use tongues_tts::checkpoint::LoadReport;
use tongues_tts::double::Double;
use tongues_tts::fast_pitch::{
    FastPitchConfig, FastPitchControls, FastPitchError, FastPitchPlan,
    FeedForwardTransformerConfig,
};
use tongues_tts::fastspeech::{
    EnergyCapabilities, FastSpeechConfig, FastSpeechControls, FastSpeechError, FastSpeechVariant,
    PitchCapabilities, VariancePredictorConfig, VarianceSource,
};
use tongues_tts::expansion::whole_durations;
use tongues_tts::json::Json;
use tongues_tts::speedy_speech::{
    attend_by_durations, check_positional, conv_bn_block, expand_by_durations,
    minimum_stack_input_size,
    widest_dilation, ResidualConvConfig, SpeedySpeechConfig, SpeedySpeechError,
};
use tongues_tts::tokens::TokenBatch;

fn double(value: f64) -> Double {
    Double { bits: value.to_bits() }
}

fn document(text: &str) -> Json {
    Json::from_value(serde_json::from_str(text).expect("JSON"))
}

fn transformer() -> FeedForwardTransformerConfig {
    FeedForwardTransformerConfig {
        hidden_channels_ffn: 8,
        num_heads: 1,
        num_layers: 1,
        dropout: double(0.1),
    }
}

fn tiny_fast_pitch() -> FastPitchConfig {
    FastPitchConfig {
        num_chars: 8,
        out_channels: 3,
        hidden_channels: 4,
        positional_encoding: true,
        length_scale: double(1.0),
        encoder: transformer(),
        decoder: transformer(),
        duration_predictor_hidden_channels: 4,
        duration_predictor_kernel_size: 3,
        duration_predictor_dropout: double(0.1),
        pitch_predictor_hidden_channels: 4,
        pitch_predictor_kernel_size: 3,
        pitch_predictor_dropout: double(0.1),
        pitch_embedding_kernel_size: 3,
        use_aligner: false,
        max_duration: 10,
        max_output_frames: 64,
    }
}

#[test]
fn parses_released_ljspeech_shape() {
    let root = document(
        r#"{
            "model": "fast_pitch",
            "model_args": {
                "num_chars": 130,
                "out_channels": 80,
                "hidden_channels": 384,
                "num_speakers": 0,
                "duration_predictor_hidden_channels": 256,
                "duration_predictor_kernel_size": 3,
                "duration_predictor_dropout_p": 0.1,
                "pitch_predictor_hidden_channels": 256,
                "pitch_predictor_kernel_size": 3,
                "pitch_predictor_dropout_p": 0.1,
                "pitch_embedding_kernel_size": 3,
                "positional_encoding": true,
                "length_scale": 1,
                "encoder_type": "fftransformer",
                "encoder_params": {
                    "hidden_channels_ffn": 1024,
                    "num_heads": 1,
                    "num_layers": 6,
                    "dropout_p": 0.1
                },
                "decoder_type": "fftransformer",
                "decoder_params": {
                    "hidden_channels_ffn": 1024,
                    "num_heads": 1,
                    "num_layers": 6,
                    "dropout_p": 0.1
                },
                "use_d_vector": false,
                "d_vector_dim": 0,
                "max_duration": 75,
                "use_aligner": true
            }
        }"#,
    );
    let config = FastPitchConfig::from_json_value(&root).expect("FastPitch config");
    assert_eq!(config, FastPitchConfig::ljspeech());
}

#[test]
fn explicit_duration_and_pitch_controls_determine_shapes() {
    let config = tiny_fast_pitch();
    config.topology().expect("model");
    let tokens = TokenBatch::single(vec![1, 2, 3]);
    let controls = FastPitchControls {
        durations: Some([1, 3]),
        pitch: Some([1, 1, 3]),
        ..Default::default()
    };
    let plan = config.plan_inference(&tokens, &controls, true).expect("inference");
    assert_eq!(
        plan,
        FastPitchPlan { batch: 1, tokens: 3, predict_durations: false, predict_pitch: false }
    );
    let encoded: Vec<Vec<Vec<f32>>> = vec![vec![vec![1.0, 2.0, 3.0]; 4]];
    let expanded = config.expand(&encoded, &vec![vec![1, 2, 1]], 0.0).expect("expansion");
    let output = config.output_shapes(&plan, expanded.frames);
    assert_eq!(output.mel, [1, 4, 3]);
    assert_eq!(output.durations, [1, 3]);
    assert_eq!(output.pitch, [1, 1, 3]);
}

#[test]
fn fast_pitch_predicts_what_is_not_given() {
    let config = tiny_fast_pitch();
    let tokens = TokenBatch::single(vec![1, 2, 3]);
    let plan = config
        .plan_inference(&tokens, &config.default_controls(), false)
        .expect("inference");
    assert!(plan.predict_durations && plan.predict_pitch);
}

#[test]
fn fast_pitch_refuses_unusable_requests() {
    let config = tiny_fast_pitch();
    let tokens = TokenBatch::single(vec![1, 2, 3]);
    let refused = |controls: FastPitchControls| {
        matches!(
            config.plan_inference(&tokens, &controls, true),
            Err(FastPitchError::InvalidInput(_))
        )
    };
    assert!(refused(FastPitchControls { length_scale: double(0.0), ..Default::default() }));
    assert!(refused(FastPitchControls { pitch_scale: double(f64::NAN), ..Default::default() }));
    assert!(refused(FastPitchControls { durations: Some([1, 2]), ..Default::default() }));
    assert!(refused(FastPitchControls { pitch: Some([1, 3, 1]), ..Default::default() }));
    let foreign = TokenBatch::single(vec![8]);
    assert!(config.plan_inference(&foreign, &FastPitchControls::default(), false).is_err());
    assert!(config.plan_inference(&foreign, &FastPitchControls::default(), true).is_ok());
}

#[test]
fn fast_pitch_configurations_are_checked() {
    let mut config = tiny_fast_pitch();
    config.encoder.num_heads = 3;
    assert!(matches!(config.validate(), Err(FastPitchError::InvalidConfig(_))));
    let mut config = tiny_fast_pitch();
    config.pitch_embedding_kernel_size = 2;
    assert!(config.validate().is_err());
    let mut config = tiny_fast_pitch();
    config.max_output_frames = 0;
    assert!(config.topology().is_err());
    assert!(tiny_fast_pitch().validate().is_ok());
    assert!(FastPitchConfig::ljspeech().validate().is_ok());
}

#[test]
fn fast_pitch_heads_share_channels() {
    let mut config = tiny_fast_pitch();
    config.encoder.num_heads = 2;
    let topology = config.topology().expect("model");
    assert_eq!(topology.encoder.num_heads, 2);
    assert_eq!(topology.encoder.channels_per_head, 2);
    assert!(topology.aligner.is_none());
    assert!(topology.positional);
}

#[test]
fn incomplete_checkpoints_name_what_they_lack() {
    let report = LoadReport {
        missing: vec![("b".to_owned(), "B".to_owned()), ("a".to_owned(), "A".to_owned())],
        errors: vec![],
        unused: vec![],
    };
    let error = FastPitchConfig::check_checkpoint(&report).unwrap_err();
    assert!(matches!(error, FastPitchError::Checkpoint(_)));
    assert!(FastSpeechConfig::check_checkpoint(&report).is_err());
    assert!(SpeedySpeechConfig::check_checkpoint(&report).is_err());
    let complete = LoadReport { missing: vec![], errors: vec![], unused: vec![] };
    assert!(FastPitchConfig::check_checkpoint(&complete).is_ok());
    assert!(FastSpeechConfig::check_checkpoint(&complete).is_ok());
    assert!(SpeedySpeechConfig::check_checkpoint(&complete).is_ok());
}

fn tiny_fastspeech(variant: FastSpeechVariant) -> FastSpeechConfig {
    let variance = VariancePredictorConfig {
        hidden_channels: 4,
        kernel_size: 3,
        dropout: double(0.1),
        embedding_kernel_size: 3,
    };
    FastSpeechConfig {
        variant,
        num_chars: 8,
        out_channels: 3,
        hidden_channels: 4,
        positional_encoding: true,
        length_scale: double(1.0),
        encoder: transformer(),
        decoder: transformer(),
        duration_predictor_hidden_channels: 4,
        duration_predictor_kernel_size: 3,
        duration_predictor_dropout: double(0.1),
        pitch: if variant.supports_pitch() { Some(variance.clone()) } else { None },
        energy: if variant.supports_energy() { Some(variance) } else { None },
        use_aligner: false,
        max_duration: 10,
        max_output_frames: 64,
    }
}

fn config_json(model: &str, use_pitch: bool, use_energy: bool) -> Json {
    document(&format!(
        r#"{{
            "model": "{model}",
            "base_model": "forward_tts",
            "model_args": {{
                "num_chars": 130,
                "out_channels": 80,
                "hidden_channels": 384,
                "num_speakers": 1,
                "use_speaker_embedding": false,
                "use_d_vector_file": false,
                "use_pitch": {use_pitch},
                "pitch_predictor_hidden_channels": 256,
                "pitch_predictor_kernel_size": 3,
                "pitch_predictor_dropout_p": 0.1,
                "pitch_embedding_kernel_size": 3,
                "use_energy": {use_energy},
                "energy_predictor_hidden_channels": 256,
                "energy_predictor_kernel_size": 3,
                "energy_predictor_dropout_p": 0.1,
                "energy_embedding_kernel_size": 3,
                "duration_predictor_hidden_channels": 256,
                "duration_predictor_kernel_size": 3,
                "duration_predictor_dropout_p": 0.1,
                "positional_encoding": true,
                "length_scale": 1,
                "encoder_type": "fftransformer",
                "encoder_params": {{
                    "hidden_channels_ffn": 1024,
                    "num_heads": 1,
                    "num_layers": 6,
                    "dropout_p": 0.1
                }},
                "decoder_type": "fftransformer",
                "decoder_params": {{
                    "hidden_channels_ffn": 1024,
                    "num_heads": 1,
                    "num_layers": 6,
                    "dropout_p": 0.1
                }},
                "max_duration": 75,
                "use_aligner": true
            }}
        }}"#
    ))
}

#[test]
fn parses_fastspeech2_as_forward_tts_with_pitch_and_energy() {
    let config = FastSpeechConfig::from_json_value(&config_json("fastspeech2", true, true))
        .expect("FastSpeech 2 config");
    assert_eq!(config, FastSpeechConfig::fastspeech2(130));
}

#[test]
fn parses_original_fastspeech_without_variance_paths() {
    let config = FastSpeechConfig::from_json_value(&config_json("fastspeech", false, false))
        .expect("FastSpeech config");
    assert_eq!(config, FastSpeechConfig::fastspeech(130));
}

#[test]
fn rejects_variant_and_variance_mismatches() {
    let error = FastSpeechConfig::from_json_value(&config_json("fastspeech2", true, false))
        .expect_err("missing energy must fail");
    assert!(error.describe().contains("both pitch and energy"));

    let error = FastSpeechConfig::from_json_value(&config_json("fastspeech", true, false))
        .expect_err("FastSpeech pitch path must fail");
    assert!(error.describe().contains("must disable"));
}

#[test]
fn controls_are_discoverable_only_for_fastspeech2() {
    assert_eq!(
        FastSpeechVariant::FastSpeech.pitch_capabilities(),
        PitchCapabilities::default()
    );
    assert_eq!(
        FastSpeechVariant::FastSpeech.energy_capabilities(),
        EnergyCapabilities::default()
    );
    assert!(FastSpeechVariant::FastSpeech2.pitch_capabilities().explicit_values);
    assert!(FastSpeechVariant::FastSpeech2.energy_capabilities().explicit_values);
}

#[test]
fn fastspeech2_explicit_variance_controls_determine_shapes() {
    let config = tiny_fastspeech(FastSpeechVariant::FastSpeech2);
    config.topology().expect("model");
    let tokens = TokenBatch::single(vec![1, 2, 3]);
    let controls = FastSpeechControls {
        durations: Some([1, 3]),
        pitch: Some([1, 1, 3]),
        energy: Some([1, 1, 3]),
        ..Default::default()
    };
    let plan = config.plan_inference(&tokens, &controls, true).expect("inference");
    assert!(!plan.predict_durations);
    assert_eq!(plan.pitch, VarianceSource::Explicit);
    assert_eq!(plan.energy, VarianceSource::Explicit);
    let encoded: Vec<Vec<Vec<f32>>> = vec![vec![vec![1.0, 2.0, 3.0]; 4]];
    let expanded = config.expand(&encoded, &vec![vec![1, 2, 1]], 0.0).expect("expansion");
    let output = config.output_shapes(&plan, expanded.frames);
    assert_eq!(output.mel, [1, 4, 3]);
    assert_eq!(output.durations, [1, 3]);
    assert_eq!(output.pitch, Some([1, 1, 3]));
    assert_eq!(output.energy, Some([1, 1, 3]));
}

#[test]
fn original_fastspeech_emits_no_variance() {
    let config = tiny_fastspeech(FastSpeechVariant::FastSpeech);
    let tokens = TokenBatch::single(vec![1, 2, 3]);
    let plan = config.plan_inference(&tokens, &Default::default(), true).expect("inference");
    let output = config.output_shapes(&plan, 5);
    assert_eq!(output.mel, [1, 5, 3]);
    assert_eq!((output.pitch, output.energy), (None, None));
}

#[test]
fn original_fastspeech_rejects_variance_controls() {
    let config = tiny_fastspeech(FastSpeechVariant::FastSpeech);
    let tokens = TokenBatch::single(vec![1, 2, 3]);
    let error = config
        .plan_inference(
            &tokens,
            &FastSpeechControls { pitch_scale: double(1.1), ..Default::default() },
            true,
        )
        .expect_err("unsupported pitch control");
    assert!(error.describe().contains("pitch controls are not supported"));
}

#[test]
fn fastspeech_variance_follows_the_variant() {
    let tokens = TokenBatch::single(vec![1]);
    let plan = tiny_fastspeech(FastSpeechVariant::FastSpeech)
        .plan_inference(&tokens, &FastSpeechControls::default(), false)
        .expect("inference");
    assert_eq!(plan.pitch, VarianceSource::Absent);
    assert_eq!(plan.energy, VarianceSource::Absent);
    let plan = tiny_fastspeech(FastSpeechVariant::FastSpeech2)
        .plan_inference(&tokens, &FastSpeechControls::default(), false)
        .expect("inference");
    assert_eq!(plan.pitch, VarianceSource::Predicted);
    assert_eq!(plan.energy, VarianceSource::Predicted);
    let error = tiny_fastspeech(FastSpeechVariant::FastSpeech)
        .plan_inference(
            &tokens,
            &FastSpeechControls { energy: Some([1, 1, 1]), ..Default::default() },
            false,
        )
        .unwrap_err();
    assert!(matches!(error, FastSpeechError::InvalidInput(_)));
    assert!(error.describe().contains("energy controls are not supported"));
}

#[test]
fn fastspeech_presets_are_valid() {
    assert!(FastSpeechConfig::fastspeech(130).validate().is_ok());
    assert!(FastSpeechConfig::fastspeech2(130).validate().is_ok());
    assert!(FastSpeechConfig::fastspeech2(0).validate().is_err());
}

fn stack() -> ResidualConvConfig {
    ResidualConvConfig {
        kernel_size: 2,
        dilations: vec![1],
        num_conv_blocks: 1,
        num_res_blocks: 1,
    }
}

fn tiny_speedy_speech() -> SpeedySpeechConfig {
    SpeedySpeechConfig {
        num_chars: 8,
        out_channels: 3,
        hidden_channels: 4,
        positional_encoding: true,
        length_scale: double(1.0),
        encoder: stack(),
        decoder: stack(),
        duration_predictor_hidden_channels: 4,
        duration_predictor_kernel_size: 3,
        duration_predictor_dropout: double(0.1),
        use_aligner: true,
        max_duration: 10,
        max_output_frames: 64,
    }
}

fn published_json(use_pitch: bool, num_speakers: u64) -> Json {
    document(&format!(
        r#"{{
            "model": "speedy_speech",
            "characters": {{
                "pad": "_",
                "eos": "~",
                "bos": "^",
                "phonemes": "abcd",
                "punctuations": " !"
            }},
            "model_args": {{
                "num_chars": null,
                "out_channels": 80,
                "hidden_channels": 128,
                "num_speakers": {num_speakers},
                "use_aligner": true,
                "use_pitch": {use_pitch},
                "duration_predictor_hidden_channels": 256,
                "duration_predictor_kernel_size": 3,
                "duration_predictor_dropout_p": 0.1,
                "positional_encoding": true,
                "length_scale": 1,
                "encoder_type": "residual_conv_bn",
                "encoder_params": {{
                    "kernel_size": 4,
                    "dilations": [1, 2],
                    "num_conv_blocks": 2,
                    "num_res_blocks": 2
                }},
                "decoder_type": "residual_conv_bn",
                "decoder_params": {{
                    "kernel_size": 4,
                    "dilations": [1, 2, 4],
                    "num_conv_blocks": 2,
                    "num_res_blocks": 3
                }},
                "use_d_vector": false,
                "d_vector_dim": 0,
                "max_duration": 75
            }}
        }}"#
    ))
}

#[test]
fn parses_the_released_model_section_without_text_lowering() {
    let config = SpeedySpeechConfig::from_json_value(&published_json(false, 0)).unwrap();
    assert_eq!(config.num_chars, 9);
    assert_eq!(config.hidden_channels, 128);
    assert_eq!(config.out_channels, 80);
    assert_eq!(config.encoder.dilations, vec![1, 2]);
    assert_eq!(config.decoder.dilations, vec![1, 2, 4]);
    assert_eq!(config.duration_predictor_hidden_channels, 256);
}

#[test]
fn rejects_a_fastpitch_or_speaker_conditioned_checkpoint() {
    assert!(SpeedySpeechConfig::from_json_value(&published_json(true, 0))
        .unwrap_err()
        .describe()
        .contains("FastPitch"));

    assert!(SpeedySpeechConfig::from_json_value(&published_json(false, 2))
        .unwrap_err()
        .describe()
        .contains("single-speaker"));
}

#[test]
fn expands_token_encodings_by_opaque_predicted_durations() {
    let encoded = vec![vec![vec![1.0_f32, 2.0, 3.0], vec![10.0, 20.0, 30.0]]];
    let durations = vec![vec![1, 2, 1]];
    let expanded = expand_by_durations(&encoded, &durations, 0.0, 8).unwrap();
    assert_eq!(
        [expanded.values.len(), expanded.values[0].len(), expanded.values[0][0].len()],
        [1, 2, 4]
    );
    assert_eq!([expanded.mask.len(), 1, expanded.mask[0].len()], [1, 1, 4]);
    assert_eq!(
        expanded.values[0].concat(),
        &[1.0, 2.0, 2.0, 3.0, 10.0, 20.0, 20.0, 30.0]
    );
}

#[test]
fn whole_times_attend_as_durations_expand() {
    let starts = vec![vec![double(0.0), double(1.0), double(3.0)]];
    let ends = vec![vec![double(1.0), double(3.0), double(4.0)]];
    let attention =
        attend_by_durations(&starts, &ends, &vec![double(4.0)], double(4.0), 8).unwrap();
    assert_eq!(attention.frames, 4);
    assert_eq!(
        attention.marks,
        vec![vec![
            vec![true, false, false, false],
            vec![false, true, true, false],
            vec![false, false, false, true],
        ]]
    );
    assert_eq!(attention.mask, vec![vec![true; 4]]);
}

#[test]
fn a_frame_attends_to_the_token_in_whose_time_it_lies() {
    let starts = vec![vec![double(0.0), double(1.5)], vec![double(0.0), double(-1.0)]];
    let ends = vec![vec![double(1.5), double(2.75)], vec![double(-1.0), double(f64::NAN)]];
    let lengths = vec![double(2.75), double(1.0)];
    let attention = attend_by_durations(&starts, &ends, &lengths, double(2.75), 8).unwrap();
    assert_eq!(attention.frames, 2);
    assert_eq!(
        attention.marks,
        vec![
            vec![vec![true, true], vec![false, false]],
            vec![vec![false, false], vec![false, false]],
        ]
    );
    assert_eq!(attention.mask, vec![vec![true, true], vec![true, false]]);
    let pitch = tiny_fast_pitch().attend(&starts, &ends, &lengths, double(2.75)).unwrap();
    assert_eq!(pitch, attention);
    assert_eq!(
        tiny_fast_pitch().attend(&starts, &ends, &lengths, double(65.0)),
        Err(FastPitchError::InvalidInput(
            "invalid SpeedySpeech input: duration predictor requested 65 frames, exceeding configured limit 64"
                .to_owned()
        ))
    );
    assert_eq!(
        attend_by_durations(&starts, &ends, &lengths, double(0.5), 8),
        Err(SpeedySpeechError::InvalidInput(
            "duration predictor produced zero output frames".to_owned()
        ))
    );
}

#[test]
fn whole_parts_of_durations_are_not_negative() {
    let durations = vec![vec![double(2.75), double(-3.0), double(f64::NAN), double(1.0)]];
    assert_eq!(whole_durations(&durations), vec![vec![2, 0, 0, 1]]);
}

#[test]
fn expansions_beyond_the_limit_are_refused() {
    let encoded = vec![vec![vec![1, 2]]];
    assert!(matches!(
        expand_by_durations(&encoded, &vec![vec![4, 5]], 0, 8),
        Err(SpeedySpeechError::InvalidInput(_))
    ));
    assert!(expand_by_durations(&encoded, &vec![vec![0, 0]], 0, 8).is_err());
    assert!(expand_by_durations(&encoded, &vec![vec![usize::MAX, 1]], 0, 8).is_err());
    assert_eq!(expand_by_durations(&encoded, &vec![vec![4, 4]], 0, 8).unwrap().frames, 8);
}

#[test]
fn inference_rejects_out_of_vocabulary_ids() {
    let config = tiny_speedy_speech();
    config.topology().expect("model");
    let input = TokenBatch::single(vec![1, 8]);
    let error = config.check_inference(&input, double(1.0), false).unwrap_err();
    assert!(error.describe().contains("outside vocabulary"));
}

#[test]
fn tiny_speedy_speech_accepts_its_own_input() {
    let config = tiny_speedy_speech();
    let topology = config.topology().unwrap();
    let input = TokenBatch::single(vec![1, 2, 3]);
    config.check_inference(&input, double(1.0), false).unwrap();
    let encoded: Vec<Vec<Vec<f32>>> = vec![vec![vec![1.0, 2.0, 3.0]; 4]];
    let expanded = config.expand(&encoded, &vec![vec![1, 1, 1]], 0.0).unwrap();
    let output = config.output_shapes(&input, expanded.frames);
    assert_eq!(output.mel, [1, 3, 3]);
    assert_eq!(output.durations, [1, 3]);
    assert!(topology.minimum_input_tokens <= 3);
    assert!(topology.aligner.is_some());
}

#[test]
fn positions_are_limited() {
    assert!(check_positional(5_000).is_ok());
    assert!(check_positional(5_001).is_err());
}

#[test]
fn stacks_need_room_for_their_widest_convolution() {
    assert_eq!(widest_dilation(&[1, 4, 2]), 4);
    assert_eq!(minimum_stack_input_size(&stack()), minimum_stack_input_size(&stack()));
    let released = SpeedySpeechConfig::ljspeech();
    assert!(minimum_stack_input_size(&released.decoder) >= minimum_stack_input_size(&released.encoder));
    assert!(released.validate().is_ok());
}

#[test]
fn blocks_keep_their_length() {
    for conv in conv_bn_block(4, 4, 4, 4, 2, 2) {
        assert_eq!(conv.pad_left + conv.pad_right, conv.dilation * (conv.kernel_size - 1));
    }
}

#[test]
fn residual_stacks_are_checked() {
    let mut bad = stack();
    bad.dilations = vec![];
    assert!(matches!(bad.validate("encoder"), Err(SpeedySpeechError::InvalidConfig(_))));
    let mut bad = stack();
    bad.dilations = vec![1, 0];
    assert!(bad.validate("encoder").is_err());
    let mut bad = stack();
    bad.kernel_size = 0;
    assert!(bad.validate("decoder").is_err());
    assert!(stack().validate("encoder").is_ok());
}

#[test]
fn remapping_tables_are_not_empty() {
    assert!(!SpeedySpeechConfig::key_remappings().is_empty());
    assert!(!FastPitchConfig::key_remappings().is_empty());
    assert!(!FastSpeechConfig::key_remappings().is_empty());
}
