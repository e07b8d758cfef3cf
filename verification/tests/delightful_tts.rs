//! DelightfulTTS: controls, conditioning and shapes.

use tongues_tts::delightful_tts::{
    check_block, DelightfulConditioning, DelightfulConformerConfig, DelightfulProsodyConfig,
    DelightfulSpeakerConfig, DelightfulTtsConfig, DelightfulTtsControls, DelightfulTtsError,
    DelightfulVarianceConfig,
};
use tongues_tts::checkpoint::LoadReport;
use tongues_tts::double::Double;
use tongues_tts::tokens::TokenBatch;

fn double(value: f64) -> Double {
    Double { bits: value.to_bits() }
}

fn conformer() -> DelightfulConformerConfig {
    DelightfulConformerConfig {
        hidden_channels: 8,
        layers: 1,
        heads: 2,
        convolution_kernel_size: 3,
    }
}

fn tiny_config() -> DelightfulTtsConfig {
    DelightfulTtsConfig {
        num_chars: 12,
        out_channels: 3,
        encoder: conformer(),
        decoder: conformer(),
        variance: DelightfulVarianceConfig {
            hidden_channels: 8,
            kernel_size: 3,
            embedding_kernel_size: 3,
        },
        prosody: DelightfulProsodyConfig {
            utterance_bottleneck: 8,
            phoneme_bottleneck: 2,
            predictor_kernel_size: 3,
        },
        speakers: DelightfulSpeakerConfig {
            num_speakers: 0,
            use_speaker_embedding: false,
            speaker_embedding_channels: 0,
            use_d_vector_file: false,
            d_vector_dim: 0,
        },
        leaky_relu_slope: double(0.3),
        length_scale: double(1.0),
        max_duration: 10,
        max_output_frames: 64,
    }
}

#[test]
fn explicit_variance_and_duration_controls_produce_mel_frames() {
    let config = tiny_config();
    config.topology(0, Ok(())).expect("model");
    let tokens = TokenBatch::single(vec![1, 2, 3]);
    let controls = DelightfulTtsControls {
        durations: Some([1, 3]),
        pitch: Some([1, 1, 3]),
        energy: Some([1, 1, 3]),
        ..Default::default()
    };
    let plan = config.plan_inference(&tokens, &controls).expect("inference");
    let encoded: Vec<Vec<Vec<f32>>> = vec![vec![vec![1.0, 2.0, 3.0]; 8]];
    let expanded = config.expand(&encoded, &vec![vec![1, 2, 1]], 0.0).expect("expansion");
    let output = config.output_shapes(&plan, expanded.frames);
    assert_eq!(output.mel, [1, 4, 3]);
    assert_eq!(output.durations, [1, 3]);
    assert_eq!(output.pitch, [1, 1, 3]);
    assert_eq!(output.energy, [1, 1, 3]);
    assert_eq!(output.utterance_prosody, [1, 1, 8]);
    assert_eq!(output.phoneme_prosody, [1, 3, 2]);
}

fn learned() -> DelightfulTtsConfig {
    let mut config = tiny_config();
    config.speakers = DelightfulSpeakerConfig {
        num_speakers: 2,
        use_speaker_embedding: true,
        speaker_embedding_channels: 4,
        use_d_vector_file: false,
        d_vector_dim: 0,
    };
    config
}

#[test]
fn learned_speaker_conditioning_is_required_and_bounded() {
    let config = learned();
    config.topology(0, Ok(())).expect("model");
    let tokens = TokenBatch::single(vec![1, 2, 3]);
    assert!(config.plan_inference(&tokens, &config.default_controls()).is_err());
    let output = config.plan_inference(
        &tokens,
        &DelightfulTtsControls {
            durations: Some([1, 3]),
            speaker_ids: Some(vec![1]),
            ..Default::default()
        },
    );
    assert!(output.is_ok());
}

#[test]
fn speakers_outside_the_table_are_refused() {
    let config = learned();
    for ids in [vec![2], vec![-1], vec![0, 1]] {
        assert!(matches!(
            config.speakers.resolve_conditioning(&Some(ids), &None, 1),
            Err(DelightfulTtsError::InvalidInput(_))
        ));
    }
    assert_eq!(
        config.speakers.resolve_conditioning(&Some(vec![0]), &None, 1).unwrap(),
        DelightfulConditioning::SpeakerIds
    );
    assert_eq!(config.speakers.conditioning_dimensions(), Some(4));
}

#[test]
fn vectors_condition_checkpoints_that_take_them() {
    let mut speakers = tiny_config().speakers;
    assert_eq!(
        speakers.resolve_conditioning(&None, &None, 1).unwrap(),
        DelightfulConditioning::Unconditioned
    );
    assert!(speakers.resolve_conditioning(&None, &Some([1, 4]), 1).is_err());
    speakers.use_d_vector_file = true;
    speakers.d_vector_dim = 4;
    assert_eq!(
        speakers.resolve_conditioning(&None, &Some([1, 4]), 1).unwrap(),
        DelightfulConditioning::Vectors
    );
    assert!(speakers.resolve_conditioning(&None, &Some([1, 5]), 1).is_err());
    assert!(speakers.resolve_conditioning(&None, &None, 1).is_err());
}

#[test]
fn blocks_take_what_they_were_built_for() {
    assert!(check_block(true, true).is_ok());
    assert!(check_block(false, false).is_ok());
    assert!(check_block(true, false).is_err());
    assert!(check_block(false, true).is_err());
}

#[test]
fn unusable_delightful_requests_are_refused() {
    let config = tiny_config();
    let refused = |ids: Vec<i64>, controls: DelightfulTtsControls| {
        config.plan_inference(&TokenBatch::single(ids), &controls).is_err()
    };
    let controls = DelightfulTtsControls::default;
    assert!(refused(vec![], controls()));
    assert!(refused(vec![12], controls()));
    assert!(refused(vec![1], DelightfulTtsControls { length_scale: double(0.0), ..controls() }));
    assert!(refused(vec![1], DelightfulTtsControls { durations: Some([1, 2]), ..controls() }));
    assert!(refused(vec![1], DelightfulTtsControls { pitch: Some([1, 2, 1]), ..controls() }));
    assert!(refused(
        vec![1],
        DelightfulTtsControls { energy_scale: double(f64::NAN), ..controls() }
    ));
    assert!(matches!(
        config.topology(0, Err("bad".to_owned())),
        Err(DelightfulTtsError::InvalidConfig(_))
    ));
}

#[test]
fn delightful_checkpoints_are_complete_or_refused() {
    let complete = LoadReport { missing: vec![], errors: vec![], unused: vec![] };
    assert!(DelightfulTtsConfig::check_checkpoint(&complete).is_ok());
    let failed =
        LoadReport { missing: vec![], errors: vec!["shape".to_owned()], unused: vec![] };
    assert!(matches!(
        DelightfulTtsConfig::check_checkpoint(&failed),
        Err(DelightfulTtsError::Checkpoint(_))
    ));
    assert!(!DelightfulTtsConfig::key_remappings().is_empty());
}

#[test]
fn everything_about_a_voice_can_be_set() {
    let config = tiny_config();
    let pitch = config.pitch_capabilities();
    assert!(pitch.scale && pitch.shift && pitch.explicit_values);
    let energy = config.energy_capabilities();
    assert!(energy.scale && energy.shift && energy.explicit_values);
    assert!(config.supports_explicit_durations());
}

#[test]
fn times_that_are_not_whole_are_attended() {
    let config = tiny_config();
    let starts = vec![vec![double(0.0), double(0.5)]];
    let ends = vec![vec![double(0.5), double(2.0)]];
    let attention =
        config.attend(&starts, &ends, &vec![double(2.0)], double(2.0)).expect("attention");
    assert_eq!(attention.marks, vec![vec![vec![true, false], vec![false, true]]]);
    assert!(config.attend(&starts, &ends, &vec![double(2.0)], double(65.0)).is_err());
}
