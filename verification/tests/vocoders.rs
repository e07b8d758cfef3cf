//! HiFi-GAN, MelGAN and their training schedules.

use tongues_tts::double::Double;
use tongues_tts::hifigan::{same_padding, HifiganError, HifiganGeneratorConfig, ResBlock1Config};
use tongues_tts::json::Json;
use tongues_tts::melgan::{
    check_layer_order, projection_padding, residual_padding, MelganError, MelganGeneratorConfig,
    MelganLayer, PqmfConfig,
};
use tongues_tts::training::{
    compared_samples, needs_mel_loss, VocoderAdversarialUpdateSchedule, VocoderTrainingPhase,
};
use tongues_tts::vits_decoder::VitsWaveformDecoderConfig;
use tongues_tts::upsampling::{checked_scaled, checked_scaled_padded, total_factor};

fn double(value: f64) -> Double {
    Double { bits: value.to_bits() }
}

fn tiny_config() -> HifiganGeneratorConfig {
    HifiganGeneratorConfig {
        in_channels: 4,
        out_channels: 1,
        resblock_type: "1".to_owned(),
        resblock_dilation_sizes: vec![vec![1, 2, 3], vec![1, 2, 3]],
        resblock_kernel_sizes: vec![3, 5],
        upsample_kernel_sizes: vec![4, 4],
        upsample_initial_channel: 16,
        upsample_factors: vec![2, 2],
        inference_padding: 1,
        cond_channels: 0,
        conv_pre_weight_norm: true,
        conv_post_weight_norm: true,
        conv_post_bias: true,
    }
}

#[test]
fn forward_and_inference_shapes_match_upsampling_contract() {
    let config = tiny_config();
    config.topology().expect("valid config");

    let features = [2, 4, 3];
    let output = config.forward_shape(&features, &None).expect("forward");
    assert_eq!(output, [2, 1, 12]);
    assert_eq!(config.output_frames(3), Some(12));

    let output = config.inference_shape(&features, &None).expect("inference");
    assert_eq!(output, [2, 1, 20]);
    assert_eq!(config.inference_output_frames(3), Some(20));
}

#[test]
fn any_valid_generator_can_decode_latent_features() {
    let decoder = VitsWaveformDecoderConfig::from_generator_config(tiny_config()).expect("decoder");
    assert_eq!(decoder.generator_config(), &tiny_config());
    assert_eq!(decoder.input_channels(), tiny_config().in_channels);
    let mut broken = tiny_config();
    broken.in_channels = 0;
    assert_eq!(
        VitsWaveformDecoderConfig::from_generator_config(broken).unwrap_err().describe(),
        "invalid HiFi-GAN config: in_channels must be positive"
    );
}

#[test]
fn config_validation_rejects_incompatible_topologies() {
    let mut config = tiny_config();
    config.resblock_kernel_sizes[0] = 4;
    assert!(config.validate().is_err());

    let mut config = tiny_config();
    config.upsample_kernel_sizes[0] = 3;
    assert!(config.validate().is_err());

    let mut config = tiny_config();
    config.resblock_type = "2".to_owned();
    config.validate().expect("ResBlock2 topology");
    let model = config.topology().expect("ResBlock2 model");
    assert_eq!(model.stages[0].blocks[0].convs.len(), 2);
}

#[test]
fn normalized_json_config_applies_coqui_defaults() {
    let value = Json::from_value(
        serde_json::from_str(
            r#"{
                "in_channels": 80,
                "out_channels": 1,
                "resblock_type": "1",
                "resblock_dilation_sizes": [[1, 3, 5], [1, 3, 5], [1, 3, 5]],
                "resblock_kernel_sizes": [3, 7, 11],
                "upsample_kernel_sizes": [16, 16, 4, 4],
                "upsample_initial_channel": 512,
                "upsample_factors": [8, 8, 2, 2]
            }"#,
        )
        .expect("JSON"),
    );

    let config = HifiganGeneratorConfig::from_json_value(&value).expect("Coqui generator config");
    assert_eq!(config.inference_padding, 5);
    assert_eq!(config.cond_channels, 0);
    assert!(config.conv_pre_weight_norm);
    assert!(config.conv_post_weight_norm);
    assert!(config.conv_post_bias);
    assert_eq!(config.upsample_factor(), 256);
}

#[test]
fn generators_refuse_features_of_another_shape() {
    let config = tiny_config();
    assert!(matches!(
        config.forward_shape(&[1, 5, 3], &None),
        Err(HifiganError::InvalidInput(_))
    ));
    assert!(config.forward_shape(&[1, 4, 0], &None).is_err());
    assert!(config.forward_shape(&[1, 4, 3], &Some([1, 4, 3])).is_err());
    let mut conditioned = tiny_config();
    conditioned.cond_channels = 2;
    assert!(conditioned.forward_shape(&[1, 4, 3], &None).is_err());
    assert_eq!(
        conditioned.forward_shape(&[1, 4, 3], &Some([1, 2, 3])).expect("conditioned"),
        [1, 1, 12]
    );
}

#[test]
fn generator_documents_are_checked() {
    let broken = Json::parse("{ in_channels: 80 }").expect("JSON5");
    assert!(matches!(
        HifiganGeneratorConfig::from_json_value(&broken),
        Err(HifiganError::InvalidConfig(_))
    ));
    let mut config = tiny_config();
    config.upsample_factors = vec![];
    assert!(config.validate().is_err());
    let mut config = tiny_config();
    config.upsample_initial_channel = 2;
    assert!(config.validate().is_err());
}

#[test]
fn residual_convolutions_keep_their_length() {
    assert_eq!(same_padding(3, 1), 1);
    assert_eq!(same_padding(11, 5), 25);
    let block = ResBlock1Config { channels: 8, kernel_size: 3, dilations: vec![1, 3, 5] };
    let layers = block.layers().expect("residual block");
    assert_eq!((layers.convs1.len(), layers.convs2.len(), layers.convs.len()), (3, 3, 0));
    for conv in layers.convs1.iter().chain(&layers.convs2) {
        assert_eq!(conv.pad_left + conv.pad_right, conv.dilation * (conv.kernel_size - 1));
    }
    assert_eq!(block.layers_of_second_kind().expect("second kind").convs.len(), 2);
}

#[test]
fn stages_halve_channels_and_multiply_frames() {
    let topology = tiny_config().topology().expect("model");
    assert_eq!(topology.stages[0].up.channels_in, 16);
    assert_eq!(topology.stages[0].up.channels_out, 8);
    assert_eq!(topology.stages[1].up.channels_out, 4);
    assert_eq!(topology.upsample_factor, 4);
    for stage in &topology.stages {
        let up = &stage.up;
        let frames = 7;
        let out = (frames - 1) * up.stride + up.kernel_size + up.output_padding - 2 * up.padding;
        assert_eq!(out, frames * up.stride);
    }
}

#[test]
fn scaling_is_refused_beyond_the_machine() {
    assert_eq!(total_factor(&[8, 8, 2, 2]), 256);
    assert_eq!(checked_scaled(3, 4), Some(12));
    assert_eq!(checked_scaled(usize::MAX, 2), None);
    assert_eq!(checked_scaled_padded(3, 1, 4), Some(20));
    assert_eq!(checked_scaled_padded(usize::MAX, 1, 1), None);
}

fn tiny_melgan(out_channels: usize) -> MelganGeneratorConfig {
    MelganGeneratorConfig {
        in_channels: 4,
        out_channels,
        projection_kernel_size: 3,
        base_channels: 16,
        upsample_factors: vec![2, 2],
        residual_kernel_size: 3,
        residual_blocks: 2,
        inference_padding: 2,
    }
}

#[test]
fn melgan_forward_and_inference_follow_upsample_contract() {
    let config = tiny_melgan(1);
    config.topology().unwrap();
    let input = [2, 4, 5];

    assert_eq!(config.forward_shape(&input).unwrap(), [2, 1, 20]);
    assert_eq!(config.inference_shape(&input).unwrap(), [2, 1, 36]);
    assert_eq!(config.inference_output_frames(5), Some(36));
}

#[test]
fn multiband_output_is_synthesized_to_full_rate() {
    let config = tiny_melgan(4);
    let pqmf = PqmfConfig::default();
    config.multiband_topology(&pqmf).unwrap();
    let input = [1, 4, 5];

    assert_eq!(config.forward_shape(&input).unwrap(), [1, 4, 20]);
    let subbands = config.inference_shape(&input).unwrap();
    pqmf.check_synthesis(subbands[1]).unwrap();
    assert_eq!([subbands[0], 1, subbands[2] * pqmf.bands], [1, 1, 144]);
    assert_eq!(config.multiband_inference_output_frames(5), Some(144));
}

#[test]
fn melgan_layers_alternate_in_order() {
    let layers = tiny_melgan(1).topology().expect("model");
    check_layer_order(&layers).expect("order");
    assert!(matches!(layers[0], MelganLayer::Projection { channels_in: 4, channels_out: 16, .. }));
    assert!(matches!(layers.last(), Some(MelganLayer::Projection { channels_out: 1, .. })));
    assert_eq!(layers.len(), 2 + 2 * 2);
    let mut reversed = layers;
    reversed.reverse();
    assert!(check_layer_order(&reversed).is_err());
}

#[test]
fn melgan_configurations_are_checked() {
    let mut config = tiny_melgan(1);
    config.projection_kernel_size = 4;
    assert!(matches!(config.validate(), Err(MelganError::InvalidConfig(_))));
    let mut config = tiny_melgan(1);
    config.base_channels = 2;
    assert!(config.validate().is_err());
    assert!(tiny_melgan(3).multiband_topology(&PqmfConfig::default()).is_err());
    assert!(matches!(
        tiny_melgan(1).forward_shape(&[1, 3, 5]),
        Err(MelganError::InvalidInput(_))
    ));
    assert!(tiny_melgan(1).check_forward(4, 0).is_err());
}

#[test]
fn reflections_keep_length() {
    assert_eq!(projection_padding(7), 3);
    assert_eq!(residual_padding(3, 9), 9);
}

#[test]
fn filter_banks_are_checked() {
    let pqmf = PqmfConfig::default();
    assert_eq!((pqmf.bands, pqmf.taps), (4, 62));
    assert!(pqmf.validate().is_ok());
    assert!(pqmf.check_analysis(1).is_ok());
    assert!(pqmf.check_analysis(2).is_err());
    assert!(pqmf.check_synthesis(4).is_ok());
    assert!(pqmf.check_synthesis(1).is_err());
    let filter = pqmf.updown_filter();
    assert_eq!((filter.len(), filter[0].len(), filter[0][0].len()), (4, 4, 4));
    for (i, rows) in filter.iter().enumerate() {
        for (j, taps) in rows.iter().enumerate() {
            for (k, set) in taps.iter().enumerate() {
                assert_eq!(*set, i == j && k == 0);
            }
        }
    }
    let odd = PqmfConfig { taps: 61, ..PqmfConfig::default() };
    assert!(odd.validate().is_err());
}

#[test]
fn trainer_default_schedule_updates_both_parameter_groups() {
    let schedule = VocoderAdversarialUpdateSchedule::EveryBatch;
    assert_eq!(schedule.training_phase(0), VocoderTrainingPhase::Joint);
    assert_eq!(schedule.training_phase(1), VocoderTrainingPhase::Joint);
}

#[test]
fn trainer_phase_respects_alternating_cycle() {
    let schedule =
        VocoderAdversarialUpdateSchedule::Cycle { discriminator_steps: 1, generator_steps: 1 };
    assert_eq!(schedule.training_phase(0), VocoderTrainingPhase::Discriminator);
    assert_eq!(schedule.training_phase(1), VocoderTrainingPhase::Generator);
    assert_eq!(schedule.training_phase(2), VocoderTrainingPhase::Discriminator);
}

#[test]
fn melgan_phase_schedule_respects_documented_cycle() {
    let schedule =
        VocoderAdversarialUpdateSchedule::Cycle { discriminator_steps: 1, generator_steps: 2 };
    assert_eq!(schedule.training_phase(0), VocoderTrainingPhase::Discriminator);
    assert_eq!(schedule.training_phase(1), VocoderTrainingPhase::Generator);
    assert_eq!(schedule.training_phase(2), VocoderTrainingPhase::Generator);
    assert_eq!(schedule.training_phase(3), VocoderTrainingPhase::Discriminator);
}

#[test]
fn predicted_waveform_has_correct_upsampled_shape() {
    // 3 frames of 4 bins, each frame upsampled by 2 and again by 2: 12 samples.
    let [b, c, t] = tiny_config().forward_shape(&[1, 4, 3], &None).expect("forward");
    assert_eq!(b, 1);
    assert_eq!(c, 1);
    assert_eq!(t, 12);
}

#[test]
fn burn_hifigan_trainer_default_schedule_returns_both_losses() {
    let schedule = VocoderAdversarialUpdateSchedule::EveryBatch;
    tiny_config().forward_shape(&[1, 4, 3], &None).expect("forward");
    let progress = schedule.progress(0);
    assert_eq!(progress.phase, VocoderTrainingPhase::Joint);
    assert!(progress.phase.losses().generator);
    assert!(progress.phase.losses().discriminator);
    assert_eq!(progress.generator_updates, 1);
    assert_eq!(progress.discriminator_updates, 1);
}

#[test]
fn burn_melgan_trainer_default_schedule_returns_both_losses() {
    let schedule = VocoderAdversarialUpdateSchedule::EveryBatch;
    tiny_melgan(1).forward_shape(&[1, 4, 3]).expect("forward");
    let progress = schedule.progress(0);
    assert_eq!(progress.phase, VocoderTrainingPhase::Joint);
    assert!(progress.phase.losses().generator);
    assert!(progress.phase.losses().discriminator);
    assert_eq!(progress.generator_updates, 1);
    assert_eq!(progress.discriminator_updates, 1);
}

#[test]
fn multiband_default_schedule_returns_both_losses() {
    let schedule = VocoderAdversarialUpdateSchedule::EveryBatch;
    tiny_melgan(4).multiband_topology(&PqmfConfig::default()).expect("generator");
    assert_eq!(tiny_melgan(4).multiband_inference_output_frames(3), Some(112));
    let progress = schedule.progress(0);
    assert_eq!(progress.phase, VocoderTrainingPhase::Joint);
    assert!(progress.phase.losses().generator);
    assert!(progress.phase.losses().discriminator);
    assert_eq!(progress.generator_updates, 1);
    assert_eq!(progress.discriminator_updates, 1);
}

#[test]
fn cycles_count_the_updates_of_each_side() {
    let schedule =
        VocoderAdversarialUpdateSchedule::Cycle { discriminator_steps: 2, generator_steps: 3 };
    let mut generator = 0;
    let mut discriminator = 0;
    for step in 0..17 {
        let losses = schedule.training_phase(step).losses();
        generator += u64::from(losses.generator);
        discriminator += u64::from(losses.discriminator);
        let progress = schedule.progress(step);
        assert_eq!(progress.generator_updates, generator);
        assert_eq!(progress.discriminator_updates, discriminator);
        assert_eq!(generator + discriminator, step + 1);
    }
}

#[test]
fn each_phase_has_its_losses() {
    let generator = VocoderTrainingPhase::Generator.losses();
    assert!(generator.generator && !generator.discriminator);
    let discriminator = VocoderTrainingPhase::Discriminator.losses();
    assert!(!discriminator.generator && discriminator.discriminator);
}

#[test]
fn weighed_losses_need_their_contract() {
    assert_eq!(needs_mel_loss(double(45.0), true), Ok(true));
    assert_eq!(needs_mel_loss(double(0.0), false), Ok(false));
    assert!(needs_mel_loss(double(45.0), false).is_err());
    assert_eq!(compared_samples(double(0.0), 3, 4), None);
    assert_eq!(compared_samples(double(1.0), 3, 4), Some(3));
    assert_eq!(compared_samples(double(1.0), 5, 4), Some(4));
}
