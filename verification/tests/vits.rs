//! VITS: the waveform decoder, the speakers and the streaming of its audio.

use tongues_tts::audio::{single_chunk, stream_chunks, Pipeline};
use tongues_tts::checkpoint::{LoadReport, Subtree};
use tongues_tts::double::Double;
use tongues_tts::hifigan::HifiganError;
use tongues_tts::request::{
    ConditioningKind, EmbeddingContract, SpeakerReferenceSource, SpeechModelFamily,
    SpeechSynthesisRequest, SynthesisOptions, UtterancePlan,
};
use tongues_tts::vits;
use tongues_tts::vits::{SpeakerChoice, SpeakerMode};
use tongues_tts::vits_decoder::{
    check_checkpoint, key_remappings, select_subtree, ConditioningSpread, VitsAudioConfig,
    VitsInferenceConfig, VitsNetworkConfig, VitsWaveformDecoderConfig, VitsWaveformDecoderError,
};

fn double(value: f64) -> Double {
    Double { bits: value.to_bits() }
}

fn tiny_model_config() -> VitsInferenceConfig {
    VitsInferenceConfig {
        network: VitsNetworkConfig {
            hidden_channels: 4,
            use_sdp: true,
            kernel_size_flow: 3,
            dilation_rate_flow: 1,
            num_layers_flow: 1,
            resblock_type_decoder: "1".to_owned(),
            resblock_dilation_sizes_decoder: vec![vec![1, 2, 3]],
            resblock_kernel_sizes_decoder: vec![3],
            upsample_kernel_sizes_decoder: vec![4],
            upsample_initial_channel_decoder: 4,
            upsample_rates_decoder: vec![2],
            use_speaker_embedding: true,
            num_speakers: 3,
            speaker_embedding_channels: 4,
            use_d_vector_file: false,
            d_vector_dim: 0,
            condition_dp_on_speaker: true,
            use_language_embedding: false,
            num_languages: 0,
            embedded_language_dim: 4,
            inference_noise_scale: double(0.667),
            inference_noise_scale_dp: double(0.8),
            length_scale: double(1.0),
            max_inference_len: None,
        },
        audio: VitsAudioConfig { hop_length: 2, sample_rate: 8000 },
    }
}

#[test]
fn derives_integrated_decoder_topology_from_model_config() {
    let config =
        VitsWaveformDecoderConfig::from_model_config(&tiny_model_config()).expect("topology");
    let generator = config.generator_config();

    assert_eq!(generator.in_channels, 4);
    assert_eq!(generator.cond_channels, 4);
    assert_eq!(generator.out_channels, 1);
    assert_eq!(generator.inference_padding, 0);
    assert!(!generator.conv_pre_weight_norm);
    assert!(!generator.conv_post_weight_norm);
    assert!(!generator.conv_post_bias);
    assert_eq!(generator.upsample_factor(), 2);
}

#[test]
fn decoder_expands_global_conditioning_and_preserves_shape_contract() {
    let decoder =
        VitsWaveformDecoderConfig::from_model_config(&tiny_model_config()).expect("topology");
    decoder.topology().expect("decoder");
    let latent = [2, 4, 3];
    let speaker = [2, 4, 1];

    let spread = decoder.plan_forward(&latent, &Some(speaker)).expect("waveform");

    assert_eq!(spread, ConditioningSpread::Repeated(3));
    let frames = decoder.output_frames(latent[2]).expect("frames");
    assert_eq!([latent[0], 1, frames], [2, 1, 6]);
    assert_eq!(decoder.input_channels(), 4);
    assert_eq!(decoder.conditioning_channels(), 4);
    assert_eq!(decoder.output_frames(3), Some(6));
}

#[test]
fn decoders_refuse_latents_of_another_shape() {
    let decoder =
        VitsWaveformDecoderConfig::from_model_config(&tiny_model_config()).expect("topology");
    let refused = |latent: [usize; 3], conditioning: Option<[usize; 3]>| {
        decoder.plan_forward(&latent, &conditioning).is_err()
    };
    assert!(refused([2, 5, 3], Some([2, 4, 1])));
    assert!(refused([2, 4, 3], None));
    assert!(refused([2, 4, 3], Some([1, 4, 1])));
    assert!(refused([2, 4, 3], Some([2, 4, 2])));
    assert_eq!(
        decoder.plan_forward(&[2, 4, 3], &Some([2, 4, 3])).expect("frame by frame"),
        ConditioningSpread::AsGiven
    );
}

#[test]
fn the_hop_must_be_filled() {
    let mut config = tiny_model_config();
    config.audio.hop_length = 3;
    assert!(matches!(
        VitsWaveformDecoderConfig::from_model_config(&config),
        Err(VitsWaveformDecoderError::InvalidTopology(_))
    ));
    let mut config = tiny_model_config();
    config.network.resblock_kernel_sizes_decoder = vec![4];
    let decoder = VitsWaveformDecoderConfig::from_model_config(&config).expect("hop");
    assert!(matches!(decoder.topology(), Err(VitsWaveformDecoderError::Generator(_))));
}

#[test]
fn generator_errors_are_carried() {
    let error =
        VitsWaveformDecoderError::from(HifiganError::InvalidInput("too short".to_owned()));
    assert!(matches!(error, VitsWaveformDecoderError::Generator(_)));
    assert!(error.describe().contains("too short"));
}

#[test]
fn only_known_subtrees_are_selected() {
    let (subtree, prefix) = select_subtree("waveform_decoder").expect("subtree");
    assert_eq!(subtree, Subtree::WaveformDecoder);
    assert!(!key_remappings(prefix).is_empty());
    assert!(matches!(
        select_subtree("text_encoder"),
        Err(VitsWaveformDecoderError::Checkpoint(_))
    ));
    let derived = LoadReport {
        missing: vec![
            ("conv_pre.weight_g".to_owned(), "conv_pre".to_owned()),
            ("conv_post.weight_g".to_owned(), "conv_post".to_owned()),
        ],
        errors: vec![],
        unused: vec!["text_encoder.emb.weight".to_owned()],
    };
    assert!(check_checkpoint(&derived, subtree).is_ok());
    let complete = LoadReport { missing: vec![], errors: vec![], unused: vec![] };
    assert!(check_checkpoint(&complete, subtree).is_err());
    let partial = LoadReport {
        missing: vec![("waveform_decoder.conv_pre.weight".to_owned(), "conv_pre".to_owned())],
        errors: vec![],
        unused: vec![],
    };
    assert!(check_checkpoint(&partial, subtree).is_err());
}

#[test]
fn exactly_one_speaker_mode_is_required() {
    let mut network = tiny_model_config().network;
    assert_eq!(vits::speaker_mode(&network), Ok(SpeakerMode::Learned));
    network.use_d_vector_file = true;
    assert!(vits::speaker_mode(&network).is_err());
    network.use_speaker_embedding = false;
    network.d_vector_dim = 512;
    assert_eq!(vits::speaker_mode(&network), Ok(SpeakerMode::Vectors));
    assert!(vits::check_reference_encoder(&network, 512).is_ok());
    assert!(vits::check_reference_encoder(&network, 256).is_err());
    network.use_sdp = false;
    assert!(vits::speaker_mode(&network).is_err());
}

#[test]
fn parts_agree_on_speaker_channels() {
    let config = tiny_model_config();
    let parts = vits::plan_parts(&config, 192, 0);
    assert_eq!(parts.speaker_channels, 4);
    assert_eq!(parts.flow.conditioning_channels, 4);
    let table = parts.speaker_table.expect("learned speakers");
    assert_eq!((table.rows, table.channels), (3, 4));
    assert!(parts.language_table.is_none());
    assert_eq!(parts.sample_rate_hz, 8000);
}

#[test]
fn language_maps_follow_the_network() {
    let mut network = tiny_model_config().network;
    assert!(vits::check_language_map(&network, false).is_ok());
    assert!(vits::check_language_map(&network, true).is_err());
    network.use_language_embedding = true;
    assert!(vits::check_language_map(&network, true).is_ok());
    assert!(vits::check_language_map(&network, false).is_err());
    let mut options = SynthesisOptions::default();
    assert_eq!(vits::needs_language(&options, true), Ok(true));
    options.language_id = Some(1);
    assert!(vits::needs_language(&options, false).is_err());
}

fn request() -> SpeechSynthesisRequest {
    SpeechSynthesisRequest {
        plan: UtterancePlan {
            intended_text: None,
            speaker: None,
            speaker_reference: None,
            style: None,
        },
        options: SynthesisOptions::default(),
    }
}

fn contract() -> EmbeddingContract {
    EmbeddingContract {
        kind: ConditioningKind::Speaker,
        space: "space-a".to_owned(),
        dimensions: 4,
        l2_normalized: false,
    }
}

#[test]
fn speakers_are_chosen_by_the_checkpoint_and_the_request() {
    let mut asked = request();
    asked.plan.speaker = Some("p225".to_owned());
    assert_eq!(vits::choose_speaker(&asked, true, None, false), Ok(SpeakerChoice::LearnedRow));
    assert_eq!(
        vits::choose_speaker(&asked, false, Some(&contract()), false),
        Ok(SpeakerChoice::Enrollment)
    );
    let mut vector = request();
    vector.plan.speaker_reference = Some(SpeakerReferenceSource::Embedding {
        space: "space-a".to_owned(),
        values: vec![double(0.5); 4],
    });
    assert_eq!(
        vits::choose_speaker(&vector, false, Some(&contract()), false),
        Ok(SpeakerChoice::Vector)
    );
    assert!(vits::choose_speaker(&vector, true, None, false).is_err());
    let mut recording = request();
    recording.plan.speaker_reference =
        Some(SpeakerReferenceSource::ReferenceAudio { uri: "a.wav".to_owned() });
    assert_eq!(
        vits::choose_speaker(&recording, false, Some(&contract()), true),
        Ok(SpeakerChoice::Recording)
    );
    assert!(vits::choose_speaker(&recording, false, Some(&contract()), false).is_err());
}

#[test]
fn vectors_of_another_space_are_refused() {
    let expected = contract();
    assert!(vits::check_speaker_vector(Ok(()), &contract(), &expected).is_ok());
    let mut other = contract();
    other.space = "space-b".to_owned();
    assert!(vits::check_speaker_vector(Ok(()), &other, &expected).is_err());
    assert_eq!(
        vits::check_speaker_vector(Err("not normalized".to_owned()), &other, &expected),
        Err("not normalized".to_owned())
    );
    let mut other = contract();
    other.dimensions = 5;
    assert!(vits::check_speaker_vector(Ok(()), &other, &expected).is_err());
}

#[test]
fn noise_comes_from_the_request_or_the_network() {
    let network = tiny_model_config().network;
    let mut options = SynthesisOptions::default();
    assert_eq!(vits::duration_noise(&network, &options), Ok(double(0.8)));
    assert_eq!(vits::latent_noise(&network, &options), Ok(double(0.667)));
    assert_eq!(vits::length_scale(&network, &options), double(1.0));
    options.noise_w = Some(double(-1.0));
    options.noise_scale = Some(double(f64::NAN));
    options.length_scale = Some(double(1.5));
    assert!(vits::duration_noise(&network, &options).is_err());
    assert!(vits::latent_noise(&network, &options).is_err());
    assert_eq!(vits::length_scale(&network, &options), double(1.5));
}

#[test]
fn latent_noise_has_a_seed_of_its_own() {
    assert_eq!(vits::latent_seed(None), None);
    for seed in [0, 7, u64::MAX] {
        assert_ne!(vits::latent_seed(Some(seed)), Some(seed));
    }
}

#[test]
fn decoding_is_capped_and_checked() {
    let mut network = tiny_model_config().network;
    assert_eq!(vits::decoded_frames(&network, 10), 10);
    network.max_inference_len = Some(8);
    assert_eq!(vits::decoded_frames(&network, 10), 8);
    assert!(vits::check_stream_batch(1).is_ok());
    assert!(vits::check_stream_batch(2).is_err());
    assert!(vits::check_decoded(&[1, 1, 16], 1, 8, 2).is_ok());
    assert_eq!(
        vits::check_decoded(&[1, 1, 15], 1, 8, 2).unwrap_err(),
        "VITS decoder emitted [1, 1, 15]; expected [1, 1, 16]"
    );
}

#[test]
fn capabilities_name_what_is_attached() {
    let capable = vits::capabilities(false, true);
    assert_eq!(capable.family, SpeechModelFamily::EndToEndSpeech);
    assert!(capable.supports_named_speakers && capable.supports_reference_audio);
    assert!(!capable.supports_languages && !capable.supports_voice_conversion);
    assert!(capable.integrated_vocoder);
}

#[test]
fn embedding_tables_are_complete_or_refused() {
    let complete = LoadReport { missing: vec![], errors: vec![], unused: vec![] };
    assert!(vits::check_speaker_table(&complete).is_ok());
    assert!(vits::check_language_table(&complete).is_ok());
    let failed =
        LoadReport { missing: vec![], errors: vec!["shape".to_owned()], unused: vec![] };
    assert!(vits::check_speaker_table(&failed).is_err());
    assert!(vits::check_language_table(&failed).is_err());
}

#[test]
fn streams_give_back_the_whole_waveform() {
    let samples: Vec<u32> = (0..130 * 2).collect();
    let chunks = stream_chunks(&samples, 130, 2, 22_050);
    assert_eq!(chunks.len(), 3);
    assert_eq!(chunks[0].pcm_mono.len(), 128);
    assert_eq!(chunks[2].pcm_mono.len(), 4);
    let mut joined = Vec::new();
    for (index, chunk) in chunks.iter().enumerate() {
        assert_eq!(chunk.chunk_index, index);
        assert_eq!(chunk.is_final, index == 2);
        assert_eq!(chunk.sample_rate_hz, 22_050);
        joined.extend_from_slice(&chunk.pcm_mono);
    }
    assert_eq!(joined, samples);
    let only = single_chunk(samples.clone(), 16_000);
    assert!(only.is_final && only.chunk_index == 0 && only.pcm_mono == samples);
}

#[test]
fn waveforms_are_finite_and_of_their_length() {
    let samples = vec![double(0.5), double(-0.5)];
    assert!(Pipeline::GlowTts.check_waveform(&samples, 2).is_ok());
    assert!(Pipeline::SpeedySpeech.check_waveform(&samples, 3).is_err());
    let broken = vec![double(0.5), double(f64::INFINITY)];
    assert!(Pipeline::AlignTts.check_waveform(&broken, 2).is_err());
}
