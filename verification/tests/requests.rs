//! What requests ask of the acoustic models.

use tongues_tts::acoustic::{
    align_controls, capacitron_contract, delightful_contract, delightful_controls,
    fast_pitch_controls, fast_speech_controls, glow_contract, glow_speaker, optional_durations,
    optional_values, padding_index, padding_symbol, plan_glow, speedy_speech_length_scale,
    style_vector, AcousticFamily, SpectrogramLayout, CAPACITRON_LATENT_SPACE,
    COQUI_D_VECTOR_SPACE,
};
use tongues_tts::delightful_tts::DelightfulSpeakerConfig;
use tongues_tts::double::Double;
use tongues_tts::glow_tts::{GlowTtsEncoderConfig, GlowTtsNetworkConfig};
use tongues_tts::json::Json;
use tongues_tts::request::{
    are_finite, choose_control, ConditioningKind, SpeakerReferenceSource, SpeechModelFamily,
    SpeechSynthesisRequest, StyleSource, SynthesisOptions, UtterancePlan,
};
use tongues_tts::tacotron::CapacitronConfig;

fn double(value: f64) -> Double {
    Double { bits: value.to_bits() }
}

fn request() -> SpeechSynthesisRequest {
    SpeechSynthesisRequest {
        plan: UtterancePlan {
            intended_text: Some("hello".to_owned()),
            speaker: None,
            speaker_reference: None,
            style: None,
        },
        options: SynthesisOptions::default(),
    }
}

const FAMILIES: [AcousticFamily; 6] = [
    AcousticFamily::SpeedySpeech,
    AcousticFamily::FastPitch,
    AcousticFamily::FastSpeech,
    AcousticFamily::AlignTts,
    AcousticFamily::DelightfulTts,
    AcousticFamily::Tacotron2,
];

#[test]
fn vocabularies_and_spectrograms_match_their_checkpoints() {
    for family in FAMILIES {
        assert!(family.check_vocabulary(64, 64).is_ok());
        assert!(family.check_vocabulary(63, 64).is_err());
        assert!(family.check_spectrogram(SpectrogramLayout::FramesByBins, 80, 81).is_err());
        let capable = family.capabilities(false);
        assert_eq!(capable.family, SpeechModelFamily::AcousticModel);
        assert!(!capable.integrated_vocoder);
        assert!(!family.name().is_empty());
    }
}

#[test]
fn single_speaker_models_refuse_named_speakers() {
    for family in FAMILIES {
        assert!(family.check_speaker(&request()).is_ok());
        let mut named = request();
        named.plan.speaker = Some("anna".to_owned());
        assert_eq!(
            family.check_speaker(&named).is_err(),
            family != AcousticFamily::DelightfulTts
        );
        let mut referred = request();
        referred.plan.speaker_reference =
            Some(SpeakerReferenceSource::ReferenceAudio { uri: "a.wav".to_owned() });
        assert!(family.check_speaker(&referred).is_err());
    }
    let mut named = request();
    named.plan.speaker = Some("anna".to_owned());
    assert_eq!(
        delightful_controls(&named, 2).unwrap_err(),
        "named DelightfulTTS speakers must be resolved to a checkpoint speaker ID"
    );
    named.options.speaker_id = Some(1);
    assert!(AcousticFamily::DelightfulTts.check_speaker(&named).is_ok());
    assert_eq!(delightful_controls(&named, 2).unwrap().speaker_ids, Some(vec![1]));
    assert!(!named.is_anonymous());
    assert!(request().is_anonymous());
}

#[test]
fn projections_stay_within_the_vocabulary() {
    assert!(AcousticFamily::FastPitch.check_projection(&vec![0, 7], 8).is_ok());
    assert!(AcousticFamily::FastPitch.check_projection(&vec![0, 8], 8).is_err());
    assert!(AcousticFamily::SpeedySpeech.check_projection(&vec![-1], 8).is_err());
}

#[test]
fn explicit_controls_have_one_value_per_token() {
    assert_eq!(optional_durations(&None, 3), Ok(None));
    assert_eq!(optional_durations(&Some(vec![1, 2, 3]), 3), Ok(Some([1, 3])));
    assert!(optional_durations(&Some(vec![1, 2]), 3).is_err());
    assert!(optional_durations(&Some(vec![1, 0, 3]), 3).is_err());
    let values = Some(vec![double(0.5), double(1.0)]);
    assert_eq!(optional_values("pitch", &values, 2), Ok(Some([1, 1, 2])));
    assert!(optional_values("pitch", &values, 3).unwrap_err().contains("pitch"));
    let broken = Some(vec![double(0.5), double(f64::NAN)]);
    assert!(optional_values("energy", &broken, 2).unwrap_err().contains("energy"));
}

#[test]
fn forward_models_take_their_controls_from_the_request() {
    let mut asked = request();
    asked.options.length_scale = Some(double(1.25));
    asked.options.durations = Some(vec![1, 2]);
    asked.options.pitch_scale = Some(double(0.5));
    asked.options.energy_shift = Some(double(0.25));
    let pitch = fast_pitch_controls(&asked, &vec![1, 2], 8).expect("FastPitch");
    assert_eq!(pitch.length_scale, double(1.25));
    assert_eq!(pitch.pitch_scale, double(0.5));
    assert_eq!(pitch.pitch_shift, double(0.0));
    assert_eq!(pitch.durations, Some([1, 2]));
    let speech = fast_speech_controls(&asked, 2).expect("FastSpeech");
    assert_eq!(speech.energy_shift, double(0.25));
    assert_eq!(speech.energy_scale, double(1.0));
    let delightful = delightful_controls(&asked, 2).expect("DelightfulTTS");
    assert_eq!(delightful.durations, Some([1, 2]));
    assert_eq!(delightful.pitch_scale, double(0.5));
    assert!(fast_pitch_controls(&asked, &vec![1, 2, 3], 8).is_err());
    assert!(fast_speech_controls(&asked, 3).is_err());
    assert!(delightful_controls(&asked, 3).is_err());
}

#[test]
fn aligned_models_take_durations_alone() {
    let mut asked = request();
    asked.options.durations = Some(vec![1, 2]);
    let controls = align_controls(&asked, 2).expect("Align-TTS");
    assert_eq!(controls.length_scale, double(1.0));
    assert_eq!(controls.durations, Some([1, 2]));
    assert!(align_controls(&asked, 1).is_err());
    assert_eq!(
        speedy_speech_length_scale(&request(), &vec![1], 8).expect("SpeedySpeech"),
        double(1.0)
    );
    assert!(speedy_speech_length_scale(&request(), &vec![8], 8).is_err());
}

#[test]
fn padding_symbols_are_one_character_of_the_vocabulary() {
    let root = Json::parse("{ characters: { pad: '_' } }").expect("JSON5");
    assert_eq!(padding_symbol(&root), Ok('_'));
    let empty = Json::parse("{ characters: { pad: '' } }").expect("JSON5");
    assert!(padding_symbol(&empty).is_err());
    assert!(padding_symbol(&Json::parse("{}").expect("JSON5")).is_err());
    assert_eq!(padding_index(Some(3)), Ok(3));
    assert!(padding_index(Some(-1)).is_err());
    assert!(padding_index(None).is_err());
}

fn network() -> GlowTtsNetworkConfig {
    GlowTtsNetworkConfig {
        num_chars: 8,
        out_channels: 4,
        hidden_channels_enc: 4,
        hidden_channels_dec: 4,
        hidden_channels_dp: 4,
        encoder_params: GlowTtsEncoderConfig {
            kernel_size: 3,
            num_layers: 2,
            num_heads: 2,
            hidden_channels_ffn: 8,
            rel_attn_window_size: None,
        },
        mean_only: false,
        num_flow_blocks_dec: 2,
        kernel_size_dec: 3,
        dilation_rate: 1,
        num_block_layers: 2,
        num_splits: 2,
        num_squeeze: 2,
        sigmoid_scale: false,
        use_sdp: false,
        speaker_conditioning_channels: 4,
        length_scale: double(1.5),
        inference_noise_scale: double(0.33),
        inference_noise_scale_dp: double(0.8),
    }
}

#[test]
fn glow_models_take_vectors_of_their_space() {
    let contract = glow_contract(4).expect("conditioned");
    assert_eq!(contract.space, COQUI_D_VECTOR_SPACE);
    assert_eq!((contract.kind, contract.dimensions), (ConditioningKind::Speaker, 4));
    assert!(glow_contract(0).is_none());
    let mut asked = request();
    assert!(glow_speaker(&asked, Some(&contract)).is_err());
    assert_eq!(glow_speaker(&asked, None), Ok(None));
    asked.plan.speaker_reference = Some(SpeakerReferenceSource::Embedding {
        space: COQUI_D_VECTOR_SPACE.to_owned(),
        values: vec![double(0.5); 4],
    });
    assert_eq!(glow_speaker(&asked, Some(&contract)), Ok(Some([1, 4, 1])));
    assert!(glow_speaker(&asked, None).is_err());
    let planned = plan_glow(&asked, Some(&contract), &network(), 2).expect("plan");
    assert_eq!(planned.conditioning, Some([1, 4, 1]));
    assert_eq!(planned.length_scale, double(1.5));
    assert_eq!(planned.noise_scale, double(0.33));
    asked.plan.speaker_reference = Some(SpeakerReferenceSource::Embedding {
        space: "elsewhere".to_owned(),
        values: vec![double(0.5); 4],
    });
    assert!(plan_glow(&asked, Some(&contract), &network(), 2).is_err());
}

#[test]
fn styles_belong_to_capacitron_checkpoints() {
    assert!(capacitron_contract(&None).is_none());
    let contract =
        capacitron_contract(&Some(CapacitronConfig { embedding_dim: 2 })).expect("styled");
    assert_eq!(contract.space, CAPACITRON_LATENT_SPACE);
    let mut asked = request();
    assert_eq!(style_vector(&asked, Some(&contract)), Ok(None));
    asked.plan.style = Some(StyleSource::Embedding {
        kind: CAPACITRON_LATENT_SPACE.to_owned(),
        values: vec![double(0.0), double(1.0)],
    });
    assert_eq!(style_vector(&asked, Some(&contract)), Ok(Some([1, 2])));
    assert!(style_vector(&asked, None).is_err());
    asked.plan.style = Some(StyleSource::ReferenceAudio { uri: "a.wav".to_owned() });
    assert!(style_vector(&asked, Some(&contract)).is_err());
}

#[test]
fn delightful_contracts_follow_the_speakers() {
    let mut speakers = DelightfulSpeakerConfig {
        num_speakers: 0,
        use_speaker_embedding: false,
        speaker_embedding_channels: 0,
        use_d_vector_file: false,
        d_vector_dim: 0,
    };
    assert!(delightful_contract(&speakers).is_none());
    speakers.use_d_vector_file = true;
    speakers.d_vector_dim = 6;
    assert_eq!(delightful_contract(&speakers).expect("vectors").dimensions, 6);
}

#[test]
fn controls_fall_back_to_the_model() {
    assert_eq!(choose_control(Some(double(2.0)), double(1.0)), double(2.0));
    assert_eq!(choose_control(None, double(1.0)), double(1.0));
    assert!(are_finite(&[double(0.0), double(-1.0)]));
    assert!(!are_finite(&[double(0.0), double(f64::NEG_INFINITY)]));
}
