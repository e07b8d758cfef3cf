//! Tacotron: graphemes, stop controls and the decoder's run.

use tongues_tts::double::Double;
use tongues_tts::checkpoint::LoadReport;
use tongues_tts::graphemes::{
    declared_contract, declared_order, normalize_variety, PhonemeCharactersConfig,
    PhonemeTokenizerConfig, TacotronGraphemeProjector,
};
use tongues_tts::json::Json;
use tongues_tts::recurrence::{scan, scan_back};
use tongues_tts::request::UtterancePlan;
use tongues_tts::tacotron::{
    decode, gate_columns, CapacitronConfig, DecoderMove, Decoding, StylePlan,
    TacotronArchitecture, TacotronAttentionNormalization, TacotronControls, TacotronError,
    TacotronInferenceConfig, TacotronTermination,
};
use tongues_tts::tokens::TokenBatch;

fn double(value: f64) -> Double {
    Double { bits: value.to_bits() }
}

fn tiny_config() -> TacotronInferenceConfig {
    TacotronInferenceConfig {
        architecture: TacotronArchitecture::Tacotron2,
        num_chars: 16,
        out_channels: 4,
        encoder_channels: 8,
        reduction_factor: 2,
        max_decoder_steps: 4,
        stop_threshold: double(0.5),
        location_attention: true,
        attention_normalization: TacotronAttentionNormalization::Softmax,
        attention_windowing: false,
        forward_attention: false,
        forward_attention_mask: false,
        transition_agent: false,
        prenet_dropout_at_inference: false,
        capacitron: None,
    }
}

#[test]
fn stop_controls_reject_unbounded_or_invalid_thresholds() {
    assert!(TacotronControls {
        stop_threshold: double(f64::NAN),
        max_decoder_steps: 100,
        minimum_decoder_steps: 1,
    }
    .validate()
    .is_err());
    assert!(TacotronControls {
        stop_threshold: double(0.5),
        max_decoder_steps: 1,
        minimum_decoder_steps: 1,
    }
    .validate()
    .is_err());
}

#[test]
fn short_repeated_and_long_token_shapes_are_accepted_by_encoder() {
    let config = tiny_config();
    config.tacotron2_topology(Ok(())).expect("tiny Tacotron2");
    for ids in [
        vec![1],
        vec![2; 8],
        (0..128).map(|index| index % 16).collect::<Vec<i64>>(),
    ] {
        let length = ids.len();
        let input = TokenBatch::single(ids);
        config.plan_inference(&input, &None, None).expect("accepted");
        assert_eq!(config.encoded_shape(&input), [1, length, 8]);
    }
}

#[test]
fn attention_limit_is_an_error_instead_of_a_truncated_success() {
    let config = tiny_config();
    config.tacotron2_topology(Ok(())).expect("tiny Tacotron2");
    let input = TokenBatch::single(vec![1, 1, 1]);
    let controls = TacotronControls {
        stop_threshold: double(1.0),
        max_decoder_steps: 2,
        minimum_decoder_steps: 1,
    };
    let plan = config.plan_inference(&input, &None, Some(controls)).expect("plan");
    // A stop probability cannot exceed one.
    let trace = decode(plan.controls, 0_usize, |step| (step + 1, step, double(1.0)));
    let error = plan
        .controls
        .conclude(trace.outputs.len(), trace.termination, 3, 0)
        .expect_err("a stop probability cannot exceed one");
    assert!(matches!(
        error,
        TacotronError::AttentionFailure { steps: 2, input_tokens: 3, .. }
    ));
}

#[test]
fn decoding_stops_at_the_first_probable_step() {
    let controls = TacotronControls {
        stop_threshold: double(0.5),
        max_decoder_steps: 10,
        minimum_decoder_steps: 3,
    };
    let stops = [0.9, 0.9, 0.1, 0.6, 0.9];
    let trace = decode(controls, 0_usize, |step| (step + 1, step, double(stops[step])));
    assert_eq!(trace.termination, TacotronTermination::StopToken);
    assert_eq!(trace.outputs, vec![0, 1, 2, 3]);
    assert_eq!(trace.stops.len(), 4);
    assert_eq!(controls.conclude(4, trace.termination, 3, 0), Ok(4));
}

#[test]
fn a_run_can_be_taken_step_by_step() {
    let controls = TacotronControls {
        stop_threshold: double(0.5),
        max_decoder_steps: 3,
        minimum_decoder_steps: 1,
    };
    let mut run = Decoding::start(controls);
    assert_eq!(run.advance(double(0.5)), DecoderMove::Continue);
    assert_eq!(run.advance(double(0.2)), DecoderMove::Continue);
    assert_eq!(
        run.advance(double(0.2)),
        DecoderMove::Finish(TacotronTermination::MaximumSteps)
    );
}

#[test]
fn requests_beyond_the_network_are_refused() {
    let config = tiny_config();
    assert!(config.plan_inference(&TokenBatch::single(vec![16]), &None, None).is_err());
    assert!(config.plan_inference(&TokenBatch::single(vec![]), &None, None).is_err());
    assert!(config.plan_inference(&TokenBatch::single(vec![1]), &Some([1, 4]), None).is_err());
    let mut styled = tiny_config();
    styled.capacitron = Some(CapacitronConfig { embedding_dim: 4 });
    assert_eq!(
        styled.plan_inference(&TokenBatch::single(vec![1]), &Some([1, 4]), None).unwrap().style,
        StylePlan::Given
    );
    assert_eq!(
        styled.plan_inference(&TokenBatch::single(vec![1]), &None, None).unwrap().style,
        StylePlan::Drawn
    );
    assert!(matches!(
        styled.plan_inference(&TokenBatch::single(vec![1]), &Some([1, 5]), None),
        Err(TacotronError::InvalidInput(_))
    ));
    assert_eq!(styled.encoded_shape(&TokenBatch::single(vec![1])), [1, 1, 8]);
}

#[test]
fn other_architectures_are_refused() {
    let mut config = tiny_config();
    config.architecture = TacotronArchitecture::Tacotron;
    assert!(matches!(
        config.tacotron2_topology(Ok(())),
        Err(TacotronError::InvalidConfig(_))
    ));
    assert!(tiny_config().tacotron2_topology(Err("bad".to_owned())).is_err());
}

#[test]
fn frames_come_in_groups() {
    let config = tiny_config();
    assert_eq!(config.mel_shape(3), [1, 6, 4]);
    assert_eq!(config.last_frame(), (4, 8));
    assert_eq!(gate_columns(2), [(0, 2), (2, 4), (4, 6), (6, 8)]);
    assert_eq!(
        TacotronControls::from_config(&config),
        TacotronControls {
            stop_threshold: double(0.5),
            max_decoder_steps: 4,
            minimum_decoder_steps: TacotronControls::from_config(&config).minimum_decoder_steps,
        }
    );
}

#[test]
fn tacotron_checkpoints_are_complete_or_refused() {
    let complete = LoadReport { missing: vec![], errors: vec![], unused: vec![] };
    assert!(TacotronInferenceConfig::check_checkpoint(&complete).is_ok());
    let failed =
        LoadReport { missing: vec![], errors: vec!["shape".to_owned()], unused: vec![] };
    assert!(matches!(
        TacotronInferenceConfig::check_checkpoint(&failed),
        Err(TacotronError::Checkpoint(_))
    ));
    assert!(!TacotronInferenceConfig::key_remappings().is_empty());
}

#[test]
fn passes_run_both_ways() {
    let forth = scan(3, 0_usize, |at, sum: usize| (sum + at, sum + at));
    assert_eq!(forth, vec![0, 1, 3]);
    let back = scan_back(3, 0_usize, |at, sum: usize| (sum + at, sum + at));
    assert_eq!(back, vec![3, 3, 2]);
}

fn legacy_grapheme_config() -> PhonemeTokenizerConfig {
    PhonemeTokenizerConfig {
        use_phonemes: false,
        phoneme_language: Some("en-us".to_owned()),
        characters: PhonemeCharactersConfig {
            pad: Some("".to_owned()),
            eos: Some("".to_owned()),
            bos: Some("".to_owned()),
            blank: None,
            characters: "_-!'(),.:;? ABCDEFGHIJKLMNOPQRSTUVWXYZabcdefghijklmnopqrstuvwxyz"
                .to_owned(),
            punctuations: "".to_owned(),
            is_unique: false,
            is_sorted: false,
        },
    }
}

fn plan(text: &str) -> UtterancePlan {
    UtterancePlan {
        intended_text: Some(text.to_owned()),
        speaker: None,
        speaker_reference: None,
        style: None,
    }
}

#[test]
fn legacy_released_alphabet_preserves_checkpoint_order() {
    let projector = TacotronGraphemeProjector::from_config(&legacy_grapheme_config(), Ok(())).unwrap();
    assert_eq!(projector.vocabulary().len(), 64);
    assert_eq!(projector.vocabulary()[0], '_');
    assert_eq!(projector.vocabulary()[11], ' ');
    assert_eq!(projector.vocabulary()[63], 'z');
}

#[test]
fn repeated_characters_remain_repeated_checkpoint_tokens() {
    let projector = TacotronGraphemeProjector::from_config(&legacy_grapheme_config(), Ok(())).unwrap();
    let projected = projector.project(&plan("Bookkeeper"), Ok(())).unwrap();
    assert_eq!(projected.projected_symbols, "Bookkeeper");
    assert_eq!(projected.ids.len(), 10);
    assert_eq!(projected.ids[1], projected.ids[2]);
    assert_eq!(projected.ids[3], projected.ids[4]);
    assert_eq!(projected.ids[5], projected.ids[6]);
}

#[test]
fn unsupported_grapheme_reports_the_exact_character() {
    let projector = TacotronGraphemeProjector::from_config(&legacy_grapheme_config(), Ok(())).unwrap();
    let error = projector.project(&plan("café"), Ok(())).unwrap_err();
    assert!(error.contains("'é'"));
    assert!(error.contains("checkpoint vocabulary"));
}

#[test]
fn white_space_is_normalized() {
    let projector = TacotronGraphemeProjector::from_config(&legacy_grapheme_config(), Ok(())).unwrap();
    let projected = projector.project(&plan(" \tto\n\u{a0}be "), Ok(())).unwrap();
    assert_eq!(projected.projected_symbols, "to be");
    assert!(projector.project(&plan(" \t "), Ok(())).is_err());
    let mut silent = plan("");
    silent.intended_text = None;
    assert!(projector.project(&silent, Ok(())).is_err());
}

#[test]
fn every_white_space_separates_words_and_nothing_else_does() {
    let mut config = legacy_grapheme_config();
    config.characters.characters = "a ".to_owned();
    let projector = TacotronGraphemeProjector::from_config(&config, Ok(())).unwrap();
    for symbol in '\0'..=char::MAX {
        let projected = projector.project(&plan(&format!("a{symbol}a")), Ok(()));
        if symbol.is_whitespace() {
            assert_eq!(projected.unwrap().projected_symbols, "a a");
        } else if symbol != 'a' {
            assert!(projected.is_err());
        }
    }
}

#[test]
fn what_a_contract_objects_to_is_refused() {
    let config = legacy_grapheme_config();
    assert_eq!(
        TacotronGraphemeProjector::from_config(&config, Err("no variety".to_owned())).unwrap_err(),
        "no variety"
    );
    let mut phonemes = legacy_grapheme_config();
    phonemes.use_phonemes = true;
    assert_eq!(
        TacotronGraphemeProjector::from_config(&phonemes, Err("no variety".to_owned()))
            .unwrap_err(),
        "grapheme projector cannot load a phoneme-input checkpoint"
    );
    let projector = TacotronGraphemeProjector::from_config(&config, Ok(())).unwrap();
    let objection = Err("unsupported variety".to_owned());
    assert_eq!(projector.project(&plan("é"), objection).unwrap_err(), "unsupported variety");
    let contract = declared_contract(&config).unwrap();
    assert_eq!(contract.supported_varieties, vec!["en-US".to_owned()]);
    assert_eq!(contract.vocabulary_fingerprint, projector.contract().vocabulary_fingerprint);
    assert!(declared_contract(&phonemes).is_err());
}

#[test]
fn repeated_symbols_are_refused() {
    let mut config = legacy_grapheme_config();
    config.characters.characters = "abca".to_owned();
    let error = TacotronGraphemeProjector::from_config(&config, Ok(())).unwrap_err();
    assert!(error.contains("'a'"));
    let mut phonemes = legacy_grapheme_config();
    phonemes.use_phonemes = true;
    assert!(TacotronGraphemeProjector::from_config(&phonemes, Ok(())).is_err());
}

#[test]
fn sorted_alphabets_come_in_order() {
    let mut config = legacy_grapheme_config();
    config.characters.characters = "cab".to_owned();
    config.characters.is_sorted = true;
    let projector = TacotronGraphemeProjector::from_config(&config, Ok(())).unwrap();
    assert_eq!(projector.vocabulary(), ['a', 'b', 'c']);
    config.characters.characters = "cabac".to_owned();
    config.characters.is_unique = true;
    config.characters.pad = Some("_".to_owned());
    config.characters.punctuations = "!".to_owned();
    let projector = TacotronGraphemeProjector::from_config(&config, Ok(())).unwrap();
    assert_eq!(projector.vocabulary(), ['_', 'a', 'b', 'c', '!']);
}

#[test]
fn varieties_are_normalized() {
    assert_eq!(normalize_variety("EN-us"), "en-US");
    assert_eq!(normalize_variety("DE"), "de");
    let projector = TacotronGraphemeProjector::from_config(&legacy_grapheme_config(), Ok(())).unwrap();
    assert_eq!(projector.contract().supported_varieties, vec!["en-US".to_owned()]);
}

#[test]
fn order_holds_only_where_it_is_declared() {
    let silent = Json::parse("{ characters: {} }").expect("JSON5");
    let declared = Json::parse("{ characters: { is_sorted: true } }").expect("JSON5");
    assert!(!declared_order(&silent, true));
    assert!(declared_order(&declared, true));
    assert!(!declared_order(&declared, false));
}
