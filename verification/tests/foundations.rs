//! Documents, numbers, texts, sequences and load reports.

use tongues_tts::checkpoint::{
    checkpoint_tensor, listed_message, missing_path_list, missing_route_list, paths_belonging,
    LoadReport, Subtree,
};
use tongues_tts::double::Double;
use tongues_tts::expansion::{
    expand_sequence, frame_tokens, longest_total, predicted_durations, row_total,
};
use tongues_tts::json::{
    bool_at, number_at, object_at, optional_bool_at, published_vocabulary_size, string_at,
    usize_at, Json,
};
use tongues_tts::layers::{balanced_conv, centered_conv, is_multiple_of, is_odd, pointwise_conv};
use tongues_tts::sorting::{comes_before, drop_repeats, sort_chars, sort_texts};
use tongues_tts::text::{
    ascii_lowered_text, ascii_raised_text, begins_with, contains_text, decimal_text,
    escaped_unicode_text, finishes_with, hexadecimal_text, joined_text, shape_string,
    signed_decimal_text,
};
use tongues_tts::tokens::{vocabulary_fault, TokenBatch};

fn double(value: f64) -> Double {
    Double { bits: value.to_bits() }
}

#[test]
fn documents_come_out_of_json5_and_of_values() {
    let parsed = Json::parse("{ /* comment */ a: [1, -2, 0.5,], b: 'x', c: null, d: true }")
        .expect("JSON5");
    let value = serde_json::from_str(
        r#"{ "a": [1, -2, 0.5], "b": "x", "c": null, "d": true }"#,
    )
    .expect("JSON");
    let imported = Json::from_value(value);
    for document in [&parsed, &imported] {
        let items = document.get("a").and_then(Json::as_array).expect("list");
        assert_eq!(items.len(), 3);
        assert_eq!(items[0].as_u64(), Some(1));
        assert_eq!(items[1].as_u64(), None);
        assert_eq!(items[1].as_double(), Some(double(-2.0)));
        assert_eq!(items[2].as_double(), Some(double(0.5)));
        assert_eq!(document.get_str("b"), Some("x"));
        assert_eq!(document.get("c"), Some(&Json::Null));
        assert!(document.get_flag("d"));
        assert!(document.get("e").is_none());
        assert!(document.is_object());
    }
    assert!(Json::parse("{ a: ").is_err());
}

#[test]
fn fields_are_named_in_diagnostics() {
    let root = Json::parse("{ a: 1, b: 'x', c: true, d: {}, e: 1.5 }").expect("JSON5");
    assert_eq!(usize_at(&root, "a"), Ok(1));
    assert_eq!(string_at(&root, "b"), Ok("x"));
    assert_eq!(bool_at(&root, "c"), Ok(true));
    assert!(object_at(&root, "d").is_ok());
    assert_eq!(number_at(&root, "e"), Ok(double(1.5)));
    assert_eq!(optional_bool_at(&root, "f"), Ok(None));
    assert!(usize_at(&root, "e").unwrap_err().contains("e"));
    assert!(string_at(&root, "missing").unwrap_err().contains("missing"));
    assert!(bool_at(&root, "a").is_err());
    assert!(object_at(&root, "a").is_err());
    assert!(number_at(&root, "b").is_err());
    assert!(optional_bool_at(&root, "a").is_err());
}

#[test]
fn published_vocabularies_are_counted() {
    let root = Json::parse(
        "{ characters: { pad: '_', eos: '~', bos: '^', phonemes: 'abcd', punctuations: ' !' } }",
    )
    .expect("JSON5");
    assert_eq!(published_vocabulary_size(&root), Ok(9));
}

#[test]
fn numbers_are_compared_as_doubles() {
    let samples = [
        0.0, -0.0, 1.0, -1.0, 0.5, 1e-310, -1e-310, 1e300, f64::INFINITY, f64::NEG_INFINITY,
        f64::NAN, f64::MAX, f64::MIN_POSITIVE,
    ];
    for left in samples {
        let l = double(left);
        assert_eq!(l.is_nan(), left.is_nan());
        assert_eq!(l.is_finite(), left.is_finite());
        assert_eq!(l.is_finite_positive(), left.is_finite() && left > 0.0);
        assert_eq!(l.is_finite_non_negative(), left.is_finite() && left >= 0.0);
        assert_eq!(l.is_in_unit_interval(), (0.0..1.0).contains(&left));
        assert_eq!(l.is_in_closed_unit_interval(), (0.0..=1.0).contains(&left));
        assert_eq!(l.to_usize(), left as usize);
        for right in samples {
            let r = double(right);
            assert_eq!(l.is_less(r), left < right);
            assert_eq!(l.is_at_most(r), left <= right);
            assert_eq!(l.is_equal(r), left == right);
        }
    }
    assert_eq!(Double::one(), double(1.0));
    assert_eq!(Double::zero(), double(0.0));
}

#[test]
fn ceilings_and_truncations_are_exact() {
    for value in [0.0, 0.2, 1.0, 1.5, 2.0, 1e9 + 0.25, 4503599627370497.5, 1e300, -0.5, -7.25] {
        assert_eq!(double(value).ceil_to_usize(), value.ceil() as usize, "{value}");
        assert_eq!(double(value).to_usize(), value as usize, "{value}");
        assert_eq!(double(value).is_integral(), value.fract() == 0.0, "{value}");
    }
}

#[test]
fn texts_are_built_from_numbers_and_parts() {
    assert_eq!(decimal_text(0), "0");
    assert_eq!(decimal_text(u64::MAX), u64::MAX.to_string());
    assert_eq!(signed_decimal_text(i64::MIN), i64::MIN.to_string());
    assert_eq!(hexadecimal_text(0x1F), "1f");
    assert_eq!(escaped_unicode_text(&['a', 'é']), "\\u{61}\\u{e9}");
    assert_eq!(shape_string(&[1, 20, 3]), format!("{:?}", [1, 20, 3]));
    assert_eq!(shape_string(&[]), "[]");
    assert_eq!(joined_text(&["a".to_owned(), "b".to_owned()], ", "), "a, b");
    assert_eq!(ascii_lowered_text("ÀbC"), "Àbc");
    assert_eq!(ascii_raised_text("àbC"), "àBC");
    assert!(begins_with("encoder.x", "encoder.") && !begins_with("enc", "encoder."));
    assert!(finishes_with("a.num_batches_tracked", "tracked") && !finishes_with("a", "ba"));
    assert!(contains_text("xabcx", "abc") && !contains_text("ab", "abc"));
    assert!(contains_text("x", ""));
}

#[test]
fn texts_and_characters_are_sorted() {
    let texts: Vec<String> = ["b", "", "ab", "a", "é", "z"].iter().map(|t| t.to_string()).collect();
    let mut expected = texts.clone();
    expected.sort();
    assert_eq!(sort_texts(&texts), expected);
    assert!(comes_before("a", "ab") && !comes_before("b", "ab"));
    let mut characters: Vec<char> = "ʰɝ'At'".chars().collect();
    assert_eq!(drop_repeats(&vec!['a', 'a', 'b', 'a']), vec!['a', 'b', 'a']);
    let sorted = sort_chars(&characters);
    characters.sort_unstable();
    assert_eq!(sorted, characters);
}

#[test]
fn durations_spread_tokens_over_frames() {
    assert_eq!(row_total(&[1, 2, 3]), 6);
    assert_eq!(row_total(&[usize::MAX, 1]), usize::MAX);
    assert_eq!(longest_total(&vec![vec![1, 2], vec![4], vec![]]), 4);
    assert_eq!(frame_tokens(&[1, 0, 2]), vec![0, 2, 2]);
    assert_eq!(expand_sequence(&[10, 20, 30], &vec![0, 2, 2], 0, 5), vec![10, 30, 30, 0, 0]);
}

#[test]
fn predictions_are_rounded_within_bounds() {
    let values = [-3.0, 0.0, 0.4, 1.0, 1.5, 2.4, 2.5, 2.6, 3.5, 74.5, 74.6, 80.0, f64::INFINITY];
    let predicted = vec![values.iter().map(|value| double(*value)).collect(), vec![]];
    let durations = predicted_durations(&predicted, 75);
    let expected: Vec<usize> =
        values.iter().map(|value| value.clamp(1.0, 75.0).round_ties_even() as usize).collect();
    assert_eq!(durations, vec![expected, vec![]]);
    assert_eq!(durations[0], vec![1, 1, 1, 1, 2, 2, 2, 3, 4, 74, 75, 75, 75]);
}

#[test]
fn vocabularies_bound_ids() {
    let tokens = TokenBatch::single(vec![0, 7, 3]);
    assert_eq!(tokens.highest_id(), 7);
    assert_eq!((tokens.batch, tokens.tokens), (1, 3));
    assert!(vocabulary_fault(&tokens, 8).is_none());
    assert!(vocabulary_fault(&tokens, 7).expect("fault").contains("7"));
    assert!(vocabulary_fault(&TokenBatch::single(vec![-1]), 7).is_some());
}

#[test]
fn convolutions_are_padded_to_keep_length() {
    for conv in [pointwise_conv(4, 8), centered_conv(4, 8, 5), balanced_conv(4, 8, 4, 3)] {
        assert_eq!((conv.channels_in, conv.channels_out), (4, 8));
        assert_eq!(conv.pad_left + conv.pad_right, conv.dilation * (conv.kernel_size - 1));
    }
    assert!(is_multiple_of(6, 3) && !is_multiple_of(7, 3));
    assert!(is_odd(3) && !is_odd(4));
}

#[test]
fn load_reports_count_only_their_subtree() {
    assert!(checkpoint_tensor("encoder.weight"));
    assert!(!checkpoint_tensor("encoder.num_batches_tracked"));
    let paths = vec!["emb_g.weight".to_owned(), "encoder.weight".to_owned()];
    assert_eq!(paths_belonging(&paths, Subtree::Learned).len(), 2);
    let missing = vec![
        ("b.weight".to_owned(), "Model.b".to_owned()),
        ("a.weight".to_owned(), "Model.a".to_owned()),
    ];
    assert_eq!(missing_path_list(&missing).len(), 2);
    assert_eq!(missing_route_list(&missing).len(), 2);
    let message = listed_message("incomplete", &vec!["a".to_owned()], 1, &vec!["c".to_owned()]);
    assert!(message.contains("incomplete") && message.contains("a], 1 load errors, unused [c]"));
    let complete = LoadReport { missing: vec![], errors: vec![], unused: vec![] };
    assert!(complete.fault_itemized().is_none());
    assert!(complete.fault_listed("heading", Subtree::Learned).is_none());
    let failed = LoadReport { missing, errors: vec![], unused: vec![] };
    assert!(failed.fault_itemized().is_some());
    assert!(failed.fault_listed("heading", Subtree::Learned).expect("fault").contains("heading"));
}
