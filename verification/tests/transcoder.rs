use lin_ssg::de::{Decoder, DecodingError};
use lin_ssg::en::{Display, DisplayAdapter, DisplayFormat, Encode, Encoder, EncodingError};
use lin_ssg::raw::raw_pairs;
use lin_ssg::table::{Table, TableInitError};
use lin_ssg::{decode, decode_to, encode, encode_to};

#[test]
fn no_code() {
    let input = "hello";
    let expected = "hello";
    let actual = encode(input).unwrap();
    assert_eq!(actual, expected);
}

#[test]
fn simple_hello() {
    let input = "h{e}l.o{U} {4}{2}{3}{2}";
    let expected = "hɛl.oʊ ˦˨˧˨";
    let actual = encode(input).unwrap();
    assert_eq!(actual, expected);
}

#[test]
fn passthrough_untouched() {
    assert_eq!(encode("").unwrap(), "");
    assert_eq!(encode("plain ascii text!").unwrap(), "plain ascii text!");
    assert_eq!(encode("déjà vu").unwrap(), "déjà vu");
}

#[test]
fn every_table_code_round_trips() {
    for (code, symbol) in raw_pairs() {
        let input = format!("{{{}}}", code);
        assert_eq!(encode(&input).unwrap(), symbol, "code {:?}", code);
        assert_eq!(decode(&symbol).unwrap(), code, "symbol {:?}", symbol);
    }
}

#[test]
fn escaped_braces() {
    assert_eq!(encode("{{").unwrap(), "{");
    assert_eq!(encode("}}").unwrap(), "}");
    assert_eq!(encode("a{{b}}c").unwrap(), "a{b}c");
}

#[test]
fn unmatched_open() {
    assert_eq!(encode("{ab"), Err(EncodingError::UnmatchedOpen));
    assert_eq!(encode("{"), Err(EncodingError::UnmatchedOpen));
}

#[test]
fn unmatched_close() {
    assert_eq!(encode("}"), Err(EncodingError::UnmatchedClose));
    assert_eq!(encode("a}b"), Err(EncodingError::UnmatchedClose));
}

#[test]
fn unknown_code() {
    assert_eq!(
        encode("{zz}"),
        Err(EncodingError::UnknownCode("zz".to_string()))
    );
}

#[test]
fn code_too_big() {
    assert_eq!(
        encode("{wxyz}"),
        Err(EncodingError::CodeTooBig("wxyz".to_string()))
    );
}

#[test]
fn encode_is_pure() {
    let input = "h{e}l.o{U}";
    assert_eq!(encode(input).unwrap(), encode(input).unwrap());
    assert_eq!(encode("{zz}"), encode("{zz}"));
}

#[test]
fn encode_to_appends_to_sink() {
    let mut sink = String::from("x");
    encode_to("a{e}", &mut sink).unwrap();
    assert_eq!(sink, "xaɛ");
}

#[test]
fn encode_to_keeps_partial_output_on_failure() {
    let mut sink = String::new();
    let result = encode_to("ab{zz}c", &mut sink);
    assert_eq!(result, Err(EncodingError::UnknownCode("zz".to_string())));
    assert_eq!(sink, "ab");
}

#[test]
fn decode_unknown_grapheme_unchanged() {
    assert_eq!(decode("z").unwrap(), "z");
    assert_eq!(decode("hello").unwrap(), "hello");
}

#[test]
fn decode_known_symbols() {
    assert_eq!(decode("ɛ").unwrap(), "e");
    assert_eq!(decode("xɛy").unwrap(), "xey");
    assert_eq!(decode("˦˨").unwrap(), "42");
}

#[test]
fn decode_splits_graphemes() {
    // A combining mark clusters with its base, so the pair passes
    // through as one unknown grapheme instead of being looked up alone.
    assert_eq!(decode("e\u{301}").unwrap(), "e\u{301}");
    assert_eq!(decode("ɛx").unwrap(), "ex");
}

#[test]
fn decode_to_appends_to_sink() {
    let mut sink = String::from("x");
    decode_to("ɛ", &mut sink).unwrap();
    assert_eq!(sink, "xe");
}

#[test]
fn decoder_push_single_graphemes() {
    let decoder = Decoder::new(String::new());
    let mut decoder = decoder.unwrap();
    decoder.push("ɛ").unwrap();
    decoder.push("q").unwrap();
    decoder.push_str("ʊ!").unwrap();
    assert_eq!(decoder.into_target(), "eqU!");
}

#[test]
fn encoder_push_by_hand() {
    let mut encoder = Encoder::new(String::new()).unwrap();
    encoder.push('a').unwrap();
    encoder.push('{').unwrap();
    encoder.push('e').unwrap();
    encoder.push('}').unwrap();
    encoder.finish().unwrap();
    assert_eq!(encoder.into_target(), "aɛ");
}

#[test]
fn encoder_finish_reports_open_block() {
    let mut encoder = Encoder::new(String::new()).unwrap();
    encoder.push_str("{e").unwrap();
    assert_eq!(encoder.finish(), Err(EncodingError::UnmatchedOpen));
}

#[test]
fn encoder_finish_reports_pending_close() {
    let mut encoder = Encoder::new(String::new()).unwrap();
    encoder.push('}').unwrap();
    assert_eq!(encoder.finish(), Err(EncodingError::UnmatchedClose));
}

#[test]
fn encoder_error_leaves_state_for_retry() {
    let mut encoder = Encoder::new(String::new()).unwrap();
    let err = encoder.push_str("{qq}").unwrap_err();
    assert_eq!(err, EncodingError::UnknownCode("qq".to_string()));
    // The failing lookup left the block open; closing it again fails the
    // same way, because the buffered code is still there.
    assert_eq!(
        encoder.push('}'),
        Err(EncodingError::UnknownCode("qq".to_string()))
    );
}

#[test]
fn render_encoded_through_display() {
    let rendered = Display("a{e}b").render_encoded(DisplayFormat).unwrap();
    assert_eq!(rendered, "aɛb");
    let owned = Display(String::from("{U}")).render_encoded(DisplayFormat).unwrap();
    assert_eq!(owned, "ʊ");
}

#[test]
fn render_encoded_through_adapter() {
    let adapted = DisplayAdapter(Display("{4}"), DisplayFormat)
        .render_encoded(DisplayFormat)
        .unwrap();
    assert_eq!(adapted, "˦");
}

#[test]
fn render_encoded_validates_completion() {
    let err = Display("{e").render_encoded(DisplayFormat).unwrap_err();
    assert_eq!(err, EncodingError::UnmatchedOpen);
    let err = Display("}").render_encoded(DisplayFormat).unwrap_err();
    assert_eq!(err, EncodingError::UnmatchedClose);
}

#[test]
fn encoder_encode_delegates() {
    let mut encoder = Encoder::new(String::new()).unwrap();
    encoder.encode(Display("h{e}y"), DisplayFormat).unwrap();
    encoder.finish().unwrap();
    assert_eq!(encoder.into_target(), "hɛy");
}

#[test]
fn table_lookups() {
    let table = Table::load().unwrap();
    assert_eq!(table.max_code_len(), 3);
    assert_eq!(table.code_to_char("e"), Some("ɛ".to_string()));
    assert_eq!(table.code_to_char("E"), None);
    assert_eq!(table.char_to_code("ɛ"), Some("e".to_string()));
    assert_eq!(table.char_to_code("e"), None);
}

#[test]
fn table_rejects_duplicate_code() {
    let pairs = vec![
        ("a".to_string(), "x".to_string()),
        ("b".to_string(), "y".to_string()),
        ("a".to_string(), "z".to_string()),
    ];
    assert_eq!(
        Table::from_pairs(pairs).unwrap_err(),
        TableInitError::DuplicatedCode("a".to_string())
    );
}

#[test]
fn table_rejects_duplicate_symbol() {
    let pairs = vec![
        ("a".to_string(), "x".to_string()),
        ("b".to_string(), "x".to_string()),
    ];
    assert_eq!(
        Table::from_pairs(pairs).unwrap_err(),
        TableInitError::DuplicatedChar("x".to_string())
    );
}

#[test]
fn table_duplicate_code_wins_over_symbol() {
    // The same pair repeated trips the code check first.
    let pairs = vec![
        ("a".to_string(), "x".to_string()),
        ("a".to_string(), "x".to_string()),
    ];
    assert_eq!(
        Table::from_pairs(pairs).unwrap_err(),
        TableInitError::DuplicatedCode("a".to_string())
    );
}

#[test]
fn canonical_table_is_a_bijection() {
    assert!(Table::load().is_ok());
    let pairs = raw_pairs();
    for (code, _) in &pairs {
        assert!(!code.contains('{') && !code.contains('}'));
        assert!(!code.is_empty());
    }
}

#[test]
fn table_errors_describe_themselves() {
    let dup_code = TableInitError::DuplicatedCode("a".to_string());
    assert_eq!(dup_code.describe(), "duplicated character code in table");
    let dup_char = TableInitError::DuplicatedChar("x".to_string());
    assert_eq!(dup_char.describe(), "duplicated character in table");
}

#[test]
fn decoding_error_only_from_table() {
    // The canonical table builds, so decoding itself cannot fail.
    let result: Result<String, DecodingError> = decode("anything at all");
    assert!(result.is_ok());
}
