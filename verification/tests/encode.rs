use braillify::symbol_shortcut;
use braillify::{encode, encode_to_unicode, Encoder};

#[test]
fn test_encode() {
    assert_eq!(encode_to_unicode("상상이상의 ").unwrap(), "⠇⠶⠇⠶⠕⠇⠶⠺");
    assert_eq!(encode_to_unicode("안녕\n반가워").unwrap(), "⠣⠒⠉⠻\n⠘⠒⠫⠏");
    assert_eq!(encode_to_unicode("BMI(지수)").unwrap(), "⠴⠠⠠⠃⠍⠊⠦⠄⠨⠕⠠⠍⠠⠴");
    assert_eq!(encode_to_unicode("지수(BMI)").unwrap(), "⠨⠕⠠⠍⠦⠄⠴⠠⠠⠃⠍⠊⠠⠴");
    assert_eq!(
        encode_to_unicode("체질량 지수(BMI)").unwrap(),
        "⠰⠝⠨⠕⠂⠐⠜⠶⠀⠨⠕⠠⠍⠦⠄⠴⠠⠠⠃⠍⠊⠠⠴"
    );
    assert_eq!(
        encode_to_unicode("Roma [ㄹㄹ로마]").unwrap(),
        "⠴⠠⠗⠕⠍⠁⠲⠀⠦⠆⠸⠂⠸⠂⠐⠥⠑⠰⠴"
    );
    assert_eq!(
        encode_to_unicode("‘ㅖ’로 적는다.").unwrap(),
        "⠠⠦⠿⠌⠴⠄⠐⠥⠀⠨⠹⠉⠵⠊⠲"
    );
    assert_eq!(encode_to_unicode("Contents").unwrap(), "⠠⠒⠞⠢⠞⠎");

    assert_eq!(
        encode_to_unicode("Table of Contents").unwrap(),
        "⠠⠞⠁⠃⠇⠑⠀⠷⠀⠠⠒⠞⠢⠞⠎"
    );
    assert_eq!(encode_to_unicode("bonjour").unwrap(), "⠃⠕⠝⠚⠳⠗");
    assert_eq!(encode_to_unicode("삼각형 ㄱㄴㄷ").unwrap(), "⠇⠢⠫⠁⠚⠻⠀⠿⠁⠿⠒⠿⠔");
    assert_eq!(encode_to_unicode("걲").unwrap(), "⠈⠹⠁");
    assert_eq!(encode_to_unicode("겄").unwrap(), "⠈⠎⠌");
    assert_eq!(encode_to_unicode("kg").unwrap(), "⠅⠛");
    assert_eq!(encode_to_unicode("(kg)").unwrap(), "⠦⠄⠅⠛⠠⠴");
    assert_eq!(
        encode_to_unicode("나루 + 배 = 나룻배").unwrap(),
        "⠉⠐⠍⠀⠢⠀⠘⠗⠀⠒⠒⠀⠉⠐⠍⠄⠘⠗"
    );
    assert_eq!(
        encode_to_unicode("02-2669-9775~6").unwrap(),
        "⠼⠚⠃⠤⠼⠃⠋⠋⠊⠤⠼⠊⠛⠛⠑⠈⠔⠼⠋"
    );
    assert_eq!(
        encode_to_unicode("WELCOME TO KOREA").unwrap(),
        "⠠⠠⠠⠺⠑⠇⠉⠕⠍⠑⠀⠞⠕⠀⠅⠕⠗⠑⠁⠠⠄"
    );
    assert_eq!(encode_to_unicode("SNS에서").unwrap(), "⠴⠠⠠⠎⠝⠎⠲⠝⠠⠎");
    assert_eq!(encode_to_unicode("ATM").unwrap(), "⠠⠠⠁⠞⠍");
    assert_eq!(encode_to_unicode("ATM 기기").unwrap(), "⠴⠠⠠⠁⠞⠍⠲⠀⠈⠕⠈⠕");
    assert_eq!(encode_to_unicode("1,000").unwrap(), "⠼⠁⠂⠚⠚⠚");
    assert_eq!(encode_to_unicode("0.48").unwrap(), "⠼⠚⠲⠙⠓");
    assert_eq!(
        encode_to_unicode("820718-2036794").unwrap(),
        "⠼⠓⠃⠚⠛⠁⠓⠤⠼⠃⠚⠉⠋⠛⠊⠙"
    );
    assert_eq!(
        encode_to_unicode("5개−3개=2개").unwrap(),
        "⠼⠑⠈⠗⠀⠔⠀⠼⠉⠈⠗⠀⠒⠒⠀⠼⠃⠈⠗"
    );
    assert_eq!(encode_to_unicode("소화액").unwrap(), "⠠⠥⠚⠧⠤⠗⠁");
    assert_eq!(encode_to_unicode("X").unwrap(), "⠠⠭");
    assert_eq!(encode_to_unicode("껐").unwrap(), "⠠⠈⠎⠌");
    assert_eq!(encode_to_unicode("TV를").unwrap(), "⠴⠠⠠⠞⠧⠲⠐⠮");
    assert_eq!(encode_to_unicode("껐어요.").unwrap(), "⠠⠈⠎⠌⠎⠬⠲");
    assert_eq!(encode_to_unicode("5운6기").unwrap(), "⠼⠑⠀⠛⠼⠋⠈⠕");
    assert_eq!(encode_to_unicode("끊").unwrap(), "⠠⠈⠵⠴");
    assert_eq!(encode_to_unicode("끊겼어요").unwrap(), "⠠⠈⠵⠴⠈⠱⠌⠎⠬");
    assert_eq!(encode_to_unicode("시예요").unwrap(), "⠠⠕⠤⠌⠬");
    assert_eq!(encode_to_unicode("정").unwrap(), "⠨⠻");
    assert_eq!(encode_to_unicode("나요").unwrap(), "⠉⠣⠬");
    assert_eq!(encode_to_unicode("사이즈").unwrap(), "⠇⠕⠨⠪");
    assert_eq!(encode_to_unicode("청소를").unwrap(), "⠰⠻⠠⠥⠐⠮");
    assert_eq!(encode_to_unicode("것").unwrap(), "⠸⠎");
    assert_eq!(encode_to_unicode("것이").unwrap(), "⠸⠎⠕");
    assert_eq!(encode_to_unicode("이 옷").unwrap(), "⠕⠀⠥⠄");
    assert_eq!(encode_to_unicode(".").unwrap(), "⠲");
    assert_eq!(encode_to_unicode("안").unwrap(), "⠣⠒");
    assert_eq!(encode_to_unicode("안녕").unwrap(), "⠣⠒⠉⠻");
    assert_eq!(encode_to_unicode("안녕하").unwrap(), "⠣⠒⠉⠻⠚");

    assert_eq!(encode_to_unicode("세요").unwrap(), "⠠⠝⠬");

    assert_eq!(encode_to_unicode("하세요").unwrap(), "⠚⠠⠝⠬");
    assert_eq!(encode_to_unicode("안녕하세요").unwrap(), "⠣⠒⠉⠻⠚⠠⠝⠬");
    //                                           ⠣⠒⠉⠻⠚⠠⠕⠃⠉⠕⠠⠈⠣
    assert_eq!(encode_to_unicode("안녕하십니까").unwrap(), "⠣⠒⠉⠻⠚⠠⠕⠃⠉⠕⠠⠫");

    assert_eq!(encode_to_unicode("그래서 작동").unwrap(), "⠁⠎⠀⠨⠁⠊⠿");
    assert_eq!(encode_to_unicode("그래서 작동하나").unwrap(), "⠁⠎⠀⠨⠁⠊⠿⠚⠉");
    //                                               ⠁⠎⠀⠨⠁⠊⠿⠚⠉⠬
    assert_eq!(
        encode_to_unicode("그래서 작동하나요").unwrap(),
        "⠁⠎⠀⠨⠁⠊⠿⠚⠉⠣⠬"
    );
    assert_eq!(
        encode_to_unicode("그래서 작동하나요?").unwrap(),
        "⠁⠎⠀⠨⠁⠊⠿⠚⠉⠣⠬⠦"
    );
    assert_eq!(encode_to_unicode("이 노래").unwrap(), "⠕⠀⠉⠥⠐⠗");
    assert_eq!(encode_to_unicode("아").unwrap(), "⠣");
    assert_eq!(encode_to_unicode("름").unwrap(), "⠐⠪⠢");
    assert_eq!(encode_to_unicode("아름").unwrap(), "⠣⠐⠪⠢");
    // ⠠⠶
    assert_eq!(encode_to_unicode("사").unwrap(), "⠇");
    assert_eq!(encode_to_unicode("상").unwrap(), "⠇⠶");
    assert_eq!(
        encode_to_unicode("아름다운 세상.").unwrap(),
        "⠣⠐⠪⠢⠊⠣⠛⠀⠠⠝⠇⠶⠲"
    );
    assert_eq!(
        encode_to_unicode("모든 것이 무너진 듯해도").unwrap(),
        "⠑⠥⠊⠵⠀⠸⠎⠕⠀⠑⠍⠉⠎⠨⠟⠀⠊⠪⠄⠚⠗⠊⠥"
    );
    assert_eq!(encode_to_unicode("$\\frac{3}{4}$").unwrap(), "⠼⠙⠌⠼⠉");
    assert_eq!(encode_to_unicode("$3\\frac{1}{4}$").unwrap(), "⠼⠉⠼⠙⠌⠼⠁");
    assert_eq!(encode_to_unicode("1/2").unwrap(), "⠼⠁⠸⠌⠼⠃");
    assert_eq!(encode_to_unicode("½").unwrap(), "⠼⠃⠌⠼⠁");
}

#[test]
fn english_continuation_after_inline_number() {
    let output = encode("가 a1a").unwrap();
    assert!(
        output.contains(&48),
        "inline number should trigger english continuation indicator"
    );
}

#[test]
fn symbol_triggers_english_segment_at_start() {
    let output = encode("(A 가").unwrap();
    let english_symbol = symbol_shortcut::encode_english_char_symbol_shortcut('(').unwrap();
    assert_eq!(output[0], 52);
    assert!(output.len() >= 1 + english_symbol.len());
    assert_eq!(
        &output[1..1 + english_symbol.len()],
        english_symbol,
        "opening english symbol should use english shortcut"
    );
}

#[test]
fn english_symbol_terminator_variants() {
    let mut encoder = Encoder::new(true);
    let mut result = Vec::new();
    let mut skip = 0;
    encoder
        .encode_word("a/", "", &[], &mut skip, &mut result)
        .unwrap();
    let slash = symbol_shortcut::encode_char_symbol_shortcut('/').unwrap();
    let slash_pos = result
        .windows(slash.len())
        .position(|window| window == slash)
        .unwrap();
    assert!(slash_pos > 0);
    assert_eq!(result[slash_pos - 1], 50, "forced symbol should add terminator");

    let mut encoder = Encoder::new(true);
    let mut result = Vec::new();
    let mut skip = 0;
    encoder
        .encode_word("a_b", "", &[], &mut skip, &mut result)
        .unwrap();
    let underscore = symbol_shortcut::encode_char_symbol_shortcut('_').unwrap();
    let underscore_pos = result
        .windows(underscore.len())
        .position(|window| window == underscore)
        .unwrap();
    assert!(underscore_pos > 0);
    assert_eq!(
        result[underscore_pos - 1],
        50,
        "regular symbol should add terminator when leaving english"
    );
}

#[test]
fn comma_prefix_variants_and_korean_following() {
    let mut encoder = Encoder::new(true);
    let mut result = Vec::new();
    let mut skip = 0;
    encoder
        .encode_word("A ,가", "", &[], &mut skip, &mut result)
        .unwrap();
    let comma = symbol_shortcut::encode_char_symbol_shortcut(',').unwrap();
    assert!(
        result
            .windows(comma.len())
            .any(|window| window == comma),
        "comma before Korean should use Korean punctuation mapping"
    );

    let mut encoder = Encoder::new(true);
    let mut result = Vec::new();
    let mut skip = 0;
    encoder
        .encode_word("A!,가", "", &[], &mut skip, &mut result)
        .unwrap();
}

#[test]
fn next_word_single_letter_sets_continuation_flag() {
    let mut encoder = Encoder::new(true);
    let mut result = Vec::new();
    let mut skip = 0;
    encoder
        .encode_word("a", "", &["b"], &mut skip, &mut result)
        .unwrap();
    assert!(encoder.needs_english_continuation);
    assert_eq!(result.last(), Some(&0));
}

#[test]
fn next_word_symbol_rules_apply() {
    let mut encoder = Encoder::new(true);
    let mut result = Vec::new();
    let mut skip = 0;
    encoder
        .encode_word("a", "", &["/"], &mut skip, &mut result)
        .unwrap();
    assert!(
        result.contains(&50),
        "forced symbol should insert terminator between words"
    );
    assert!(!encoder.is_english);

    let mut encoder = Encoder::new(true);
    let mut result = Vec::new();
    let mut skip = 0;
    encoder
        .encode_word("a", "", &["."], &mut skip, &mut result)
        .unwrap();
    assert!(
        encoder.needs_english_continuation,
        "skip symbol should request continuation"
    );
}

#[test]
fn next_word_with_invalid_char_returns_error() {
    let err = encode("가 a 😀");
    assert!(err.is_err());
}

#[test]
fn test_encoder_streaming() {
    // Test encoder can be reused
    let mut encoder = Encoder::new(false); // English only test
    let mut buffer = Vec::new();

    // Encode multiple times with same encoder
    encoder.encode("test", &mut buffer).unwrap();
    encoder.encode("ing", &mut buffer).unwrap();
    encoder.finish(&mut buffer).unwrap();

    // Should produce same result as one-shot
    let expected = encode("testing").unwrap();
    assert_eq!(buffer, expected);
}
