use braillify::{encode, encode_to_unicode, Encoder};

fn streamed(indicator: bool, a: &str, b: &str) -> Vec<u8> {
    let mut encoder = Encoder::new(indicator);
    let mut out = Vec::new();
    encoder.encode(a, &mut out).unwrap();
    encoder.encode(b, &mut out).unwrap();
    encoder.finish(&mut out).unwrap();
    out
}

#[test]
fn blank_text_encodes_to_nothing() {
    assert_eq!(encode("").unwrap(), Vec::<u8>::new());
    assert_eq!(encode(" ").unwrap(), Vec::<u8>::new());
    assert_eq!(encode("      ").unwrap(), Vec::<u8>::new());
    assert_eq!(encode_to_unicode("   ").unwrap(), "");
}

#[test]
fn one_pattern_for_each_cell_but_line_breaks() {
    let text = "안녕\n반가워";
    let cells = encode(text).unwrap();
    let glyphs = encode_to_unicode(text).unwrap();
    let breaks = cells.iter().filter(|b| **b == 255).count();
    let patterns = glyphs
        .chars()
        .filter(|c| ('\u{2800}'..='\u{28FF}').contains(c))
        .count();
    assert_eq!(breaks, 1);
    assert_eq!(glyphs.chars().count(), cells.len());
    assert_eq!(patterns, cells.len() - breaks);
    assert_eq!(cells, vec![35, 18, 9, 59, 255, 24, 18, 43, 15]);
}

#[test]
fn session_with_a_part_of_spaces() {
    assert_eq!(streamed(true, "  ", "안녕 AB"), encode("  안녕 AB").unwrap());
    assert_eq!(streamed(true, "안녕 AB", " "), encode("안녕 AB ").unwrap());
    assert_eq!(streamed(false, "", "WELCOME TO KOREA"), encode("WELCOME TO KOREA").unwrap());
}

#[test]
fn session_parts_that_meet_in_a_word_differ() {
    assert_eq!(encode("AB").unwrap(), vec![32, 32, 1, 3]);
    assert_eq!(streamed(false, "A", "B"), vec![32, 1, 32, 3]);
}

#[test]
fn long_ellipses_are_short_ellipses() {
    assert_eq!(encode("와......").unwrap(), vec![39, 50, 50, 50]);
    assert_eq!(encode("와...").unwrap(), vec![39, 50, 50, 50]);
    assert_eq!(encode("와……").unwrap(), vec![39, 50, 50, 50]);
    assert_eq!(encode("와…").unwrap(), vec![39, 50, 50, 50]);
    assert_eq!(encode("⋯").unwrap(), vec![32, 32, 32]);
}

#[test]
fn nine_full_stops_are_six() {
    assert_eq!(encode(".........").unwrap(), vec![50, 50, 50, 50, 50, 50]);
    assert_eq!(encode("......").unwrap(), vec![50, 50, 50]);
}

#[test]
fn word_in_capitals_has_two_signs() {
    assert_eq!(encode("AB").unwrap(), vec![32, 32, 1, 3]);
    assert_eq!(encode("가 AB").unwrap(), vec![43, 0, 52, 32, 32, 1, 3]);
    assert_eq!(encode("Ab").unwrap(), vec![32, 1, 3]);
    assert_eq!(encode("aBC").unwrap(), vec![1, 32, 32, 3, 9]);
}

#[test]
fn phrase_in_capitals_is_bracketed() {
    assert_eq!(
        encode("AB CD EF").unwrap(),
        vec![32, 32, 32, 1, 3, 0, 9, 25, 0, 17, 11, 32, 4]
    );
    assert_eq!(
        encode("AB CD").unwrap(),
        vec![32, 32, 1, 3, 0, 32, 32, 9, 25]
    );
}

#[test]
fn one_number_sign_for_a_run_of_digits() {
    assert_eq!(encode("123").unwrap(), vec![60, 1, 3, 9]);
    assert_eq!(encode("1.5").unwrap(), vec![60, 1, 50, 17]);
    assert_eq!(encode("12-34").unwrap(), vec![60, 1, 3, 36, 60, 9, 25]);
    assert_eq!(encode("0987654321").unwrap(), vec![60, 26, 10, 19, 27, 11, 17, 25, 9, 3, 1]);
}

#[test]
fn parentheses_agree() {
    assert_eq!(
        encode("(AB) 가").unwrap(),
        vec![52, 16, 35, 32, 32, 1, 3, 16, 28, 50, 0, 43]
    );
    assert_eq!(
        encode("지수(BMI)").unwrap(),
        vec![40, 21, 32, 13, 38, 4, 52, 32, 32, 3, 13, 10, 32, 52]
    );
}

#[test]
fn closing_parenthesis_without_an_open_one_is_korean() {
    assert_eq!(encode("가)").unwrap(), vec![43, 32, 52]);
    assert_eq!(encode("가 a)").unwrap(), vec![43, 0, 52, 1, 32, 52]);
}

#[test]
fn every_cell_is_a_six_dot_cell_or_a_line_break() {
    let texts = [
        "안녕하세요. 오늘 날씨가 좋네요.",
        "WELCOME TO KOREA",
        "체질량 지수(BMI) 1,000 ½ 1/2 □□ 가+나=다",
        "줄\n바꿈 ‘ㅖ’ ㄱ. …… ......",
    ];
    for text in texts {
        let cells = encode(text).unwrap();
        assert!(!cells.is_empty());
        assert!(cells.iter().all(|b| *b < 64 || *b == 255));
    }
}

#[test]
fn encoder_only_appends() {
    let mut encoder = Encoder::new(true);
    let mut out = vec![1, 2, 3];
    encoder.encode("가 AB", &mut out).unwrap();
    assert_eq!(out, vec![1, 2, 3, 43, 0, 52, 32, 32, 1, 3]);
    assert!(encoder.english_indicator);
    assert!(encoder.is_english);
    assert!(!encoder.needs_english_continuation);
}

#[test]
fn texts_of_known_characters_succeed() {
    assert!(encode("가나다 abc 123 (ㄱ) +=").is_ok());
    assert!(encode("ㄱ. ㄴ.").is_ok());
    assert!(encode("$1\\frac{2}{3}$").is_ok());
    assert!(encode("$").is_err());
    assert!(encode("ㅃ.").is_err());
}
