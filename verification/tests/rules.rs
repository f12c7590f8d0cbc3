use braillify::char_struct::{CharType, KoreanChar};
use braillify::error::EncodeError;
use braillify::fraction::{fraction_from_captures, parse_latex_fraction};
use braillify::jauem::{encode_choseong, encode_jongseong};
use braillify::korean_char::encode_korean_char;
use braillify::math_symbol_shortcut::encode_char_math_symbol_shortcut;
use braillify::split::split_korean_jauem;
use braillify::symbol_shortcut::{encode_char_symbol_shortcut, symbol_cells};
use braillify::text::{normalize, split_words, str_chars};
use braillify::unicode::{decode_unicode, encode_unicode};
use braillify::{encode, encode_to_braille_font, encode_to_unicode, Encoder};

fn chars(s: &str) -> Vec<char> {
    s.chars().collect()
}

#[test]
fn syllables_are_taken_apart() {
    assert_eq!(
        KoreanChar::new('가'),
        Ok(KoreanChar { cho: 'ㄱ', jung: 'ㅏ', jong: None })
    );
    assert_eq!(
        KoreanChar::new('한'),
        Ok(KoreanChar { cho: 'ㅎ', jung: 'ㅏ', jong: Some('ㄴ') })
    );
    assert_eq!(
        KoreanChar::new('힣'),
        Ok(KoreanChar { cho: 'ㅎ', jung: 'ㅣ', jong: Some('ㅎ') })
    );
    assert_eq!(
        KoreanChar::new('뷁'),
        Ok(KoreanChar { cho: 'ㅂ', jung: 'ㅞ', jong: Some('ㄺ') })
    );
    assert_eq!(KoreanChar::new('a'), Err(EncodeError::UnknownCharacter('a')));
}

#[test]
fn characters_are_classed() {
    assert_eq!(CharType::new('ㄱ'), Ok(CharType::KoreanPart('ㄱ')));
    assert_eq!(CharType::new('z'), Ok(CharType::English('z')));
    assert_eq!(CharType::new('7'), Ok(CharType::Number('7')));
    assert_eq!(CharType::new('('), Ok(CharType::Symbol('(')));
    assert_eq!(CharType::new('+'), Ok(CharType::MathSymbol('+')));
    assert_eq!(CharType::new('¾'), Ok(CharType::Fraction('¾')));
    assert_eq!(CharType::new('\t'), Ok(CharType::Space('\t')));
    assert_eq!(CharType::new('@'), Err(EncodeError::UnknownCharacter('@')));
    assert!(matches!(CharType::new('각'), Ok(CharType::Korean(_))));
}

#[test]
fn cells_and_glyphs() {
    assert_eq!(encode_unicode(0), '\u{2800}');
    assert_eq!(encode_unicode(63), '⠿');
    assert_eq!(encode_unicode(255), '\n');
    assert_eq!(decode_unicode('⠿'), 63);
    assert_eq!(decode_unicode('\u{2800}'), 0);
    assert_eq!(
        encode_to_braille_font("안녕").unwrap(),
        encode_to_unicode("안녕").unwrap()
    );
}

#[test]
fn syllables_with_contractions() {
    let cells = |c: char| encode_korean_char(&KoreanChar::new(c).unwrap()).unwrap();
    assert_eq!(cells('가'), vec![43]);
    assert_eq!(cells('까'), vec![32, 43]);
    assert_eq!(cells('사'), vec![7]);
    assert_eq!(cells('라'), vec![16, 35]);
    assert_eq!(cells('것'), vec![56, 14]);
    assert_eq!(cells('껏'), vec![32, 56, 14]);
    assert_eq!(cells('성'), vec![32, 59]);
    assert_eq!(cells('영'), vec![59]);
    assert_eq!(cells('엉'), vec![14, 54]);
    assert_eq!(cells('얹'), vec![62, 5]);
    assert_eq!(cells('없'), vec![14, 3, 4]);
    assert_eq!(cells('밖'), vec![24, 1, 1]);
}

#[test]
fn words_are_split_at_spaces() {
    assert_eq!(
        split_words(&chars("  가 나다   라 ")),
        vec![chars("가"), chars("나다"), chars("라")]
    );
    assert_eq!(split_words(&chars("")), Vec::<Vec<char>>::new());
    assert_eq!(str_chars("가a"), vec!['가', 'a']);
}

#[test]
fn ellipses_are_shortened_from_the_left() {
    assert_eq!(normalize(&chars("a......b")), chars("a...b"));
    assert_eq!(normalize(&chars(".......")), chars("...."));
    assert_eq!(normalize(&chars("………")), chars("……"));
    assert_eq!(normalize(&chars("....")), chars("...."));
}

#[test]
fn fractions_between_dollar_signs() {
    assert_eq!(
        parse_latex_fraction(&chars("$12\\frac{3}{45}$")),
        Some((Some(chars("12")), chars("3"), chars("45")))
    );
    assert_eq!(
        parse_latex_fraction(&chars("$\\frac{3}{4}$")),
        Some((None, chars("3"), chars("4")))
    );
    assert_eq!(parse_latex_fraction(&chars("$\\frac{}{4}$")), None);
    assert_eq!(parse_latex_fraction(&chars("$\\frac{3}{4}$x")), None);
    assert_eq!(parse_latex_fraction(&chars("\\frac{3}{4}")), None);
    assert_eq!(
        encode("$12\\frac{3}{45}$").unwrap(),
        vec![60, 1, 3, 60, 25, 17, 12, 60, 9]
    );
}

#[test]
fn fraction_between_dollar_signs_ends_the_word_at_once() {
    assert_eq!(
        encode("$\\frac{3}{4}$ 가").unwrap(),
        vec![60, 25, 12, 60, 9, 43]
    );
}

#[test]
fn fractions_in_line_and_dates() {
    assert_eq!(encode("1/2").unwrap(), vec![60, 1, 56, 12, 60, 3]);
    assert_eq!(encode("1/2가").unwrap(), vec![60, 1, 56, 12, 60, 3, 43]);
    assert_eq!(
        encode("3/4/5").unwrap(),
        vec![60, 9, 56, 12, 60, 25, 56, 12, 60, 17]
    );
    assert_eq!(
        encode("12/25").unwrap(),
        vec![60, 1, 3, 56, 12, 60, 3, 17]
    );
    assert_eq!(
        encode("1/2~3").unwrap(),
        vec![60, 1, 56, 12, 60, 3, 8, 20, 60, 9]
    );
    assert_eq!(encode("⅒").unwrap(), vec![60, 1, 26, 12, 60, 1]);
}

#[test]
fn a_refused_pattern_is_an_error() {
    let refused = regex::Regex::new("(").map(|_| None);
    assert!(refused.is_err());
    assert_eq!(
        fraction_from_captures(&refused, &chars("1/2"), 0),
        Err(EncodeError::BadPattern)
    );
    let found = Ok(Some(vec![
        Some(chars("1/2")),
        Some(chars("1")),
        Some(chars("2")),
    ]));
    assert_eq!(
        fraction_from_captures(&found, &chars("1/2"), 0),
        Ok(Some((chars("1"), chars("2"), 2)))
    );
    assert_eq!(fraction_from_captures(&found, &chars("1/2/3"), 0), Ok(None));
    assert_eq!(fraction_from_captures(&found, &chars("3/2"), 0), Ok(None));
    assert_eq!(fraction_from_captures(&Ok(None), &chars("1/2"), 0), Ok(None));
}

#[test]
fn each_error_has_its_input() {
    assert_eq!(encode("😀"), Err("Invalid character".to_string()));
    assert_eq!(encode("가 @"), Err("Invalid character".to_string()));
    assert_eq!(encode("ㅏ."), Err("Invalid Korean letter".to_string()));
    assert_eq!(
        encode_char_symbol_shortcut('@'),
        Err("Invalid symbol character".to_string())
    );
    assert_eq!(
        symbol_cells('@'),
        Err(EncodeError::MissingSymbolMapping('@'))
    );
    assert_eq!(
        encode_char_math_symbol_shortcut('a'),
        Err(EncodeError::MissingSymbolMapping('a'))
    );
    assert_eq!(
        encode_choseong('ㅏ'),
        Err(EncodeError::MissingKoreanComponent('ㅏ'))
    );
    assert_eq!(
        encode_jongseong('ㅏ'),
        Err(EncodeError::MissingKoreanComponent('ㅏ'))
    );
    assert_eq!(
        split_korean_jauem('a'),
        Err(EncodeError::BadSyllableSplit('a'))
    );
    assert_eq!(split_korean_jauem('ㄲ'), Ok(('ㄱ', Some('ㄱ'))));
    assert_eq!(
        EncodeError::MissingSymbolMapping('@').message(),
        "Invalid symbol character"
    );
    assert_eq!(
        EncodeError::BadSyllableSplit('a').message(),
        "Invalid Korean consonant"
    );
    assert_eq!(EncodeError::BadPattern.message(), "Invalid fraction pattern");
}

#[test]
fn letters_on_their_own() {
    assert_eq!(encode("ㄱ").unwrap(), vec![63, 1]);
    assert_eq!(encode("ㅏ").unwrap(), vec![63, 35]);
    assert_eq!(encode("ㄱ.").unwrap(), vec![63, 1, 50]);
    assert_eq!(encode("ㄱ자").unwrap(), vec![63, 1, 40]);
    assert_eq!(encode("ㄱ자로").unwrap(), vec![63, 1, 40, 16, 37]);
    assert_eq!(encode("가ㄱ나").unwrap(), vec![43, 56, 1, 9]);
    assert_eq!(encode("(ㄱ)").unwrap(), vec![38, 4, 63, 1, 32, 52]);
    assert_eq!(encode("ㄱㄴㄷ").unwrap(), vec![63, 1, 63, 18, 63, 20]);
}

#[test]
fn placeholders_are_counted() {
    assert_eq!(encode("□").unwrap(), vec![56, 54, 7]);
    assert_eq!(encode("□□□").unwrap(), vec![56, 54, 54, 54, 7]);
    assert_eq!(encode("가□□나").unwrap(), vec![43, 56, 54, 54, 7, 9]);
}

#[test]
fn abbreviated_words() {
    assert_eq!(encode("그래서").unwrap(), vec![1, 14]);
    assert_eq!(encode("그러나").unwrap(), vec![1, 9]);
    assert_eq!(encode("그러면").unwrap(), vec![1, 18]);
    assert_eq!(encode("그러므로").unwrap(), vec![1, 34]);
    assert_eq!(encode("그런데").unwrap(), vec![1, 29]);
    assert_eq!(encode("그리고").unwrap(), vec![1, 37]);
    assert_eq!(encode("그리하여").unwrap(), vec![1, 49]);
    assert_eq!(encode("그래서인지").unwrap(), vec![1, 14, 31, 40, 21]);
    assert_eq!(encode("그리고 나").unwrap(), vec![1, 37, 0, 9]);
}

#[test]
fn arithmetic_signs() {
    assert_eq!(
        encode("1+1=2").unwrap(),
        vec![60, 1, 34, 60, 1, 18, 18, 60, 3]
    );
    assert_eq!(encode("가+나").unwrap(), vec![43, 0, 34, 0, 9]);
    assert_eq!(encode("2×3").unwrap(), vec![60, 3, 33, 60, 9]);
    assert_eq!(encode("1+2와").unwrap(), vec![60, 1, 34, 60, 3, 39]);
    assert_eq!(encode("÷").unwrap(), vec![12, 12]);
}

#[test]
fn number_before_a_syllable_that_reads_as_a_digit() {
    assert_eq!(encode("5운").unwrap(), vec![60, 17, 0, 27]);
    assert_eq!(encode("5개").unwrap(), vec![60, 17, 8, 23]);
    assert_eq!(encode("3년").unwrap(), vec![60, 9, 0, 9, 33]);
    assert_eq!(encode("½년").unwrap(), vec![60, 3, 12, 60, 1, 0, 9, 33]);
}

#[test]
fn groups_of_latin_letters() {
    assert_eq!(encode("the").unwrap(), vec![46]);
    assert_eq!(encode("with").unwrap(), vec![62]);
    assert_eq!(encode("singing").unwrap(), vec![14, 44, 44]);
    assert_eq!(encode("begin").unwrap(), vec![6, 27, 20]);
    assert_eq!(encode("abe").unwrap(), vec![1, 3, 17]);
    assert_eq!(encode("THE").unwrap(), vec![32, 32, 30, 19, 17]);
    assert_eq!(encode("display").unwrap(), vec![50, 15, 7, 1, 61]);
}

#[test]
fn latin_runs_in_korean_text() {
    assert_eq!(encode("가 a").unwrap(), vec![43, 0, 52, 1]);
    assert_eq!(encode("a 가").unwrap(), vec![52, 1, 50, 0, 43]);
    assert_eq!(encode("가 a. b").unwrap(), vec![43, 0, 52, 1, 50, 0, 48, 3]);
    assert_eq!(encode("가 a, b").unwrap(), vec![43, 0, 52, 1, 2, 0, 48, 3]);
    assert_eq!(encode("가 a/b").unwrap(), vec![43, 0, 52, 1, 50, 56, 12, 52, 3]);
    assert_eq!(encode("가 a1b").unwrap(), vec![43, 0, 52, 1, 60, 1, 48, 3]);
}

#[test]
fn finish_closes_an_open_phrase() {
    let mut encoder = Encoder::new(false);
    encoder.triple_big_english = true;
    let mut out = vec![7];
    encoder.finish(&mut out).unwrap();
    assert_eq!(out, vec![7, 32, 4]);
    assert!(!encoder.triple_big_english);
    encoder.finish(&mut out).unwrap();
    assert_eq!(out, vec![7, 32, 4]);
}

#[test]
fn skipped_characters_are_passed_over() {
    let mut encoder = Encoder::new(false);
    let mut out = Vec::new();
    let mut skip = 2;
    encoder
        .encode_word("가나다", "", &[], &mut skip, &mut out)
        .unwrap();
    assert_eq!(out, vec![10]);
    assert_eq!(skip, 0);
    assert!(encoder.has_processed_word);
}
