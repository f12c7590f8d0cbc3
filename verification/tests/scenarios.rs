use braillify::{encode, encode_to_unicode};

#[test]
fn korean_word_with_a_space_after_it() {
    assert_eq!(encode_to_unicode("상상이상의 ").unwrap(), "⠇⠶⠇⠶⠕⠇⠶⠺");
    assert_eq!(encode("상상이상의 ").unwrap(), vec![7, 54, 7, 54, 21, 7, 54, 58]);
}

#[test]
fn line_break_inside_a_word() {
    assert_eq!(encode_to_unicode("안녕\n반가워").unwrap(), "⠣⠒⠉⠻\n⠘⠒⠫⠏");
}

#[test]
fn capitals_before_a_korean_parenthesis() {
    assert_eq!(
        encode_to_unicode("BMI(지수)").unwrap(),
        "⠴⠠⠠⠃⠍⠊⠦⠄⠨⠕⠠⠍⠠⠴"
    );
    assert_eq!(
        encode("BMI(지수)").unwrap(),
        vec![52, 32, 32, 3, 13, 10, 38, 4, 40, 21, 32, 13, 32, 52]
    );
}

#[test]
fn phrase_of_three_words_in_capitals() {
    assert_eq!(
        encode_to_unicode("WELCOME TO KOREA").unwrap(),
        "⠠⠠⠠⠺⠑⠇⠉⠕⠍⠑⠀⠞⠕⠀⠅⠕⠗⠑⠁⠠⠄"
    );
}

#[test]
fn comma_inside_a_number() {
    assert_eq!(encode_to_unicode("1,000").unwrap(), "⠼⠁⠂⠚⠚⠚");
    assert_eq!(encode("1,000").unwrap(), vec![60, 1, 2, 26, 26, 26]);
}

#[test]
fn fraction_between_dollar_signs() {
    assert_eq!(encode_to_unicode("$\\frac{3}{4}$").unwrap(), "⠼⠙⠌⠼⠉");
    assert_eq!(encode_to_unicode("$3\\frac{1}{4}$").unwrap(), "⠼⠉⠼⠙⠌⠼⠁");
}

#[test]
fn syllables_after_numbers() {
    assert_eq!(encode_to_unicode("5운6기").unwrap(), "⠼⠑⠀⠛⠼⠋⠈⠕");
    assert_eq!(encode("5운6기").unwrap(), vec![60, 17, 0, 27, 60, 11, 8, 21]);
}
