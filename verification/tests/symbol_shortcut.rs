use braillify::symbol_shortcut::{
    encode_char_symbol_shortcut, encode_english_char_symbol_shortcut, is_symbol_char,
};
use braillify::unicode::decode_unicode;

#[test]
fn test_is_symbol_char() {
    assert!(is_symbol_char('"'));
    assert!(is_symbol_char('\''));
    assert!(is_symbol_char('~'));
    assert!(is_symbol_char('…'));
    assert!(is_symbol_char('!'));
    assert!(is_symbol_char('.'));
    assert!(is_symbol_char(','));
    assert!(is_symbol_char('?'));
    assert!(is_symbol_char(':'));
    assert!(is_symbol_char(';'));
    assert!(is_symbol_char('_'));
    assert!(is_symbol_char('*'));
    assert!(is_symbol_char('('));
    assert!(is_symbol_char(')'));
    assert!(is_symbol_char('{'));
    assert!(is_symbol_char('}'));
}

#[test]
fn test_encode_char_symbol_shortcut() {
    assert_eq!(
        encode_char_symbol_shortcut('"').unwrap(),
        &[decode_unicode('⠦')]
    );
    assert_eq!(
        encode_char_symbol_shortcut('\'').unwrap(),
        &[decode_unicode('⠠'), decode_unicode('⠦')]
    );
    assert_eq!(
        encode_char_symbol_shortcut('~').unwrap(),
        &[decode_unicode('⠈'), decode_unicode('⠔')]
    );
    assert_eq!(
        encode_char_symbol_shortcut('…').unwrap(),
        &[
            decode_unicode('⠲'),
            decode_unicode('⠲'),
            decode_unicode('⠲')
        ]
    );
    assert_eq!(
        encode_char_symbol_shortcut('!').unwrap(),
        &[decode_unicode('⠖')]
    );
    assert_eq!(
        encode_char_symbol_shortcut('.').unwrap(),
        &[decode_unicode('⠲')]
    );
    assert_eq!(
        encode_char_symbol_shortcut(',').unwrap(),
        &[decode_unicode('⠐')]
    );
    assert_eq!(
        encode_char_symbol_shortcut('?').unwrap(),
        &[decode_unicode('⠦')]
    );
    assert_eq!(
        encode_char_symbol_shortcut(':').unwrap(),
        &[decode_unicode('⠐'), decode_unicode('⠂')]
    );
    assert_eq!(
        encode_char_symbol_shortcut(';').unwrap(),
        &[decode_unicode('⠰'), decode_unicode('⠆')]
    );
    assert_eq!(
        encode_char_symbol_shortcut('_').unwrap(),
        &[decode_unicode('⠤')]
    );
    assert_eq!(
        encode_char_symbol_shortcut('*').unwrap(),
        &[decode_unicode('⠐'), decode_unicode('⠔')]
    );
    assert_eq!(
        encode_char_symbol_shortcut('(').unwrap(),
        &[decode_unicode('⠦'), decode_unicode('⠄')]
    );
    assert_eq!(
        encode_char_symbol_shortcut(')').unwrap(),
        &[decode_unicode('⠠'), decode_unicode('⠴')]
    );
}

#[test]
fn test_encode_english_char_symbol_shortcut_variants() {
    assert_eq!(
        encode_english_char_symbol_shortcut('(').unwrap(),
        &[decode_unicode('⠐'), decode_unicode('⠣')]
    );
    assert_eq!(
        encode_english_char_symbol_shortcut(')').unwrap(),
        &[decode_unicode('⠐'), decode_unicode('⠜')]
    );
    assert_eq!(encode_english_char_symbol_shortcut('?'), None);
}
