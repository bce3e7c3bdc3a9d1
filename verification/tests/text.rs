use rcat_voice::internal::env::{bool01, EnvVars};
use rcat_voice::number::{decimal_text, parse_signed, parse_unsigned};
use rcat_voice::text::{
    ascii_lowercase, comes_before, contains_char, contains_text, drop_leading,
    drop_prefix, drop_trailing, ends_with, is_white_space, replace_char, same, sort_texts,
    split_at_byte, starts_with, tail_after_last, trim,
};

#[test]
fn white_space_is_that_of_std() {
    for code in 0..=0x10ffff_u32 {
        if let Some(c) = char::from_u32(code) {
            assert_eq!(is_white_space(c), c.is_whitespace(), "{:x}", code);
        }
    }
}

#[test]
fn trimming() {
    assert_eq!(trim(" \t\u{3000}a b\u{85}\n"), "a b");
    assert_eq!(trim("   "), "");
    assert_eq!(drop_leading("\u{feff}\u{feff}x\u{feff}", '\u{feff}'), "x\u{feff}");
    assert_eq!(drop_trailing("a//", '/'), "a");
}

#[test]
fn parts_of_texts() {
    assert!(same("é", "é"));
    assert!(!same("a", "ab"));
    assert!(starts_with("smart-turn.onnx", "smart-turn"));
    assert!(ends_with("Dr.", "r."));
    assert!(!ends_with(".", "r."));
    assert!(contains_text("USB Mic", "B M"));
    assert!(contains_char("a:b", ':'));
    assert_eq!(drop_prefix("sherpa-onnx-x", "sherpa-onnx-"), "x");
    assert_eq!(tail_after_last("a/b/c", '/'), "c");
    assert_eq!(tail_after_last("c", '/'), "c");
    assert_eq!(replace_char("a_b_c", '_', '-'), "a-b-c");
    assert_eq!(ascii_lowercase("ÄBC"), "Äbc");
    assert_eq!(split_at_byte("你好a", 3), ("你".to_string(), "好a".to_string()));
}

#[test]
fn texts_are_sorted_by_their_bytes() {
    let names: Vec<String> =
        ["b", "ab", "", "ö", "a", "\u{ffff}", "\u{10000}"].iter().map(|s| s.to_string()).collect();
    let mut expected = names.clone();
    expected.sort();
    assert_eq!(sort_texts(&names), expected);
    assert!(comes_before("a", "ab"));
}

#[test]
fn lower_case_goes_through_every_switch() {
    let mut vars = EnvVars::new();
    for (word, value) in [
        ("1", true),
        ("TRUE", true),
        (" Yes ", true),
        ("y", true),
        ("ON", true),
        ("0", false),
        ("False", false),
        ("NO", false),
        ("N", false),
        ("oFF", false),
    ] {
        vars.set("KEY", word);
        assert_eq!(bool01(&vars, "KEY", !value), value, "{}", word);
    }
    vars.set("KEY", "maybe");
    assert!(bool01(&vars, "KEY", true));
    assert!(!bool01(&vars, "KEY", false));
    assert!(bool01(&vars, "OTHER", true));
}

#[test]
fn numbers_read_as_std_reads_them() {
    for word in
        ["0", "7", "+7", "-7", "-0", "", "+", "-", " 7", "7 ", "07", "1_0", "256", "255", "x", "٣"]
    {
        assert_eq!(parse_unsigned(word, 255), word.parse::<u8>().ok().map(u64::from), "{}", word);
    }
    for word in ["-128", "-129", "127", "128", "+127", "-0", "", "-", "--1"] {
        assert_eq!(
            parse_signed(word, -128, 127),
            word.parse::<i8>().ok().map(i64::from),
            "{}",
            word
        );
    }
    assert_eq!(parse_unsigned("18446744073709551615", u64::MAX), Some(u64::MAX));
    assert_eq!(parse_unsigned("18446744073709551616", u64::MAX), None);
    assert_eq!(parse_signed("-9223372036854775808", i64::MIN, i64::MAX), Some(i64::MIN));
    assert_eq!(parse_signed("9223372036854775808", i64::MIN, i64::MAX), None);
}

#[test]
fn numbers_written_read_back() {
    for n in [0, 9, 10, 12345, u64::MAX] {
        assert_eq!(decimal_text(n), n.to_string());
        assert_eq!(parse_unsigned(&decimal_text(n), u64::MAX), Some(n));
    }
}
