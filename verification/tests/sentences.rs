use rcat_voice::sentence_splitter::{
    detect_language, is_sentence_end, split_graphemes, split_sentences, Language,
};

#[test]
fn test_detect_language() {
    assert_eq!(detect_language("Hello world"), Language::English);
    assert_eq!(detect_language("你好世界"), Language::Chinese);
    assert_eq!(detect_language("Hello 你好"), Language::Chinese);
}

#[test]
fn test_split_english() {
    let text = "Hello world. How are you? I am fine!";
    let result = split_sentences(text);
    assert_eq!(result.len(), 3);
    assert_eq!(result[0], "Hello world.");
    assert_eq!(result[1], "How are you?");
    assert_eq!(result[2], "I am fine!");
}

#[test]
fn test_split_chinese() {
    let text = "你好。这是测试。结束了！";
    let result = split_sentences(text);
    assert_eq!(result.len(), 3);
    assert_eq!(result[0], "你好。");
    assert_eq!(result[1], "这是测试。");
    assert_eq!(result[2], "结束了！");
}

#[test]
fn test_abbreviations() {
    let text = "Dr. Smith works here. He is great.";
    let result = split_sentences(text);
    assert!(result.len() <= 2);
    assert_eq!(result, vec!["Dr. Smith works here.", "He is great."]);
}

#[test]
fn ideographs_at_the_bounds() {
    assert_eq!(detect_language("\u{4dff}"), Language::English);
    assert_eq!(detect_language("\u{4e00}"), Language::Chinese);
    assert_eq!(detect_language("\u{9fff}"), Language::Chinese);
    assert_eq!(detect_language("\u{a000}"), Language::English);
}

#[test]
fn a_mark_joined_to_other_characters_ends_nothing() {
    // The full stop and the accent behind it are one character.
    let joined = split_sentences("One.\u{301} Two.");
    assert_eq!(joined, vec!["One.\u{301} Two."]);
    // A line end of two characters is one.
    assert_eq!(split_sentences("One!\r\nTwo"), vec!["One!", "Two"]);
}

#[test]
fn the_rest_counts_unless_blank() {
    assert_eq!(split_sentences("One. two"), vec!["One.", "two"]);
    assert_eq!(split_sentences("One.  "), vec!["One."]);
    assert!(split_sentences("  ").is_empty());
    assert_eq!(split_sentences("你好. 好"), vec!["你好. 好"]);
}

#[test]
fn sentence_ends() {
    assert!(is_sentence_end(Language::English, ".", "end."));
    assert!(!is_sentence_end(Language::English, ".", "Prof."));
    assert!(!is_sentence_end(Language::English, "。", "x。"));
    assert!(is_sentence_end(Language::Chinese, "？", "x？"));
    assert!(!is_sentence_end(Language::Chinese, "?", "x?"));
    for title in ["Dr.", "Mr.", "Mrs.", "Ms.", "Prof.", "Sr.", "Jr."] {
        assert!(!is_sentence_end(Language::English, ".", title));
    }
}

#[test]
fn pieces_of_a_text_given_by_its_characters() {
    let parts: Vec<String> = ["a", ".", " ", "b"].iter().map(|s| s.to_string()).collect();
    assert_eq!(split_graphemes(Language::English, &parts), vec!["a.", "b"]);
}

#[test]
fn a_sentence_does_not_split_again() {
    let text = " \r\n Dr. Smith works here.\r\n  He is  great!\r\nIs he? Mrs. Jones \u{7f}thinks so \r\n";
    let sentences = split_sentences(text);
    assert_eq!(
        sentences,
        vec![
            "Dr. Smith works here.",
            "He is  great!",
            "Is he?",
            "Mrs. Jones \u{7f}thinks so",
        ]
    );
    for sentence in sentences {
        assert_eq!(split_sentences(&sentence), vec![sentence.clone()]);
    }
    // What follows an end mark at once starts a sentence too.
    assert_eq!(split_sentences("a..b\r.\n"), vec!["a.", ".", "b\r."]);
}
