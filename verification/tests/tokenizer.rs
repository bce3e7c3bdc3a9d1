use rcat_voice::internal::env::EnvVars;
use rcat_voice::metrics::MetricEventKind;
use rcat_voice::time::Timestamp;
use rcat_voice::tokenizer::{
    build_text_segment, find_flush_index, log_relax_transition, normal_default, relax_default,
    DeltaMsg, FlushLevels, FlushStep, FlushThresholds, RelaxTransition, TextSegment, Tokenizer,
    TokenizerAction, TokenizerConfig, TokenizerRun,
};

fn at(nanos: u64) -> Timestamp {
    Timestamp { nanos }
}

#[test]
fn flush_requires_min_chars() {
    let s = "Hi!";
    let idx = find_flush_index(s, 5, 20, 30);
    assert_eq!(idx, None);
}

#[test]
fn flush_on_strong_boundary_at_end() {
    let s = "Hello!";
    let idx = find_flush_index(s, 1, 20, 30);
    assert_eq!(idx, Some(s.len()));
}

#[test]
fn flush_on_weak_boundary_when_over_max() {
    let s = "abcd,efgh";
    let idx = find_flush_index(s, 1, 5, 12);
    assert_eq!(idx, Some(5));
}

#[test]
fn hard_cut_when_no_boundary_and_over_hard_limit() {
    let s = "abcdefghij";
    let idx = find_flush_index(s, 1, 5, 8);
    assert_eq!(idx, Some(8));
}

#[test]
fn waits_for_hard_max_if_tail_window_has_no_boundary() {
    let s = "ab,cdef";
    let idx = find_flush_index(s, 1, 5, 8);
    assert_eq!(idx, None);

    let s2 = "ab,cdefg";
    let idx2 = find_flush_index(s2, 1, 5, 8);
    assert_eq!(idx2, Some(8));
}

#[test]
fn ignores_boundary_before_min_chars() {
    let s = "ab,xxxxxxxxxx";
    let idx = find_flush_index(s, 5, 10, 20);
    assert_eq!(idx, None);

    let s2 = "ab,xxxxxxxxxxxxxxxxx";
    let idx2 = find_flush_index(s2, 5, 10, 20);
    assert_eq!(idx2, Some(20));
}

#[test]
fn flush_with_chinese_punctuation() {
    // Each of the five characters takes three bytes.
    let s = "你好世界。";
    let idx = find_flush_index(s, 1, 20, 30);
    assert_eq!(idx, Some(s.len()));
    assert_eq!(s.len(), 15);
}

#[test]
fn flush_with_emoji() {
    // Six characters, the last of which takes four bytes.
    let s = "Hello👍";
    assert_eq!(s.chars().count(), 6);
    assert_eq!(s.len(), 9);

    // No boundary, and below the hard limit.
    let idx = find_flush_index(s, 1, 5, 10);
    assert_eq!(idx, None);
}

#[test]
fn flush_with_mixed_multibyte() {
    let s = "Hi你好！";
    assert_eq!(s.chars().count(), 5);
    assert_eq!(s.len(), 11);

    let idx = find_flush_index(s, 1, 10, 20);
    assert_eq!(idx, Some(s.len()));
}

#[test]
fn hard_cut_respects_char_boundaries_multibyte() {
    let s = "一二三四五六七八九十";
    assert_eq!(s.chars().count(), 10);
    assert_eq!(s.len(), 30);

    // Eight characters of three bytes.
    let idx = find_flush_index(s, 1, 5, 8);
    assert_eq!(idx, Some(24));
    assert!(s.is_char_boundary(24));
}

/// The segments that a tokenizer gives up to the first look that cuts nothing.
fn drain(tokenizer: &mut Tokenizer, buffered_ms: u64) -> Vec<TextSegment> {
    let mut out = Vec::new();
    loop {
        match tokenizer.flush_step(buffered_ms, None, at(50)).1 {
            FlushStep::Wait => return out,
            FlushStep::Piece(segment) => out.extend(segment),
            FlushStep::Last(segment) => {
                out.extend(segment);
                return out;
            }
        }
    }
}

/// Runs a tokenizer until it waits or stops; returns what it sent.
fn run(tokenizer: &mut TokenizerRun, now: Timestamp) -> Vec<TextSegment> {
    let mut sent = Vec::new();
    while tokenizer.next_action() == TokenizerAction::Cut {
        if let Some(segment) = tokenizer.cut(0, None, now).segment {
            sent.push(segment);
        }
    }
    sent
}

#[test]
fn tokenizer_flushes_multiple_segments_from_single_delta() {
    let mut tokenizer = TokenizerRun::new(
        at(0),
        123,
        TokenizerConfig { eager_chunks: 0, relax_buffer_ms: 0, relax_log: false },
    );
    let text = "这是第一句很长很长很长！这是第二句也很长很长很长！这是第三句也很长很长很长！这是第四句也很长很长很长！";
    assert_eq!(tokenizer.next_action(), TokenizerAction::Await);
    tokenizer.on_msg(Some(DeltaMsg::Delta(text.to_string())), at(1000));
    let mut segments = run(&mut tokenizer, at(1000));
    assert_eq!(tokenizer.next_action(), TokenizerAction::Await);
    let first = segments[0].text.clone();
    let second = segments[1].text.clone();
    assert_ne!(first, second);

    tokenizer.on_msg(Some(DeltaMsg::Eof), at(2000));
    segments.extend(run(&mut tokenizer, at(2000)));
    assert_eq!(tokenizer.next_action(), TokenizerAction::Stop);
    assert!(segments.iter().all(|s| s.turn_id == 123));
    let all: String = segments.iter().map(|s| s.text.as_str()).collect();
    assert_eq!(all, text);
}

#[test]
fn run_without_text_stops_at_its_end() {
    let mut tokenizer = TokenizerRun::new(at(0), 1, TokenizerConfig::default());
    assert!(tokenizer.on_msg(None, at(1)).is_none());
    assert_eq!(tokenizer.next_action(), TokenizerAction::Stop);
}

#[test]
fn run_sends_its_rest_at_the_end() {
    let mut tokenizer = TokenizerRun::new(at(0), 1, TokenizerConfig::default());
    let event = tokenizer.on_msg(Some(DeltaMsg::Delta("\u{feff}a".to_string())), at(1));
    assert_eq!(event.unwrap().kind, MetricEventKind::LlmFirstToken);
    assert!(tokenizer.cut(0, None, at(2)).segment.is_none());
    assert_eq!(tokenizer.next_action(), TokenizerAction::Await);
    tokenizer.on_msg(None, at(3));
    let last = tokenizer.cut(0, Some(at(9)), at(4)).segment.unwrap();
    assert_eq!(last.text, "a");
    assert_eq!(last.llm_start_ts, at(9));
    assert_eq!(last.segment_sent_ts, at(4));
    assert_eq!(tokenizer.next_action(), TokenizerAction::Stop);
}

#[test]
fn stopped_run_does_nothing_more() {
    let mut tokenizer = TokenizerRun::new(at(0), 1, TokenizerConfig::default());
    tokenizer.on_msg(Some(DeltaMsg::Delta("Hello, world!".to_string())), at(1));
    tokenizer.stop();
    assert_eq!(tokenizer.next_action(), TokenizerAction::Stop);
}

#[test]
fn short_first_piece_then_longer_ones() {
    let mut tokenizer = Tokenizer::new(at(5), 7, TokenizerConfig::default());
    let event = tokenizer.push_delta("Hello,", at(10)).unwrap();
    assert_eq!(event.kind, MetricEventKind::LlmFirstToken);
    assert_eq!(event.turn_id, 7);
    let first = drain(&mut tokenizer, 0);
    assert_eq!(first.len(), 1);
    assert_eq!(first[0].text, "Hello,");
    assert_eq!(first[0].first_token_ts, Some(at(10)));
    assert_eq!(first[0].llm_start_ts, at(5));

    assert!(tokenizer.push_delta(" world!", at(20)).is_none());
    assert!(drain(&mut tokenizer, 0).is_empty());
    tokenizer.close();
    let rest = drain(&mut tokenizer, 0);
    assert_eq!(rest.len(), 1);
    assert_eq!(rest[0].text, " world!");
    assert_eq!(rest[0].first_token_ts, None);
    assert_eq!(rest[0].last_token_ts, Some(at(20)));
    assert!(tokenizer.is_empty());
}

#[test]
fn text_after_the_end_is_dropped() {
    let mut tokenizer = Tokenizer::new(at(0), 0, TokenizerConfig::default());
    tokenizer.on_delta_msg(None, at(1));
    assert!(tokenizer.push_delta("late", at(2)).is_none());
    assert!(tokenizer.is_empty());
}

#[test]
fn much_buffered_audio_relaxes_the_thresholds() {
    let config = TokenizerConfig { eager_chunks: 0, relax_buffer_ms: 200, relax_log: true };
    let text = "0123456789!";
    let mut normal = Tokenizer::new(at(0), 1, config);
    normal.push_delta(text, at(1));
    assert_eq!(drain(&mut normal, 199).len(), 1);

    let mut relaxed = Tokenizer::new(at(0), 1, config);
    relaxed.push_delta(text, at(1));
    let (change, step) = relaxed.flush_step(200, None, at(2));
    let change = change.unwrap();
    assert_eq!(change, RelaxTransition::On { buffered_ms: 200, thresholds: relax_default() });
    assert_eq!(
        change.message(),
        "Tokenizer relax on (buffer=200ms, min=20, soft_max=35, hard_max=80)"
    );
    assert!(matches!(step, FlushStep::Wait));
    let (change, step) = relaxed.flush_step(3, None, at(3));
    assert_eq!(change.unwrap().message(), "Tokenizer relax off (buffer=3ms)");
    assert!(matches!(step, FlushStep::Piece(Some(_))));
}

#[test]
fn relax_transition_is_logged_on_change_only() {
    let mut active = false;
    assert_eq!(log_relax_transition(false, &mut active, 5, normal_default()), None);
    assert!(log_relax_transition(true, &mut active, 5, normal_default()).is_some());
    assert!(active);
    assert_eq!(log_relax_transition(true, &mut active, 5, normal_default()), None);
}

#[test]
fn blank_pieces_make_no_segment_and_marks_are_stripped() {
    let mut first = true;
    let none = build_text_segment(
        " \n".to_string(),
        &mut first,
        Some(at(1)),
        Some(at(2)),
        None,
        at(0),
        9,
        at(3),
    );
    assert!(none.is_none());
    assert!(first);
    let some = build_text_segment(
        "\u{feff}\u{feff}hi ".to_string(),
        &mut first,
        Some(at(1)),
        Some(at(2)),
        Some(at(4)),
        at(0),
        9,
        at(3),
    )
    .unwrap();
    assert!(!first);
    assert_eq!(some.text, "hi ");
    assert_eq!(some.llm_start_ts, at(4));
    assert_eq!(some.first_token_ts, Some(at(1)));
    assert_eq!(some.segment_sent_ts, at(3));
}

#[test]
fn thresholds_are_brought_into_order() {
    let mut vars = EnvVars::new();
    vars.set("TOKENIZER_NORMAL_MIN_CHARS", "500");
    vars.set("TOKENIZER_NORMAL_SOFT_MAX_CHARS", "0");
    let t = FlushThresholds::from_env(&vars, "TOKENIZER_NORMAL", normal_default());
    assert_eq!(t, FlushThresholds { min_chars: 400, soft_max: 400, hard_max: 400 });
    vars.set("TOKENIZER_NORMAL_MIN_CHARS", "15");
    let t = FlushThresholds::from_env(&vars, "TOKENIZER_NORMAL", normal_default());
    assert_eq!(t, FlushThresholds { min_chars: 15, soft_max: 15, hard_max: 40 });
}

#[test]
fn levels_of_thresholds() {
    let defaults = FlushLevels::default();
    assert_eq!(defaults.normal, normal_default());
    assert_eq!(defaults.relax, relax_default());
    let mut vars = EnvVars::new();
    assert_eq!(FlushLevels::from_env(&vars), defaults);
    vars.set("TOKENIZER_EAGER_MIN_CHARS", "5");
    let levels = FlushLevels::from_env(&vars);
    assert_eq!(levels.eager.min_chars, 5);
    assert_eq!(levels.normal, defaults.normal);
}

#[test]
fn only_a_tokenizer_from_the_environment_heeds_it() {
    let mut vars = EnvVars::new();
    vars.set("TOKENIZER_EAGER_MIN_CHARS", "5");
    let mut given = Tokenizer::new(at(0), 1, TokenizerConfig::default());
    let mut found = Tokenizer::from_env(&vars, at(0), 1);
    let mut custom = Tokenizer::with_config(
        FlushLevels::from_env(&vars),
        at(0),
        1,
        TokenizerConfig::default(),
    );
    for tokenizer in [&mut given, &mut found, &mut custom] {
        tokenizer.push_delta("Hi!", at(1));
    }
    assert_eq!(drain(&mut given, 0)[0].text, "Hi!");
    assert!(drain(&mut found, 0).is_empty());
    assert!(drain(&mut custom, 0).is_empty());

    let mut run_given = TokenizerRun::new(at(0), 1, TokenizerConfig::default());
    let mut run_found = TokenizerRun::from_env(&vars, at(0), 1);
    for tokenizer in [&mut run_given, &mut run_found] {
        tokenizer.on_msg(Some(DeltaMsg::Delta("Hi!".to_string())), at(1));
    }
    assert_eq!(run(&mut run_given, at(2))[0].text, "Hi!");
    assert!(run(&mut run_found, at(2)).is_empty());
}

#[test]
fn tokenizer_settings() {
    let mut vars = EnvVars::new();
    let config = TokenizerConfig::from_env(&vars);
    assert_eq!(config, TokenizerConfig { eager_chunks: 1, relax_buffer_ms: 200, relax_log: false });
    vars.set("CHUNKER_EAGER_CHUNKS", "4");
    vars.set("TOKENIZER_RELAX_LOG", "1");
    assert_eq!(TokenizerConfig::from_env(&vars).eager_chunks, 4);
    assert!(TokenizerConfig::from_env(&vars).relax_log);
    vars.set("TOKENIZER_EAGER_CHUNKS", "2");
    assert_eq!(TokenizerConfig::from_env(&vars).eager_chunks, 2);
    let wild =
        TokenizerConfig { eager_chunks: 1000, relax_buffer_ms: 1_000_000, relax_log: false };
    assert_eq!(
        wild.normalize(),
        TokenizerConfig { eager_chunks: 32, relax_buffer_ms: 60_000, relax_log: false }
    );
}

#[test]
fn pieces_make_up_a_long_text() {
    let text: String = (0..500)
        .map(|i| match i % 37 {
            36 => '。',
            11 => ',',
            k => (b'a' + (k % 26) as u8) as char,
        })
        .collect();
    let mut tokenizer = Tokenizer::new(at(0), 1, TokenizerConfig::default());
    let mut out = String::new();
    for c in text.chars() {
        tokenizer.push_delta(c.to_string().as_str(), at(1));
        for segment in drain(&mut tokenizer, 0) {
            assert!(segment.text.chars().count() <= 40);
            out.push_str(&segment.text);
        }
    }
    tokenizer.close();
    for segment in drain(&mut tokenizer, 0) {
        out.push_str(&segment.text);
    }
    assert_eq!(out, text);
}
