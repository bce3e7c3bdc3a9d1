use rcat_voice::chunker::{
    estimate_ms, queued_after_send, queued_after_speech, should_flush, Chunk, Chunker,
};
use rcat_voice::deepseek::{chat_message, ChatRole};
use rcat_voice::internal::env::EnvVars;
use rcat_voice::player::{FirstChunkTimes, Player, PlayerStep, SpokenLog, TokenTimes};
use rcat_voice::remote_tts_protocol::{
    default_model, default_response_format, default_stream, default_voice, SpeechRequest,
};
use rcat_voice::simulation::{split_deltas, LevelWatch, SimulationConfig, DEFAULT_TEXT};
use rcat_voice::time::Timestamp;
use rcat_voice::worker::{
    bind_from_env, check_request, content_type, metrics_enabled, parse_bind, plain_reply, route,
    status, BindError, RequestError, Route, WorkerState,
};

fn at(nanos: u64) -> Timestamp {
    Timestamp { nanos }
}

#[test]
fn server_settings() {
    let mut vars = EnvVars::new();
    assert!(!metrics_enabled(&vars));
    assert_eq!(bind_from_env(&vars), "127.0.0.1:7878");
    vars.set("TTS_WORKER_METRICS", "on");
    vars.set("TTS_WORKER_BIND", "9000");
    assert!(metrics_enabled(&vars));
    assert_eq!(bind_from_env(&vars), "9000");
    assert_eq!(parse_bind(" 9000 ").unwrap(), "127.0.0.1:9000");
    assert_eq!(parse_bind("0.0.0.0:80").unwrap(), "0.0.0.0:80");
    assert_eq!(parse_bind("  ").unwrap_err().message(), "TTS_WORKER_BIND is empty");
    let invalid = BindError::Invalid { bind: "x".to_string() };
    assert_eq!(invalid.message(), "invalid TTS_WORKER_BIND: x");
}

#[test]
fn routes() {
    assert_eq!(route("GET", "/health"), Route::Health);
    assert_eq!(route("POST", "/v1/audio/speech"), Route::Speech);
    assert_eq!(route("GET", "/v1/audio/speech"), Route::NotFound);
    assert_eq!(route("POST", "/health"), Route::NotFound);
    assert_eq!(plain_reply(Route::Health), Some((200, "ok\n")));
    assert_eq!(plain_reply(Route::NotFound), Some((404, "not found\n")));
    assert_eq!(plain_reply(Route::Speech), None);
}

fn request(input: &str) -> SpeechRequest {
    SpeechRequest::for_input(input.to_string())
}

#[test]
fn requests_with_defaults_are_taken() {
    assert_eq!(default_response_format(), "pcm16");
    assert!(default_stream());
    let mut asked = request("  hello \n");
    assert_eq!((asked.model.clone(), asked.voice.clone()), (default_model(), default_voice()));
    asked.stream = false;
    asked.response_format = " PCM ".to_string();
    asked.sample_rate = Some(32_000);
    asked.channels = Some(1);
    let taken = check_request(asked).unwrap();
    assert_eq!(taken.input, "hello");
    assert!(taken.stream);
}

#[test]
fn refused_requests_are_answered_in_words() {
    let message = |r: SpeechRequest| {
        let response = check_request(r).unwrap_err().response();
        assert_eq!(response.error.kind.as_deref(), Some("tts_worker_error"));
        response.error.message
    };
    assert_eq!(message(request(" ")), "input is empty");
    let mut r = request("x");
    r.response_format = "MP3".to_string();
    r.model = "other".to_string();
    assert_eq!(message(r), "unsupported response_format: mp3 (expected pcm16)");
    let mut r = request("x");
    r.sample_rate = Some(16_000);
    assert_eq!(message(r), "only 32000Hz mono PCM is supported");
    let mut r = request("x");
    r.channels = Some(2);
    assert_eq!(message(r), "only 32000Hz mono PCM is supported");
    let mut r = request("x");
    r.model = " Whisper ".to_string();
    assert_eq!(message(r), "unsupported model: whisper (expected gpt-sovits)");
    let body = RequestError::Body { reason: "eof".to_string() };
    assert_eq!(body.message(), "read body failed: eof");
    let json = RequestError::Json { reason: "line 1".to_string() };
    assert_eq!(json.message(), "invalid json: line 1");
}

#[test]
fn statuses_of_speech_requests() {
    let taken = check_request(request("hello"));
    assert_eq!(status(&taken), 200);
    assert_eq!(content_type(&taken), "audio/L16; rate=32000; channels=1");
    let refused = check_request(request(" "));
    assert_eq!((status(&refused), content_type(&refused)), (400, "application/json"));
    for error in [
        RequestError::Body { reason: "eof".to_string() },
        RequestError::Json { reason: "line 1".to_string() },
        RequestError::Format { format: "mp3".to_string() },
        RequestError::Audio,
        RequestError::Model { model: "x".to_string() },
    ] {
        assert_eq!(status(&Err(error)), 400);
    }
}

#[test]
fn requests_are_numbered() {
    let mut state = WorkerState::new();
    assert_eq!((state.next_request_id(), state.next_request_id()), (1, 2));
    state.request_seq = u64::MAX;
    assert_eq!((state.next_request_id(), state.next_request_id()), (u64::MAX, 0));
}

#[test]
fn chunks_are_due() {
    assert!(!should_flush("abc!", 5, 9));
    assert!(should_flush("abcd!", 5, 9));
    assert!(should_flush("abcd；", 5, 9));
    assert!(!should_flush("abcdef", 5, 9));
    assert!(should_flush("abcdefghi", 5, 9));
    assert!(!should_flush("", 0, 1));
    assert!(should_flush("", 0, 0));
    assert_eq!(estimate_ms(1), 250);
    assert_eq!(estimate_ms(2), 360);
    assert_eq!(estimate_ms(44), 7920);
    assert_eq!(estimate_ms(45), 8000);
    assert_eq!(estimate_ms(usize::MAX), 8000);
}

#[test]
fn chunks_by_how_much_is_queued() {
    let mut chunker = Chunker::new(at(1));
    assert!(chunker.on_delta("hello ", 0, at(2)).is_none());
    let chunk = chunker.on_delta("there, ok!", 0, at(3)).unwrap();
    assert_eq!(chunk.text, "hello there, ok!");
    assert_eq!(chunk.est_ms, 16 * 180);
    assert_eq!((chunk.first_token_ts, chunk.chunk_sent_ts), (Some(at(2)), at(3)));
    // Little is queued: 20 characters are enough.
    assert_eq!(
        chunker.on_delta("aaaaaaaaaaaaaaaaaaa!", 599, at(4)).unwrap().first_token_ts,
        None
    );
    // A middling amount: 40 are needed, and with much queued 80.
    assert!(chunker.on_delta("aaaaaaaaaaaaaaaaaaa!", 600, at(5)).is_none());
    assert!(chunker.on_delta("aaaaaaaaaaaaaaaaaaa!", 2501, at(6)).is_none());
    assert!(chunker.on_delta("!", 2500, at(7)).is_some());
    // Blank chunks are dropped.
    assert!(chunker.on_delta(" ".repeat(45).as_str(), 0, at(8)).is_none());
    assert!(chunker.on_delta("", 0, at(9)).is_none());
}

#[test]
fn the_queue_balances() {
    let sent = queued_after_send(100, 250);
    assert_eq!(sent, 350);
    assert_eq!(queued_after_speech(queued_after_send(sent, 8), 250), 108);
    assert_eq!(queued_after_speech(1, 2), u64::MAX);
    assert_eq!(queued_after_send(u64::MAX, 2), 1);
}

fn chunk(first: bool) -> Chunk {
    Chunk {
        text: "x".to_string(),
        est_ms: 250,
        task_start: at(10),
        first_token_ts: if first { Some(at(14)) } else { None },
        chunk_sent_ts: at(20),
    }
}

#[test]
fn times_of_the_first_chunk() {
    let mut player = Player::new();
    assert_eq!(player.on_chunk(&chunk(true), true, at(25)), PlayerStep::Stop);
    assert_eq!(
        player.on_chunk(&chunk(true), false, at(25)),
        PlayerStep::Speak {
            times: Some(FirstChunkTimes {
                token: Some(TokenTimes { llm_delay: 4, chunker_delay: 6, chunker_abs: 10 }),
                play_delay: 5,
                play_abs: 15,
            })
        }
    );
    assert_eq!(
        player.on_chunk(&chunk(true), false, at(26)),
        PlayerStep::Speak { times: None }
    );
    let (log, queued) = player.on_spoken(&chunk(true), at(25), at(40), 1000);
    assert_eq!((log, queued), (SpokenLog { first: true, delay: 20, abs: 30 }, 750));
    let (log, _) = player.on_spoken(&chunk(false), at(25), at(40), 1000);
    assert_eq!(log, SpokenLog { first: false, delay: 15, abs: 30 });
}

#[test]
fn chat_messages() {
    let system = chat_message(Some("system"), Some("be brief"));
    assert_eq!((system.role, system.content.as_str()), (ChatRole::System, "be brief"));
    assert_eq!(chat_message(Some("assistant"), Some("x")).role, ChatRole::User);
    let bare = chat_message(None, None);
    assert_eq!((bare.role, bare.content.as_str()), (ChatRole::User, ""));
}

#[test]
fn simulated_streams() {
    let mut vars = EnvVars::new();
    let config = SimulationConfig::from_env(&vars);
    assert_eq!((config.rounds, config.chunk_chars, config.delay_ms), (2, 3, 80));
    assert_eq!((config.buffer_poll_ms, config.text.as_str()), (20, DEFAULT_TEXT));
    assert_eq!(config.auto_cancel(2), None);
    assert_eq!(config.auto_cancel(3), Some(1500));
    vars.set("LLM_ROUNDS", "0");
    vars.set("LLM_SIM_TEXT", "");
    vars.set("AUTO_CANCEL_DELAY_MS", "1");
    let config = SimulationConfig::from_env(&vars);
    assert_eq!((config.rounds, config.text.as_str()), (1, ""));
    assert_eq!(config.auto_cancel(3), Some(100));
    assert_eq!(split_deltas("你好ab👍", 2), vec!["你好", "ab", "👍"]);
    assert_eq!(split_deltas("abcd", 2), vec!["ab", "cd"]);
    assert!(split_deltas("", 2).is_empty());
    assert_eq!(split_deltas(DEFAULT_TEXT, 3).concat(), DEFAULT_TEXT);
}

#[test]
fn levels_are_passed_on_when_they_change() {
    let mut watch = LevelWatch::new();
    assert_eq!(watch.on_level(None), Some(0));
    assert_eq!(watch.on_level(Some(0)), None);
    assert_eq!(watch.on_level(Some(7)), Some(7));
    assert_eq!(watch.on_level(Some(7)), None);
}
