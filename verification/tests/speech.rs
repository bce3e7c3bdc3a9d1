use rcat_voice::asr::sherpa::{
    inference_event, is_sense_voice_model, plan_write, resolve_paraformer_dir,
    resolve_sense_voice, segment_bounds, vad_chunk_samples, AsrModelDtype, InferenceSequencer,
    SherpaAsrConfig, SherpaAsrModel, SherpaVadConfig, VadTracker,
};
use rcat_voice::asr::utils::{
    pcm_i16_le_bytes_to_vec, pcm_i16_to_le_bytes, pcm_i16_to_mono, sample_from_le,
};
use rcat_voice::asr::VadEvent;
use rcat_voice::audio::CancelToken;
use rcat_voice::internal::disk::{Host, PathKind, PathTable};
use rcat_voice::internal::env::EnvVars;
use rcat_voice::internal::path::PathStyle;
use rcat_voice::metrics::MetricEventKind;
use rcat_voice::time::Timestamp;
use rcat_voice::turn::context::TurnManager;
use rcat_voice::turn::smart_turn::{
    check_model_file, is_model_path, is_smart_turn_name, model_path_from_env, model_setting,
    plan_push, resolve_smart_turn_model_path, DirEntry, TurnAudioBuffer,
};
use rcat_voice::turn::types::{
    AudioFrameRef, TurnBoundaryDetector, TurnDetectorConfig, TurnEvent, TurnEventKind, TurnEvents,
};
use rcat_voice::turn::vad_gate::VadGateTurnDetector;

fn ms(ms: u64) -> Timestamp {
    Timestamp { nanos: ms * 1_000_000 }
}

#[test]
fn samples_and_bytes() {
    assert_eq!(sample_from_le(0x34, 0x12), 0x1234);
    assert_eq!(sample_from_le(0xff, 0xff), -1);
    let samples = vec![0, 1, -1, i16::MIN, i16::MAX, 0x1234];
    let bytes = pcm_i16_to_le_bytes(&samples);
    assert_eq!(bytes[10..], [0x34, 0x12]);
    assert_eq!(pcm_i16_le_bytes_to_vec(&bytes).unwrap(), samples);
    assert_eq!(
        pcm_i16_le_bytes_to_vec(&[1, 2, 3]).unwrap_err().message(),
        "pcm bytes length must be even (i16 LE)"
    );
}

#[test]
fn one_channel_of_two() {
    assert_eq!(pcm_i16_to_mono(&vec![5, -7], 1).unwrap(), vec![10, -14]);
    assert_eq!(pcm_i16_to_mono(&vec![1, 2, i16::MIN, i16::MIN, 9], 2).unwrap(), vec![3, -65536]);
    assert_eq!(pcm_i16_to_mono(&vec![], 0).unwrap_err().message(), "channels must be >= 1");
    assert_eq!(pcm_i16_to_mono(&vec![], 3).unwrap_err().message(), "unsupported channels: 3");
}

#[test]
fn recognition_models_by_name() {
    for (name, model) in [
        ("paraformer-zh-small", SherpaAsrModel::ParaformerZhSmall),
        ("paraformer-zh", SherpaAsrModel::ParaformerZh),
        ("paraformer-zh-int8", SherpaAsrModel::ParaformerZhInt8),
        ("paraformer-trilingual", SherpaAsrModel::ParaformerTrilingual),
        ("paraformer-en", SherpaAsrModel::ParaformerEn),
        ("sensevoice", SherpaAsrModel::SenseVoice),
        ("sensevoice-int8", SherpaAsrModel::SenseVoiceInt8),
        ("funasr-nano", SherpaAsrModel::SenseVoiceFunAsrNano),
        ("funasr-nano-int8", SherpaAsrModel::SenseVoiceFunAsrNanoInt8),
        (" Models/Sherpa_x\\sherpa-onnx-paraformer_ZH ", SherpaAsrModel::ParaformerZh),
        (
            "sherpa-onnx-sense-voice-zh-en-ja-ko-yue-2024-07-17",
            SherpaAsrModel::SenseVoice,
        ),
        (
            "sherpa-onnx-sense-voice-funasr-nano-int8-2025-12-17",
            SherpaAsrModel::SenseVoiceFunAsrNanoInt8,
        ),
    ] {
        assert_eq!(SherpaAsrModel::parse(name).unwrap(), model, "{}", name);
    }
    assert_eq!(
        SherpaAsrModel::parse("Whisper_Tiny").unwrap_err().message(),
        "Unknown ASR_MODEL: whisper-tiny"
    );
    assert!(is_sense_voice_model(SherpaAsrModel::SenseVoiceInt8));
    assert!(!is_sense_voice_model(SherpaAsrModel::ParaformerEn));
}

#[test]
fn number_types() {
    assert_eq!(AsrModelDtype::parse(" AUTO ").unwrap(), AsrModelDtype::Auto);
    assert_eq!(AsrModelDtype::parse("int8").unwrap(), AsrModelDtype::Int8);
    assert_eq!(AsrModelDtype::parse("fp32").unwrap(), AsrModelDtype::Fp32);
    assert!(AsrModelDtype::parse("int4")
        .unwrap_err()
        .message()
        .ends_with("(expected auto|int8|fp32)"));
    assert_eq!(AsrModelDtype::from_env(&EnvVars::new()).unwrap(), AsrModelDtype::Auto);
}

fn disk(files: &[&str], dirs: &[&str]) -> PathTable {
    let mut table = PathTable::new(PathStyle::Unix);
    for dir in dirs {
        table.note(dir, PathKind::Directory);
    }
    for file in files {
        table.note(file, PathKind::File);
    }
    table
}

#[test]
fn paraformer_files() {
    let table = disk(&["m/tokens.txt", "m/model.int8.onnx", "m/model.onnx"], &["m"]);
    let auto = resolve_paraformer_dir(&table, "m", AsrModelDtype::Auto).unwrap();
    assert_eq!(auto.tokens, "m/tokens.txt");
    assert_eq!(auto.model, "m/model.int8.onnx");
    let fp32 = resolve_paraformer_dir(&table, "m", AsrModelDtype::Fp32).unwrap();
    assert_eq!(fp32.model, "m/model.onnx");
    let only = disk(&["m/tokens.txt", "m/model.onnx"], &["m"]);
    assert_eq!(
        resolve_paraformer_dir(&only, "m", AsrModelDtype::Auto).unwrap().model,
        "m/model.onnx"
    );
    assert_eq!(
        resolve_paraformer_dir(&only, "m", AsrModelDtype::Int8).unwrap_err().message(),
        "ASR model file not found: m/model.int8.onnx (set ASR_MODEL_DTYPE=auto or download model.int8.onnx)"
    );
    assert_eq!(
        resolve_paraformer_dir(&only, "n", AsrModelDtype::Auto).unwrap_err().message(),
        "ASR model dir not found: n"
    );
    let bare = disk(&[], &["m"]);
    assert_eq!(
        resolve_paraformer_dir(&bare, "m", AsrModelDtype::Auto).unwrap_err().message(),
        "ASR tokens not found: m/tokens.txt"
    );
    let no_model = disk(&["m/tokens.txt"], &["m"]);
    assert!(resolve_paraformer_dir(&no_model, "m", AsrModelDtype::Auto)
        .unwrap_err()
        .message()
        .ends_with("(expected model.int8.onnx or model.onnx)"));
}

#[test]
fn sense_voice_files() {
    let table = disk(&["r/b/model.onnx", "r/b/tokens.txt"], &["r/b"]);
    let paths = resolve_sense_voice(&table, "r", &vec!["a", "b"], true).unwrap();
    assert_eq!((paths.model.as_str(), paths.tokens.as_str()), ("r/b/model.onnx", "r/b/tokens.txt"));
    let error = resolve_sense_voice(&table, "r", &vec!["a", "c"], true).unwrap_err().message();
    assert!(error.contains("not found (tried: "), "{}", error);
}

#[test]
fn recognition_settings() {
    let mut host = Host {
        vars: EnvVars::new(),
        disk: disk(
            &[
                "asrmodel/silero_vad.onnx",
                "asrmodel/sherpa-onnx-paraformer-zh-small-2024-03-09/tokens.txt",
                "asrmodel/sherpa-onnx-paraformer-zh-small-2024-03-09/model.int8.onnx",
            ],
            &["asrmodel", "asrmodel/sherpa-onnx-paraformer-zh-small-2024-03-09"],
        ),
        cwd: None,
    };
    let config = SherpaAsrConfig::from_env(&host).unwrap();
    assert_eq!(config.models_root, "asrmodel");
    assert_eq!(config.model, SherpaAsrModel::ParaformerZhSmall);
    assert_eq!((config.lang.as_str(), config.provider.as_str()), ("zh", "cpu"));
    assert_eq!((config.threads, config.segment_queue, config.vad_chunk_ms), (2, 8, 20));
    assert_eq!(config.vad.model, "asrmodel/silero_vad.onnx");
    assert_eq!(config.vad.window_size, 512);
    let paths = config.resolve_model_paths(&host.disk).unwrap();
    assert!(paths.model.ends_with("/model.int8.onnx"));
    host.vars.set("ASR_VAD_PATH", "elsewhere.onnx");
    assert!(SherpaVadConfig::from_env(&host, "asrmodel")
        .unwrap_err()
        .message()
        .starts_with("VAD model not found: elsewhere.onnx"));
    assert_eq!(vad_chunk_samples(20), 320);
    assert_eq!(vad_chunk_samples(0), 1);
}

#[test]
fn writes_keep_their_format() {
    let mut format = None;
    assert_eq!(
        plan_write(&mut format, &vec![1], 0, 1).unwrap_err().message(),
        "sample_rate must be > 0"
    );
    let plan = plan_write(&mut format, &vec![1, 3], 48_000, 2).unwrap();
    assert_eq!((plan.mono, plan.resample), (vec![4], true));
    assert_eq!(
        plan_write(&mut format, &vec![1], 16_000, 1).unwrap_err().message(),
        "input audio format changed: 48000Hz/2ch -> 16000Hz/1ch"
    );
    let mut format = None;
    assert!(!plan_write(&mut format, &vec![1], 16_000, 1).unwrap().resample);
    let mut format = None;
    assert_eq!(
        plan_write(&mut format, &vec![1], 16_000, 5).unwrap_err().message(),
        "unsupported channels: 5"
    );
}

#[test]
fn edges_of_speech_alternate() {
    let mut tracker = VadTracker::new(ms(0));
    assert_eq!(tracker.on_chunk(false, ms(1)), None);
    assert_eq!(tracker.on_chunk(true, ms(2)), Some(VadEvent::SpeechStart { ts: ms(2) }));
    assert_eq!(tracker.on_chunk(true, ms(3)), None);
    assert_eq!(
        tracker.on_chunk(false, ms(9)),
        Some(VadEvent::SpeechEnd { ts: ms(9), duration_ms: 7 })
    );
    assert_eq!(tracker.on_end(ms(10)), None);
    tracker.on_chunk(true, ms(11));
    assert_eq!(
        tracker.on_end(ms(12)),
        Some(VadEvent::SpeechEnd { ts: ms(12), duration_ms: 1 })
    );
    assert_eq!((tracker.state.speaking, tracker.state.seq), (false, 4));
}

#[test]
fn recognized_segments_are_numbered() {
    assert_eq!(segment_bounds(-4, 10), Some((0, 10)));
    assert_eq!(segment_bounds(5, 10), Some((5, 15)));
    assert_eq!(segment_bounds(5, 0), None);
    let mut sequencer = InferenceSequencer::new();
    assert!(sequencer.on_text("  ", 0, 1).is_none());
    let first = sequencer.on_text(" hi ", 3, 9).unwrap();
    assert_eq!((first.text.as_str(), first.idx, first.start, first.end), ("hi", 0, 3, 9));
    assert!(first.finished);
    assert_eq!(sequencer.on_text("again", 9, 12).unwrap().idx, 1);
    let event = inference_event(17, ms(4));
    assert_eq!((event.turn_id, event.kind), (0, MetricEventKind::AsrInference { infer_ms: 17 }));
}

#[test]
fn the_list_of_events_grows_past_its_inline_room() {
    let mut events = TurnEvents::new();
    for i in 0..9 {
        events.push(TurnEvent::speech_start(ms(i)));
    }
    assert_eq!(events.len(), 9);
    assert_eq!(events.get(8), Some(TurnEvent { kind: TurnEventKind::SpeechStart, ts: ms(8) }));
    assert_eq!(events.get(9), None);
    events.clear();
    assert_eq!(events.len(), 0);
    events.push(TurnEvent::speech_end(ms(1)));
    assert_eq!(events.get(0).unwrap().kind, TurnEventKind::SpeechEnd);
}

#[test]
fn a_turn_is_committed_once_after_silence() {
    let mut detector = VadGateTurnDetector::from_env(&EnvVars::new());
    let mut out = TurnEvents::new();
    detector.tick(ms(5000), &mut out);
    assert_eq!(out.len(), 0);
    detector.push_vad(VadEvent::SpeechStart { ts: ms(100) }, &mut out);
    detector.tick(ms(9000), &mut out);
    detector.push_vad(VadEvent::SpeechEnd { ts: ms(1000), duration_ms: 900 }, &mut out);
    assert_eq!(out.len(), 2);
    detector.tick(ms(1349), &mut out);
    assert_eq!(out.len(), 2);
    assert_eq!(detector.trailing_silence_ms(ms(1349)), 349);
    detector.tick(ms(1350), &mut out);
    assert_eq!(out.get(2), Some(TurnEvent::turn_committed(ms(1350))));
    detector.tick(ms(1400), &mut out);
    detector.push_vad(VadEvent::SpeechStart { ts: ms(1500) }, &mut out);
    assert_eq!(out.len(), 3);
    detector.reset();
    detector.push_vad(VadEvent::SpeechStart { ts: ms(1500) }, &mut out);
    assert_eq!(out.len(), 4);
    let samples = [0_i16; 4];
    let frame =
        AudioFrameRef { samples: &samples, sample_rate: 16_000, channels: 1, ts: ms(1600) };
    detector.push_audio(frame, &mut out);
    assert_eq!(out.len(), 4);
}

#[test]
fn silence_ends_a_turn_in_any_case() {
    let mut config = TurnDetectorConfig::default();
    config.min_silence_ms = 60_000;
    config.force_end_ms = 500;
    let mut detector = VadGateTurnDetector::new(config);
    let mut out = TurnEvents::new();
    detector.push_vad(VadEvent::SpeechStart { ts: ms(0) }, &mut out);
    detector.push_vad(VadEvent::SpeechEnd { ts: ms(10), duration_ms: 10 }, &mut out);
    detector.tick(ms(510), &mut out);
    assert_eq!(out.get(2).unwrap().kind, TurnEventKind::TurnCommitted);
}

#[test]
fn the_next_turn_cancels_the_last() {
    let mut token = CancelToken::new();
    let mut manager = TurnManager::new(&token, ms(0));
    assert_eq!(manager.current_context().turn_id(), 0);
    let first = manager.advance_turn(&mut token, ms(1));
    assert_eq!((first.turn_id(), first.epoch_snapshot(), first.created_at()), (1, 1, ms(1)));
    assert!(!first.is_cancelled(&token));
    let second = manager.advance_turn(&mut token, ms(2));
    assert!(first.is_cancelled(&token));
    assert!(first.scope().is_cancelled(&token));
    assert!(!second.is_cancelled(&token));
    let third = manager.advance_turn_no_cancel(&token, ms(3));
    assert_eq!((third.turn_id(), third.epoch_snapshot()), (3, 2));
    assert!(!second.is_cancelled(&token));
}

#[test]
fn the_window_keeps_the_newest_samples() {
    let mut window: TurnAudioBuffer<i32> = TurnAudioBuffer::new(4);
    window.push(&vec![1, 2]);
    assert_eq!(window.snapshot_right_padded(0), vec![0, 0, 1, 2]);
    window.push(&vec![3, 4, 5]);
    assert_eq!(window.snapshot_right_padded(0), vec![2, 3, 4, 5]);
    window.push(&vec![6, 7, 8, 9, 10]);
    assert_eq!(window.snapshot_right_padded(0), vec![7, 8, 9, 10]);
    window.clear();
    assert_eq!(window.snapshot_right_padded(0), vec![0; 4]);
}

#[test]
fn turn_models_by_path() {
    let unix = |path| is_model_path(PathStyle::Unix, path);
    assert!(unix("a/b.ONNX"));
    assert!(unix("b.onnx"));
    assert!(unix("b.onnx/./"));
    assert!(unix("a\\.onnx"));
    assert!(!unix("b.onnx.bak"));
    assert!(!unix(".onnx"));
    assert!(!unix("b.onnx/.."));
    let windows = |path| is_model_path(PathStyle::Windows, path);
    assert!(windows("C:\\a\\b.onnx"));
    assert!(windows("a/b.onnx\\"));
    assert!(!windows("a\\.onnx"));
    assert!(!windows("C:.onnx"));
    assert!(windows("C:.\\b.onnx\\."));
    // A share and a device are no names.
    assert!(!windows("\\\\server\\share.onnx"));
    assert!(windows("\\\\server\\share.onnx\\b.onnx"));
    assert!(!windows("//server/share.onnx/"));
    assert!(!windows("\\\\.\\device.onnx"));
    assert!(windows("\\\\server.onnx"));
    // Behind a verbatim prefix a name may hold a slash, and a dot is a name.
    assert!(!windows("\\\\?\\b.onnx"));
    assert!(windows("\\\\?\\C:\\b.onnx"));
    assert!(!windows("\\\\?\\C:\\b.onnx\\."));
    assert!(windows("\\\\?\\C:\\a/.onnx"));
    assert!(!windows("\\\\?\\UNC\\server\\share.onnx"));
    assert!(windows("\\\\?\\UNC\\server\\share\\b.onnx"));
    assert!(is_smart_turn_name("x-smart_turn-v3.onnx"));
    assert!(is_smart_turn_name("smart-turn"));
    assert!(!is_smart_turn_name("smartturn"));
}

fn entry(name: &str, is_file: bool) -> DirEntry {
    DirEntry { name: name.to_string(), is_file }
}

#[test]
fn turn_model_in_a_directory() {
    let entries = vec![
        entry("readme.md", true),
        entry("Smart-Turn-v3.onnx", true),
        entry("smart-turn-dir.onnx", false),
    ];
    let resolve = |kind, entries: &Vec<DirEntry>| {
        resolve_smart_turn_model_path(PathStyle::Unix, "m".to_string(), kind, entries)
    };
    assert_eq!(resolve(PathKind::Directory, &entries).unwrap(), "m/Smart-Turn-v3.onnx");
    assert!(resolve(PathKind::Directory, &vec![])
        .unwrap_err()
        .message()
        .ends_with("no smart-turn*.onnx file was found: m"));
    let two = vec![entry("smart-turn-b.onnx", true), entry("smart-turn-a.onnx", true)];
    assert!(resolve(PathKind::Directory, &two)
        .unwrap_err()
        .message()
        .ends_with("\n- m/smart-turn-a.onnx\n- m/smart-turn-b.onnx"));
    assert_eq!(
        resolve(PathKind::Missing, &entries).unwrap_err().message(),
        "SMART_TURN_MODEL not found: m"
    );
    assert!(resolve(PathKind::Other, &entries).is_err());
    assert_eq!(
        resolve(PathKind::File, &entries).unwrap_err().message(),
        "SMART_TURN_MODEL must point to a .onnx file, got: m"
    );
    let file = |style| {
        resolve_smart_turn_model_path(style, "x.onnx".to_string(), PathKind::File, &entries)
    };
    assert_eq!(file(PathStyle::Unix).unwrap(), "x.onnx");
    let windows = resolve_smart_turn_model_path(
        PathStyle::Windows,
        "m".to_string(),
        PathKind::Directory,
        &entries,
    );
    assert_eq!(windows.unwrap(), "m\\Smart-Turn-v3.onnx");
}

#[test]
fn turn_model_from_the_environment() {
    let mut vars = EnvVars::new();
    let entries = vec![entry("smart-turn-v3.onnx", true)];
    let find = |vars: &EnvVars, kind| model_path_from_env(PathStyle::Unix, vars, kind, &entries);
    assert_eq!(model_setting(&vars), None);
    assert!(find(&vars, PathKind::File).unwrap_err().message().contains("is required"));
    vars.set("SMART_TURN_MODEL", " x.onnx ");
    assert_eq!(model_setting(&vars).as_deref(), Some("x.onnx"));
    assert_eq!(find(&vars, PathKind::File).unwrap(), "x.onnx");
    assert_eq!(
        find(&vars, PathKind::Missing).unwrap_err().message(),
        "SMART_TURN_MODEL not found: x.onnx"
    );
    vars.set("SMART_TURN_MODEL", "m");
    assert_eq!(find(&vars, PathKind::Directory).unwrap(), "m/smart-turn-v3.onnx");
    assert_eq!(
        find(&vars, PathKind::File).unwrap_err().message(),
        "SMART_TURN_MODEL must point to a .onnx file, got: m"
    );
    vars.set("SMART_TURN_MODEL", "  ");
    assert_eq!(model_setting(&vars), None);
    let check = |path: &str, kind| check_model_file(PathStyle::Unix, path.to_string(), kind);
    assert!(check("x.onnx", PathKind::File).is_ok());
    assert!(check("x.onnx", PathKind::Missing).is_err());
    assert!(check("x.onnx", PathKind::Directory).unwrap_err().message().contains("got a directory"));
    assert!(check("x.bin", PathKind::File).is_err());
}

#[test]
fn audio_of_a_turn_keeps_its_format() {
    let mut format = None;
    assert!(plan_push(&mut format, &vec![1], 0, 1).is_err());
    assert_eq!(
        plan_push(&mut format, &vec![1], 16_000, 0).unwrap_err().message(),
        "channels must be >= 1"
    );
    assert!(!plan_push(&mut format, &vec![1], 16_000, 1).unwrap().resample);
    assert!(plan_push(&mut format, &vec![1], 8_000, 1).is_err());
}
