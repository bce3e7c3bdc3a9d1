use rcat_voice::generator::gpt_sovits::{
    self, dynamic_chunk_token_nums, sink_step, top_k_for, GptSovitsChunkPolicy, GptSovitsConfig,
    FirstCall, GsvFile, InferLoop, InferStep, Pcm16StreamStats, SinkStep,
};
use rcat_voice::generator::gpt_sovits_onnx::{
    self, detect_g2p_en_dir, parse_lang_id, play_ranges, validate_g2p_en_dir, GptSovitsOnnxConfig,
    LangId, OnnxFile,
};
use rcat_voice::generator::os::{command_metrics, tts_command, Platform};
use rcat_voice::generator::remote::{
    check_status, decode_pcm16le, speech_endpoint, RemoteSettings, RemoteStep, RemoteStream,
};
use rcat_voice::generator::{
    build_from_env, check_available, default_backend, engine_from_key, BuiltIn, EngineKind,
    TtsBackend, TtsEngineBuilder,
};
use rcat_voice::internal::disk::{Host, PathKind, PathTable};
use rcat_voice::internal::env::EnvVars;
use rcat_voice::internal::model_locator::{
    first_existing_dir, first_existing_file, first_existing_file_rel, optional_existing_file_rel,
};
use rcat_voice::internal::models::{
    asr_dir, auto_detect_models_root, category_dir, looks_like_rcat_models_root, models_root_dir,
    tts_dir, tts_gpt_sovits_dir, tts_gpt_sovits_onnx_dir, turn_dir, vad_dir,
};
use rcat_voice::internal::ort_log::{parse_level_from_env, OrtLogLevel};
use rcat_voice::internal::path::{join, path_file_name, PathStyle};
use rcat_voice::time::Timestamp;

fn at(nanos: u64) -> Timestamp {
    Timestamp { nanos }
}

fn disk(files: &[&str], dirs: &[&str]) -> PathTable {
    let mut table = PathTable::new(PathStyle::Unix);
    for dir in dirs {
        table.note(dir, PathKind::Directory);
    }
    for file in files {
        table.note(file, PathKind::File);
    }
    table
}

const ALL: BuiltIn = BuiltIn { gpt_sovits: true, gpt_sovits_onnx: true, remote: true };
const NONE: BuiltIn = BuiltIn { gpt_sovits: false, gpt_sovits_onnx: false, remote: false };

#[test]
fn engines_by_name() {
    assert_eq!(engine_from_key("os"), Some(EngineKind::Os));
    assert_eq!(engine_from_key("gpt-sovits"), Some(EngineKind::GptSovits));
    assert_eq!(engine_from_key("gpt-sovits-onnx"), Some(EngineKind::GptSovitsOnnx));
    assert_eq!(engine_from_key("remote"), Some(EngineKind::Remote));
    assert_eq!(engine_from_key("OS"), None);
    assert_eq!(default_backend(NONE), "os");
    assert_eq!(default_backend(ALL), "gpt-sovits");
}

#[test]
fn engines_from_the_environment() {
    let mut vars = EnvVars::new();
    assert_eq!(build_from_env(&vars, NONE).unwrap(), EngineKind::Os);
    vars.set("TTS_BACKEND", "Remote");
    assert_eq!(build_from_env(&vars, ALL).unwrap(), EngineKind::Remote);
    assert!(build_from_env(&vars, NONE).unwrap_err().message().contains("`tts-remote` feature"));
    vars.set("TTS_BACKEND", "gpt-sovits-onnx");
    assert!(build_from_env(&vars, NONE).is_err());
    vars.set("TTS_BACKEND", "gpt-sovits");
    assert!(build_from_env(&vars, NONE).unwrap_err().message().contains("requires Windows"));
    vars.set("TTS_BACKEND", "none");
    assert_eq!(build_from_env(&vars, ALL).unwrap_err().message(), "Unknown TTS_BACKEND: none");
    assert!(check_available(EngineKind::Os, NONE).is_ok());
}

#[test]
fn engines_that_need_an_output() {
    assert!(matches!(TtsEngineBuilder::new(TtsBackend::Os).build(NONE), Ok(TtsBackend::Os)));
    let onnx = || TtsBackend::GptSovitsOnnx(GptSovitsOnnxConfig::from_dir("m"));
    assert_eq!(
        TtsEngineBuilder::new(onnx()).build(ALL).unwrap_err().message(),
        "GptSovitsOnnx backend requires an AudioBackend"
    );
    assert!(TtsEngineBuilder::new(onnx()).audio_backend().build(ALL).is_ok());
}

#[test]
fn engines_that_are_not_built_in() {
    let remote = || TtsEngineBuilder::new(TtsBackend::Remote).audio_backend();
    assert!(matches!(remote().build(ALL), Ok(TtsBackend::Remote)));
    assert!(remote().build(NONE).unwrap_err().message().contains("`tts-remote` feature"));
    let onnx = TtsBackend::GptSovitsOnnx(GptSovitsOnnxConfig::from_dir("m"));
    assert!(TtsEngineBuilder::new(onnx).audio_backend().build(NONE).is_err());
}

#[test]
fn speech_commands() {
    let mac = tts_command(Platform::MacOs, "hi");
    assert_eq!((mac.program.as_str(), mac.args), ("say", vec!["hi".to_string()]));
    let linux = tts_command(Platform::Linux, "hi");
    assert_eq!(linux.program, "spd-say");
    assert_eq!(linux.args, vec!["-w", "hi"]);
    let windows = tts_command(Platform::Windows, "hi");
    assert!(windows.text_on_stdin);
    assert!(windows.args[2].contains("SpeechSynthesizer"));
    let metrics = command_metrics(at(3), at(9));
    assert_eq!((metrics.start_ts, metrics.play_done_ts), (at(3), at(9)));
}

#[test]
fn remote_settings() {
    assert_eq!(speech_endpoint("http://h:1/"), "http://h:1/v1/audio/speech");
    assert_eq!(speech_endpoint("http://h/v1/audio/speech"), "http://h/v1/audio/speech");
    let mut vars = EnvVars::new();
    let settings = RemoteSettings::from_env(&vars);
    assert_eq!(settings.endpoint, "http://127.0.0.1:7878/v1/audio/speech");
    assert_eq!((settings.model.as_str(), settings.voice.as_str()), ("gpt-sovits", "default"));
    assert!(settings.api_key.is_none());
    vars.set("TTS_REMOTE_URL", "http://a");
    vars.set("TTS_API_KEY", "k");
    let settings = RemoteSettings::from_env(&vars);
    assert_eq!(settings.endpoint, "http://a/v1/audio/speech");
    assert_eq!(settings.api_key.as_deref(), Some("k"));
    vars.set("TTS_REMOTE_BASE_URL", "http://b");
    let settings = RemoteSettings::from_env(&vars);
    assert_eq!(settings.endpoint, "http://b/v1/audio/speech");
    let request = settings.request("hello", 32_000, 1).unwrap();
    assert_eq!(request.input, "hello");
    assert_eq!(request.response_format, "pcm16");
    assert!(request.stream);
    assert_eq!((request.sample_rate, request.channels), (Some(32_000), Some(1)));
    assert!(settings
        .request("hello", 16_000, 1)
        .unwrap_err()
        .message()
        .starts_with("Remote TTS currently expects 32000Hz mono"));
}

#[test]
fn remote_replies() {
    assert!(check_status(200, String::new()).is_ok());
    assert!(check_status(299, String::new()).is_ok());
    assert_eq!(
        check_status(404, "gone".to_string()).unwrap_err().message(),
        "Remote TTS failed (status=404): gone"
    );
}

#[test]
fn chunks_of_bytes_do_not_matter() {
    let bytes: Vec<u8> = (0..40).map(|i| (i * 37) as u8).collect();
    let mut whole = Vec::new();
    let mut pending = None;
    decode_pcm16le(&bytes, &mut pending, &mut whole);
    assert_eq!(pending, None);
    assert_eq!(whole[1], i16::from_le_bytes([bytes[2], bytes[3]]));
    for size in 1..9 {
        let mut parts = Vec::new();
        let mut pending = None;
        for chunk in bytes.chunks(size) {
            decode_pcm16le(chunk, &mut pending, &mut parts);
        }
        assert_eq!(parts, whole);
    }
    let mut stream = RemoteStream::new();
    assert!(matches!(stream.on_chunk(&[], false), RemoteStep::Skip));
    assert!(matches!(stream.on_chunk(&[1], false), RemoteStep::Skip));
    match stream.on_chunk(&[2, 3], false) {
        RemoteStep::Play(samples) => assert_eq!(samples, vec![0x0201]),
        other => panic!("{:?}", other),
    }
    assert!(matches!(stream.on_chunk(&[4], true), RemoteStep::Stop));
    assert_eq!(stream.pending_lo, Some(3));
}

const GSV_FILES: [&str; 7] = [
    "v/mini-bart-g2p.pt",
    "v/g2pw.pt",
    "v/bert_model.pt",
    "v/ssl.pt",
    "v/gpt_sovits_v2pro.cuda.pt",
    "v/ref.wav",
    "v/ref.txt",
];

#[test]
fn gpt_sovits_files() {
    let mut table = disk(&GSV_FILES, &["v"]);
    assert_eq!(
        GptSovitsConfig::from_dir(&table, "v").unwrap_err().message(),
        "Failed to read reference text: v/ref.txt"
    );
    table.note_text("v/ref.txt", "\u{feff} hello \n");
    let config = GptSovitsConfig::from_dir(&table, "v").unwrap();
    assert_eq!(config.ref_text, "hello");
    assert_eq!(config.g2pw_path, "v/g2pw.pt");
    assert_eq!(config.t2s_model_path, "v/gpt_sovits_v2pro.cuda.pt");
    assert_eq!(config.vits_model_path, "v/gpt_sovits_v2pro.cuda.pt");
    assert_eq!((config.top_k, config.top_k_first, config.max_cut_token), (15, 12, 25));
    assert_eq!(config.chunk_token_nums, vec![10, 25, 50, 100]);
    assert!(config.fp16);
    table.note("v/t2s.pt", PathKind::File);
    let config = GptSovitsConfig::from_dir(&table, "v").unwrap();
    assert_eq!(config.t2s_model_path, "v/t2s.pt");
    assert_eq!(top_k_for(&config, true), 12);
    assert_eq!(top_k_for(&config, false), 15);
    let error = GptSovitsConfig::from_dir(&table, "w").unwrap_err().message();
    assert_eq!(
        error,
        "g2p_en model (mini-bart-g2p) not found (tried: `w/mini-bart-g2p.pt`, `w/resource/mini-bart-g2p.pt`)"
    );
    assert!(GsvFile::Vits.locate(&PathTable::new(PathStyle::Unix), "v").is_err());
}

#[test]
fn gpt_sovits_settings() {
    let mut table = disk(&GSV_FILES, &["v"]);
    table.note_text("v/ref.txt", "x");
    let mut host = Host { vars: EnvVars::new(), disk: table, cwd: None };
    host.vars.set("GSV_MODEL_DIR", "v");
    host.vars.set("GSV_FP16", "0");
    host.vars.set("GSV_TOP_K", "99");
    host.vars.set("GSV_FIRST_TOP_K", "77");
    host.vars.set("GSV_FIRST_CHUNK_TOKENS", "1");
    host.vars.set("GSV_MAX_CUT_TOKEN", "2000");
    host.vars.set("GSV_FIRST_CHUNK_MID_CHARS", "5");
    let config = GptSovitsConfig::from_env(&host).unwrap();
    assert!(!config.fp16);
    assert_eq!((config.top_k, config.top_k_first, config.max_cut_token), (50, 50, 1024));
    assert_eq!(config.chunk_token_nums, vec![3, 25, 50, 100]);
    assert_eq!(config.chunk_policy.mid_chars, 12);
}

#[test]
fn short_texts_have_short_first_chunks() {
    let policy = GptSovitsChunkPolicy::default();
    let base = vec![10, 25, 50, 100];
    assert_eq!(dynamic_chunk_token_nums(12, &base, &policy), vec![6, 25, 50, 100]);
    assert_eq!(dynamic_chunk_token_nums(24, &base, &policy), vec![8, 25, 50, 100]);
    assert_eq!(dynamic_chunk_token_nums(25, &base, &policy), base);
    let mut fixed = policy;
    fixed.dynamic = false;
    assert_eq!(dynamic_chunk_token_nums(1, &base, &fixed), base);
    assert!(dynamic_chunk_token_nums(1, &vec![], &policy).is_empty());
}

#[test]
fn streams_of_chunks() {
    let mut stream = InferLoop::new(true);
    assert_eq!(stream.begin(true), InferStep::Stop);
    assert_eq!(stream.begin(false), InferStep::NextChunk);
    assert_eq!(stream.on_chunk(Some(0)), (InferStep::NextChunk, true));
    assert_eq!(stream.on_chunk(Some(5)), (InferStep::Deliver, false));
    assert_eq!(stream.on_delivered(true).0, InferStep::NextChunk);
    assert_eq!(stream.on_delivered(false).0, InferStep::Stop);
    assert_eq!(stream.on_chunk(None), (InferStep::Stop, false));
    let mut stats = Pcm16StreamStats::new();
    stats.on_sent(10, 20, at(3));
    stats.on_sent(5, 10, at(4));
    assert_eq!((stats.chunks, stats.samples, stats.bytes), (2, 15, 30));
    assert_eq!(stats.first_audio_ts, Some(at(3)));
    assert_eq!(sink_step(0, false), SinkStep::Skip);
    assert_eq!(sink_step(3, false), SinkStep::Send);
    assert_eq!(sink_step(3, true), SinkStep::Refuse);
    assert!(gpt_sovits::check_output(32_000, 1).is_ok());
    assert!(gpt_sovits::check_output(32_000, 2)
        .unwrap_err()
        .message()
        .contains("expects 32000Hz mono output"));
}

#[test]
fn onnx_settings() {
    assert_eq!(parse_lang_id("YUE"), LangId::AutoYue);
    assert_eq!(parse_lang_id("zh"), LangId::Auto);
    let mut host = Host { vars: EnvVars::new(), disk: PathTable::new(PathStyle::Unix), cwd: None };
    let config = GptSovitsOnnxConfig::from_env(&host).unwrap();
    assert_eq!((config.model_dir.as_str(), config.export_name.as_str()), ("onnx", "custom"));
    assert_eq!((config.top_k, config.chunk_samples), (4, 2048));
    host.vars.set("GSV_ONNX_BERT_PATH", "b.onnx");
    assert_eq!(
        GptSovitsOnnxConfig::from_env(&host).unwrap_err().message(),
        "GSV_ONNX_BERT_PATH not found: b.onnx"
    );
    host.disk.note("b.onnx", PathKind::File);
    host.vars.set("GSV_ONNX_CHUNK_SAMPLES", "1");
    let config = GptSovitsOnnxConfig::from_env(&host).unwrap();
    assert_eq!(config.bert_path.as_deref(), Some("b.onnx"));
    assert_eq!(config.chunk_samples, 256);
}

#[test]
fn onnx_files() {
    let mut table = disk(
        &[
            "m/voice_vits.onnx",
            "m/ssl.onnx",
            "m/custom_t2s_encoder.onnx",
            "m/t2s_fs_decoder.onnx",
            "m/voice_t2s_s_decoder.onnx",
            "m/g2pw.onnx",
            "m/ref_16k.wav",
        ],
        &["m"],
    );
    let mut config = GptSovitsOnnxConfig::from_dir("m");
    assert!(config.resolve(&table).unwrap_err().message().starts_with("SoVITS model not found"));
    config.export_name = "voice".to_string();
    assert_eq!(
        config.resolve(&table).unwrap_err().message(),
        "Failed to read reference text: m/ref.txt"
    );
    table.note_text("m/ref.txt", "  ");
    assert_eq!(config.resolve(&table).unwrap_err().message(), "Reference text is empty");
    config.ref_text = Some("\u{feff}said ".to_string());
    let assets = config.resolve(&table).unwrap();
    assert_eq!(assets.ref_text, "said");
    assert_eq!(assets.sovits, "m/voice_vits.onnx");
    assert_eq!(assets.t2s_encoder, "m/custom_t2s_encoder.onnx");
    assert_eq!(assets.g2pw.as_deref(), Some("m/g2pw.onnx"));
    assert_eq!((assets.bert, assets.g2p_en, assets.sv), (None, None, None));
    assert_eq!(assets.ref_wav, "m/ref_16k.wav");
    config.g2p_en_path = Some("m/g2p_en".to_string());
    assert!(config.resolve(&table).unwrap_err().message().starts_with("g2p_en dir missing"));
    table.note("m/g2p_en", PathKind::Directory);
    table.note("m/g2p_en/encoder_model.onnx", PathKind::File);
    table.note("m/g2p_en/decoder_model.onnx", PathKind::File);
    assert!(validate_g2p_en_dir(&table, "m/g2p_en").is_ok());
    assert_eq!(detect_g2p_en_dir(&table, "m").as_deref(), Some("m/g2p_en"));
    assert!(config.resolve(&table).is_ok());
    config.model_dir = "n".to_string();
    assert_eq!(
        config.resolve(&table).unwrap_err().message(),
        "GPT-SoVITS ONNX model dir not found: n"
    );
    assert_eq!(OnnxFile::Ssl.locate(&table, "m", "voice").unwrap(), "m/ssl.onnx");
}

#[test]
fn onnx_playback() {
    assert_eq!(play_ranges(10, 4), vec![(0, 4), (4, 8), (8, 10)]);
    assert!(play_ranges(0, 4).is_empty());
    assert!(gpt_sovits_onnx::check_output(32_000, 1, 32_000, 1).is_ok());
    assert_eq!(
        gpt_sovits_onnx::check_output(32_000, 1, 48_000, 2).unwrap_err().message(),
        "gpt-sovits-onnx output 32000Hz/1ch does not match audio backend 48000Hz/2ch"
    );
}

#[test]
fn paths_of_models() {
    let unix = |base, rel| join(PathStyle::Unix, base, rel);
    assert_eq!(unix("a", "b"), "a/b");
    assert_eq!(unix("a/", "b"), "a/b");
    assert_eq!(unix("a", "/b"), "/b");
    assert_eq!(unix("", "b"), "b");
    assert_eq!(unix("a\\", "C:b"), "a\\/C:b");
    let windows = |base, rel| join(PathStyle::Windows, base, rel);
    assert_eq!(windows("a", "b/c"), "a\\b/c");
    assert_eq!(windows("a/", "b"), "a/b");
    assert_eq!(windows("a\\", "b"), "a\\b");
    assert_eq!(windows("C:", "b"), "C:b");
    assert_eq!(windows("C:\\a", "\\b"), "C:\\b");
    assert_eq!(windows("C:\\a", "D:\\b"), "D:\\b");
    assert_eq!(windows("a", "/b"), "/b");
    // Two separators alone are no share.
    assert_eq!(windows("C:\\a", "\\\\b"), "C:\\\\b");
    assert_eq!(windows("C:\\a", "\\\\s\\b"), "\\\\s\\b");
    assert_eq!(windows("\\\\s\\h\\a", "/b"), "\\\\s\\h/b");
    assert_eq!(windows("\\\\s\\h", "b"), "\\\\s\\h\\b");
    // Behind a verbatim prefix the names are put together anew.
    assert_eq!(windows("\\\\?\\C:\\a\\", "b/./c"), "\\\\?\\C:\\a\\b\\c");
    assert_eq!(windows("\\\\?\\C:\\a", "..\\b"), "\\\\?\\C:\\b");
    assert_eq!(windows("\\\\?\\C:\\a", "..\\..\\b"), "\\\\?\\C:\\b");
    assert_eq!(windows("\\\\?\\C:\\a", "/b"), "\\\\?\\C:\\b");
    assert_eq!(windows("\\\\?\\C:", "b"), "\\\\?\\C:\\b");
    assert_eq!(windows("\\\\?\\C:\\a", ".."), "\\\\?\\C:\\");
    assert_eq!(windows("\\\\?\\UNC\\s\\h", "b"), "\\\\?\\UNC\\s\\h\\b");
    assert_eq!(windows("\\\\?\\C:\\a", ""), "\\\\?\\C:\\a\\");
    let name = |path| path_file_name(PathStyle::Windows, path);
    assert_eq!(name("C:\\a/b\\").as_deref(), Some("b"));
    assert_eq!(name("\\\\s\\h\\.."), None);
    let table = disk(&["r/x.onnx", "r/sub/y.onnx"], &["r", "r/sub"]);
    assert_eq!(first_existing_dir(&table, "r", "dir", &vec!["no", "sub"]).unwrap(), "r/sub");
    assert_eq!(
        first_existing_file(&table, "r", "file", &vec!["sub", "x.onnx"]).unwrap(),
        "r/x.onnx"
    );
    let names = vec!["sub/y.onnx".to_string()];
    assert_eq!(first_existing_file_rel(&table, "r", "file", &names).unwrap(), "r/sub/y.onnx");
    assert_eq!(optional_existing_file_rel(&table, "r", &vec!["z", "x.onnx"]).unwrap(), "r/x.onnx");
    assert!(optional_existing_file_rel(&table, "r", &vec!["sub"]).is_none());
    assert_eq!(
        first_existing_dir(&table, "r", "thing", &vec!["a"]).unwrap_err().message(),
        "thing not found (tried: `r/a`)"
    );
    let mut table = PathTable::new(PathStyle::Windows);
    table.note("r\\sub", PathKind::Directory);
    assert_eq!(table.style(), PathStyle::Windows);
    assert_eq!(first_existing_dir(&table, "r", "dir", &vec!["sub"]).unwrap(), "r\\sub");
}

#[test]
fn spellings_of_a_path_on_windows() {
    let mut table = PathTable::new(PathStyle::Windows);
    table.note("C:\\m\\resource\\mini-bart-g2p.pt", PathKind::File);
    assert_eq!(
        GsvFile::G2pEn.locate(&table, "C:\\m").unwrap(),
        "C:\\m\\resource/mini-bart-g2p.pt"
    );
    assert!(table.is_file("c:/M/Resource/mini-bart-g2p.pt"));
    assert!(!table.is_file("C:\\m\\mini-bart-g2p.pt"));
    table.note_text("C:\\m\\ref.txt", "hi");
    assert_eq!(table.read("C:/m/REF.txt").as_deref(), Some("hi"));
    // Each way down leads to the same file.
    let at_once = table.join("C:\\m", "resource/mini-bart-g2p.pt");
    let in_steps = table.join(&table.join("C:\\m", "resource"), "mini-bart-g2p.pt");
    assert_eq!(table.kind(&at_once), table.kind(&in_steps));
    table.note("\\\\?\\C:\\m\\x", PathKind::File);
    assert!(table.is_file("\\\\?\\c:\\M\\x"));
    assert!(!table.is_file("\\\\?\\C:\\m/x"));
    let mut unix = PathTable::new(PathStyle::Unix);
    unix.note("m\\x", PathKind::File);
    assert!(!unix.is_file("m/x"));
    assert!(!unix.is_file("M\\x"));
}

#[test]
fn first_text_since_a_stop() {
    let mut call = FirstCall::new();
    assert_eq!((call.take(), call.take()), (true, false));
    call.reset();
    assert_eq!((call.take(), call.take()), (true, false));
}

#[test]
fn settings_over_an_odd_configuration() {
    let mut table = disk(&GSV_FILES, &["v"]);
    table.note_text("v/ref.txt", "x");
    let mut config = GptSovitsConfig::from_dir(&table, "v").unwrap();
    config.top_k = 0;
    config.apply_env_overrides(&EnvVars::new());
    assert_eq!((config.top_k, config.top_k_first), (0, 12));
}

#[test]
fn directories_of_models() {
    let mut host = Host {
        vars: EnvVars::new(),
        disk: disk(
            &[],
            &[
                "/w/models",
                "/w/models/ASR",
                "/w/models/TTS",
                "/w/models/VAD",
                "/w/models/TURN",
                "/w/models/TTS/gpt-sovits",
            ],
        ),
        cwd: Some("/w".to_string()),
    };
    assert!(looks_like_rcat_models_root(&host.disk, "/w/models"));
    assert_eq!(auto_detect_models_root(&host).as_deref(), Some("/w/models"));
    assert_eq!(asr_dir(&host).as_deref(), Some("/w/models/ASR"));
    assert_eq!(vad_dir(&host).as_deref(), Some("/w/models/VAD"));
    assert_eq!(turn_dir(&host).as_deref(), Some("/w/models/TURN"));
    assert_eq!(tts_dir(&host).as_deref(), Some("/w/models/TTS"));
    assert_eq!(tts_gpt_sovits_dir(&host).as_deref(), Some("/w/models/TTS/gpt-sovits"));
    assert_eq!(tts_gpt_sovits_onnx_dir(&host), None);
    assert_eq!(category_dir(&host, "LLM"), None);
    host.vars.set("RCAT_MODELS_DIR", "/other");
    assert_eq!(models_root_dir(&host).as_deref(), Some("/other"));
    assert_eq!(asr_dir(&host).as_deref(), Some("/other"));
    host.vars = EnvVars::new();
    host.cwd = None;
    assert_eq!(models_root_dir(&host), None);
}

#[test]
fn runtime_log_levels() {
    let mut vars = EnvVars::new();
    assert_eq!(parse_level_from_env(&vars), OrtLogLevel::Warning);
    for (word, level) in [
        (" Verbose", OrtLogLevel::Verbose),
        ("INFO", OrtLogLevel::Info),
        ("error", OrtLogLevel::Error),
        ("fatal", OrtLogLevel::Fatal),
        ("loud", OrtLogLevel::Warning),
    ] {
        vars.set("ORT_LOG", word);
        assert_eq!(parse_level_from_env(&vars), level);
    }
}
