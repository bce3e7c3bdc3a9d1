use rcat_voice::audio::mic::{
    check_input_format, find_holding, mic_capacity, sample_from_u16, select_input_device,
    DeviceChoice, MicConfig, MicHandle,
};
use rcat_voice::audio::queue::SampleQueue;
use rcat_voice::audio::rodio::{
    prebuffer_samples, ring_capacity, wall_sample, MarkerFate, PlayTime, PlaybackState,
    PushProgress, PushStep, RingBuffer, RodioCore, SamplePoint, MARKER_CHECK_INTERVAL,
};
use rcat_voice::audio::system::SystemBackend;
use rcat_voice::audio::wasapi::WasapiBackend;
use rcat_voice::audio::{
    build, build_from_env, samples_to_ms, AudioBackendKind, AudioConfig, AudioStreamSegment,
    CancelToken, ChunkStep, RmsCounter, RodioConfig,
};
use rcat_voice::internal::env::EnvVars;
use rcat_voice::time::Timestamp;

fn at(nanos: u64) -> Timestamp {
    Timestamp { nanos }
}

#[test]
fn cancelling_voids_every_scope() {
    let mut token = CancelToken::new();
    let scope = token.scope();
    assert!(!scope.is_cancelled(&token));
    token.cancel();
    assert!(scope.is_cancelled(&token));
    assert!(!token.scope().is_cancelled(&token));
    assert_eq!(token.current_epoch(), 1);
    assert!(token.scope_at(0).is_cancelled(&token));
    assert!(!token.scope_at(1).is_cancelled(&token));
}

#[test]
fn the_queue_is_bounded_and_keeps_its_order() {
    let mut queue = SampleQueue::new(2);
    assert!(queue.push(5));
    assert!(queue.push(-6));
    assert!(!queue.push(7));
    assert_eq!(queue.len(), 2);
    assert_eq!(queue.pop(), Some(5));
    assert!(queue.push(8));
    assert_eq!((queue.pop(), queue.pop(), queue.pop()), (Some(-6), Some(8), None));
    assert!(queue.push(1));
    queue.clear();
    assert_eq!(queue.len(), 0);
}

#[test]
fn output_settings() {
    let mut vars = EnvVars::new();
    let config = RodioConfig { sample_rate: 32_000, channels: 1, ring_seconds: 60, prefill_ms: 50 };
    assert_eq!(RodioConfig::from_env(&vars), config);
    assert_eq!(RodioConfig::default(), config);
    assert_eq!(ring_capacity(&config), 1_920_000);
    assert_eq!(prebuffer_samples(&config), 1600);
    vars.set("AUDIO_SAMPLE_RATE", "1");
    vars.set("AUDIO_CHANNELS", "9");
    vars.set("AUDIO_PREFILL_MS", "5000");
    let wild = RodioConfig::from_env(&vars);
    assert_eq!((wild.sample_rate, wild.channels, wild.prefill_ms), (8_000, 2, 2_000));
    let zero = RodioConfig { sample_rate: 0, channels: 0, ring_seconds: 0, prefill_ms: 0 };
    let normal = zero.normalize();
    assert_eq!((normal.sample_rate, normal.channels, normal.ring_seconds), (8_000, 1, 1));
}

#[test]
fn output_backends() {
    let mut vars = EnvVars::new();
    assert!(build_from_env(&vars, true).is_ok());
    assert_eq!(
        AudioConfig::from_env(&vars).unwrap().backend,
        AudioBackendKind::Rodio(RodioConfig::default())
    );
    assert!(!build_from_env(&vars, false).unwrap_err().message().is_empty());
    vars.set("AUDIO_BACKEND", " WASAPI ");
    let config = AudioConfig::from_env(&vars).unwrap();
    assert_eq!(config.backend, AudioBackendKind::Wasapi);
    assert_eq!(
        build(&config, true).unwrap_err().message(),
        "AUDIO_BACKEND=wasapi is not implemented yet"
    );
    vars.set("AUDIO_BACKEND", "system");
    assert_eq!(
        build_from_env(&vars, true).unwrap_err().message(),
        "AUDIO_BACKEND=system is not implemented yet"
    );
    vars.set("AUDIO_BACKEND", "tape");
    assert_eq!(build_from_env(&vars, true).unwrap_err().message(), "Unknown AUDIO_BACKEND: tape");
    assert_eq!(
        SystemBackend::new().unwrap_err().message(),
        "System audio backend is not implemented yet"
    );
    assert_eq!(
        WasapiBackend::new().unwrap_err().message(),
        "WASAPI backend is not implemented yet"
    );
}

#[test]
fn playing_times() {
    assert_eq!(samples_to_ms(1600, 32_000, 1), 50);
    assert_eq!(samples_to_ms(1600, 32_000, 2), 25);
    assert_eq!(samples_to_ms(31, 32_000, 1), 0);
    assert_eq!(samples_to_ms(5, 0, 1), 0);
    let mut counter = RmsCounter::new();
    assert!(counter.mark(0, 9, 32_000, 1).is_none());
    let mark = counter.mark(1600, 70, 32_000, 1).unwrap();
    assert_eq!((mark.seq, mark.buffered_ms), (1, 20));
    assert_eq!(counter.mark(3200, 70, 32_000, 1).unwrap().buffered_ms, 0);
}

#[test]
fn chunks_are_written_in_pieces() {
    let mut segment = AudioStreamSegment::new();
    segment.push(4000);
    let mut at_sample = 0;
    let mut pieces = Vec::new();
    loop {
        match segment.next_step(false) {
            ChunkStep::Write { from, to } => {
                assert_eq!(from, at_sample);
                pieces.push(to - from);
                at_sample = to;
                segment.on_written(to - from, Some(at(7)));
            }
            ChunkStep::Done => break,
            ChunkStep::Stop => panic!("stopped"),
        }
    }
    assert_eq!(pieces, vec![1600, 1600, 800]);
    assert_eq!(segment.finish(Some(at(9))), Some(at(7)));
    segment.push(10);
    assert_eq!(segment.next_step(true), ChunkStep::Stop);
    segment.on_written(0, None);
    assert_eq!(segment.next_step(false), ChunkStep::Stop);
    assert_eq!(AudioStreamSegment::new().finish(Some(at(9))), Some(at(9)));
}

#[test]
fn a_full_ring_makes_its_writer_wait() {
    let mut ring = RingBuffer::new(3);
    let data = vec![1, 2, 3, 4, 5];
    let mut progress = PushProgress { written: 0, backoff: 0, full_events: 0 };
    assert_eq!(ring.push_step(&data, &mut progress, false), PushStep::Wait { delay_us: 100 });
    assert_eq!(progress.written, 3);
    for delay_us in [200, 400, 800, 800] {
        assert_eq!(ring.push_step(&data, &mut progress, false), PushStep::Wait { delay_us });
    }
    assert_eq!(ring.queue.pop(), Some(1));
    assert_eq!(ring.push_step(&data, &mut progress, false), PushStep::Wait { delay_us: 100 });
    assert_eq!(ring.push_step(&data, &mut progress, true), PushStep::Done);
    assert_eq!(progress.written, 4);
    assert_eq!(ring.queue.pop(), Some(2));
    assert_eq!(ring.push_step(&data, &mut progress, false), PushStep::Done);
    assert_eq!(progress.written, 5);
    assert_eq!(progress.full_events, 6);
    assert!(!ring.note_push(0, 5000));
    assert!(!ring.note_push(2, 999));
    assert!(ring.note_push(3, 1000));
    assert_eq!((ring.full_count, ring.blocked_us), (5, 1000));
}

#[test]
fn waiters_are_told_when_their_samples_are_played() {
    let mut state: PlaybackState<u8> = PlaybackState::new(4);
    assert_eq!(state.push_marker(0, 1), Some(1));
    assert_eq!(state.push_marker(10, 2), None);
    assert_eq!(state.push_marker(20, 3), None);
    assert_eq!(state.check_markers(10), vec![2]);
    assert_eq!(state.check_markers(19), Vec::<u8>::new());
    assert_eq!(state.clear_markers(), vec![3]);
    assert_eq!(state.try_start(3, at(1)), None);
    assert_eq!(state.try_start(4, at(2)), Some(at(2)));
    assert_eq!(state.force_start(at(9)), at(2));
    assert!(state.started);
}

#[test]
fn samples_play_in_the_order_of_writing() {
    assert_eq!(wall_sample(100, 60, 70), 110);
    assert_eq!(wall_sample(100, 100, 70), 100);
    assert_eq!(wall_sample(10, 60, 70), 70);
}

#[test]
fn a_segment_from_start_to_end() {
    let mut token = CancelToken::new();
    let mut core: RodioCore<u8> = RodioCore::from_config(RodioConfig {
        sample_rate: 8_000,
        channels: 1,
        ring_seconds: 1,
        prefill_ms: 0,
    });
    assert_eq!(core.next_sample(), (None, vec![]));
    let mut writer = core.begin_segment(token.scope());
    assert!(writer.active);
    let second = core.begin_segment(token.scope());
    assert!(!second.active);
    assert!(!second.accepts(&token, 5));
    assert!(!writer.accepts(&token, 0));
    assert!(writer.accepts(&token, 300));
    let data: Vec<i64> = (0..300).collect();
    let mut progress = PushProgress { written: 0, backoff: 0, full_events: 0 };
    writer.begin_push(&mut core);
    assert_eq!(core.ring.push_step(&data, &mut progress, false), PushStep::Done);
    writer.end_push(&mut core, progress.written, at(5));
    assert_eq!(writer.first_audio, Some(SamplePoint { stream_start: at(5), sample: 0 }));
    assert_eq!(core.buffered_ms(), Some(37));
    let (playback, fate) = writer.finish(&mut core, false, at(6), 42);
    assert!(matches!(fate, MarkerFate::Queued));
    assert!(playback.play_done_reported);
    assert_eq!(
        playback.play_done,
        PlayTime::AtSample(SamplePoint { stream_start: at(5), sample: 300 })
    );
    assert!(!core.active_writer);
    let mut told = Vec::new();
    let mut heard = Vec::new();
    for _ in 0..2 * MARKER_CHECK_INTERVAL {
        let (sample, done) = core.next_sample();
        heard.extend(sample);
        told.extend(done);
    }
    assert_eq!(heard, data);
    assert_eq!(told, vec![42]);

    let writer = core.begin_segment(token.scope());
    token.cancel();
    assert!(!writer.accepts(&token, 5));
    let (playback, fate) = writer.finish(&mut core, true, at(9), 43);
    assert!(matches!(fate, MarkerFate::Unused(43)));
    assert_eq!(playback.play_done, PlayTime::At(at(9)));
    assert!(core.stop().is_empty());
    assert!(!core.playback.started);
}

#[test]
fn microphone_settings() {
    let mut vars = EnvVars::new();
    let config = MicConfig::from_env(&vars);
    assert_eq!((config.feed_ms, config.ring_seconds), (20, 30));
    assert_eq!(config.fixed_buffer(), None);
    vars.set("ASR_FEED_MS", "1000");
    vars.set("ASR_MIC_RING_SECONDS", "0");
    vars.set("ASR_MIC_DEVICE", " usb ");
    vars.set("ASR_MIC_BUFFER_FRAMES", "0");
    let config = MicConfig::from_env(&vars);
    assert_eq!((config.feed_ms, config.ring_seconds), (200, 1));
    assert_eq!(config.device_hint.as_deref(), Some("usb"));
    assert_eq!(config.buffer_frames, None);
}

#[test]
fn microphone_choice() {
    let names = || vec!["Built-in".to_string(), "USB Mic".to_string(), "usb two".to_string()];
    assert!(matches!(select_input_device(names(), None), Ok(DeviceChoice::Default)));
    assert!(matches!(
        select_input_device(names(), Some("usb".to_string())),
        Ok(DeviceChoice::Listed(1))
    ));
    let error = select_input_device(names(), Some("hdmi".to_string())).unwrap_err();
    assert_eq!(
        error.message(),
        "ASR_MIC_DEVICE=hdmi did not match any input device. Available:\n- Built-in\n- USB Mic\n- usb two"
    );
    assert_eq!(find_holding(&names(), "two"), Some(2));
    assert_eq!(find_holding(&names(), "three"), None);
}

#[test]
fn microphone_formats() {
    assert!(check_input_format(16_000, 1).is_ok());
    assert_eq!(
        check_input_format(0, 1).unwrap_err().message(),
        "Invalid input audio format: 0Hz/1ch"
    );
    assert!(check_input_format(16_000, 0).is_err());
    assert_eq!(mic_capacity(16_000, 2, 8), 256_000);
    assert_eq!(mic_capacity(1, 1, 1), 1024);
    assert_eq!(sample_from_u16(0), -32768);
    assert_eq!(sample_from_u16(32768), 0);
    assert_eq!(sample_from_u16(65535), 32767);
}

#[test]
fn microphone_samples_are_queued_or_counted() {
    let mut mic = MicHandle::new(3, 16_000, 1, 20);
    mic.push_samples(&vec![1, -2, 3, 4]);
    mic.push_sample(5);
    assert_eq!(mic.take_dropped_samples(), 2);
    assert_eq!(mic.take_dropped_samples(), 0);
    assert_eq!(mic.try_pop_sample(), Some(1));
    assert_eq!(mic.try_pop_sample(), Some(-2));
    assert_eq!(mic.try_pop_sample(), Some(3));
    assert_eq!(mic.try_pop_sample(), None);
    assert_eq!((mic.sample_rate(), mic.channels(), mic.feed_ms()), (16_000, 1, 20));
}
