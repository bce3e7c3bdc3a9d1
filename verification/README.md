# rcat-voice

Speaks what a language model says while it is still saying it. Text deltas come in, are cut into
segments that can be spoken, are synthesized ahead or one by one, and are played in their order.
Around that stand speech recognition, turn detection, latency metrics, and a server of speech.

## Layout

- `src/` is the library. Every function in it carries a contract that Verus proves. It holds what
  decides and computes, as plain values and state machines:
  - `tokenizer` cuts the text, `pipeline` orders the jobs, `streaming` joins the two to a session;
  - `audio` (ring buffer, playback, cancellation, microphone), `generator` (engines),
    `asr`, `turn`, `metrics`, `worker`, `remote_tts_protocol`;
  - `chunker`, `player`, `deepseek`, `simulation`, `sentence_splitter`;
  - `internal` (environment, paths, disk, model files), `text`, `number`, `time`.
- `tests/` runs the library from outside.
- `app/` is the program: clock, environment, disk, network, sound devices, models and tasks. It
  asks the library what to do next, does it, and hands back what came of it.

Functions whose names start with `law_` state what holds of the library as a whole, such as that a
session loses none of its text, delivers every segment once and in order, and never runs more jobs
than planned.

## Outside code

The library calls `crossbeam-queue` for its bounded queue, `smallvec` for short lists of events
and `unicode-segmentation` for grapheme clusters, and of the standard library `String::push` and
`str::to_lowercase`. Their contracts are believed, not proved; each stands above the call, in
words. Loudness, resampling and probabilities are floats and stay in `app/`.

The program has parts that need native libraries. Each is compiled where its `feature` is set:
`audio-rodio`, `asr-mic`, `asr-sherpa`, `turn-smart`, `gpt-sovits` (Windows) and
`gpt-sovits-onnx`.
