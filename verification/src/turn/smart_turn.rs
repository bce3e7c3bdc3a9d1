//! Turn detection by a model that listens to the last seconds of a turn.

use crate::asr::sherpa::{InputFormat, WritePlan};
use crate::asr::utils::{mono_of, pcm_i16_to_mono, PcmError};
use crate::internal::disk::PathKind;
use crate::internal::env::{self, EnvVars};
use crate::internal::path::{file_name, join, joined, path_file_name, PathStyle};
use crate::number::{append_number, decimal};
use crate::text::{
    after_last, ascii_lowercase, ascii_lowercased, chars_of, contains_text, holds_part, in_order,
    lowercase, lowercased, same, sort_texts, spelled, tail_after_last,
};
use std::collections::VecDeque;
use vstd::prelude::*;
use vstd::string::*;

verus! {

/// How much of a turn the model listens to.
pub const WINDOW_SECONDS: usize = 8;

/// Samples per second that the model works on.
pub const SMART_TURN_SAMPLE_RATE: u32 = 16_000;

/// The last `n` items.
pub open spec fn last_n<T>(s: Seq<T>, n: nat) -> Seq<T> {
    if s.len() <= n {
        s
    } else {
        s.skip(s.len() - n)
    }
}

/// The last samples of a turn, as many as the window holds.
#[derive(Debug)]
pub struct TurnAudioBuffer<T> {
    max_samples: usize,
    data: VecDeque<T>,
}

/// A window of samples.
#[verifier::ext_equal]
pub struct WindowView<T> {
    /// The samples in it, oldest first.
    pub samples: Seq<T>,
    /// How many it holds at most.
    pub size: nat,
}

impl<T> View for TurnAudioBuffer<T> {
    type V = WindowView<T>;

    closed spec fn view(&self) -> WindowView<T> {
        WindowView { samples: self.data@, size: self.max_samples as nat }
    }
}

impl<T: Copy> TurnAudioBuffer<T> {
    /// An empty window.
    pub fn new(max_samples: usize) -> (r: Self)
        ensures
            r@ == (WindowView { samples: Seq::<T>::empty(), size: max_samples as nat }),
    {
        TurnAudioBuffer { max_samples, data: VecDeque::new() }
    }

    /// Drops all samples.
    pub fn clear(&mut self)
        ensures
            final(self)@ == (WindowView { samples: Seq::<T>::empty(), ..old(self)@ }),
    {
        self.data.clear();
    }

    /// Appends samples; the oldest leave where the window is full.
    pub fn push(&mut self, samples: &Vec<T>)
        ensures
            final(self)@.size == old(self)@.size,
            final(self)@.samples == if samples@.len() == 0 {
                old(self)@.samples
            } else {
                last_n(old(self)@.samples + samples@, old(self)@.size)
            },
    {
        if samples.len() == 0 {
            return;
        }
        let ghost before = self.data@;
        let keep: usize = self.max_samples;
        let mut i: usize = 0;
        if samples.len() >= keep {
            self.data.clear();
            i = samples.len() - keep;
        }
        let ghost start = self.data@;
        let ghost first = i as int;
        proof {
            assert(start + samples@.subrange(first, first) =~= start);
        }
        while i < samples.len()
            invariant
                0 <= first <= i <= samples@.len(),
                self.data@ == start + samples@.subrange(first, i as int),
                self.max_samples == keep,
            decreases samples@.len() - i,
        {
            self.data.push_back(samples[i]);
            i += 1;
            proof {
                assert(self.data@ =~= start + samples@.subrange(first, i as int));
            }
        }
        let ghost all = self.data@;
        proof {
            assert(samples@.subrange(first, samples@.len() as int) =~= samples@.skip(first));
        }
        let ghost mut gone: int = 0;
        while self.data.len() > keep
            invariant
                0 <= gone <= all.len(),
                self.data@ =~= all.skip(gone),
                gone > 0 ==> self.data@.len() >= keep,
                self.max_samples == keep,
            decreases self.data@.len(),
        {
            let _ = self.data.pop_front();
            proof {
                gone = gone + 1;
            }
        }
        proof {
            assert(self.data@ =~= last_n(all, keep as nat));
            if samples@.len() >= keep {
                assert(all =~= samples@.skip(first));
                assert(last_n(all, keep as nat) =~= last_n(before + samples@, keep as nat));
            } else {
                assert(all =~= before + samples@);
            }
        }
    }

    /// The window with its samples at the end, and `zero` before them.
    pub fn snapshot_right_padded(&self, zero: T) -> (r: Vec<T>)
        ensures
            r@ == if self@.samples.len() >= self@.size {
                self@.samples
            } else {
                Seq::new((self@.size - self@.samples.len()) as nat, |i: int| zero) + self@.samples
            },
    {
        let keep: usize = self.max_samples;
        let len: usize = self.data.len();
        let pad: usize = keep.saturating_sub(len);
        let mut out: Vec<T> = Vec::new();
        let mut i: usize = 0;
        while i < pad
            invariant
                i <= pad,
                out@ =~= Seq::new(i as nat, |k: int| zero),
            decreases pad - i,
        {
            out.push(zero);
            i += 1;
        }
        let ghost padding = out@;
        let mut j: usize = 0;
        while j < len
            invariant
                len == self.data@.len(),
                j <= len,
                out@ =~= padding + self.data@.take(j as int),
            decreases len - j,
        {
            out.push(self.data[j]);
            j += 1;
        }
        proof {
            assert(self.data@.take(j as int) =~= self.data@);
            if len >= keep {
                assert(out@ =~= self.data@);
            }
        }
        out
    }
}

/// Filling a window in two steps is filling it in one.
pub proof fn law_window_in_steps<T>(before: Seq<T>, a: Seq<T>, b: Seq<T>, n: nat)
    ensures
        last_n(last_n(before + a, n) + b, n) == last_n(before + (a + b), n),
        last_n(before, n).len() <= n,
{
    assert((before + a) + b =~= before + (a + b));
    assert(last_n(last_n(before + a, n) + b, n) =~= last_n(before + (a + b), n));
}

/// What follows the last dot of a name, where something stands before that dot.
pub open spec fn extension(name: Seq<char>) -> Option<Seq<char>> {
    let tail = after_last(name, '.');
    if tail.len() + 1 < name.len() {
        Some(tail)
    } else {
        None
    }
}

/// Whether a path ends in `.onnx`, whatever the case.
pub open spec fn names_onnx(style: PathStyle, path: Seq<char>) -> bool {
    match file_name(style, path) {
        Some(name) => match extension(name) {
            Some(ext) => ascii_lowercased(ext) == "onnx"@,
            None => false,
        },
        None => false,
    }
}

/// `after_last` is no longer than the text.
proof fn lemma_after_last_len(s: Seq<char>, c: char)
    ensures
        after_last(s, c).len() <= s.len(),
    decreases s.len(),
{
    if s.len() > 0 && s.last() != c {
        lemma_after_last_len(s.drop_last(), c);
    }
}

/// Whether a path ends in `.onnx`, whatever the case.
pub fn is_model_path(style: PathStyle, path: &str) -> (r: bool)
    ensures
        r == names_onnx(style, path@),
{
    match path_file_name(style, path) {
        Some(name) => {
            let ext = tail_after_last(name.as_str(), '.');
            let ext_len: usize = chars_of(ext.as_str()).len();
            let name_len: usize = chars_of(name.as_str()).len();
            proof {
                lemma_after_last_len(name@, '.');
            }
            if ext_len >= name_len || name_len - ext_len < 2 {
                return false;
            }
            same(ascii_lowercase(ext.as_str()).as_str(), "onnx")
        },
        None => false,
    }
}

/// What stands in a directory.
#[derive(Debug)]
pub struct DirEntry {
    pub name: String,
    pub is_file: bool,
}

/// Why there is no turn model.
#[derive(Debug)]
pub enum SmartTurnError {
    NotSet,
    NotOnnx { path: String },
    IsDirectory { path: String },
    NoCandidate { dir: String },
    /// More than one file might be meant; they are in order.
    SeveralCandidates { paths: Vec<String> },
    Missing { path: String },
    NotAFile { path: String },
    NoSampleRate,
    FormatChanged { from: InputFormat, to: InputFormat },
    Pcm(PcmError),
}

/// One line for each path.
pub open spec fn path_lines(paths: Seq<Seq<char>>) -> Seq<char>
    decreases paths.len(),
{
    if paths.len() == 0 {
        Seq::empty()
    } else {
        path_lines(paths.drop_last()) + "\n- "@ + paths.last()
    }
}

impl SmartTurnError {
    /// The error in words.
    pub open spec fn spec_message(&self) -> Seq<char> {
        match self {
            SmartTurnError::NotSet =>
                "SMART_TURN_MODEL is required (path to smart-turn-v3*.onnx, or a directory containing it)"@,
            SmartTurnError::NotOnnx { path } =>
                "SMART_TURN_MODEL must point to a .onnx file, got: "@ + path@,
            SmartTurnError::IsDirectory { path } =>
                "SMART_TURN_MODEL must point to a .onnx file, got a directory: "@ + path@,
            SmartTurnError::NoCandidate { dir } =>
                "SMART_TURN_MODEL points to a directory but no smart-turn*.onnx file was found: "@
                + dir@,
            SmartTurnError::SeveralCandidates { paths } =>
                "SMART_TURN_MODEL points to a directory with multiple smart-turn*.onnx candidates. Please set SMART_TURN_MODEL to an explicit file path."@
                + path_lines(spelled(paths@)),
            SmartTurnError::Missing { path } => "SMART_TURN_MODEL not found: "@ + path@,
            SmartTurnError::NotAFile { path } =>
                "SMART_TURN_MODEL must point to a .onnx file (or a directory containing smart-turn*.onnx), got: "@
                + path@,
            SmartTurnError::NoSampleRate => "sample_rate must be > 0"@,
            SmartTurnError::FormatChanged { from, to } => "input audio format changed: "@
                + decimal(from.sample_rate as nat) + "Hz/"@ + decimal(from.channels as nat)
                + "ch -> "@ + decimal(to.sample_rate as nat) + "Hz/"@ + decimal(
                to.channels as nat,
            ) + "ch"@,
            SmartTurnError::Pcm(e) => e.spec_message(),
        }
    }

    /// The error in words.
    pub fn message(&self) -> (r: String)
        ensures
            r@ == self.spec_message(),
    {
        let mut out = String::new();
        match self {
            SmartTurnError::NotSet => {
                out =
                "SMART_TURN_MODEL is required (path to smart-turn-v3*.onnx, or a directory containing it)".to_string();
            },
            SmartTurnError::NotOnnx { path } => {
                out = "SMART_TURN_MODEL must point to a .onnx file, got: ".to_string();
                out.append(path.as_str());
            },
            SmartTurnError::IsDirectory { path } => {
                out = "SMART_TURN_MODEL must point to a .onnx file, got a directory: ".to_string();
                out.append(path.as_str());
            },
            SmartTurnError::NoCandidate { dir } => {
                out =
                "SMART_TURN_MODEL points to a directory but no smart-turn*.onnx file was found: ".to_string();
                out.append(dir.as_str());
            },
            SmartTurnError::SeveralCandidates { paths } => {
                out =
                "SMART_TURN_MODEL points to a directory with multiple smart-turn*.onnx candidates. Please set SMART_TURN_MODEL to an explicit file path.".to_string();
                let ghost head = out@;
                let ghost all = spelled(paths@);
                let mut i: usize = 0;
                proof {
                    assert(head + path_lines(all.take(0)) =~= head);
                }
                while i < paths.len()
                    invariant
                        all == spelled(paths@),
                        i <= paths@.len(),
                        out@ == head + path_lines(all.take(i as int)),
                    decreases paths@.len() - i,
                {
                    proof {
                        assert(all.take(i + 1).drop_last() =~= all.take(i as int));
                        assert(all.take(i + 1).last() == paths@[i as int]@);
                    }
                    out.append("\n- ");
                    out.append(paths[i].as_str());
                    i += 1;
                    proof {
                        assert(out@ =~= head + path_lines(all.take(i as int)));
                    }
                }
                proof {
                    assert(all.take(i as int) =~= all);
                }
            },
            SmartTurnError::Missing { path } => {
                out = "SMART_TURN_MODEL not found: ".to_string();
                out.append(path.as_str());
            },
            SmartTurnError::NotAFile { path } => {
                out =
                "SMART_TURN_MODEL must point to a .onnx file (or a directory containing smart-turn*.onnx), got: ".to_string();
                out.append(path.as_str());
            },
            SmartTurnError::NoSampleRate => {
                out = "sample_rate must be > 0".to_string();
            },
            SmartTurnError::FormatChanged { from, to } => {
                out = "input audio format changed: ".to_string();
                append_number(&mut out, from.sample_rate as u64);
                out.append("Hz/");
                append_number(&mut out, from.channels as u64);
                out.append("ch -> ");
                append_number(&mut out, to.sample_rate as u64);
                out.append("Hz/");
                append_number(&mut out, to.channels as u64);
                out.append("ch");
            },
            SmartTurnError::Pcm(e) => {
                out = e.message();
            },
        }
        out
    }
}

/// Whether a lower-case name is that of a turn model.
pub open spec fn names_smart_turn(lower: Seq<char>) -> bool {
    holds_part(lower, "smart-turn"@) || holds_part(lower, "smart_turn"@)
}

/// Whether a lower-case name is that of a turn model.
pub fn is_smart_turn_name(lower: &str) -> (r: bool)
    ensures
        r == names_smart_turn(lower@),
{
    contains_text(lower, "smart-turn") || contains_text(lower, "smart_turn")
}

/// Whether an entry of a directory may be the turn model.
pub open spec fn is_candidate(style: PathStyle, dir: Seq<char>, entry: DirEntry) -> bool {
    entry.is_file && names_onnx(style, joined(style, dir, entry.name@)) && names_smart_turn(
        lowercased(entry.name@),
    )
}

/// The paths of the entries that may be the turn model.
pub open spec fn candidates_of(
    style: PathStyle,
    dir: Seq<char>,
    entries: Seq<DirEntry>,
) -> Seq<Seq<char>>
    decreases entries.len(),
{
    if entries.len() == 0 {
        Seq::empty()
    } else {
        let before = candidates_of(style, dir, entries.drop_last());
        if is_candidate(style, dir, entries.last()) {
            before.push(joined(style, dir, entries.last().name@))
        } else {
            before
        }
    }
}

/// The paths of the entries that may be the turn model.
fn collect_candidates(style: PathStyle, dir: &str, entries: &Vec<DirEntry>) -> (r: Vec<String>)
    ensures
        spelled(r@) == candidates_of(style, dir@, entries@),
{
    let mut out: Vec<String> = Vec::new();
    let mut i: usize = 0;
    proof {
        assert(entries@.take(0) =~= Seq::<DirEntry>::empty());
        assert(spelled(out@) =~= Seq::<Seq<char>>::empty());
    }
    while i < entries.len()
        invariant
            i <= entries@.len(),
            spelled(out@) == candidates_of(style, dir@, entries@.take(i as int)),
        decreases entries@.len() - i,
    {
        proof {
            assert(entries@.take(i + 1).drop_last() =~= entries@.take(i as int));
        }
        let path = join(style, dir, entries[i].name.as_str());
        let ghost had = out@;
        if entries[i].is_file && is_model_path(style, path.as_str()) && is_smart_turn_name(
            lowercase(entries[i].name.as_str()).as_str(),
        ) {
            out.push(path);
            proof {
                assert(spelled(out@) =~= spelled(had).push(path@));
            }
        }
        i += 1;
    }
    proof {
        assert(entries@.take(i as int) =~= entries@);
    }
    out
}

/// Whether `r` is what a path means, at which such a thing stands.
pub open spec fn resolved(
    r: Result<String, SmartTurnError>,
    style: PathStyle,
    model: Seq<char>,
    kind: PathKind,
    entries: Seq<DirEntry>,
) -> bool {
    let found = candidates_of(style, model, entries);
    match kind {
        PathKind::File => if names_onnx(style, model) {
            r matches Ok(path) && path@ == model
        } else {
            r matches Err(SmartTurnError::NotOnnx { path }) && path@ == model
        },
        PathKind::Directory => if found.len() == 0 {
            r matches Err(SmartTurnError::NoCandidate { dir }) && dir@ == model
        } else if found.len() == 1 {
            r matches Ok(path) && path@ == found[0]
        } else {
            r matches Err(SmartTurnError::SeveralCandidates { paths }) && in_order(
                spelled(paths@),
            ) && spelled(paths@).to_multiset() == found.to_multiset()
        },
        PathKind::Missing => r matches Err(SmartTurnError::Missing { path }) && path@ == model,
        PathKind::Other => r matches Err(SmartTurnError::NotAFile { path }) && path@ == model,
    }
}

/// Finds the turn model that a path means: the file itself, or the only candidate in the
/// directory, whose entries are given.
pub fn resolve_smart_turn_model_path(
    style: PathStyle,
    model: String,
    kind: PathKind,
    entries: &Vec<DirEntry>,
) -> (r: Result<String, SmartTurnError>)
    ensures
        resolved(r, style, model@, kind, entries@),
{
    match kind {
        PathKind::File => {
            if !is_model_path(style, model.as_str()) {
                return Err(SmartTurnError::NotOnnx { path: model });
            }
            Ok(model)
        },
        PathKind::Directory => {
            let candidates = collect_candidates(style, model.as_str(), entries);
            proof {
                assert(spelled(candidates@).len() == candidates@.len());
            }
            if candidates.len() == 0 {
                return Err(SmartTurnError::NoCandidate { dir: model });
            }
            if candidates.len() == 1 {
                proof {
                    assert(spelled(candidates@)[0] == candidates@[0]@);
                }
                return Ok(candidates[0].clone());
            }
            Err(SmartTurnError::SeveralCandidates { paths: sort_texts(&candidates) })
        },
        PathKind::Missing => Err(SmartTurnError::Missing { path: model }),
        PathKind::Other => Err(SmartTurnError::NotAFile { path: model }),
    }
}

/// The path under `SMART_TURN_MODEL`, if it is set.
pub fn model_setting(vars: &EnvVars) -> (r: Option<String>)
    ensures
        match env::text_var(vars@, "SMART_TURN_MODEL"@) {
            Some(path) => r matches Some(p) && p@ == path,
            None => r is None,
        },
{
    env::string(vars, "SMART_TURN_MODEL")
}

/// The turn model that `SMART_TURN_MODEL`, which must be set, means; given are what stands at
/// that path, and the entries of the directory where it is one.
pub fn model_path_from_env(
    style: PathStyle,
    vars: &EnvVars,
    kind: PathKind,
    entries: &Vec<DirEntry>,
) -> (r: Result<String, SmartTurnError>)
    ensures
        match env::text_var(vars@, "SMART_TURN_MODEL"@) {
            Some(path) => resolved(r, style, path, kind, entries@),
            None => r == Err::<String, _>(SmartTurnError::NotSet),
        },
{
    match model_setting(vars) {
        Some(path) => resolve_smart_turn_model_path(style, path, kind, entries),
        None => Err(SmartTurnError::NotSet),
    }
}

/// Checks the file of a model before it is loaded.
pub fn check_model_file(style: PathStyle, path: String, kind: PathKind) -> (r: Result<
    String,
    SmartTurnError,
>)
    ensures
        r == if kind == PathKind::Missing {
            Err(SmartTurnError::Missing { path })
        } else if kind == PathKind::Directory {
            Err(SmartTurnError::IsDirectory { path })
        } else if !names_onnx(style, path@) {
            Err(SmartTurnError::NotOnnx { path })
        } else {
            Ok(path)
        },
{
    if kind == PathKind::Missing {
        return Err(SmartTurnError::Missing { path });
    }
    if kind == PathKind::Directory {
        return Err(SmartTurnError::IsDirectory { path });
    }
    if !is_model_path(style, path.as_str()) {
        return Err(SmartTurnError::NotOnnx { path });
    }
    Ok(path)
}

/// Checks audio of a turn, and makes one channel of it. The first audio fixes the format.
pub fn plan_push(
    input_format: &mut Option<InputFormat>,
    pcm: &Vec<i16>,
    sample_rate: u32,
    channels: u16,
) -> (r: Result<WritePlan, SmartTurnError>)
    ensures
        ({
            let given = InputFormat { sample_rate, channels };
            if sample_rate == 0 {
                &&& r == Err::<WritePlan, _>(SmartTurnError::NoSampleRate)
                &&& *final(input_format) == *old(input_format)
            } else if channels == 0 {
                &&& r == Err::<WritePlan, _>(SmartTurnError::Pcm(PcmError::NoChannels))
                &&& *final(input_format) == *old(input_format)
            } else {
                let fixed = match *old(input_format) {
                    Some(f) => f,
                    None => given,
                };
                &&& *final(input_format) == Some(fixed)
                &&& if fixed != given {
                    r == Err::<WritePlan, _>(
                        SmartTurnError::FormatChanged { from: fixed, to: given },
                    )
                } else if channels > 2 {
                    r == Err::<WritePlan, _>(
                        SmartTurnError::Pcm(PcmError::UnsupportedChannels { channels }),
                    )
                } else {
                    r matches Ok(plan) && plan.resample == (sample_rate != 16_000)
                        && plan.mono@.map_values(|v: i32| v as int) == mono_of(
                        pcm@,
                        channels as nat,
                    )
                }
            }
        }),
{
    if sample_rate == 0 {
        return Err(SmartTurnError::NoSampleRate);
    }
    if channels == 0 {
        return Err(SmartTurnError::Pcm(PcmError::NoChannels));
    }
    let given = InputFormat { sample_rate, channels };
    let fixed = match *input_format {
        Some(f) => f,
        None => given,
    };
    *input_format = Some(fixed);
    if fixed.sample_rate != sample_rate || fixed.channels != channels {
        return Err(SmartTurnError::FormatChanged { from: fixed, to: given });
    }
    match pcm_i16_to_mono(pcm, channels) {
        Ok(mono) => Ok(WritePlan { mono, resample: sample_rate != SMART_TURN_SAMPLE_RATE }),
        Err(e) => Err(SmartTurnError::Pcm(e)),
    }
}

/// The last items are the end of the list: all of them where they fit, else as many as fit.
pub proof fn law_last_items<T>(s: Seq<T>, n: nat, i: int)
    ensures
        s.len() <= n ==> last_n(s, n) == s,
        s.len() > n ==> last_n(s, n).len() == n,
        s.len() > n && 0 <= i < n ==> last_n(s, n)[i] == s[s.len() - n + i],
{
}

/// An extension stands behind the last dot, and something stands before that dot.
pub proof fn law_extension_of_a_name(stem: Seq<char>, ext: Seq<char>, name: Seq<char>)
    requires
        !ext.contains('.'),
        !name.contains('.'),
    ensures
        stem.len() > 0 ==> extension(stem + seq!['.'] + ext) == Some(ext),
        extension(seq!['.'] + ext) is None,
        extension(name) is None,
{
    lemma_behind_the_last(stem, ext);
    lemma_behind_the_last(Seq::empty(), ext);
    assert(Seq::<char>::empty() + seq!['.'] + ext =~= seq!['.'] + ext);
    crate::text::law_after_the_last(name, '.');
    if after_last(name, '.').len() < name.len() {
        assert(name.contains(name[name.len() - after_last(name, '.').len() - 1]));
    }
}

/// What holds no dot behind one is what follows the last dot.
proof fn lemma_behind_the_last(stem: Seq<char>, ext: Seq<char>)
    requires
        !ext.contains('.'),
    ensures
        after_last(stem + seq!['.'] + ext, '.') == ext,
    decreases ext.len(),
{
    let all = stem + seq!['.'] + ext;
    if ext.len() == 0 {
        assert(all.last() == '.');
        assert(after_last(all, '.') =~= ext);
    } else {
        let head = ext.drop_last();
        assert(ext.contains(ext.last()));
        assert forall|i: int| 0 <= i < head.len() implies head[i] != '.' by {
            assert(ext.contains(ext[i]));
        }
        lemma_behind_the_last(stem, head);
        assert(all.drop_last() =~= stem + seq!['.'] + head);
        assert(all.last() == ext.last());
        assert(head.push(ext.last()) =~= ext);
    }
}

/// A path is that of a model exactly where it has a name whose extension is `onnx`, whatever the
/// case.
pub proof fn law_paths_of_models(style: PathStyle, path: Seq<char>)
    ensures
        names_onnx(style, path) <==> file_name(style, path) is Some && extension(
            file_name(style, path)->0,
        ) is Some && ascii_lowercased(extension(file_name(style, path)->0)->0) == seq![
            'o',
            'n',
            'n',
            'x',
        ],
{
    reveal_strlit("onnx");
    assert("onnx"@ =~= seq!['o', 'n', 'n', 'x']);
}

/// A file of a turn model has one of two words in its name.
pub proof fn law_names_of_turn_models(before: Seq<char>, behind: Seq<char>, lower: Seq<char>)
    ensures
        names_smart_turn(before + "smart-turn"@ + behind),
        names_smart_turn(before + "smart_turn"@ + behind),
        names_smart_turn(lower) ==> holds_part(lower, "smart-turn"@) || holds_part(
            lower,
            "smart_turn"@,
        ),
{
    let a = before + "smart-turn"@ + behind;
    let b = before + "smart_turn"@ + behind;
    let n = before.len() as int;
    assert(a.subrange(n, n + "smart-turn"@.len()) =~= "smart-turn"@);
    assert(b.subrange(n, n + "smart_turn"@.len()) =~= "smart_turn"@);
}

/// One entry more is one candidate more where it is a file, its path is that of a model and its
/// name that of a turn model; any other changes nothing.
pub proof fn law_candidates_in_a_directory(
    style: PathStyle,
    dir: Seq<char>,
    entries: Seq<DirEntry>,
    entry: DirEntry,
)
    ensures
        candidates_of(style, dir, Seq::empty()).len() == 0,
        ({
            let path = joined(style, dir, entry.name@);
            let before = candidates_of(style, dir, entries);
            let after = candidates_of(style, dir, entries.push(entry));
            let taken = entry.is_file && names_onnx(style, path) && names_smart_turn(
                lowercased(entry.name@),
            );
            &&& taken ==> after == before.push(path)
            &&& !taken ==> after == before
        }),
{
    assert(entries.push(entry).drop_last() =~= entries);
}

/// A model is found exactly where the path is that of a model file, or a directory with exactly
/// one candidate in it; else the error says why.
pub proof fn law_turn_model_is_found(
    r: Result<String, SmartTurnError>,
    style: PathStyle,
    model: Seq<char>,
    kind: PathKind,
    entries: Seq<DirEntry>,
)
    requires
        resolved(r, style, model, kind, entries),
    ensures
        ({
            let n = candidates_of(style, model, entries).len();
            &&& r is Ok <==> (kind == PathKind::File && names_onnx(style, model)) || (kind
                == PathKind::Directory && n == 1)
            &&& r matches Ok(path) ==> (kind == PathKind::File ==> path@ == model) && (kind
                == PathKind::Directory ==> path@ == candidates_of(style, model, entries)[0])
            &&& (r matches Err(SmartTurnError::NotOnnx { .. })) <==> kind == PathKind::File
                && !names_onnx(style, model)
            &&& (r matches Err(SmartTurnError::NoCandidate { .. })) <==> kind == PathKind::Directory
                && n == 0
            &&& (r matches Err(SmartTurnError::SeveralCandidates { .. })) <==> kind
                == PathKind::Directory && n > 1
            &&& (r matches Err(SmartTurnError::Missing { .. })) <==> kind == PathKind::Missing
            &&& (r matches Err(SmartTurnError::NotAFile { .. })) <==> kind == PathKind::Other
        }),
{
}

/// A path more is a line more.
pub proof fn law_lines_of_paths(paths: Seq<Seq<char>>, path: Seq<char>)
    ensures
        path_lines(Seq::empty()).len() == 0,
        path_lines(paths.push(path)) == path_lines(paths) + seq!['\n', '-', ' '] + path,
{
    reveal_strlit("\n- ");
    assert("\n- "@ =~= seq!['\n', '-', ' ']);
    assert(paths.push(path).drop_last() =~= paths);
}

/// The model listens to the last eight seconds, at 16 kHz.
pub proof fn law_what_the_model_listens_to()
    ensures
        WINDOW_SECONDS * SMART_TURN_SAMPLE_RATE == 128_000,
        SMART_TURN_SAMPLE_RATE == 16_000,
{
}

/// What is wrong with the turn model is said in these words.
pub proof fn law_turn_model_errors_in_words(text: String)
    ensures
        SmartTurnError::NotSet.spec_message()
            == "SMART_TURN_MODEL is required (path to smart-turn-v3*.onnx, or a directory containing it)"@,
        (SmartTurnError::NotOnnx { path: text }).spec_message()
            == "SMART_TURN_MODEL must point to a .onnx file, got: "@ + text@,
        (SmartTurnError::IsDirectory { path: text }).spec_message()
            == "SMART_TURN_MODEL must point to a .onnx file, got a directory: "@ + text@,
        (SmartTurnError::NoCandidate { dir: text }).spec_message()
            == "SMART_TURN_MODEL points to a directory but no smart-turn*.onnx file was found: "@
            + text@,
        (SmartTurnError::Missing { path: text }).spec_message() == "SMART_TURN_MODEL not found: "@
            + text@,
        (SmartTurnError::NotAFile { path: text }).spec_message()
            == "SMART_TURN_MODEL must point to a .onnx file (or a directory containing smart-turn*.onnx), got: "@
            + text@,
{
}

/// Several candidates are all told, a line for each, behind the same words.
pub proof fn law_several_candidates_in_words(paths: Vec<String>)
    ensures
        (SmartTurnError::SeveralCandidates { paths }).spec_message()
            == "SMART_TURN_MODEL points to a directory with multiple smart-turn*.onnx candidates. Please set SMART_TURN_MODEL to an explicit file path."@
            + path_lines(spelled(paths@)),
{
}

/// The file of a model is one that is there, is no directory and has the name of a model.
pub proof fn law_model_file_that_is_loaded(
    style: PathStyle,
    path: String,
    kind: PathKind,
    r: Result<String, SmartTurnError>,
)
    requires
        call_ensures(check_model_file, (style, path, kind), r),
    ensures
        r is Ok <==> (kind == PathKind::File || kind == PathKind::Other) && names_onnx(style, path@),
        r matches Ok(p) ==> p == path,
        (r matches Err(SmartTurnError::Missing { .. })) <==> kind == PathKind::Missing,
        (r matches Err(SmartTurnError::IsDirectory { .. })) <==> kind == PathKind::Directory,
{
}

/// The first audio fixes the format, and no other format is taken after it; audio without a rate
/// or a channel fixes nothing.
pub proof fn law_format_of_a_turn()
    ensures
        forall|
            f: &mut Option<InputFormat>,
            pcm: &Vec<i16>,
            rate: u32,
            channels: u16,
            r: Result<WritePlan, SmartTurnError>,
        |
            #[trigger] call_ensures(plan_push, (f, pcm, rate, channels), r) ==> {
                let given = InputFormat { sample_rate: rate, channels };
                &&& rate == 0 || channels == 0 ==> r is Err && *final(f) == *f
                &&& rate > 0 && channels > 0 && *f is None ==> *final(f) == Some(given)
                &&& *f is Some ==> *final(f) == *f
                &&& r is Ok <==> rate > 0 && 1 <= channels <= 2 && (*f is None || *f == Some(given))
                &&& r matches Ok(plan) ==> (plan.resample <==> rate != 16_000)
            },
{
}

/// A window keeps the last samples that came, as many as fit; a picture of it is as long as the
/// window, with the samples at its end.
pub proof fn law_window_keeps_the_last(buffer: &TurnAudioBuffer<i64>, zero: i64, r: Vec<i64>, i: int)
    requires
        call_ensures(TurnAudioBuffer::<i64>::snapshot_right_padded, (buffer, zero), r),
        buffer@.samples.len() <= buffer@.size,
    ensures
        r@.len() == buffer@.size,
        ({
            let pad = buffer@.size - buffer@.samples.len();
            &&& 0 <= i < pad ==> r@[i] == zero
            &&& pad <= i < buffer@.size ==> r@[i] == buffer@.samples[i - pad]
        }),
        forall|b: &mut TurnAudioBuffer<i64>, samples: &Vec<i64>, u: ()|
            #[trigger] call_ensures(TurnAudioBuffer::<i64>::push, (b, samples), u) && (
            *b)@.samples.len() <= (*b)@.size ==> {
                let all = (*b)@.samples + samples@;
                let kept = (*final(b))@.samples;
                &&& (*final(b))@.size == (*b)@.size
                &&& kept.len() <= (*b)@.size
                &&& all.len() <= (*b)@.size ==> kept == all
                &&& all.len() > (*b)@.size ==> kept == all.skip(all.len() - (*b)@.size)
            },
{
    assert forall|b: &mut TurnAudioBuffer<i64>, samples: &Vec<i64>, u: ()|
        #[trigger] call_ensures(TurnAudioBuffer::<i64>::push, (b, samples), u) && (
        *b)@.samples.len() <= (*b)@.size implies {
        let all = (*b)@.samples + samples@;
        let kept = (*final(b))@.samples;
        &&& (*final(b))@.size == (*b)@.size
        &&& kept.len() <= (*b)@.size
        &&& all.len() <= (*b)@.size ==> kept == all
        &&& all.len() > (*b)@.size ==> kept == all.skip(all.len() - (*b)@.size)
    } by {
        if samples@.len() == 0 {
            assert((*b)@.samples + samples@ =~= (*b)@.samples);
        }
    }
}

} // verus!
