//! Splitting a stream of text deltas into segments for speech.

use crate::internal::env::{self, EnvVars};
use crate::metrics::{MetricEvent, MetricEventKind};
use crate::text::{
    byte_len, char_width, chars_of, drop_leading, lemma_byte_len_push, lemma_byte_len_split,
    split_at_byte, trim, trimmed, without_leading, bytes_before,
};
use crate::number::{append_number, decimal};
use crate::time::Timestamp;
use vstd::prelude::*;
use vstd::string::*;
use vstd::utf8::*;

verus! {

/// The largest threshold that the environment can set, in characters.
pub const THRESHOLD_MAX_CHARS: usize = 400;

/// When a piece of text is long enough to be spoken, in characters.
#[derive(Debug, Clone, Copy, PartialEq, Eq, Structural)]
pub struct FlushThresholds {
    /// No piece is shorter.
    pub min_chars: usize,
    /// From here on a piece need not end where the text ends.
    pub soft_max: usize,
    /// No piece is longer.
    pub hard_max: usize,
}

/// The thresholds of the first pieces.
pub fn eager_default() -> (r: FlushThresholds)
    ensures
        r == (FlushThresholds { min_chars: 2, soft_max: 6, hard_max: 12 }),
{
    FlushThresholds { min_chars: 2, soft_max: 6, hard_max: 12 }
}

/// The thresholds in normal operation.
pub fn normal_default() -> (r: FlushThresholds)
    ensures
        r == (FlushThresholds { min_chars: 10, soft_max: 20, hard_max: 40 }),
{
    FlushThresholds { min_chars: 10, soft_max: 20, hard_max: 40 }
}

/// The thresholds while enough audio is buffered.
pub fn relax_default() -> (r: FlushThresholds)
    ensures
        r == (FlushThresholds { min_chars: 20, soft_max: 35, hard_max: 80 }),
{
    FlushThresholds { min_chars: 20, soft_max: 35, hard_max: 80 }
}

impl FlushThresholds {
    /// Whether the thresholds are positive and in order.
    pub open spec fn ordered(self) -> bool {
        1 <= self.min_chars <= self.soft_max <= self.hard_max
    }

    /// The thresholds set under `prefix`, each in `1..=400` and none below the one before it.
    pub fn from_env(vars: &EnvVars, prefix: &str, defaults: FlushThresholds) -> (r: Self)
        ensures
            (r.min_chars as nat, r.soft_max as nat, r.hard_max as nat) == env::triplet_setting(
                vars@,
                prefix@,
                defaults.min_chars as nat,
                defaults.soft_max as nat,
                defaults.hard_max as nat,
                THRESHOLD_MAX_CHARS as nat,
            ),
            r.ordered(),
            r.hard_max <= THRESHOLD_MAX_CHARS,
    {
        let (min_chars, soft_max, hard_max) = env::usize_threshold_triplet(
            vars,
            prefix,
            defaults.min_chars,
            defaults.soft_max,
            defaults.hard_max,
            THRESHOLD_MAX_CHARS,
        );
        FlushThresholds { min_chars, soft_max, hard_max }
    }
}

/// The thresholds of a tokenizer.
#[derive(Debug, Clone, Copy, PartialEq, Eq, Structural)]
pub struct FlushLevels {
    /// Those of the first pieces.
    pub eager: FlushThresholds,
    /// Those in normal operation.
    pub normal: FlushThresholds,
    /// Those while enough audio is buffered.
    pub relax: FlushThresholds,
}

impl Default for FlushLevels {
    fn default() -> (r: Self)
        ensures
            r == Self::defaults(),
    {
        FlushLevels { eager: eager_default(), normal: normal_default(), relax: relax_default() }
    }
}

impl FlushLevels {
    /// The thresholds that nothing else sets.
    pub open spec fn defaults() -> Self {
        FlushLevels {
            eager: FlushThresholds { min_chars: 2, soft_max: 6, hard_max: 12 },
            normal: FlushThresholds { min_chars: 10, soft_max: 20, hard_max: 40 },
            relax: FlushThresholds { min_chars: 20, soft_max: 35, hard_max: 80 },
        }
    }

    /// The thresholds that the environment sets.
    pub open spec fn env_levels(vars: Map<Seq<char>, Seq<char>>) -> Self {
        FlushLevels {
            eager: thresholds_setting(vars, "TOKENIZER_EAGER"@, 2, 6, 12),
            normal: thresholds_setting(vars, "TOKENIZER_NORMAL"@, 10, 20, 40),
            relax: thresholds_setting(vars, "TOKENIZER_RELAX"@, 20, 35, 80),
        }
    }

    /// Reads the thresholds from the environment.
    pub fn from_env(vars: &EnvVars) -> (r: Self)
        ensures
            r == Self::env_levels(vars@),
            r.eager.ordered(),
            r.normal.ordered(),
            r.relax.ordered(),
    {
        FlushLevels {
            eager: FlushThresholds::from_env(vars, "TOKENIZER_EAGER", eager_default()),
            normal: FlushThresholds::from_env(vars, "TOKENIZER_NORMAL", normal_default()),
            relax: FlushThresholds::from_env(vars, "TOKENIZER_RELAX", relax_default()),
        }
    }
}

/// A piece of text sent to the TTS pipeline, with its times.
#[derive(Debug)]
pub struct TextSegment {
    /// The turn it belongs to; 0 where it is bound to none.
    pub turn_id: u64,
    /// The text of the piece.
    pub text: String,
    /// When the LLM request started, or the session where that was not marked.
    pub llm_start_ts: Timestamp,
    /// When the first LLM token came; on the first piece only.
    pub first_token_ts: Option<Timestamp>,
    /// When the last LLM token before this piece came.
    pub last_token_ts: Option<Timestamp>,
    /// When the piece was sent to the pipeline.
    pub segment_sent_ts: Timestamp,
}

/// The former name of `TextSegment`.
pub type Segment = TextSegment;

/// A message of the LLM stream.
#[derive(Debug)]
pub enum DeltaMsg {
    Delta(String),
    Eof,
}

/// The characters after which a piece may end.
pub open spec fn is_boundary(c: char) -> bool {
    ||| c == '。'
    ||| c == '！'
    ||| c == '？'
    ||| c == '!'
    ||| c == '?'
    ||| c == '\n'
    ||| c == '，'
    ||| c == ','
    ||| c == '；'
    ||| c == ';'
    ||| c == '：'
    ||| c == ':'
}

/// Whether a piece may end after `c`.
pub fn is_boundary_char(c: char) -> (r: bool)
    ensures
        r == is_boundary(c),
{
    c == '。' || c == '！' || c == '？' || c == '!' || c == '?' || c == '\n' || c == '，' || c == ','
        || c == '；' || c == ';' || c == '：' || c == ':'
}

/// How many characters stand up to and with the last boundary of `s`; 0 without a boundary.
pub open spec fn last_boundary(s: Seq<char>) -> nat
    decreases s.len(),
{
    if s.len() == 0 {
        0
    } else if is_boundary(s.last()) {
        s.len()
    } else {
        last_boundary(s.drop_last())
    }
}

/// A place after a boundary character.
#[derive(Debug, Clone, Copy, PartialEq, Eq, Structural)]
pub struct BoundaryHit {
    /// How many bytes stand before the place.
    pub byte_idx: usize,
    /// How many characters stand before the place.
    pub char_count: usize,
}

/// What one pass over a text finds.
#[derive(Debug, Clone, Copy, PartialEq, Eq, Structural)]
pub struct BoundaryScan {
    /// How many characters there are.
    pub total_chars: usize,
    /// Whether the last of them is a boundary.
    pub ends_with_boundary: bool,
    /// The last boundary.
    pub last_boundary: Option<BoundaryHit>,
    /// The last boundary within the first `hard_max` characters, where there are so many.
    pub last_boundary_before_hard_max: Option<BoundaryHit>,
    /// How many bytes the first `hard_max` characters have, where there are so many.
    pub hard_cut: Option<usize>,
}

/// Whether `hit` is the place `chars` characters into `s`, none standing for 0.
pub open spec fn hit_at(hit: Option<BoundaryHit>, s: Seq<char>, chars: nat) -> bool {
    match hit {
        Some(h) => chars > 0 && h.char_count == chars && h.byte_idx == byte_len(
            s.take(chars as int),
        ),
        None => chars == 0,
    }
}

/// The last boundary lies within the text.
pub proof fn lemma_last_boundary_bound(s: Seq<char>)
    ensures
        last_boundary(s) <= s.len(),
        last_boundary(s) > 0 ==> is_boundary(s[last_boundary(s) - 1]),
        forall|i: int| last_boundary(s) <= i < s.len() ==> !is_boundary(#[trigger] s[i]),
    decreases s.len(),
{
    if s.len() > 0 && !is_boundary(s.last()) {
        lemma_last_boundary_bound(s.drop_last());
        assert forall|i: int| last_boundary(s) <= i < s.len() implies !is_boundary(
            #[trigger] s[i],
        ) by {
            if i < s.len() - 1 {
                assert(s.drop_last()[i] == s[i]);
            }
        }
    }
}

/// Finds the boundaries of a text, and where its first `hard_max` characters end.
pub fn scan_boundaries(s: &str, hard_max: usize) -> (r: BoundaryScan)
    ensures
        r.total_chars == s@.len(),
        r.ends_with_boundary == (s@.len() > 0 && is_boundary(s@.last())),
        hit_at(r.last_boundary, s@, last_boundary(s@)),
        hard_max > 0 && s@.len() >= hard_max ==> hit_at(
            r.last_boundary_before_hard_max,
            s@,
            last_boundary(s@.take(hard_max as int)),
        ) && r.hard_cut == Some(byte_len(s@.take(hard_max as int)) as usize)
            && byte_len(s@.take(hard_max as int)) <= usize::MAX,
        hard_max == 0 || s@.len() < hard_max ==> r.last_boundary_before_hard_max is None
            && r.hard_cut is None,
{
    let bytes: usize = s.as_bytes().len();
    let chars = chars_of(s);
    let mut i: usize = 0;
    let mut next: usize = 0;
    let mut last: Option<BoundaryHit> = None;
    let mut last_before: Option<BoundaryHit> = None;
    let mut hard_cut: Option<usize> = None;
    proof {
        assert(s@.take(0) =~= Seq::<char>::empty());
    }
    while i < chars.len()
        invariant
            chars@ == s@,
            i <= chars@.len(),
            bytes == byte_len(s@),
            next == byte_len(s@.take(i as int)),
            hit_at(last, s@, last_boundary(s@.take(i as int))),
            hard_max > 0 && i >= hard_max ==> hit_at(
                last_before,
                s@,
                last_boundary(s@.take(hard_max as int)),
            ) && hard_cut == Some(byte_len(s@.take(hard_max as int)) as usize) && byte_len(
                s@.take(hard_max as int),
            ) <= usize::MAX,
            hard_max == 0 || i < hard_max ==> last_before is None && hard_cut is None,
        decreases chars@.len() - i,
    {
        let c = chars[i];
        proof {
            lemma_byte_len_split(s@, i + 1);
            assert(s@.take(i + 1) =~= s@.take(i as int).push(c));
            lemma_byte_len_push(s@.take(i as int), c);
            assert(s@.take(i + 1).drop_last() =~= s@.take(i as int));
        }
        i += 1;
        next += char_width(c);
        if is_boundary_char(c) {
            last = Some(BoundaryHit { byte_idx: next, char_count: i });
        }
        if hard_max > 0 && i == hard_max {
            hard_cut = Some(next);
            last_before = last;
        }
    }
    proof {
        assert(s@.take(i as int) =~= s@);
        lemma_last_boundary_bound(s@);
    }
    let ends_with_boundary = match last {
        Some(hit) => hit.char_count == i,
        None => false,
    };
    BoundaryScan {
        total_chars: i,
        ends_with_boundary,
        last_boundary: last,
        last_boundary_before_hard_max: last_before,
        hard_cut,
    }
}

/// `a - b`, but not below 0.
pub open spec fn minus(a: nat, b: nat) -> nat {
    if a < b {
        0
    } else {
        (a - b) as nat
    }
}

/// How far before its end a piece may be cut at a boundary.
pub open spec fn window(t: FlushThresholds) -> nat {
    if minus(t.hard_max as nat, t.soft_max as nat) > t.min_chars {
        minus(t.hard_max as nat, t.soft_max as nat)
    } else {
        t.min_chars as nat
    }
}

/// The boundary at `cut`, if it lies neither before `min_chars` nor before `from`.
pub open spec fn usable(cut: nat, min_chars: nat, from: nat) -> Option<nat> {
    if cut > 0 && cut >= min_chars && cut >= from {
        Some(cut)
    } else {
        None
    }
}

/// After how many characters `s` is to be cut now, if it is.
///
/// Below `min_chars` never. Below `soft_max` only where the text ends with a boundary. Below
/// `hard_max` after the last boundary, if it lies in the window at the end of the text. From
/// `hard_max` on after the last boundary in the window before `hard_max`, else at `hard_max`.
pub open spec fn flush_cut(s: Seq<char>, t: FlushThresholds) -> Option<nat> {
    let count = s.len();
    if count < t.min_chars {
        None
    } else if count < t.soft_max {
        if count > 0 && is_boundary(s.last()) {
            Some(count)
        } else {
            None
        }
    } else if count < t.hard_max {
        usable(last_boundary(s), t.min_chars as nat, minus(count, window(t)))
    } else if t.hard_max == 0 {
        None
    } else {
        match usable(
            last_boundary(s.take(t.hard_max as int)),
            t.min_chars as nat,
            minus(t.hard_max as nat, window(t)),
        ) {
            Some(cut) => Some(cut),
            None => Some(t.hard_max as nat),
        }
    }
}

/// The hit, if it lies neither before `min_chars` nor before `from`.
fn usable_hit(hit: Option<BoundaryHit>, min_chars: usize, from: usize) -> (r: Option<BoundaryHit>)
    ensures
        r == match hit {
            Some(h) if h.char_count >= min_chars && h.char_count >= from => Some(h),
            _ => None,
        },
{
    match hit {
        Some(h) => if h.char_count >= min_chars && h.char_count >= from {
            Some(h)
        } else {
            None
        },
        None => None,
    }
}

/// After how many bytes a text is to be cut now, if it is.
pub fn find_flush_index(s: &str, min_chars: usize, soft_max: usize, hard_max: usize) -> (r: Option<
    usize,
>)
    ensures
        match flush_cut(s@, (FlushThresholds { min_chars, soft_max, hard_max })) {
            Some(cut) => r == Some(byte_len(s@.take(cut as int)) as usize) && byte_len(
                s@.take(cut as int),
            ) <= usize::MAX,
            None => r is None,
        },
        r is Some ==> s@.len() >= min_chars,
        0 < hard_max <= s@.len() && soft_max <= s@.len() && min_chars <= s@.len() ==> r is Some,
        forall|n: int|
            #![trigger ends_at(s@, n)]
            0 < hard_max <= s@.len() && soft_max <= s@.len() && min_chars <= n <= hard_max && (n
                >= hard_max - min_chars || n >= soft_max) && ends_at(s@, n) ==> exists|cut: int|
                #![trigger ends_at(s@, cut)]
                n <= cut <= hard_max && ends_at(s@, cut) && r == Some(
                    byte_len(s@.take(cut)) as usize,
                ),
{
    proof {
        let t = FlushThresholds { min_chars, soft_max, hard_max };
        assert forall|n: int|
            0 < hard_max <= s@.len() && soft_max <= s@.len() && min_chars <= n <= hard_max && (n
                >= hard_max - min_chars || n >= soft_max) && #[trigger] ends_at(
                s@,
                n,
            ) implies (flush_cut(s@, t) matches Some(cut) && n <= cut <= hard_max && ends_at(
            s@,
            cut as int,
        )) by {
            law_long_text_is_cut_at_the_last_boundary(s@, t, n);
        }
    }
    let scan = scan_boundaries(s, hard_max);
    let count: usize = scan.total_chars;
    if count < min_chars {
        return None;
    }
    if count < soft_max {
        let bytes: usize = s.as_bytes().len();
        proof {
            assert(s@.take(count as int) =~= s@);
        }
        return if scan.ends_with_boundary {
            Some(bytes)
        } else {
            None
        };
    }
    let spread: usize = hard_max.saturating_sub(soft_max);
    let window_chars: usize = if spread > min_chars {
        spread
    } else {
        min_chars
    };
    if count < hard_max {
        let window_start: usize = count.saturating_sub(window_chars);
        return match usable_hit(scan.last_boundary, min_chars, window_start) {
            Some(hit) => Some(hit.byte_idx),
            None => None,
        };
    }
    let window_start: usize = hard_max.saturating_sub(window_chars);
    proof {
        if hard_max > 0 {
            lemma_last_boundary_bound(s@.take(hard_max as int));
        }
    }
    match usable_hit(scan.last_boundary_before_hard_max, min_chars, window_start) {
        Some(hit) => Some(hit.byte_idx),
        None => scan.hard_cut,
    }
}

impl View for TextSegment {
    type V = SegmentView;

    open spec fn view(&self) -> SegmentView {
        SegmentView {
            turn_id: self.turn_id,
            text: self.text@,
            llm_start_ts: self.llm_start_ts,
            first_token_ts: self.first_token_ts,
            last_token_ts: self.last_token_ts,
            segment_sent_ts: self.segment_sent_ts,
        }
    }
}

/// A `TextSegment` with its text as characters.
pub struct SegmentView {
    pub turn_id: u64,
    pub text: Seq<char>,
    pub llm_start_ts: Timestamp,
    pub first_token_ts: Option<Timestamp>,
    pub last_token_ts: Option<Timestamp>,
    pub segment_sent_ts: Timestamp,
}

impl Clone for TextSegment {
    fn clone(&self) -> (r: Self)
        ensures
            r@ == self@,
    {
        TextSegment {
            turn_id: self.turn_id,
            text: self.text.clone(),
            llm_start_ts: self.llm_start_ts,
            first_token_ts: self.first_token_ts,
            last_token_ts: self.last_token_ts,
            segment_sent_ts: self.segment_sent_ts,
        }
    }
}

/// The segment in an option, as its view.
pub open spec fn segment_view(segment: Option<TextSegment>) -> Option<SegmentView> {
    match segment {
        Some(s) => Some(s@),
        None => None,
    }
}

/// The segment that a piece of text becomes: none where it is blank; byte order marks at its
/// start are dropped.
pub open spec fn segment_of(
    piece: Seq<char>,
    first: bool,
    first_delta_ts: Option<Timestamp>,
    last_delta_ts: Option<Timestamp>,
    llm_start: Option<Timestamp>,
    session_start_ts: Timestamp,
    turn_id: u64,
    now: Timestamp,
) -> Option<SegmentView> {
    if trimmed(piece).len() == 0 {
        None
    } else {
        Some(
            SegmentView {
                turn_id,
                text: without_leading(piece, '\u{feff}'),
                llm_start_ts: match llm_start {
                    Some(ts) => ts,
                    None => session_start_ts,
                },
                first_token_ts: if first {
                    first_delta_ts
                } else {
                    None
                },
                last_token_ts: last_delta_ts,
                segment_sent_ts: now,
            },
        )
    }
}

/// Makes a segment of a piece of text, if it is not blank.
pub fn build_text_segment(
    text: String,
    first: &mut bool,
    first_delta_ts: Option<Timestamp>,
    last_delta_ts: Option<Timestamp>,
    llm_start: Option<Timestamp>,
    session_start_ts: Timestamp,
    turn_id: u64,
    now: Timestamp,
) -> (r: Option<TextSegment>)
    ensures
        segment_view(r) == segment_of(
            text@,
            *old(first),
            first_delta_ts,
            last_delta_ts,
            llm_start,
            session_start_ts,
            turn_id,
            now,
        ),
        *final(first) == (*old(first) && r is None),
{
    if trim(text.as_str()).as_str().is_empty() {
        return None;
    }
    let text = drop_leading(text.as_str(), '\u{feff}');
    let llm_start_ts = match llm_start {
        Some(ts) => ts,
        None => session_start_ts,
    };
    let first_token_ts = if *first {
        first_delta_ts
    } else {
        None
    };
    *first = false;
    Some(
        TextSegment {
            turn_id,
            text,
            llm_start_ts,
            first_token_ts,
            last_token_ts: last_delta_ts,
            segment_sent_ts: now,
        },
    )
}

/// Tokenizer tuning parameters.
#[derive(Debug, Clone, Copy, PartialEq, Eq, Structural)]
pub struct TokenizerConfig {
    /// How many first pieces use the eager thresholds.
    pub eager_chunks: usize,
    /// From how much buffered audio on the relaxed thresholds are used; 0 for never.
    pub relax_buffer_ms: u64,
    /// Whether changes between the normal and the relaxed thresholds are logged.
    pub relax_log: bool,
}

impl Default for TokenizerConfig {
    fn default() -> (r: Self)
        ensures
            r == (TokenizerConfig { eager_chunks: 1, relax_buffer_ms: 200, relax_log: false }),
    {
        TokenizerConfig { eager_chunks: 1, relax_buffer_ms: 200, relax_log: false }
    }
}

impl TokenizerConfig {
    /// The configuration with its numbers brought into their ranges.
    pub open spec fn normalized(self) -> Self {
        TokenizerConfig {
            eager_chunks: if self.eager_chunks > 32 {
                32
            } else {
                self.eager_chunks
            },
            relax_buffer_ms: if self.relax_buffer_ms > 60_000 {
                60_000
            } else {
                self.relax_buffer_ms
            },
            relax_log: self.relax_log,
        }
    }

    /// The configuration that the environment sets.
    pub open spec fn env_config(vars: Map<Seq<char>, Seq<char>>) -> Self {
        TokenizerConfig {
            eager_chunks: match (
                env::unsigned_var(vars, "TOKENIZER_EAGER_CHUNKS"@, usize::MAX as nat),
                env::unsigned_var(vars, "CHUNKER_EAGER_CHUNKS"@, usize::MAX as nat),
            ) {
                (Some(n), _) => n as usize,
                (None, Some(n)) => n as usize,
                (None, None) => 1,
            },
            relax_buffer_ms: match env::unsigned_var(
                vars,
                "TOKENIZER_RELAX_BUFFER_MS"@,
                u64::MAX as nat,
            ) {
                Some(ms) => ms as u64,
                None => 200,
            },
            relax_log: env::switch_setting(vars, "TOKENIZER_RELAX_LOG"@, false),
        }.normalized()
    }

    /// Reads the configuration from the environment.
    pub fn from_env(vars: &EnvVars) -> (r: Self)
        ensures
            r == Self::env_config(vars@),
    {
        let mut cfg = TokenizerConfig::default();
        match env::get_usize(vars, "TOKENIZER_EAGER_CHUNKS") {
            Some(parsed) => {
                cfg.eager_chunks = parsed;
            },
            None => {
                if let Some(parsed) = env::get_usize(vars, "CHUNKER_EAGER_CHUNKS") {
                    cfg.eager_chunks = parsed;
                }
            },
        }
        if let Some(parsed) = env::get_u64(vars, "TOKENIZER_RELAX_BUFFER_MS") {
            cfg.relax_buffer_ms = parsed;
        }
        cfg.relax_log = env::bool01(vars, "TOKENIZER_RELAX_LOG", cfg.relax_log);
        cfg.normalize()
    }

    /// Brings the numbers into their ranges: at most 32 eager pieces, at most a minute.
    pub fn normalize(self) -> (r: Self)
        ensures
            r == self.normalized(),
    {
        TokenizerConfig {
            eager_chunks: if self.eager_chunks > 32 {
                32
            } else {
                self.eager_chunks
            },
            relax_buffer_ms: if self.relax_buffer_ms > 60_000 {
                60_000
            } else {
                self.relax_buffer_ms
            },
            relax_log: self.relax_log,
        }
    }
}

/// A change between the normal and the relaxed thresholds.
#[derive(Debug, Clone, Copy, PartialEq, Eq, Structural)]
pub enum RelaxTransition {
    On { buffered_ms: u64, thresholds: FlushThresholds },
    Off { buffered_ms: u64 },
}

impl RelaxTransition {
    /// The line to log.
    pub open spec fn spec_message(self) -> Seq<char> {
        match self {
            RelaxTransition::On { buffered_ms, thresholds } => "Tokenizer relax on (buffer="@
                + decimal(buffered_ms as nat) + "ms, min="@ + decimal(thresholds.min_chars as nat)
                + ", soft_max="@ + decimal(thresholds.soft_max as nat) + ", hard_max="@ + decimal(
                thresholds.hard_max as nat,
            ) + ")"@,
            RelaxTransition::Off { buffered_ms } => "Tokenizer relax off (buffer="@ + decimal(
                buffered_ms as nat,
            ) + "ms)"@,
        }
    }

    /// The line to log.
    pub fn message(self) -> (r: String)
        ensures
            r@ == self.spec_message(),
    {
        match self {
            RelaxTransition::On { buffered_ms, thresholds } => {
                let mut out = "Tokenizer relax on (buffer=".to_string();
                append_number(&mut out, buffered_ms);
                out.append("ms, min=");
                append_number(&mut out, thresholds.min_chars as u64);
                out.append(", soft_max=");
                append_number(&mut out, thresholds.soft_max as u64);
                out.append(", hard_max=");
                append_number(&mut out, thresholds.hard_max as u64);
                out.append(")");
                out
            },
            RelaxTransition::Off { buffered_ms } => {
                let mut out = "Tokenizer relax off (buffer=".to_string();
                append_number(&mut out, buffered_ms);
                out.append("ms)");
                out
            },
        }
    }
}

/// Notes which thresholds are in use, and says what to log where that changes.
pub fn log_relax_transition(
    relax_now: bool,
    relax_active: &mut bool,
    buffered_ms: u64,
    thresholds: FlushThresholds,
) -> (r: Option<RelaxTransition>)
    ensures
        *final(relax_active) == relax_now,
        r == if relax_now == *old(relax_active) {
            None
        } else if relax_now {
            Some(RelaxTransition::On { buffered_ms, thresholds })
        } else {
            Some(RelaxTransition::Off { buffered_ms })
        },
{
    if relax_now == *relax_active {
        return None;
    }
    *relax_active = relax_now;
    if relax_now {
        Some(RelaxTransition::On { buffered_ms, thresholds })
    } else {
        Some(RelaxTransition::Off { buffered_ms })
    }
}

/// What is to be done after one look at the buffered text.
#[derive(Debug)]
pub enum FlushStep {
    /// Nothing is to be cut before more text comes.
    Wait,
    /// A piece was cut off, and more may follow at once; there is no segment where it was blank.
    Piece(Option<TextSegment>),
    /// The input has ended and this was the rest; there is no segment where it was blank.
    Last(Option<TextSegment>),
}

/// A `FlushStep` with its segment as a view.
pub enum FlushStepView {
    Wait,
    Piece(Option<SegmentView>),
    Last(Option<SegmentView>),
}

impl View for FlushStep {
    type V = FlushStepView;

    open spec fn view(&self) -> FlushStepView {
        match self {
            FlushStep::Wait => FlushStepView::Wait,
            FlushStep::Piece(segment) => FlushStepView::Piece(segment_view(*segment)),
            FlushStep::Last(segment) => FlushStepView::Last(segment_view(*segment)),
        }
    }
}

/// Collects text deltas and cuts them into segments.
#[derive(Debug)]
pub struct Tokenizer {
    config: TokenizerConfig,
    eager: FlushThresholds,
    normal: FlushThresholds,
    relax: FlushThresholds,
    session_start_ts: Timestamp,
    turn_id: u64,
    buf: String,
    first: bool,
    first_delta_ts: Option<Timestamp>,
    last_delta_ts: Option<Timestamp>,
    eager_chunks_remaining: usize,
    relax_active: bool,
    input_closed: bool,
}

/// What a `Tokenizer` holds.
pub struct TokenizerView {
    pub config: TokenizerConfig,
    pub eager: FlushThresholds,
    pub normal: FlushThresholds,
    pub relax: FlushThresholds,
    pub session_start_ts: Timestamp,
    pub turn_id: u64,
    /// The text not cut off yet.
    pub text: Seq<char>,
    /// Whether no segment has been made yet.
    pub first: bool,
    /// When the first delta with text came.
    pub first_delta_ts: Option<Timestamp>,
    /// When the last delta with text came.
    pub last_delta_ts: Option<Timestamp>,
    /// How many more pieces use the eager thresholds.
    pub eager_left: nat,
    /// Whether the relaxed thresholds were logged as in use.
    pub relax_active: bool,
    /// Whether the input has ended.
    pub closed: bool,
}

impl TokenizerView {
    /// A tokenizer that has seen nothing.
    pub open spec fn start(
        levels: FlushLevels,
        session_start_ts: Timestamp,
        turn_id: u64,
        config: TokenizerConfig,
    ) -> Self {
        TokenizerView {
            config,
            eager: levels.eager,
            normal: levels.normal,
            relax: levels.relax,
            session_start_ts,
            turn_id,
            text: Seq::empty(),
            first: true,
            first_delta_ts: None,
            last_delta_ts: None,
            eager_left: config.eager_chunks as nat,
            relax_active: false,
            closed: false,
        }
    }

    /// Whether the relaxed thresholds are in use.
    pub open spec fn relaxed(self, buffered_ms: u64) -> bool {
        self.eager_left == 0 && self.config.relax_buffer_ms > 0 && buffered_ms
            >= self.config.relax_buffer_ms
    }

    /// The thresholds in use.
    pub open spec fn level(self, buffered_ms: u64) -> FlushThresholds {
        if self.eager_left > 0 {
            self.eager
        } else if self.relaxed(buffered_ms) {
            self.relax
        } else {
            self.normal
        }
    }

    /// After how many characters the text is to be cut now, if it is.
    pub open spec fn cut(self, buffered_ms: u64) -> Option<nat> {
        flush_cut(self.text, self.level(buffered_ms))
    }

    /// The segment that a piece of the text becomes.
    pub open spec fn segment(
        self,
        piece: Seq<char>,
        llm_start: Option<Timestamp>,
        now: Timestamp,
    ) -> Option<SegmentView> {
        segment_of(
            piece,
            self.first,
            self.first_delta_ts,
            self.last_delta_ts,
            llm_start,
            self.session_start_ts,
            self.turn_id,
            now,
        )
    }

    /// The tokenizer once a delta is taken in; a delta after the end of the input is dropped.
    pub open spec fn with_delta(self, delta: Seq<char>, now: Timestamp) -> Self {
        if self.closed {
            self
        } else {
            TokenizerView {
                text: self.text + delta,
                first_delta_ts: if delta.len() > 0 && self.first_delta_ts is None {
                    Some(now)
                } else {
                    self.first_delta_ts
                },
                last_delta_ts: if delta.len() > 0 {
                    Some(now)
                } else {
                    self.last_delta_ts
                },
                ..self
            }
        }
    }

    /// What one look at the text gives.
    pub open spec fn flush(
        self,
        buffered_ms: u64,
        llm_start: Option<Timestamp>,
        now: Timestamp,
    ) -> FlushStepView {
        match self.cut(buffered_ms) {
            Some(cut) => FlushStepView::Piece(
                self.segment(self.text.take(cut as int), llm_start, now),
            ),
            None => if self.closed {
                FlushStepView::Last(self.segment(self.text, llm_start, now))
            } else {
                FlushStepView::Wait
            },
        }
    }

    /// What one look at the text leaves.
    pub open spec fn after_flush(
        self,
        buffered_ms: u64,
        llm_start: Option<Timestamp>,
        now: Timestamp,
    ) -> Self {
        let relax_active = if self.config.relax_log {
            self.relaxed(buffered_ms)
        } else {
            self.relax_active
        };
        match self.cut(buffered_ms) {
            Some(cut) => TokenizerView {
                text: self.text.skip(cut as int),
                first: self.first && self.segment(self.text.take(cut as int), llm_start, now)
                    is None,
                eager_left: minus(self.eager_left, 1),
                relax_active,
                ..self
            },
            None => if self.closed {
                TokenizerView {
                    text: Seq::empty(),
                    first: self.first && self.segment(self.text, llm_start, now) is None,
                    relax_active,
                    ..self
                }
            } else {
                TokenizerView { relax_active, ..self }
            },
        }
    }

    /// What to log about the thresholds.
    pub open spec fn relax_change(self, buffered_ms: u64) -> Option<RelaxTransition> {
        if !self.config.relax_log || self.relaxed(buffered_ms) == self.relax_active {
            None
        } else if self.relaxed(buffered_ms) {
            Some(RelaxTransition::On { buffered_ms, thresholds: self.level(buffered_ms) })
        } else {
            Some(RelaxTransition::Off { buffered_ms })
        }
    }
}

/// The thresholds that the environment sets under `prefix`.
pub open spec fn thresholds_setting(
    vars: Map<Seq<char>, Seq<char>>,
    prefix: Seq<char>,
    min_chars: nat,
    soft_max: nat,
    hard_max: nat,
) -> FlushThresholds {
    let t = env::triplet_setting(
        vars,
        prefix,
        min_chars,
        soft_max,
        hard_max,
        THRESHOLD_MAX_CHARS as nat,
    );
    FlushThresholds { min_chars: t.0 as usize, soft_max: t.1 as usize, hard_max: t.2 as usize }
}

impl View for Tokenizer {
    type V = TokenizerView;

    closed spec fn view(&self) -> TokenizerView {
        TokenizerView {
            config: self.config,
            eager: self.eager,
            normal: self.normal,
            relax: self.relax,
            session_start_ts: self.session_start_ts,
            turn_id: self.turn_id,
            text: self.buf@,
            first: self.first,
            first_delta_ts: self.first_delta_ts,
            last_delta_ts: self.last_delta_ts,
            eager_left: self.eager_chunks_remaining as nat,
            relax_active: self.relax_active,
            closed: self.input_closed,
        }
    }
}

impl Tokenizer {
    /// A tokenizer with the thresholds and the configuration as they stand.
    pub fn with_config(
        levels: FlushLevels,
        session_start_ts: Timestamp,
        turn_id: u64,
        config: TokenizerConfig,
    ) -> (r: Self)
        ensures
            r@ == TokenizerView::start(levels, session_start_ts, turn_id, config),
    {
        Tokenizer {
            config,
            eager: levels.eager,
            normal: levels.normal,
            relax: levels.relax,
            session_start_ts,
            turn_id,
            buf: String::new(),
            first: true,
            first_delta_ts: None,
            last_delta_ts: None,
            eager_chunks_remaining: config.eager_chunks,
            relax_active: false,
            input_closed: false,
        }
    }

    /// A tokenizer with the default thresholds, and the configuration brought into its ranges.
    pub fn new(session_start_ts: Timestamp, turn_id: u64, config: TokenizerConfig) -> (r: Self)
        ensures
            r@ == TokenizerView::start(
                FlushLevels::defaults(),
                session_start_ts,
                turn_id,
                config.normalized(),
            ),
    {
        Tokenizer::with_config(
            FlushLevels::default(),
            session_start_ts,
            turn_id,
            config.normalize(),
        )
    }

    /// A tokenizer that the environment configures, its thresholds too.
    pub fn from_env(vars: &EnvVars, session_start_ts: Timestamp, turn_id: u64) -> (r: Self)
        ensures
            r@ == TokenizerView::start(
                FlushLevels::env_levels(vars@),
                session_start_ts,
                turn_id,
                TokenizerConfig::env_config(vars@),
            ),
    {
        Tokenizer::with_config(
            FlushLevels::from_env(vars),
            session_start_ts,
            turn_id,
            TokenizerConfig::from_env(vars).normalize(),
        )
    }

    /// Takes a delta in; the first one with text is an event.
    pub fn push_delta(&mut self, delta: &str, now: Timestamp) -> (r: Option<MetricEvent>)
        ensures
            final(self)@ == old(self)@.with_delta(delta@, now),
            r == if !old(self)@.closed && old(self)@.first_delta_ts is None && delta@.len() > 0 {
                Some(
                    MetricEvent {
                        turn_id: old(self)@.turn_id,
                        kind: MetricEventKind::LlmFirstToken,
                        ts: now,
                    },
                )
            } else {
                None
            },
    {
        if self.input_closed {
            return None;
        }
        let mut event = None;
        if !delta.is_empty() {
            if self.first_delta_ts.is_none() {
                self.first_delta_ts = Some(now);
                event =
                Some(
                    MetricEvent {
                        turn_id: self.turn_id,
                        kind: MetricEventKind::LlmFirstToken,
                        ts: now,
                    },
                );
            }
            self.last_delta_ts = Some(now);
        }
        self.buf.append(delta);
        event
    }

    /// Ends the input.
    pub fn close(&mut self)
        ensures
            final(self)@ == (TokenizerView { closed: true, ..old(self)@ }),
    {
        self.input_closed = true;
    }

    /// Takes a message of the LLM stream in; the end of the stream counts as `Eof`.
    pub fn on_delta_msg(&mut self, msg: Option<DeltaMsg>, now: Timestamp) -> (r: Option<
        MetricEvent,
    >)
        ensures
            match msg {
                Some(DeltaMsg::Delta(delta)) => final(self)@ == old(self)@.with_delta(delta@, now),
                _ => final(self)@ == (TokenizerView { closed: true, ..old(self)@ }),
            },
            r == match msg {
                Some(DeltaMsg::Delta(delta)) if !old(self)@.closed && old(self)@.first_delta_ts
                    is None && delta@.len() > 0 => Some(
                    MetricEvent {
                        turn_id: old(self)@.turn_id,
                        kind: MetricEventKind::LlmFirstToken,
                        ts: now,
                    },
                ),
                _ => None,
            },
    {
        match msg {
            Some(DeltaMsg::Delta(delta)) => self.push_delta(delta.as_str(), now),
            Some(DeltaMsg::Eof) => {
                self.close();
                None
            },
            None => {
                self.close();
                None
            },
        }
    }

    /// Whether no text is waiting.
    pub fn is_empty(&self) -> (r: bool)
        ensures
            r == (self@.text.len() == 0),
    {
        self.buf.as_str().is_empty()
    }

    /// Whether the input has ended.
    pub fn is_closed(&self) -> (r: bool)
        ensures
            r == self@.closed,
    {
        self.input_closed
    }

    /// Looks at the buffered text once, with `buffered_ms` of audio waiting to be played.
    pub fn flush_step(
        &mut self,
        buffered_ms: u64,
        llm_start: Option<Timestamp>,
        now: Timestamp,
    ) -> (r: (Option<RelaxTransition>, FlushStep))
        ensures
            r.0 == old(self)@.relax_change(buffered_ms),
            r.1@ == old(self)@.flush(buffered_ms, llm_start, now),
            final(self)@ == old(self)@.after_flush(buffered_ms, llm_start, now),
    {
        let relax_now = self.eager_chunks_remaining == 0 && self.config.relax_buffer_ms > 0
            && buffered_ms >= self.config.relax_buffer_ms;
        let thresholds = if self.eager_chunks_remaining > 0 {
            self.eager
        } else if relax_now {
            self.relax
        } else {
            self.normal
        };
        let change = if self.config.relax_log {
            log_relax_transition(relax_now, &mut self.relax_active, buffered_ms, thresholds)
        } else {
            None
        };
        match find_flush_index(
            self.buf.as_str(),
            thresholds.min_chars,
            thresholds.soft_max,
            thresholds.hard_max,
        ) {
            Some(at) => {
                let ghost cut = flush_cut(self.buf@, thresholds)->0;
                proof {
                    law_cut_is_in_range(self.buf@, thresholds);
                    assert(bytes_before(self.buf@, cut as int, at as nat));
                }
                let (piece, rest) = split_at_byte(self.buf.as_str(), at);
                self.buf = rest;
                let segment = build_text_segment(
                    piece,
                    &mut self.first,
                    self.first_delta_ts,
                    self.last_delta_ts,
                    llm_start,
                    self.session_start_ts,
                    self.turn_id,
                    now,
                );
                if self.eager_chunks_remaining > 0 {
                    self.eager_chunks_remaining = self.eager_chunks_remaining - 1;
                }
                (change, FlushStep::Piece(segment))
            },
            None => {
                if self.input_closed {
                    let piece = self.buf.clone();
                    self.buf = String::new();
                    let segment = build_text_segment(
                        piece,
                        &mut self.first,
                        self.first_delta_ts,
                        self.last_delta_ts,
                        llm_start,
                        self.session_start_ts,
                        self.turn_id,
                        now,
                    );
                    (change, FlushStep::Last(segment))
                } else {
                    (change, FlushStep::Wait)
                }
            },
        }
    }
}

/// A cut lies within the text and is never empty; where `soft_max` is not above `hard_max`, a
/// piece is never longer than that.
pub proof fn law_cut_is_in_range(s: Seq<char>, t: FlushThresholds)
    ensures
        flush_cut(s, t) matches Some(cut) ==> 0 < cut <= s.len() && (t.soft_max <= t.hard_max
            ==> cut <= t.hard_max),
{
    lemma_last_boundary_bound(s);
    if t.hard_max <= s.len() {
        lemma_last_boundary_bound(s.take(t.hard_max as int));
    }
}

/// With thresholds in order, a piece has at least `min_chars` characters.
pub proof fn law_piece_is_long_enough(s: Seq<char>, t: FlushThresholds)
    requires
        t.ordered(),
    ensures
        flush_cut(s, t) matches Some(cut) ==> t.min_chars <= cut <= t.hard_max,
{
    law_cut_is_in_range(s, t);
}

/// A text of `hard_max` characters or more is always cut, so the buffer cannot grow without end.
pub proof fn law_long_text_is_cut(s: Seq<char>, t: FlushThresholds)
    requires
        t.ordered(),
        s.len() >= t.hard_max,
    ensures
        flush_cut(s, t) is Some,
{
}

/// A piece shorter than `hard_max` ends after a boundary character.
pub proof fn law_cut_follows_boundary(s: Seq<char>, t: FlushThresholds)
    requires
        t.ordered(),
    ensures
        flush_cut(s, t) matches Some(cut) ==> cut == t.hard_max || is_boundary(s[cut - 1]),
{
    lemma_last_boundary_bound(s);
    if t.hard_max <= s.len() {
        lemma_last_boundary_bound(s.take(t.hard_max as int));
    }
}

/// The pieces that are cut off `s` when the thresholds of each look are those of `looks`, up to
/// the first look that cuts nothing.
pub open spec fn pieces(s: Seq<char>, looks: Seq<FlushThresholds>) -> Seq<Seq<char>>
    decreases looks.len(),
{
    if looks.len() == 0 {
        Seq::empty()
    } else {
        match flush_cut(s, looks[0]) {
            Some(cut) => seq![s.take(cut as int)] + pieces(s.skip(cut as int), looks.skip(1)),
            None => Seq::empty(),
        }
    }
}

/// What `pieces` leaves of `s`.
pub open spec fn rest_of(s: Seq<char>, looks: Seq<FlushThresholds>) -> Seq<char>
    decreases looks.len(),
{
    if looks.len() == 0 {
        s
    } else {
        match flush_cut(s, looks[0]) {
            Some(cut) => rest_of(s.skip(cut as int), looks.skip(1)),
            None => s,
        }
    }
}

/// Cutting loses nothing: the pieces and the rest, one behind the other, are the text.
pub proof fn law_pieces_make_the_text(s: Seq<char>, looks: Seq<FlushThresholds>)
    ensures
        pieces(s, looks).flatten() + rest_of(s, looks) == s,
    decreases looks.len(),
{
    if looks.len() == 0 {
        assert(pieces(s, looks).flatten() + rest_of(s, looks) =~= s);
    } else {
        match flush_cut(s, looks[0]) {
            Some(cut) => {
                law_cut_is_in_range(s, looks[0]);
                let tail = s.skip(cut as int);
                law_pieces_make_the_text(tail, looks.skip(1));
                let all = pieces(s, looks);
                assert(all.drop_first() =~= pieces(tail, looks.skip(1)));
                assert(all.flatten() =~= all.first() + all.drop_first().flatten());
                assert(s =~= s.take(cut as int) + tail);
                assert(all.flatten() + rest_of(s, looks) =~= s);
            },
            None => {
                assert(pieces(s, looks).flatten() + rest_of(s, looks) =~= s);
            },
        }
    }
}

/// What a tokenizer that runs on its own does next.
#[derive(Debug, Clone, Copy, PartialEq, Eq, Structural)]
pub enum TokenizerAction {
    /// Wait for a message, and hand it to `on_msg`.
    Await,
    /// Look at the text, by `cut`.
    Cut,
    /// Nothing: it is done.
    Stop,
}

/// A tokenizer that runs on its own, from a channel of deltas to one of segments.
#[derive(Debug)]
pub struct TokenizerRun {
    pub tokenizer: Tokenizer,
    pub action: TokenizerAction,
}

/// What a `TokenizerRun` holds.
pub struct TokenizerRunView {
    pub tokenizer: TokenizerView,
    pub action: TokenizerAction,
}

impl View for TokenizerRun {
    type V = TokenizerRunView;

    open spec fn view(&self) -> TokenizerRunView {
        TokenizerRunView { tokenizer: self.tokenizer@, action: self.action }
    }
}

/// What one look at the text of a run gave.
#[derive(Debug)]
pub struct CutResult {
    /// A change of the thresholds that is to be logged.
    pub change: Option<RelaxTransition>,
    /// The segment to send.
    pub segment: Option<TextSegment>,
}

/// The tokenizer once a message is taken in; the end of the channel is `None`.
pub open spec fn with_delta_msg(
    tokenizer: TokenizerView,
    msg: Option<DeltaMsg>,
    now: Timestamp,
) -> TokenizerView {
    match msg {
        Some(DeltaMsg::Delta(delta)) => tokenizer.with_delta(delta@, now),
        _ => TokenizerView { closed: true, ..tokenizer },
    }
}

/// The segment of a step, if there is one.
pub open spec fn step_segment(step: FlushStepView) -> Option<SegmentView> {
    match step {
        FlushStepView::Wait => None,
        FlushStepView::Piece(segment) => segment,
        FlushStepView::Last(segment) => segment,
    }
}

impl TokenizerRunView {
    /// The run of a new tokenizer.
    pub open spec fn start(
        levels: FlushLevels,
        session_start_ts: Timestamp,
        turn_id: u64,
        config: TokenizerConfig,
    ) -> Self {
        TokenizerRunView {
            tokenizer: TokenizerView::start(levels, session_start_ts, turn_id, config),
            action: TokenizerAction::Await,
        }
    }

    /// The run once a message is taken in. It is done where the input has ended without text.
    pub open spec fn with_msg(self, msg: Option<DeltaMsg>, now: Timestamp) -> Self {
        let tokenizer = with_delta_msg(self.tokenizer, msg, now);
        TokenizerRunView {
            tokenizer,
            action: if tokenizer.closed && tokenizer.text.len() == 0 {
                TokenizerAction::Stop
            } else {
                TokenizerAction::Cut
            },
        }
    }

    /// The run after one look at the text.
    pub open spec fn with_cut(
        self,
        buffered_ms: u64,
        llm_start: Option<Timestamp>,
        now: Timestamp,
    ) -> Self {
        TokenizerRunView {
            tokenizer: self.tokenizer.after_flush(buffered_ms, llm_start, now),
            action: match self.tokenizer.flush(buffered_ms, llm_start, now) {
                FlushStepView::Wait => TokenizerAction::Await,
                FlushStepView::Piece(_) => TokenizerAction::Cut,
                FlushStepView::Last(_) => TokenizerAction::Stop,
            },
        }
    }
}

impl TokenizerRun {
    /// The run of a new tokenizer with the default thresholds; its configuration is brought into
    /// range.
    pub fn new(session_start_ts: Timestamp, turn_id: u64, config: TokenizerConfig) -> (r: Self)
        ensures
            r@ == TokenizerRunView::start(
                FlushLevels::defaults(),
                session_start_ts,
                turn_id,
                config.normalized(),
            ),
    {
        TokenizerRun {
            tokenizer: Tokenizer::new(session_start_ts, turn_id, config),
            action: TokenizerAction::Await,
        }
    }

    /// The run of a tokenizer that the environment configures.
    pub fn from_env(vars: &EnvVars, session_start_ts: Timestamp, turn_id: u64) -> (r: Self)
        ensures
            r@ == TokenizerRunView::start(
                FlushLevels::env_levels(vars@),
                session_start_ts,
                turn_id,
                TokenizerConfig::env_config(vars@),
            ),
    {
        TokenizerRun {
            tokenizer: Tokenizer::from_env(vars, session_start_ts, turn_id),
            action: TokenizerAction::Await,
        }
    }

    /// What to do next.
    pub fn next_action(&self) -> (r: TokenizerAction)
        ensures
            r == self@.action,
    {
        self.action
    }

    /// Takes a message in, the end of the channel being `None`; returns the event that it is.
    pub fn on_msg(&mut self, msg: Option<DeltaMsg>, now: Timestamp) -> (r: Option<MetricEvent>)
        requires
            old(self)@.action == TokenizerAction::Await,
        ensures
            final(self)@ == old(self)@.with_msg(msg, now),
            r == match msg {
                Some(DeltaMsg::Delta(delta)) if !old(self)@.tokenizer.closed
                    && old(self)@.tokenizer.first_delta_ts is None && delta@.len() > 0 => Some(
                    MetricEvent {
                        turn_id: old(self)@.tokenizer.turn_id,
                        kind: MetricEventKind::LlmFirstToken,
                        ts: now,
                    },
                ),
                _ => None,
            },
    {
        let event = self.tokenizer.on_delta_msg(msg, now);
        self.action = if self.tokenizer.is_closed() && self.tokenizer.is_empty() {
            TokenizerAction::Stop
        } else {
            TokenizerAction::Cut
        };
        event
    }

    /// Looks at the text once, with `buffered_ms` of audio waiting to be played.
    pub fn cut(&mut self, buffered_ms: u64, llm_start: Option<Timestamp>, now: Timestamp) -> (r:
        CutResult)
        requires
            old(self)@.action == TokenizerAction::Cut,
        ensures
            final(self)@ == old(self)@.with_cut(buffered_ms, llm_start, now),
            r.change == old(self)@.tokenizer.relax_change(buffered_ms),
            segment_view(r.segment) == step_segment(
                old(self)@.tokenizer.flush(buffered_ms, llm_start, now),
            ),
    {
        let (change, step) = self.tokenizer.flush_step(buffered_ms, llm_start, now);
        match step {
            FlushStep::Wait => {
                self.action = TokenizerAction::Await;
                CutResult { change, segment: None }
            },
            FlushStep::Piece(segment) => CutResult { change, segment },
            FlushStep::Last(segment) => {
                self.action = TokenizerAction::Stop;
                CutResult { change, segment }
            },
        }
    }

    /// Ends the run at once: it was cancelled, or nobody takes its segments.
    pub fn stop(&mut self)
        ensures
            final(self)@ == (TokenizerRunView { action: TokenizerAction::Stop, ..old(self)@ }),
    {
        self.action = TokenizerAction::Stop;
    }
}

/// Something that happens to a run.
pub enum TokenizerEvent {
    /// A message comes, while the run waits for one.
    Msg { msg: Option<DeltaMsg>, now: Timestamp },
    /// The text is looked at, while there is some to look at.
    Cut { buffered_ms: u64, llm_start: Option<Timestamp>, now: Timestamp },
}

/// The run after an event; one that cannot happen has no effect.
pub open spec fn run_after(r: TokenizerRunView, event: TokenizerEvent) -> TokenizerRunView {
    match event {
        TokenizerEvent::Msg { msg, now } => if r.action == TokenizerAction::Await {
            r.with_msg(msg, now)
        } else {
            r
        },
        TokenizerEvent::Cut { buffered_ms, llm_start, now } => if r.action
            == TokenizerAction::Cut {
            r.with_cut(buffered_ms, llm_start, now)
        } else {
            r
        },
    }
}

/// The run after several events.
pub open spec fn run_through(r: TokenizerRunView, events: Seq<TokenizerEvent>) -> TokenizerRunView
    decreases events.len(),
{
    if events.len() == 0 {
        r
    } else {
        run_after(run_through(r, events.drop_last()), events.last())
    }
}

/// The text that a run took in.
pub open spec fn run_text(r: TokenizerRunView, events: Seq<TokenizerEvent>) -> Seq<char>
    decreases events.len(),
{
    if events.len() == 0 {
        Seq::empty()
    } else {
        let earlier = events.drop_last();
        let before = run_through(r, earlier);
        match events.last() {
            TokenizerEvent::Msg { msg: Some(DeltaMsg::Delta(delta)), .. } => if before.action
                == TokenizerAction::Await {
                run_text(r, earlier) + delta@
            } else {
                run_text(r, earlier)
            },
            _ => run_text(r, earlier),
        }
    }
}

/// The texts of the segments that a run sent.
pub open spec fn run_sent(r: TokenizerRunView, events: Seq<TokenizerEvent>) -> Seq<Seq<char>>
    decreases events.len(),
{
    if events.len() == 0 {
        Seq::empty()
    } else {
        let earlier = events.drop_last();
        let before = run_through(r, earlier);
        match events.last() {
            TokenizerEvent::Cut { buffered_ms, llm_start, now } => match step_segment(
                before.tokenizer.flush(buffered_ms, llm_start, now),
            ) {
                Some(segment) if before.action == TokenizerAction::Cut => run_sent(
                    r,
                    earlier,
                ).push(segment.text),
                _ => run_sent(r, earlier),
            },
            _ => run_sent(r, earlier),
        }
    }
}

/// The pieces that a run cut its text into, as they stood in it.
pub open spec fn run_pieces(r: TokenizerRunView, events: Seq<TokenizerEvent>) -> Seq<Seq<char>>
    decreases events.len(),
{
    if events.len() == 0 {
        Seq::empty()
    } else {
        let earlier = events.drop_last();
        let before = run_through(r, earlier);
        match events.last() {
            TokenizerEvent::Cut { buffered_ms, .. } => if before.action == TokenizerAction::Cut {
                with_piece(run_pieces(r, earlier), before.tokenizer, buffered_ms)
            } else {
                run_pieces(r, earlier)
            },
            _ => run_pieces(r, earlier),
        }
    }
}

/// The pieces, and the one that a look at the text cuts off, if it does.
pub open spec fn with_piece(
    pieces: Seq<Seq<char>>,
    tokenizer: TokenizerView,
    buffered_ms: u64,
) -> Seq<Seq<char>> {
    match tokenizer.cut(buffered_ms) {
        Some(cut) => pieces.push(tokenizer.text.take(cut as int)),
        None => if tokenizer.closed {
            pieces.push(tokenizer.text)
        } else {
            pieces
        },
    }
}

/// What is spoken of the pieces of a text: all but the blank ones, each without the byte order
/// marks at its start.
pub open spec fn spoken_texts(pieces: Seq<Seq<char>>) -> Seq<Seq<char>>
    decreases pieces.len(),
{
    if pieces.len() == 0 {
        Seq::empty()
    } else {
        let earlier = spoken_texts(pieces.drop_last());
        if trimmed(pieces.last()).len() == 0 {
            earlier
        } else {
            earlier.push(without_leading(pieces.last(), '\u{feff}'))
        }
    }
}

/// A look at the text keeps all of it: the pieces and the rest, one behind the other, stay what
/// they were.
pub proof fn law_cut_keeps_the_text(
    pieces: Seq<Seq<char>>,
    tokenizer: TokenizerView,
    buffered_ms: u64,
    llm_start: Option<Timestamp>,
    now: Timestamp,
)
    ensures
        with_piece(pieces, tokenizer, buffered_ms).flatten() + tokenizer.after_flush(
            buffered_ms,
            llm_start,
            now,
        ).text == pieces.flatten() + tokenizer.text,
{
    let after = tokenizer.after_flush(buffered_ms, llm_start, now);
    let all = with_piece(pieces, tokenizer, buffered_ms);
    let text = tokenizer.text;
    match tokenizer.cut(buffered_ms) {
        Some(cut) => {
            law_cut_is_in_range(text, tokenizer.level(buffered_ms));
            pieces.lemma_flatten_push(text.take(cut as int));
            assert(text =~= text.take(cut as int) + text.skip(cut as int));
            assert(all.flatten() + after.text =~= pieces.flatten() + text);
        },
        None => {
            if tokenizer.closed {
                pieces.lemma_flatten_push(text);
                assert(all.flatten() + after.text =~= pieces.flatten() + text);
            }
        },
    }
}

/// The segment that a look at the text gives is what is to be spoken of the piece that it cuts
/// off.
pub proof fn law_piece_is_spoken(
    pieces: Seq<Seq<char>>,
    tokenizer: TokenizerView,
    buffered_ms: u64,
    llm_start: Option<Timestamp>,
    now: Timestamp,
)
    ensures
        spoken_texts(with_piece(pieces, tokenizer, buffered_ms)) == match step_segment(
            tokenizer.flush(buffered_ms, llm_start, now),
        ) {
            Some(segment) => spoken_texts(pieces).push(segment.text),
            None => spoken_texts(pieces),
        },
{
    let all = with_piece(pieces, tokenizer, buffered_ms);
    if all.len() > pieces.len() {
        assert(all.drop_last() =~= pieces);
    }
}

/// A run loses none of its text: the pieces that it cut, and the text that it still holds, one
/// behind the other, are the text that it took in, and what it sent is what is to be spoken of
/// the pieces. A run that has stopped of itself holds no text.
pub proof fn law_run_keeps_its_text(
    levels: FlushLevels,
    session_start_ts: Timestamp,
    turn_id: u64,
    config: TokenizerConfig,
    events: Seq<TokenizerEvent>,
)
    ensures
        ({
            let start = TokenizerRunView::start(levels, session_start_ts, turn_id, config);
            let end = run_through(start, events);
            &&& run_pieces(start, events).flatten() + end.tokenizer.text == run_text(start, events)
            &&& run_sent(start, events) == spoken_texts(run_pieces(start, events))
            &&& end.action == TokenizerAction::Await ==> !end.tokenizer.closed
            &&& end.action == TokenizerAction::Stop ==> end.tokenizer.closed
                && end.tokenizer.text.len() == 0
        }),
    decreases events.len(),
{
    let start = TokenizerRunView::start(levels, session_start_ts, turn_id, config);
    if events.len() == 0 {
        assert(run_pieces(start, events).flatten() + start.tokenizer.text =~= run_text(
            start,
            events,
        ));
    } else {
        let earlier = events.drop_last();
        law_run_keeps_its_text(levels, session_start_ts, turn_id, config, earlier);
        let before = run_through(start, earlier);
        let had = run_pieces(start, earlier);
        match events.last() {
            TokenizerEvent::Msg { msg, now } => {
                if before.action == TokenizerAction::Await {
                    if let Some(DeltaMsg::Delta(delta)) = msg {
                        assert(had.flatten() + (before.tokenizer.text + delta@) =~= (had.flatten()
                            + before.tokenizer.text) + delta@);
                    }
                }
            },
            TokenizerEvent::Cut { buffered_ms, llm_start, now } => {
                if before.action == TokenizerAction::Cut {
                    law_cut_keeps_the_text(had, before.tokenizer, buffered_ms, llm_start, now);
                    law_piece_is_spoken(had, before.tokenizer, buffered_ms, llm_start, now);
                }
            },
        }
    }
}

/// A piece may end after twelve characters: the marks that end a sentence or a part of one, in
/// both widths, and the end of a line.
pub proof fn law_boundary_characters(c: char)
    ensures
        is_boundary(c) <==> seq![
            '。',
            '！',
            '？',
            '!',
            '?',
            '\n',
            '，',
            ',',
            '；',
            ';',
            '：',
            ':',
        ].contains(c),
{
    let marks = seq!['。', '！', '？', '!', '?', '\n', '，', ',', '；', ';', '：', ':'];
    assert(marks[0] == '。' && marks[1] == '！' && marks[2] == '？' && marks[3] == '!' && marks[4]
        == '?' && marks[5] == '\n' && marks[6] == '，' && marks[7] == ',' && marks[8] == '；'
        && marks[9] == ';' && marks[10] == '：' && marks[11] == ':');
}

/// Whether a boundary character ends the first `n` characters of a text.
pub open spec fn ends_at(s: Seq<char>, n: int) -> bool {
    0 < n <= s.len() && is_boundary(s[n - 1])
}

/// The last boundary of a text is the longest prefix that ends with one.
proof fn lemma_last_boundary_is_longest(s: Seq<char>)
    ensures
        last_boundary(s) > 0 ==> ends_at(s, last_boundary(s) as int),
        forall|n: int| #[trigger] ends_at(s, n) ==> n <= last_boundary(s),
{
    lemma_last_boundary_bound(s);
    assert forall|n: int| #[trigger] ends_at(s, n) implies n <= last_boundary(s) by {
        if n > last_boundary(s) {
            assert(!is_boundary(s[n - 1]));
        }
    }
}

/// A text of `hard_max` characters or more is cut after the longest prefix of at most so many
/// characters that a boundary ends, if that lies in the window before `hard_max` and is not too
/// short; only where there is none is it cut at `hard_max`.
pub proof fn law_long_text_is_cut_at_the_last_boundary(s: Seq<char>, t: FlushThresholds, n: int)
    requires
        s.len() >= t.hard_max,
        s.len() >= t.soft_max,
        s.len() >= t.min_chars,
        t.hard_max > 0,
    ensures
        ({
            let spread = t.hard_max - t.soft_max;
            let width = if spread > t.min_chars {
                spread
            } else {
                t.min_chars as int
            };
            let from = if t.hard_max - width > t.min_chars {
                t.hard_max - width
            } else {
                t.min_chars as int
            };
            &&& from <= n <= t.hard_max && ends_at(s, n) ==> (flush_cut(s, t) matches Some(cut)
                && n <= cut <= t.hard_max && ends_at(s, cut as int))
            &&& (forall|k: int| from <= k <= t.hard_max ==> !#[trigger] ends_at(s, k))
                ==> flush_cut(s, t) == Some(t.hard_max as nat)
            &&& flush_cut(s, t) matches Some(cut) && (cut == t.hard_max || (from <= cut
                && ends_at(s, cut as int)))
        }),
{
    let head = s.take(t.hard_max as int);
    lemma_last_boundary_is_longest(head);
    lemma_last_boundary_bound(head);
    assert forall|k: int| k <= t.hard_max implies #[trigger] ends_at(s, k) == ends_at(head, k) by {
        if 0 < k {
            assert(head[k - 1] == s[k - 1]);
        }
    }
    let last = last_boundary(head) as int;
    if last > 0 {
        assert(ends_at(s, last));
    }
    if ends_at(s, n) && n <= t.hard_max {
        assert(ends_at(head, n));
    }
}

/// A text from `soft_max` to below `hard_max` characters is cut after the longest prefix that a
/// boundary ends, if that lies in the window at its end and is not too short; else not yet.
pub proof fn law_middle_text_is_cut_at_its_last_boundary(
    s: Seq<char>,
    t: FlushThresholds,
    n: int,
)
    requires
        t.min_chars <= s.len(),
        t.soft_max <= s.len() < t.hard_max,
    ensures
        ({
            let spread = t.hard_max - t.soft_max;
            let width = if spread > t.min_chars {
                spread
            } else {
                t.min_chars as int
            };
            let from = if s.len() - width > t.min_chars {
                s.len() - width
            } else {
                t.min_chars as int
            };
            &&& from <= n <= s.len() && ends_at(s, n) ==> (flush_cut(s, t) matches Some(cut) && n
                <= cut <= s.len() && ends_at(s, cut as int))
            &&& (forall|k: int| from <= k <= s.len() ==> !#[trigger] ends_at(s, k)) ==> flush_cut(
                s,
                t,
            ) is None
            &&& flush_cut(s, t) matches Some(cut) ==> from <= cut && ends_at(s, cut as int)
        }),
{
    lemma_last_boundary_is_longest(s);
    lemma_last_boundary_bound(s);
    if last_boundary(s) > 0 {
        assert(ends_at(s, last_boundary(s) as int));
    }
}

/// A text below `soft_max` characters is spoken whole as soon as a boundary ends it, and not
/// before; one below `min_chars` never.
pub proof fn law_short_text_is_cut_at_its_end(s: Seq<char>, t: FlushThresholds)
    requires
        s.len() < t.soft_max || s.len() < t.min_chars,
    ensures
        flush_cut(s, t) is Some <==> s.len() >= t.min_chars && s.len() < t.soft_max && ends_at(
            s,
            s.len() as int,
        ),
        flush_cut(s, t) is Some ==> flush_cut(s, t) == Some(s.len()),
{
}

/// The first pieces, as many as are configured, are cut by the eager thresholds; those behind
/// them by the relaxed ones exactly while at least so much audio waits as is configured, where
/// that is not 0; all others by the normal ones.
pub proof fn law_thresholds_in_use(tokenizer: TokenizerView, buffered_ms: u64)
    ensures
        tokenizer.eager_left > 0 ==> tokenizer.level(buffered_ms) == tokenizer.eager,
        tokenizer.eager_left == 0 && tokenizer.config.relax_buffer_ms == 0
            ==> tokenizer.level(buffered_ms) == tokenizer.normal,
        tokenizer.eager_left == 0 && buffered_ms < tokenizer.config.relax_buffer_ms
            ==> tokenizer.level(buffered_ms) == tokenizer.normal,
        tokenizer.eager_left == 0 && 0 < tokenizer.config.relax_buffer_ms <= buffered_ms
            ==> tokenizer.level(buffered_ms) == tokenizer.relax,
        tokenizer.cut(buffered_ms) == flush_cut(tokenizer.text, tokenizer.level(buffered_ms)),
{
}

/// A new tokenizer holds no text, has its thresholds as they were given, and as many eager pieces
/// before it as are configured.
pub proof fn law_new_tokenizer(
    levels: FlushLevels,
    session_start_ts: Timestamp,
    turn_id: u64,
    config: TokenizerConfig,
)
    ensures
        ({
            let t = TokenizerView::start(levels, session_start_ts, turn_id, config);
            &&& t.text.len() == 0
            &&& t.eager == levels.eager
            &&& t.normal == levels.normal
            &&& t.relax == levels.relax
            &&& t.config == config
            &&& t.eager_left == config.eager_chunks
            &&& t.session_start_ts == session_start_ts
            &&& t.turn_id == turn_id
            &&& t.first
            &&& !t.closed
            &&& !t.relax_active
            &&& t.first_delta_ts is None
            &&& t.last_delta_ts is None
        }),
        ({
            let run = TokenizerRunView::start(levels, session_start_ts, turn_id, config);
            &&& run.tokenizer == TokenizerView::start(levels, session_start_ts, turn_id, config)
            &&& run.action == TokenizerAction::Await
        }),
{
}

/// One look cuts the piece off that the thresholds in use tell, and uses one eager piece up; a
/// text that is not to be cut waits while more may come, and is spoken to its end where none
/// will.
pub proof fn law_one_look(
    t: TokenizerView,
    buffered_ms: u64,
    llm_start: Option<Timestamp>,
    now: Timestamp,
)
    ensures
        ({
            let step = t.flush(buffered_ms, llm_start, now);
            let after = t.after_flush(buffered_ms, llm_start, now);
            match flush_cut(t.text, t.level(buffered_ms)) {
                Some(cut) => {
                    &&& step is Piece
                    &&& t.text.take(cut as int) + after.text == t.text
                    &&& 0 < cut <= t.text.len()
                    &&& after.eager_left == if t.eager_left > 0 {
                        t.eager_left - 1
                    } else {
                        0
                    }
                },
                None => {
                    &&& (step is Wait) == !t.closed
                    &&& (step is Last) == t.closed
                    &&& !t.closed ==> after.text == t.text
                    &&& t.closed ==> after.text.len() == 0
                    &&& after.eager_left == t.eager_left
                },
            }
        }),
        ({
            let after = t.after_flush(buffered_ms, llm_start, now);
            &&& after.config == t.config
            &&& after.eager == t.eager
            &&& after.normal == t.normal
            &&& after.relax == t.relax
            &&& after.closed == t.closed
            &&& after.turn_id == t.turn_id
            &&& after.session_start_ts == t.session_start_ts
            &&& after.first_delta_ts == t.first_delta_ts
            &&& after.last_delta_ts == t.last_delta_ts
            &&& after.first ==> t.first
        }),
{
    law_cut_is_in_range(t.text, t.level(buffered_ms));
    if let Some(cut) = flush_cut(t.text, t.level(buffered_ms)) {
        assert(t.text.take(cut as int) + t.text.skip(cut as int) =~= t.text);
    }
}

/// A blank piece is not spoken, every other is: with its own text but for byte order marks at its
/// start, the time of the first token on the first segment alone, the start of the request where
/// it is known and of the session where not.
pub proof fn law_segment_of_a_piece(
    t: TokenizerView,
    piece: Seq<char>,
    llm_start: Option<Timestamp>,
    now: Timestamp,
)
    ensures
        match t.segment(piece, llm_start, now) {
            None => trimmed(piece).len() == 0,
            Some(segment) => {
                &&& trimmed(piece).len() > 0
                &&& segment.turn_id == t.turn_id
                &&& segment.text == without_leading(piece, '\u{feff}')
                &&& llm_start is Some ==> segment.llm_start_ts == llm_start->0
                &&& llm_start is None ==> segment.llm_start_ts == t.session_start_ts
                &&& t.first ==> segment.first_token_ts == t.first_delta_ts
                &&& !t.first ==> segment.first_token_ts is None
                &&& segment.last_token_ts == t.last_delta_ts
                &&& segment.segment_sent_ts == now
            },
        },
        ({
            let step = t.flush(0, llm_start, now);
            let after = t.after_flush(0, llm_start, now);
            step_segment(step) is Some ==> !after.first
        }),
{
}

/// Text is put behind the text that waits; the first that is not empty fixes when the first token
/// came, and each when the last did. After the end nothing is taken in.
pub proof fn law_delta_is_put_behind(t: TokenizerView, delta: Seq<char>, now: Timestamp)
    ensures
        ({
            let after = t.with_delta(delta, now);
            &&& t.closed ==> after == t
            &&& !t.closed ==> {
                &&& after.text == t.text + delta
                &&& delta.len() > 0 ==> after.last_delta_ts == Some(now)
                &&& delta.len() > 0 && t.first_delta_ts is None ==> after.first_delta_ts == Some(
                    now,
                )
                &&& t.first_delta_ts is Some ==> after.first_delta_ts == t.first_delta_ts
                &&& delta.len() == 0 ==> after.first_delta_ts == t.first_delta_ts
                    && after.last_delta_ts == t.last_delta_ts
                &&& !after.closed
                &&& after.first == t.first
                &&& after.eager_left == t.eager_left
            }
        }),
{
}

/// At most 32 pieces are eager, and at most a minute of audio is asked for before the thresholds
/// are relaxed; what lies below is kept.
pub proof fn law_tokenizer_config_in_range(config: TokenizerConfig)
    ensures
        ({
            let n = config.normalized();
            &&& n.eager_chunks <= 32 && n.eager_chunks <= config.eager_chunks
            &&& config.eager_chunks <= 32 ==> n.eager_chunks == config.eager_chunks
            &&& config.eager_chunks > 32 ==> n.eager_chunks == 32
            &&& n.relax_buffer_ms <= 60_000 && n.relax_buffer_ms <= config.relax_buffer_ms
            &&& config.relax_buffer_ms <= 60_000 ==> n.relax_buffer_ms == config.relax_buffer_ms
            &&& config.relax_buffer_ms > 60_000 ==> n.relax_buffer_ms == 60_000
            &&& n.relax_log == config.relax_log
        }),
{
}

/// Without thresholds in the environment the first pieces are short, those in normal operation
/// longer, and those while audio is buffered longest; the thresholds of each level are in order.
pub proof fn law_default_levels()
    ensures
        ({
            let d = FlushLevels::defaults();
            &&& (d.eager.min_chars, d.eager.soft_max, d.eager.hard_max) == (2usize, 6usize, 12usize)
            &&& (d.normal.min_chars, d.normal.soft_max, d.normal.hard_max) == (
                10usize,
                20usize,
                40usize,
            )
            &&& (d.relax.min_chars, d.relax.soft_max, d.relax.hard_max) == (
                20usize,
                35usize,
                80usize,
            )
        }),
{
}

/// The thresholds of each level are set under its own name; where none are set they are the
/// default ones, and a text is never longer than 400 characters before it is cut.
pub proof fn law_level_settings_of_the_environment(vars: Map<Seq<char>, Seq<char>>)
    ensures
        ({
            let levels = FlushLevels::env_levels(vars);
            let set = |key: Seq<char>| env::unsigned_var(vars, key, usize::MAX as nat) is Some;
            &&& levels.eager.ordered() && levels.eager.hard_max <= 400
            &&& levels.normal.ordered() && levels.normal.hard_max <= 400
            &&& levels.relax.ordered() && levels.relax.hard_max <= 400
            &&& !set("TOKENIZER_EAGER"@ + "_MIN_CHARS"@) && !set(
                "TOKENIZER_EAGER"@ + "_SOFT_MAX_CHARS"@,
            ) && !set("TOKENIZER_EAGER"@ + "_HARD_MAX_CHARS"@) ==> levels.eager
                == (FlushThresholds { min_chars: 2, soft_max: 6, hard_max: 12 })
            &&& !set("TOKENIZER_NORMAL"@ + "_MIN_CHARS"@) && !set(
                "TOKENIZER_NORMAL"@ + "_SOFT_MAX_CHARS"@,
            ) && !set("TOKENIZER_NORMAL"@ + "_HARD_MAX_CHARS"@) ==> levels.normal
                == (FlushThresholds { min_chars: 10, soft_max: 20, hard_max: 40 })
            &&& !set("TOKENIZER_RELAX"@ + "_MIN_CHARS"@) && !set(
                "TOKENIZER_RELAX"@ + "_SOFT_MAX_CHARS"@,
            ) && !set("TOKENIZER_RELAX"@ + "_HARD_MAX_CHARS"@) ==> levels.relax
                == (FlushThresholds { min_chars: 20, soft_max: 35, hard_max: 80 })
        }),
{
}

/// A threshold that is set counts where it keeps the order and fits.
pub proof fn law_thresholds_that_are_set(
    vars: Map<Seq<char>, Seq<char>>,
    prefix: Seq<char>,
    default: FlushThresholds,
    n: nat,
)
    ensures
        ({
            let t = thresholds_setting(
                vars,
                prefix,
                default.min_chars as nat,
                default.soft_max as nat,
                default.hard_max as nat,
            );
            let number = |ending: Seq<char>|
                env::unsigned_var(vars, prefix + ending, usize::MAX as nat);
            &&& t.ordered() && t.hard_max <= 400
            &&& number("_MIN_CHARS"@) == Some(n) && 1 <= n <= 400 ==> t.min_chars == n
            &&& number("_SOFT_MAX_CHARS"@) == Some(n) && t.min_chars <= n <= 400 ==> t.soft_max
                == n
            &&& number("_HARD_MAX_CHARS"@) == Some(n) && t.soft_max <= n <= 400 ==> t.hard_max == n
            &&& number("_HARD_MAX_CHARS"@) == Some(n) && n > 400 ==> t.hard_max == 400
        }),
{
}

/// What the environment does not set is one eager piece and 200 milliseconds of buffered speech;
/// of the two names for the pieces the newer one counts.
pub proof fn law_tokenizer_settings_of_the_environment(vars: Map<Seq<char>, Seq<char>>, n: nat)
    ensures
        ({
            let c = TokenizerConfig::env_config(vars);
            let pieces = env::unsigned_var(vars, "TOKENIZER_EAGER_CHUNKS"@, usize::MAX as nat);
            let older = env::unsigned_var(vars, "CHUNKER_EAGER_CHUNKS"@, usize::MAX as nat);
            let buffer = env::unsigned_var(vars, "TOKENIZER_RELAX_BUFFER_MS"@, u64::MAX as nat);
            &&& c.eager_chunks <= 32 && c.relax_buffer_ms <= 60_000
            &&& pieces is None && older is None ==> c.eager_chunks == 1
            &&& pieces == Some(n) && n <= 32 ==> c.eager_chunks == n
            &&& pieces is None && older == Some(n) && n <= 32 ==> c.eager_chunks == n
            &&& buffer is None ==> c.relax_buffer_ms == 200
            &&& buffer == Some(n) && n <= 60_000 ==> c.relax_buffer_ms == n
            &&& c.relax_log == env::switch_setting(vars, "TOKENIZER_RELAX_LOG"@, false)
        }),
{
    let pieces = env::unsigned_var(vars, "TOKENIZER_EAGER_CHUNKS"@, usize::MAX as nat);
    let older = env::unsigned_var(vars, "CHUNKER_EAGER_CHUNKS"@, usize::MAX as nat);
    let buffer = env::unsigned_var(vars, "TOKENIZER_RELAX_BUFFER_MS"@, u64::MAX as nat);
    assert(pieces matches Some(v) ==> v <= usize::MAX);
    assert(older matches Some(v) ==> v <= usize::MAX);
    assert(buffer matches Some(v) ==> v <= u64::MAX);
}

/// The first piece that is spoken is the first one; which piece is spoken is the one that was cut
/// off, or the whole text at its end.
pub proof fn law_first_piece_that_is_spoken(
    t: TokenizerView,
    buffered_ms: u64,
    llm_start: Option<Timestamp>,
    now: Timestamp,
)
    ensures
        ({
            let step = t.flush(buffered_ms, llm_start, now);
            let after = t.after_flush(buffered_ms, llm_start, now);
            &&& after.first <==> t.first && step_segment(step) is None
            &&& flush_cut(t.text, t.level(buffered_ms)) matches Some(cut) ==> step_segment(step)
                == t.segment(t.text.take(cut as int), llm_start, now)
            &&& flush_cut(t.text, t.level(buffered_ms)) is None && t.closed ==> step_segment(step)
                == t.segment(t.text, llm_start, now)
            &&& flush_cut(t.text, t.level(buffered_ms)) is None && !t.closed ==> step_segment(step)
                is None
        }),
{
}

/// A change to the relaxed thresholds is told when they come into use, and a change back when they
/// leave it; nothing is told twice, nor where nobody asked for it.
pub proof fn law_changes_of_thresholds(
    t: TokenizerView,
    buffered_ms: u64,
    llm_start: Option<Timestamp>,
    now: Timestamp,
)
    ensures
        ({
            let relaxed = t.eager_left == 0 && t.config.relax_buffer_ms > 0 && buffered_ms
                >= t.config.relax_buffer_ms;
            let change = t.relax_change(buffered_ms);
            let after = t.after_flush(buffered_ms, llm_start, now);
            &&& !t.config.relax_log ==> change is None && after.relax_active == t.relax_active
            &&& t.config.relax_log ==> after.relax_active == relaxed
            &&& t.config.relax_log && relaxed && !t.relax_active ==> change == Some(
                RelaxTransition::On { buffered_ms, thresholds: t.relax },
            )
            &&& t.config.relax_log && !relaxed && t.relax_active ==> change == Some(
                RelaxTransition::Off { buffered_ms },
            )
            &&& relaxed == t.relax_active ==> change is None
            &&& t.eager_left == 0 ==> after.relax_change(buffered_ms) is None
        }),
{
}

/// The segment of a piece is made with what the tokenizer knows: its turn, its start, and when its
/// tokens came.
pub proof fn law_segment_of_a_tokenizer(
    t: TokenizerView,
    piece: Seq<char>,
    llm_start: Option<Timestamp>,
    now: Timestamp,
)
    ensures
        t.segment(piece, llm_start, now) matches Some(s) ==> {
            &&& s.turn_id == t.turn_id
            &&& s.segment_sent_ts == now
            &&& s.last_token_ts == t.last_delta_ts
            &&& s.first_token_ts == if t.first {
                t.first_delta_ts
            } else {
                None
            }
            &&& s.llm_start_ts == match llm_start {
                Some(ts) => ts,
                None => t.session_start_ts,
            }
        },
{
}

/// A run takes every message in before it looks at the text; it stops where the input has ended
/// without text, and after the rest of the text; it waits where nothing is to be cut yet, and
/// looks again after each piece.
pub proof fn law_what_a_run_does(
    run: TokenizerRunView,
    delta: String,
    buffered_ms: u64,
    llm_start: Option<Timestamp>,
    now: Timestamp,
)
    ensures
        ({
            let more = run.with_msg(Some(DeltaMsg::Delta(delta)), now);
            let over = run.with_msg(Some(DeltaMsg::Eof), now);
            let gone = run.with_msg(None, now);
            let looked = run.with_cut(buffered_ms, llm_start, now);
            let step = run.tokenizer.flush(buffered_ms, llm_start, now);
            &&& !run.tokenizer.closed ==> more.action == TokenizerAction::Cut
                && more.tokenizer.text == run.tokenizer.text + delta@ && !more.tokenizer.closed
            &&& over == gone
            &&& over.tokenizer.closed && over.tokenizer.text == run.tokenizer.text
            &&& over.action == TokenizerAction::Stop <==> run.tokenizer.text.len() == 0
            &&& over.action == TokenizerAction::Cut <==> run.tokenizer.text.len() > 0
            &&& looked.tokenizer == run.tokenizer.after_flush(buffered_ms, llm_start, now)
            &&& looked.action == TokenizerAction::Await <==> step is Wait
            &&& looked.action == TokenizerAction::Cut <==> step is Piece
            &&& looked.action == TokenizerAction::Stop <==> step is Last
        }),
{
}

/// A long text is cut behind a boundary wherever one stands in the window, and not before the last
/// of them; where none does, it is cut at its largest length.
pub proof fn law_where_a_long_text_is_cut(
    s: &str,
    min_chars: usize,
    soft_max: usize,
    hard_max: usize,
    r: Option<usize>,
    n: int,
)
    requires
        call_ensures(find_flush_index, (s, min_chars, soft_max, hard_max), r),
        0 < hard_max <= s@.len(),
        soft_max <= s@.len(),
        min_chars <= s@.len(),
    ensures
        r is Some,
        min_chars <= n <= hard_max && (n >= hard_max - min_chars || n >= soft_max) && ends_at(s@, n)
            ==> exists|cut: int|
            n <= cut <= hard_max && #[trigger] ends_at(s@, cut) && r == Some(
                byte_len(s@.take(cut)) as usize,
            ),
        (forall|k: int|
            min_chars <= k <= hard_max && (k >= hard_max - min_chars || k >= soft_max)
                ==> !#[trigger] ends_at(s@, k)) ==> r == Some(
            byte_len(s@.take(hard_max as int)) as usize,
        ),
{
    let t = FlushThresholds { min_chars, soft_max, hard_max };
    law_long_text_is_cut_at_the_last_boundary(s@, t, n);
    if let Some(cut) = flush_cut(s@, t) {
        assert(ends_at(s@, cut as int) || cut == hard_max);
    }
}

/// The first delta with text is told, once; after the end of the input no delta is taken.
pub proof fn law_first_delta_is_told_once()
    ensures
        forall|t: &mut Tokenizer, delta: &str, now: Timestamp, r: Option<MetricEvent>|
            #[trigger] call_ensures(Tokenizer::push_delta, (t, delta, now), r) ==> {
                &&& (*t)@.closed ==> r is None && (*final(t))@.text == (*t)@.text
                &&& !(*t)@.closed ==> (*final(t))@.text == (*t)@.text + delta@
                &&& r is Some <==> !(*t)@.closed && (*t)@.first_delta_ts is None && delta@.len() > 0
                &&& r matches Some(e) ==> e.turn_id == (*t)@.turn_id && e.kind
                    == MetricEventKind::LlmFirstToken && e.ts == now
                &&& r is Some ==> (*final(t))@.first_delta_ts == Some(now)
                &&& (*t)@.first_delta_ts is Some ==> (*final(t))@.first_delta_ts
                    == (*t)@.first_delta_ts
            },
{
}

} // verus!
