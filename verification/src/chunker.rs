//! Cutting a stream of text into chunks by how much speech is queued.

use crate::text::{chars_of, trim, trimmed};
use crate::time::Timestamp;
use crate::tokenizer::{is_boundary, is_boundary_char};
use vstd::prelude::*;
use vstd::string::*;

verus! {

/// Below this much queued speech chunks are cut often.
pub const LOW_WATER_MS: u64 = 600;

/// Above this much queued speech chunks are long.
pub const HIGH_WATER_MS: u64 = 2500;

/// How long a character is taken to be spoken.
pub const MS_PER_CHAR: u64 = 180;

/// A chunk of text to be spoken.
#[derive(Debug)]
pub struct Chunk {
    pub text: String,
    /// How long it is taken to be spoken.
    pub est_ms: u64,
    /// When the task started.
    pub task_start: Timestamp,
    /// When the first token came; on the first chunk only.
    pub first_token_ts: Option<Timestamp>,
    /// When the chunk was sent.
    pub chunk_sent_ts: Timestamp,
}

/// Whether a text is long enough and ends with a boundary, or is too long to wait for one.
pub open spec fn flushes(s: Seq<char>, min_chars: nat, max_chars: nat) -> bool {
    s.len() >= min_chars && ((s.len() > 0 && is_boundary(s.last())) || s.len() >= max_chars)
}

/// Whether a text is long enough and ends with a boundary, or is too long to wait for one.
pub fn should_flush(s: &str, min_chars: usize, max_chars: usize) -> (r: bool)
    ensures
        r == flushes(s@, min_chars as nat, max_chars as nat),
{
    let chars = chars_of(s);
    let n: usize = chars.len();
    if n < min_chars {
        return false;
    }
    if n > 0 && is_boundary_char(chars[n - 1]) {
        return true;
    }
    n >= max_chars
}

/// The least length of a chunk, and the length at which it is cut anywhere.
pub open spec fn limits(first: bool, queued_ms: u64) -> (nat, nat) {
    if first {
        (10, 20)
    } else if queued_ms < LOW_WATER_MS {
        (20, 45)
    } else if queued_ms > HIGH_WATER_MS {
        (80, 140)
    } else {
        (40, 90)
    }
}

/// How long a text is taken to be spoken, between a quarter of a second and eight seconds.
pub open spec fn estimate_of(chars: nat) -> nat {
    if chars * 180 < 250 {
        250
    } else if chars * 180 > 8000 {
        8000
    } else {
        chars * 180
    }
}

/// How long a text is taken to be spoken, between a quarter of a second and eight seconds.
pub fn estimate_ms(chars: usize) -> (r: u64)
    ensures
        r == estimate_of(chars as nat),
        250 <= r <= 8000,
{
    if chars > 44 {
        8000
    } else if chars < 2 {
        250
    } else {
        chars as u64 * MS_PER_CHAR
    }
}

/// Collects deltas and cuts chunks off.
#[derive(Debug)]
pub struct Chunker {
    task_start: Timestamp,
    buf: String,
    first: bool,
    first_delta_ts: Option<Timestamp>,
}

/// What a `Chunker` holds.
pub struct ChunkerView {
    pub task_start: Timestamp,
    pub text: Seq<char>,
    /// Whether no chunk has been cut yet.
    pub first: bool,
    /// When the first delta came.
    pub first_delta_ts: Option<Timestamp>,
}

impl View for Chunker {
    type V = ChunkerView;

    closed spec fn view(&self) -> ChunkerView {
        ChunkerView {
            task_start: self.task_start,
            text: self.buf@,
            first: self.first,
            first_delta_ts: self.first_delta_ts,
        }
    }
}

impl Chunker {
    /// A chunker without text.
    pub fn new(task_start: Timestamp) -> (r: Self)
        ensures
            r@ == (ChunkerView {
                task_start,
                text: Seq::empty(),
                first: true,
                first_delta_ts: None,
            }),
    {
        Chunker { task_start, buf: String::new(), first: true, first_delta_ts: None }
    }

    /// Takes a delta in. Where a chunk is due the text is cut off, and becomes a chunk unless it
    /// is blank.
    pub fn on_delta(&mut self, delta: &str, queued_ms: u64, now: Timestamp) -> (r: Option<Chunk>)
        ensures
            ({
                let before = old(self)@;
                let text = before.text + delta@;
                let (min_chars, max_chars) = limits(before.first, queued_ms);
                let first_delta_ts = if before.first && before.first_delta_ts is None {
                    Some(now)
                } else {
                    before.first_delta_ts
                };
                let due = flushes(text, min_chars, max_chars);
                let spoken = trimmed(text);
                &&& final(self)@ == (ChunkerView {
                    text: if due {
                        Seq::empty()
                    } else {
                        text
                    },
                    first: before.first && !(due && spoken.len() > 0),
                    first_delta_ts,
                    ..before
                })
                &&& if due && spoken.len() > 0 {
                    &&& r matches Some(chunk)
                    &&& chunk.text@ == spoken
                    &&& chunk.est_ms == estimate_of(spoken.len())
                    &&& chunk.task_start == before.task_start
                    &&& chunk.first_token_ts == if before.first {
                        first_delta_ts
                    } else {
                        None
                    }
                    &&& chunk.chunk_sent_ts == now
                } else {
                    r is None
                }
            }),
    {
        if self.first && self.first_delta_ts.is_none() {
            self.first_delta_ts = Some(now);
        }
        self.buf.append(delta);
        let (min_chars, max_chars): (usize, usize) = if self.first {
            (10, 20)
        } else if queued_ms < LOW_WATER_MS {
            (20, 45)
        } else if queued_ms > HIGH_WATER_MS {
            (80, 140)
        } else {
            (40, 90)
        };
        if !should_flush(self.buf.as_str(), min_chars, max_chars) {
            return None;
        }
        let text = trim(self.buf.as_str());
        self.buf = String::new();
        if text.as_str().is_empty() {
            return None;
        }
        let est_ms: u64 = estimate_ms(chars_of(text.as_str()).len());
        let first_token_ts = if self.first {
            self.first_delta_ts
        } else {
            None
        };
        self.first = false;
        Some(
            Chunk { text, est_ms, task_start: self.task_start, first_token_ts, chunk_sent_ts: now },
        )
    }
}

/// The speech queued after a chunk was sent.
pub fn queued_after_send(queued_ms: u64, est_ms: u64) -> (r: u64)
    ensures
        r == (queued_ms + est_ms) % 0x1_0000_0000_0000_0000,
{
    queued_ms.wrapping_add(est_ms)
}

/// The speech queued after a chunk was spoken.
pub fn queued_after_speech(queued_ms: u64, est_ms: u64) -> (r: u64)
    ensures
        r == (queued_ms - est_ms) % 0x1_0000_0000_0000_0000,
{
    queued_ms.wrapping_sub(est_ms)
}

/// What a chunk adds to the queue when it is sent, it takes away when it is spoken, whatever
/// happens in between.
pub proof fn law_queue_balances(queued_ms: u64, est_ms: u64, other: int)
    ensures
        ({
            let m = 0x1_0000_0000_0000_0000int;
            let sent = (queued_ms + est_ms) % m;
            let later = (sent + other) % m;
            (later - est_ms) % m == (queued_ms + other) % m
        }),
{
    let m = 0x1_0000_0000_0000_0000int;
    let a = queued_ms + est_ms;
    vstd::arithmetic::div_mod::lemma_add_mod_noop(a, other, m);
    vstd::arithmetic::div_mod::lemma_add_mod_noop(a % m, other, m);
    vstd::arithmetic::div_mod::lemma_sub_mod_noop(a + other, est_ms as int, m);
    vstd::arithmetic::div_mod::lemma_sub_mod_noop((a + other) % m, est_ms as int, m);
    assert(a + other - est_ms == queued_ms + other);
}

/// How long chunks are: the first one is short, and the later ones are longer the more speech is
/// queued, with the steps below 600 and above 2500 milliseconds.
pub proof fn law_lengths_of_chunks(first: bool, queued_ms: u64, more_ms: u64)
    ensures
        limits(true, queued_ms) == (10nat, 20nat),
        queued_ms < 600 ==> limits(false, queued_ms) == (20nat, 45nat),
        600 <= queued_ms <= 2500 ==> limits(false, queued_ms) == (40nat, 90nat),
        queued_ms > 2500 ==> limits(false, queued_ms) == (80nat, 140nat),
        queued_ms <= more_ms ==> limits(false, queued_ms).0 <= limits(false, more_ms).0 && limits(
            false,
            queued_ms,
        ).1 <= limits(false, more_ms).1,
        limits(first, queued_ms).0 < limits(first, queued_ms).1,
{
}

/// A text is cut off at a boundary at its end once it is long enough, and anywhere once it is too
/// long; one that is too short never is.
pub proof fn law_when_a_chunk_is_cut(s: Seq<char>, min_chars: nat, max_chars: nat)
    ensures
        s.len() < min_chars ==> !flushes(s, min_chars, max_chars),
        s.len() >= min_chars && s.len() >= max_chars ==> flushes(s, min_chars, max_chars),
        min_chars <= s.len() < max_chars && s.len() > 0 ==> (flushes(s, min_chars, max_chars)
            <==> is_boundary(s[s.len() - 1])),
        s.len() == 0 && max_chars > 0 ==> !flushes(s, min_chars, max_chars),
{
}

/// A character more makes a text 180 milliseconds longer, between the shortest and the longest.
pub proof fn law_estimate_grows(chars: nat)
    ensures
        250 <= estimate_of(chars) <= 8000,
        2 <= chars <= 44 ==> estimate_of(chars) == 180 * chars,
        chars < 2 ==> estimate_of(chars) == 250,
        chars > 44 ==> estimate_of(chars) == 8000,
{
}

/// A delta is put behind the text; a chunk takes all of the text, and only where it is due. The
/// first chunk alone tells when the first delta came.
pub proof fn law_chunks_take_the_text()
    ensures
        forall|c: &mut Chunker, delta: &str, queued_ms: u64, now: Timestamp, r: Option<Chunk>|
            #[trigger] call_ensures(Chunker::on_delta, (c, delta, queued_ms, now), r) ==> {
                let text = (*c)@.text + delta@;
                &&& r matches Some(chunk) ==> chunk.text@ == trimmed(text) && chunk.text@.len() > 0
                    && chunk.chunk_sent_ts == now && chunk.task_start == (*c)@.task_start
                &&& r matches Some(chunk) ==> (chunk.first_token_ts is Some ==> (*c)@.first)
                &&& r matches Some(chunk) ==> ((*c)@.first ==> chunk.first_token_ts is Some)
                &&& r is Some ==> (*final(c))@.text.len() == 0 && !(*final(c))@.first
                &&& r is None ==> (*final(c))@.first == (*c)@.first && ((*final(c))@.text == text
                    || ((*final(c))@.text.len() == 0 && trimmed(text).len() == 0))
                &&& (*c)@.first && text.len() < 10 ==> r is None
                &&& (*c)@.first && text.len() >= 20 && trimmed(text).len() > 0 ==> r is Some
                &&& !(*c)@.first && text.len() < 20 ==> r is None
                &&& !(*c)@.first && text.len() >= 140 && trimmed(text).len() > 0 ==> r is Some
            },
{
}

} // verus!
