//! A simulated stream of text, for trying a pipeline out.

use crate::internal::env::{self, EnvVars};
use crate::text::{chars_of, spelled, text_of};
use vstd::prelude::*;
use vstd::string::*;

verus! {

/// The text that is sent where none is set.
pub const DEFAULT_TEXT: &'static str = "请用两三句话解释为什么首段短、后续段长更适合流式TTS。";

/// The round that is cancelled by itself.
pub const AUTO_CANCEL_ROUND: usize = 3;

/// How a simulated stream runs.
#[derive(Debug)]
pub struct SimulationConfig {
    /// How many rounds there are.
    pub rounds: usize,
    /// When the round that is cancelled by itself is cancelled.
    pub auto_cancel_delay_ms: u64,
    /// How often the buffer level is looked at.
    pub buffer_poll_ms: u64,
    pub text: String,
    /// How many characters are sent at once.
    pub chunk_chars: usize,
    /// How long it takes between two deltas.
    pub delay_ms: u64,
}

impl SimulationConfig {
    /// Reads the settings from the environment.
    pub fn from_env(vars: &EnvVars) -> (r: Self)
        ensures
            r.rounds == env::unsigned_setting(vars@, "LLM_ROUNDS"@, usize::MAX as nat, 2, 1, 10),
            r.auto_cancel_delay_ms == env::unsigned_setting(
                vars@,
                "AUTO_CANCEL_DELAY_MS"@,
                u64::MAX as nat,
                1500,
                100,
                30_000,
            ),
            r.buffer_poll_ms == env::unsigned_setting(
                vars@,
                "AUDIO_BUFFER_POLL_MS"@,
                u64::MAX as nat,
                20,
                5,
                500,
            ),
            r.text@ == match env::var_of(vars@, "LLM_SIM_TEXT"@) {
                Some(text) => text,
                None => DEFAULT_TEXT@,
            },
            r.chunk_chars == env::unsigned_setting(
                vars@,
                "LLM_SIM_CHUNK_CHARS"@,
                usize::MAX as nat,
                3,
                1,
                20,
            ),
            r.delay_ms == env::unsigned_setting(
                vars@,
                "LLM_SIM_DELAY_MS"@,
                u64::MAX as nat,
                80,
                10,
                2000,
            ),
            1 <= r.chunk_chars <= 20,
    {
        let text = match vars.get("LLM_SIM_TEXT") {
            Some(text) => text,
            None => DEFAULT_TEXT.to_string(),
        };
        SimulationConfig {
            rounds: env::usize_clamped(vars, "LLM_ROUNDS", 2, 1, 10),
            auto_cancel_delay_ms: env::u64_clamped(
                vars,
                "AUTO_CANCEL_DELAY_MS",
                1500,
                100,
                30_000,
            ),
            buffer_poll_ms: env::u64_clamped(vars, "AUDIO_BUFFER_POLL_MS", 20, 5, 500),
            text,
            chunk_chars: env::usize_clamped(vars, "LLM_SIM_CHUNK_CHARS", 3, 1, 20),
            delay_ms: env::u64_clamped(vars, "LLM_SIM_DELAY_MS", 80, 10, 2000),
        }
    }

    /// When a round is cancelled by itself, if it is.
    pub fn auto_cancel(&self, round: usize) -> (r: Option<u64>)
        ensures
            r == if round == AUTO_CANCEL_ROUND {
                Some(self.auto_cancel_delay_ms)
            } else {
                None
            },
    {
        if round == AUTO_CANCEL_ROUND {
            Some(self.auto_cancel_delay_ms)
        } else {
            None
        }
    }
}

/// A text in pieces of `size` characters; the last one may be shorter.
pub open spec fn pieces_of(text: Seq<char>, size: nat) -> Seq<Seq<char>>
    decreases text.len(),
{
    if size == 0 || text.len() == 0 {
        Seq::empty()
    } else if text.len() <= size {
        seq![text]
    } else {
        seq![text.take(size as int)] + pieces_of(text.skip(size as int), size)
    }
}

/// Cuts a text into pieces of `size` characters; the last one may be shorter.
pub fn split_deltas(text: &str, size: usize) -> (r: Vec<String>)
    requires
        size > 0,
    ensures
        spelled(r@) == pieces_of(text@, size as nat),
{
    let chars = chars_of(text);
    let mut out: Vec<String> = Vec::new();
    let mut at: usize = 0;
    proof {
        assert(chars@.skip(0) =~= text@);
        assert(spelled(out@) + pieces_of(text@, size as nat) =~= pieces_of(text@, size as nat));
    }
    while at < chars.len()
        invariant
            size > 0,
            at <= chars@.len(),
            spelled(out@) + pieces_of(chars@.skip(at as int), size as nat) == pieces_of(
                text@,
                size as nat,
            ),
        decreases chars@.len() - at,
    {
        let left: usize = chars.len() - at;
        let step: usize = if left < size {
            left
        } else {
            size
        };
        let end: usize = at + step;
        let ghost had = out@;
        let ghost rest = chars@.skip(at as int);
        out.push(text_of(&chars, at, end));
        proof {
            let piece = chars@.subrange(at as int, end as int);
            assert(spelled(out@) =~= spelled(had).push(piece));
            assert(rest.take(step as int) =~= piece);
            assert(rest.skip(step as int) =~= chars@.skip(end as int));
            if left <= size {
                assert(rest =~= piece);
                assert(chars@.skip(end as int).len() == 0);
            }
            assert(pieces_of(rest, size as nat) =~= seq![piece] + pieces_of(
                chars@.skip(end as int),
                size as nat,
            ));
            assert(spelled(out@) + pieces_of(chars@.skip(end as int), size as nat) =~= spelled(had)
                + pieces_of(rest, size as nat));
        }
        at = end;
    }
    proof {
        assert(chars@.skip(at as int).len() == 0);
        assert(spelled(out@) =~= pieces_of(text@, size as nat));
    }
    out
}

/// A text is sent whole: its pieces, one behind the other, are the text, and none is empty or
/// longer than `size`.
pub proof fn law_pieces_make_the_text(text: Seq<char>, size: nat)
    requires
        size > 0,
    ensures
        pieces_of(text, size).flatten() == text,
        forall|i: int|
            0 <= i < pieces_of(text, size).len() ==> 1 <= (#[trigger] pieces_of(
                text,
                size,
            )[i]).len() <= size,
    decreases text.len(),
{
    let pieces = pieces_of(text, size);
    if text.len() == 0 {
        assert(pieces.flatten() =~= text);
    } else if text.len() <= size {
        pieces.lemma_flatten_one_element();
    } else {
        let rest = text.skip(size as int);
        law_pieces_make_the_text(rest, size);
        assert(pieces.drop_first() =~= pieces_of(rest, size));
        assert(pieces.first() == text.take(size as int));
        assert(pieces.flatten() =~= text);
        assert forall|i: int| 0 <= i < pieces.len() implies 1 <= (#[trigger] pieces[i]).len()
            <= size by {
            if i > 0 {
                assert(pieces[i] == pieces_of(rest, size)[i - 1]);
            }
        }
    }
}

/// Tells when a buffer level has changed.
#[derive(Debug, Clone, Copy, PartialEq, Eq, Structural)]
pub struct LevelWatch {
    pub last_ms: Option<u64>,
}

impl LevelWatch {
    /// No level is known.
    pub fn new() -> (r: Self)
        ensures
            r.last_ms is None,
    {
        LevelWatch { last_ms: None }
    }

    /// The level to be passed on, if it is another than the last one; a missing level is 0.
    pub fn on_level(&mut self, level_ms: Option<u64>) -> (r: Option<u64>)
        ensures
            ({
                let ms = match level_ms {
                    Some(ms) => ms,
                    None => 0u64,
                };
                &&& final(self).last_ms == Some(ms)
                &&& r == if old(self).last_ms == Some(ms) {
                    None
                } else {
                    Some(ms)
                }
            }),
    {
        let ms: u64 = match level_ms {
            Some(ms) => ms,
            None => 0,
        };
        if let Some(last) = self.last_ms {
            if last == ms {
                return None;
            }
        }
        self.last_ms = Some(ms);
        Some(ms)
    }
}

/// The pieces stand in the text one behind the other: each starts at a multiple of the size, and
/// is of that size unless the text ends before.
pub proof fn law_place_of_a_piece(text: Seq<char>, size: nat, k: int)
    requires
        size > 0,
        0 <= k < pieces_of(text, size).len(),
    ensures
        0 <= k * size < text.len(),
        (k + 1) * size <= text.len() ==> pieces_of(text, size)[k] == text.subrange(
            k * size,
            (k + 1) * size,
        ),
        (k + 1) * size > text.len() ==> pieces_of(text, size)[k] == text.subrange(
            k * size,
            text.len() as int,
        ) && k + 1 == pieces_of(text, size).len(),
    decreases text.len(),
{
    let pieces = pieces_of(text, size);
    if text.len() <= size {
        assert(k == 0);
        assert(0 * size == 0 && (k + 1) * size == size) by (nonlinear_arith)
            requires
                k == 0,
        ;
        assert(text.subrange(0, text.len() as int) =~= text);
    } else if k == 0 {
        assert(0 * size == 0 && (k + 1) * size == size) by (nonlinear_arith)
            requires
                k == 0,
        ;
        assert(text.take(size as int) =~= text.subrange(0, size as int));
        assert(pieces[0] == text.take(size as int));
    } else {
        let rest = text.skip(size as int);
        assert(pieces[k] == pieces_of(rest, size)[k - 1]);
        law_place_of_a_piece(rest, size, k - 1);
        assert((k - 1) * size + size == k * size && k * size + size == (k + 1) * size)
            by (nonlinear_arith);
        if (k + 1) * size <= text.len() {
            assert(rest.subrange((k - 1) * size, k * size) =~= text.subrange(
                k * size,
                (k + 1) * size,
            ));
        } else {
            assert(rest.subrange((k - 1) * size, rest.len() as int) =~= text.subrange(
                k * size,
                text.len() as int,
            ));
        }
    }
}

/// What a stream says and which of its rounds is cancelled, where nothing else is set.
pub proof fn law_simulated_stream()
    ensures
        DEFAULT_TEXT@ == "请用两三句话解释为什么首段短、后续段长更适合流式TTS。"@,
        AUTO_CANCEL_ROUND == 3,
{
}

/// A level is passed on exactly where it is another than the last one; a missing level is none.
pub proof fn law_levels_that_are_passed_on()
    ensures
        forall|w: &mut LevelWatch, level: Option<u64>, r: Option<u64>|
            #[trigger] call_ensures(LevelWatch::on_level, (w, level), r) ==> {
                &&& (*final(w)).last_ms == Some(
                    if level is Some {
                        level->0
                    } else {
                        0
                    },
                )
                &&& r is Some <==> (*w).last_ms != (*final(w)).last_ms
                &&& r is Some ==> r == (*final(w)).last_ms
            },
{
}

/// What a simulated stream does where the environment says nothing, and where it does.
pub proof fn law_simulation_settings_of_the_environment(
    vars: &EnvVars,
    r: SimulationConfig,
    n: nat,
)
    requires
        call_ensures(SimulationConfig::from_env, (vars,), r),
    ensures
        ({
            let word = |key: Seq<char>| env::unsigned_var(vars@, key, u64::MAX as nat);
            let size = |key: Seq<char>| env::unsigned_var(vars@, key, usize::MAX as nat);
            &&& size("LLM_ROUNDS"@) is None ==> r.rounds == 2
            &&& size("LLM_ROUNDS"@) == Some(n) && 1 <= n <= 10 ==> r.rounds == n
            &&& word("AUTO_CANCEL_DELAY_MS"@) is None ==> r.auto_cancel_delay_ms == 1500
            &&& word("AUTO_CANCEL_DELAY_MS"@) == Some(n) && 100 <= n <= 30_000
                ==> r.auto_cancel_delay_ms == n
            &&& word("AUDIO_BUFFER_POLL_MS"@) is None ==> r.buffer_poll_ms == 20
            &&& word("AUDIO_BUFFER_POLL_MS"@) == Some(n) && 5 <= n <= 500 ==> r.buffer_poll_ms == n
            &&& size("LLM_SIM_CHUNK_CHARS"@) is None ==> r.chunk_chars == 3
            &&& size("LLM_SIM_CHUNK_CHARS"@) == Some(n) && 1 <= n <= 20 ==> r.chunk_chars == n
            &&& word("LLM_SIM_DELAY_MS"@) is None ==> r.delay_ms == 80
            &&& word("LLM_SIM_DELAY_MS"@) == Some(n) && 10 <= n <= 2000 ==> r.delay_ms == n
            &&& !vars@.dom().contains("LLM_SIM_TEXT"@) ==> r.text@ == DEFAULT_TEXT@
            &&& vars@.dom().contains("LLM_SIM_TEXT"@) ==> r.text@ == vars@["LLM_SIM_TEXT"@]
        }),
{
}

/// Only the third round is cancelled by itself.
pub proof fn law_round_that_is_cancelled(c: &SimulationConfig, round: usize, r: Option<u64>)
    requires
        call_ensures(SimulationConfig::auto_cancel, (c, round), r),
    ensures
        r is Some <==> round == 3,
        r is Some ==> r == Some(c.auto_cancel_delay_ms),
{
}

} // verus!
