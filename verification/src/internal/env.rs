//! Settings read from environment variables.

use crate::number::{parse_signed, parse_unsigned, signed_of, unsigned_of};
use crate::text::{lowercase, same, trim, trimmed, lowercased};
use vstd::prelude::*;
use vstd::string::*;

verus! {

/// The environment variables of a process, as they stood when they were read.
#[derive(Debug)]
pub struct EnvVars {
    entries: Vec<(String, String)>,
}

/// The variables of a list in which a later entry replaces an earlier one.
pub open spec fn vars_of(entries: Seq<(String, String)>) -> Map<Seq<char>, Seq<char>>
    decreases entries.len(),
{
    if entries.len() == 0 {
        Map::empty()
    } else {
        vars_of(entries.drop_last()).insert(entries.last().0@, entries.last().1@)
    }
}

impl View for EnvVars {
    type V = Map<Seq<char>, Seq<char>>;

    closed spec fn view(&self) -> Map<Seq<char>, Seq<char>> {
        vars_of(self.entries@)
    }
}

/// The value of `key`, where it is set.
pub open spec fn var_of(vars: Map<Seq<char>, Seq<char>>, key: Seq<char>) -> Option<Seq<char>> {
    if vars.dom().contains(key) {
        Some(vars[key])
    } else {
        None
    }
}

impl EnvVars {
    /// No variables.
    pub fn new() -> (r: Self)
        ensures
            r@ == Map::<Seq<char>, Seq<char>>::empty(),
    {
        EnvVars { entries: Vec::new() }
    }

    /// Sets `key` to `value`.
    pub fn set(&mut self, key: &str, value: &str)
        ensures
            final(self)@ == old(self)@.insert(key@, value@),
    {
        let ghost before = self.entries@;
        self.entries.push((key.to_string(), value.to_string()));
        proof {
            assert(self.entries@.drop_last() =~= before);
        }
    }

    /// The value of `key`, where it is set.
    pub fn get(&self, key: &str) -> (r: Option<String>)
        ensures
            match r {
                Some(value) => var_of(self@, key@) == Some(value@),
                None => var_of(self@, key@) is None,
            },
    {
        let mut i: usize = self.entries.len();
        proof {
            assert(self.entries@.take(i as int) =~= self.entries@);
        }
        while i > 0
            invariant
                i <= self.entries@.len(),
                var_of(self@, key@) == var_of(vars_of(self.entries@.take(i as int)), key@),
            decreases i,
        {
            let ghost head = self.entries@.take(i as int);
            proof {
                assert(head.drop_last() =~= self.entries@.take(i - 1));
            }
            if same(self.entries[i - 1].0.as_str(), key) {
                return Some(self.entries[i - 1].1.clone());
            }
            i -= 1;
        }
        None
    }
}

/// `v`, or the bound of `min..=max` that it lies beyond.
pub open spec fn clamped(v: int, min: int, max: int) -> int {
    if v < min {
        min
    } else if v > max {
        max
    } else {
        v
    }
}

/// The value of `key` as an unsigned number of at most `max`, where it is set and is one.
pub open spec fn unsigned_var(
    vars: Map<Seq<char>, Seq<char>>,
    key: Seq<char>,
    max: nat,
) -> Option<nat> {
    match var_of(vars, key) {
        Some(raw) => unsigned_of(raw, max),
        None => None,
    }
}

/// The value of `key` as a signed number from `min` to `max`, where it is set and is one.
pub open spec fn signed_var(
    vars: Map<Seq<char>, Seq<char>>,
    key: Seq<char>,
    min: int,
    max: int,
) -> Option<int> {
    match var_of(vars, key) {
        Some(raw) => signed_of(raw, min, max),
        None => None,
    }
}

/// The number under `key`, or `default` without one, brought into `min..=max`.
pub open spec fn unsigned_setting(
    vars: Map<Seq<char>, Seq<char>>,
    key: Seq<char>,
    largest: nat,
    default: nat,
    min: nat,
    max: nat,
) -> nat {
    let v = match unsigned_var(vars, key, largest) {
        Some(v) => v,
        None => default,
    };
    clamped(v as int, min as int, max as int) as nat
}

/// The signed number under `key`, or `default` without one, brought into `min..=max`.
pub open spec fn signed_setting(
    vars: Map<Seq<char>, Seq<char>>,
    key: Seq<char>,
    least: int,
    largest: int,
    default: int,
    min: int,
    max: int,
) -> int {
    let v = match signed_var(vars, key, least, largest) {
        Some(v) => v,
        None => default,
    };
    clamped(v, min, max)
}

/// The value of `key` as an unsigned number of at most `largest`.
fn get_unsigned(env: &EnvVars, key: &str, largest: u64) -> (r: Option<u64>)
    ensures
        match r {
            Some(v) => unsigned_var(env@, key@, largest as nat) == Some(v as nat),
            None => unsigned_var(env@, key@, largest as nat) is None,
        },
{
    match env.get(key) {
        Some(raw) => parse_unsigned(raw.as_str(), largest),
        None => None,
    }
}

/// The value of `key` as a `u64`.
pub fn get_u64(env: &EnvVars, key: &str) -> (r: Option<u64>)
    ensures
        match r {
            Some(v) => unsigned_var(env@, key@, u64::MAX as nat) == Some(v as nat),
            None => unsigned_var(env@, key@, u64::MAX as nat) is None,
        },
{
    get_unsigned(env, key, u64::MAX)
}

/// The value of `key` as a `usize`.
pub fn get_usize(env: &EnvVars, key: &str) -> (r: Option<usize>)
    ensures
        match r {
            Some(v) => unsigned_var(env@, key@, usize::MAX as nat) == Some(v as nat),
            None => unsigned_var(env@, key@, usize::MAX as nat) is None,
        },
{
    match get_unsigned(env, key, usize::MAX as u64) {
        Some(v) => Some(v as usize),
        None => None,
    }
}

/// The value of `key` as a `u32`.
pub fn get_u32(env: &EnvVars, key: &str) -> (r: Option<u32>)
    ensures
        match r {
            Some(v) => unsigned_var(env@, key@, u32::MAX as nat) == Some(v as nat),
            None => unsigned_var(env@, key@, u32::MAX as nat) is None,
        },
{
    match get_unsigned(env, key, u32::MAX as u64) {
        Some(v) => Some(v as u32),
        None => None,
    }
}

/// The value of `key` as a `u16`.
pub fn get_u16(env: &EnvVars, key: &str) -> (r: Option<u16>)
    ensures
        match r {
            Some(v) => unsigned_var(env@, key@, u16::MAX as nat) == Some(v as nat),
            None => unsigned_var(env@, key@, u16::MAX as nat) is None,
        },
{
    match get_unsigned(env, key, u16::MAX as u64) {
        Some(v) => Some(v as u16),
        None => None,
    }
}

/// The value of `key` as an `i64`.
pub fn get_i64(env: &EnvVars, key: &str) -> (r: Option<i64>)
    ensures
        match r {
            Some(v) => signed_var(env@, key@, i64::MIN as int, i64::MAX as int) == Some(v as int),
            None => signed_var(env@, key@, i64::MIN as int, i64::MAX as int) is None,
        },
{
    match env.get(key) {
        Some(raw) => parse_signed(raw.as_str(), i64::MIN, i64::MAX),
        None => None,
    }
}

/// The value of `key` as an `i32`.
pub fn get_i32(env: &EnvVars, key: &str) -> (r: Option<i32>)
    ensures
        match r {
            Some(v) => signed_var(env@, key@, i32::MIN as int, i32::MAX as int) == Some(v as int),
            None => signed_var(env@, key@, i32::MIN as int, i32::MAX as int) is None,
        },
{
    match env.get(key) {
        Some(raw) => match parse_signed(raw.as_str(), i32::MIN as i64, i32::MAX as i64) {
            Some(v) => Some(v as i32),
            None => None,
        },
        None => None,
    }
}

/// The value of `key` without white space at its ends, where it is set and not blank.
pub open spec fn text_var(vars: Map<Seq<char>, Seq<char>>, key: Seq<char>) -> Option<Seq<char>> {
    match var_of(vars, key) {
        Some(raw) => if trimmed(raw).len() > 0 {
            Some(trimmed(raw))
        } else {
            None
        },
        None => None,
    }
}

/// The value of `key` without white space at its ends, where it is set and not blank.
pub fn string(env: &EnvVars, key: &str) -> (r: Option<String>)
    ensures
        match r {
            Some(value) => text_var(env@, key@) == Some(value@),
            None => text_var(env@, key@) is None,
        },
{
    match env.get(key) {
        Some(raw) => {
            let value = trim(raw.as_str());
            if value.as_str().is_empty() {
                None
            } else {
                Some(value)
            }
        },
        None => None,
    }
}

/// The value of `key`, or `default` where it is not set or blank.
pub open spec fn text_setting(
    vars: Map<Seq<char>, Seq<char>>,
    key: Seq<char>,
    default: Seq<char>,
) -> Seq<char> {
    match text_var(vars, key) {
        Some(value) => value,
        None => default,
    }
}

/// The value of `key`, or `default` where it is not set or blank.
pub fn string_or(env: &EnvVars, key: &str, default: &str) -> (r: String)
    ensures
        r@ == text_setting(env@, key@, default@),
{
    match string(env, key) {
        Some(value) => value,
        None => default.to_string(),
    }
}

/// What a lower-case word says as a switch.
pub open spec fn switch_of(word: Seq<char>) -> Option<bool> {
    if word == "1"@ || word == "true"@ || word == "yes"@ || word == "y"@ || word == "on"@ {
        Some(true)
    } else if word == "0"@ || word == "false"@ || word == "no"@ || word == "n"@ || word == "off"@ {
        Some(false)
    } else {
        None
    }
}

/// What a lower-case word says as a switch.
pub fn parse_switch(word: &str) -> (r: Option<bool>)
    ensures
        r == switch_of(word@),
{
    if same(word, "1") || same(word, "true") || same(word, "yes") || same(word, "y") || same(
        word,
        "on",
    ) {
        Some(true)
    } else if same(word, "0") || same(word, "false") || same(word, "no") || same(word, "n") || same(
        word,
        "off",
    ) {
        Some(false)
    } else {
        None
    }
}

/// What the value of `key` says as a switch, whatever its case; `default` where it says neither.
pub open spec fn switch_setting(
    vars: Map<Seq<char>, Seq<char>>,
    key: Seq<char>,
    default: bool,
) -> bool {
    match var_of(vars, key) {
        Some(raw) => match switch_of(lowercased(trimmed(raw))) {
            Some(on) => on,
            None => default,
        },
        None => default,
    }
}

/// What the value of `key` says as a switch, whatever its case; `default` where it says neither.
pub fn bool01(env: &EnvVars, key: &str, default: bool) -> (r: bool)
    ensures
        r == switch_setting(env@, key@, default),
{
    match env.get(key) {
        Some(raw) => {
            let word = lowercase(trim(raw.as_str()).as_str());
            match parse_switch(word.as_str()) {
                Some(on) => on,
                None => default,
            }
        },
        None => default,
    }
}

/// The `u64` under `key`, or `default` without one, brought into `min..=max`.
pub fn u64_clamped(env: &EnvVars, key: &str, default: u64, min: u64, max: u64) -> (r: u64)
    requires
        min <= max,
    ensures
        r == unsigned_setting(env@, key@, u64::MAX as nat, default as nat, min as nat, max as nat),
        min <= r <= max,
{
    let v: u64 = match get_u64(env, key) {
        Some(v) => v,
        None => default,
    };
    clamp_u64(v, min, max)
}

/// The `usize` under `key`, or `default` without one, brought into `min..=max`.
pub fn usize_clamped(env: &EnvVars, key: &str, default: usize, min: usize, max: usize) -> (r: usize)
    requires
        min <= max,
    ensures
        r == unsigned_setting(
            env@,
            key@,
            usize::MAX as nat,
            default as nat,
            min as nat,
            max as nat,
        ),
        min <= r <= max,
{
    let v: usize = match get_usize(env, key) {
        Some(v) => v,
        None => default,
    };
    clamp_u64(v as u64, min as u64, max as u64) as usize
}

/// The `u32` under `key`, or `default` without one, brought into `min..=max`.
pub fn u32_clamped(env: &EnvVars, key: &str, default: u32, min: u32, max: u32) -> (r: u32)
    requires
        min <= max,
    ensures
        r == unsigned_setting(env@, key@, u32::MAX as nat, default as nat, min as nat, max as nat),
        min <= r <= max,
{
    let v: u32 = match get_u32(env, key) {
        Some(v) => v,
        None => default,
    };
    clamp_u64(v as u64, min as u64, max as u64) as u32
}

/// The `u16` under `key`, or `default` without one, brought into `min..=max`.
pub fn u16_clamped(env: &EnvVars, key: &str, default: u16, min: u16, max: u16) -> (r: u16)
    requires
        min <= max,
    ensures
        r == unsigned_setting(env@, key@, u16::MAX as nat, default as nat, min as nat, max as nat),
        min <= r <= max,
{
    let v: u16 = match get_u16(env, key) {
        Some(v) => v,
        None => default,
    };
    clamp_u64(v as u64, min as u64, max as u64) as u16
}

/// The `i32` under `key`, or `default` without one, brought into `min..=max`.
pub fn i32_clamped(env: &EnvVars, key: &str, default: i32, min: i32, max: i32) -> (r: i32)
    requires
        min <= max,
    ensures
        r == signed_setting(
            env@,
            key@,
            i32::MIN as int,
            i32::MAX as int,
            default as int,
            min as int,
            max as int,
        ),
        min <= r <= max,
{
    let v: i32 = match get_i32(env, key) {
        Some(v) => v,
        None => default,
    };
    clamp_i64(v as i64, min as i64, max as i64) as i32
}

/// The `i64` under `key`, or `default` without one, brought into `min..=max`.
pub fn i64_clamped(env: &EnvVars, key: &str, default: i64, min: i64, max: i64) -> (r: i64)
    requires
        min <= max,
    ensures
        r == signed_setting(
            env@,
            key@,
            i64::MIN as int,
            i64::MAX as int,
            default as int,
            min as int,
            max as int,
        ),
        min <= r <= max,
{
    let v: i64 = match get_i64(env, key) {
        Some(v) => v,
        None => default,
    };
    clamp_i64(v, min, max)
}

/// `v` brought into `min..=max`.
pub fn clamp_u64(v: u64, min: u64, max: u64) -> (r: u64)
    requires
        min <= max,
    ensures
        r == clamped(v as int, min as int, max as int),
{
    if v < min {
        min
    } else if v > max {
        max
    } else {
        v
    }
}

/// `v` brought into `min..=max`.
pub fn clamp_i64(v: i64, min: i64, max: i64) -> (r: i64)
    requires
        min <= max,
    ensures
        r == clamped(v as int, min as int, max as int),
{
    if v < min {
        min
    } else if v > max {
        max
    } else {
        v
    }
}

/// The three numbers under `prefix` with the endings `_MIN_CHARS`, `_SOFT_MAX_CHARS` and
/// `_HARD_MAX_CHARS`, each in `1..=max_chars` and none below the one before it.
pub open spec fn triplet_setting(
    vars: Map<Seq<char>, Seq<char>>,
    prefix: Seq<char>,
    default_min: nat,
    default_soft: nat,
    default_hard: nat,
    max_chars: nat,
) -> (nat, nat, nat) {
    let top: nat = if max_chars < 1 {
        1
    } else {
        max_chars
    };
    let largest = usize::MAX as nat;
    let min = unsigned_setting(vars, prefix + "_MIN_CHARS"@, largest, default_min, 1, top);
    let soft = unsigned_setting(vars, prefix + "_SOFT_MAX_CHARS"@, largest, default_soft, 1, top);
    let soft = if soft < min {
        min
    } else {
        soft
    };
    let hard = unsigned_setting(vars, prefix + "_HARD_MAX_CHARS"@, largest, default_hard, 1, top);
    let hard = if hard < soft {
        soft
    } else {
        hard
    };
    (min, soft, hard)
}

/// The three thresholds under `prefix`, brought into order and into `1..=max_chars`.
pub fn usize_threshold_triplet(
    env: &EnvVars,
    prefix: &str,
    default_min_chars: usize,
    default_soft_max: usize,
    default_hard_max: usize,
    max_chars: usize,
) -> (r: (usize, usize, usize))
    ensures
        (r.0 as nat, r.1 as nat, r.2 as nat) == triplet_setting(
            env@,
            prefix@,
            default_min_chars as nat,
            default_soft_max as nat,
            default_hard_max as nat,
            max_chars as nat,
        ),
        1 <= r.0 <= r.1 <= r.2,
        max_chars >= 1 ==> r.2 <= max_chars,
{
    let top: usize = if max_chars < 1 {
        1
    } else {
        max_chars
    };
    let min_chars: usize = usize_clamped(
        env,
        prefix.to_string().concat("_MIN_CHARS").as_str(),
        default_min_chars,
        1,
        top,
    );
    let soft: usize = usize_clamped(
        env,
        prefix.to_string().concat("_SOFT_MAX_CHARS").as_str(),
        default_soft_max,
        1,
        top,
    );
    let soft_max: usize = if soft < min_chars {
        min_chars
    } else {
        soft
    };
    let hard: usize = usize_clamped(
        env,
        prefix.to_string().concat("_HARD_MAX_CHARS").as_str(),
        default_hard_max,
        1,
        top,
    );
    let hard_max: usize = if hard < soft_max {
        soft_max
    } else {
        hard
    };
    (min_chars, soft_max, hard_max)
}

/// A number is brought into its range, and kept where it lies in it.
pub proof fn law_clamping(v: int, min: int, max: int)
    requires
        min <= max,
    ensures
        min <= clamped(v, min, max) <= max,
        min <= v <= max ==> clamped(v, min, max) == v,
        v < min ==> clamped(v, min, max) == min,
        v > max ==> clamped(v, min, max) == max,
{
}

/// A number in the environment counts where it is one, the default where not; either is brought
/// into the range.
pub proof fn law_number_settings(
    vars: Map<Seq<char>, Seq<char>>,
    key: Seq<char>,
    largest: nat,
    default: nat,
    min: nat,
    max: nat,
)
    requires
        min <= max,
    ensures
        ({
            let r = unsigned_setting(vars, key, largest, default, min, max);
            let v = if vars.dom().contains(key) && unsigned_of(vars[key], largest) is Some {
                unsigned_of(vars[key], largest)->0
            } else {
                default
            };
            &&& min <= r <= max
            &&& min <= v <= max ==> r == v
            &&& v < min ==> r == min
            &&& v > max ==> r == max
        }),
        ({
            let (least, most) = (-(largest as int) - 1, largest as int);
            let r = signed_setting(vars, key, least, most, default as int, min as int, max as int);
            let v = if vars.dom().contains(key) && signed_of(vars[key], least, most) is Some {
                signed_of(vars[key], least, most)->0
            } else {
                default as int
            };
            &&& min <= r <= max
            &&& min <= v <= max ==> r == v
            &&& v < min ==> r == min
            &&& v > max ==> r == max
        }),
{
}

/// A text in the environment counts where it is not blank, without the white space round it; the
/// default where it is.
pub proof fn law_text_settings(
    vars: Map<Seq<char>, Seq<char>>,
    key: Seq<char>,
    default: Seq<char>,
)
    ensures
        vars.dom().contains(key) && trimmed(vars[key]).len() > 0 ==> text_var(vars, key) == Some(
            trimmed(vars[key]),
        ) && text_setting(vars, key, default) == trimmed(vars[key]),
        !vars.dom().contains(key) || trimmed(vars[key]).len() == 0 ==> text_var(vars, key) is None
            && text_setting(vars, key, default) == default,
{
}

/// Five words switch on and five switch off; no word does both.
pub proof fn law_switch_words(word: Seq<char>)
    ensures
        switch_of(word) == Some(true) <==> word == "1"@ || word == "true"@ || word == "yes"@ || word
            == "y"@ || word == "on"@,
        switch_of(word) == Some(false) <==> word == "0"@ || word == "false"@ || word == "no"@ || word
            == "n"@ || word == "off"@,
{
    reveal_strlit("1");
    reveal_strlit("true");
    reveal_strlit("yes");
    reveal_strlit("y");
    reveal_strlit("on");
    reveal_strlit("0");
    reveal_strlit("false");
    reveal_strlit("no");
    reveal_strlit("n");
    reveal_strlit("off");
    assert("1"@[0] == '1' && "true"@[0] == 't' && "yes"@[0] == 'y' && "y"@[0] == 'y' && "on"@[1]
        == 'n' && "on"@[0] == 'o');
    assert("0"@[0] == '0' && "false"@[0] == 'f' && "no"@[0] == 'n' && "n"@[0] == 'n' && "off"@[1]
        == 'f' && "off"@.len() == 3 && "on"@.len() == 2);
}

/// A switch in the environment counts where its word is one, whatever its case; the default where
/// not.
pub proof fn law_switch_settings(vars: Map<Seq<char>, Seq<char>>, key: Seq<char>, default: bool)
    ensures
        ({
            let word = lowercased(trimmed(vars[key]));
            let says = vars.dom().contains(key) && switch_of(word) is Some;
            &&& says ==> switch_setting(vars, key, default) == switch_of(word)->0
            &&& !says ==> switch_setting(vars, key, default) == default
        }),
{
}

/// Three thresholds are in order and in their range; those in the environment count as far as
/// they are, and one that is too small is raised to the one before it.
pub proof fn law_threshold_settings(
    vars: Map<Seq<char>, Seq<char>>,
    prefix: Seq<char>,
    default_min: nat,
    default_soft: nat,
    default_hard: nat,
    max_chars: nat,
)
    requires
        max_chars >= 1,
    ensures
        ({
            let (min, soft, hard) = triplet_setting(
                vars,
                prefix,
                default_min,
                default_soft,
                default_hard,
                max_chars,
            );
            let given = |ending: Seq<char>, default: nat| match unsigned_var(
                vars,
                prefix + ending,
                usize::MAX as nat,
            ) {
                Some(v) => v,
                None => default,
            };
            let a = given("_MIN_CHARS"@, default_min);
            let b = given("_SOFT_MAX_CHARS"@, default_soft);
            let c = given("_HARD_MAX_CHARS"@, default_hard);
            &&& 1 <= min <= soft <= hard <= max_chars
            &&& 1 <= a <= max_chars ==> min == a
            &&& min <= b <= max_chars ==> soft == b
            &&& b < min ==> soft == min
            &&& soft <= c <= max_chars ==> hard == c
            &&& c < soft ==> hard == soft
            &&& a > max_chars ==> min == max_chars
            &&& b > max_chars ==> soft == max_chars
            &&& c > max_chars ==> hard == max_chars
        }),
{
}

/// What was set last under a key counts; other keys are not touched.
pub proof fn law_last_setting_counts(
    entries: Seq<(String, String)>,
    entry: (String, String),
    key: Seq<char>,
)
    ensures
        key == entry.0@ ==> var_of(vars_of(entries.push(entry)), key) == Some(entry.1@),
        key != entry.0@ ==> var_of(vars_of(entries.push(entry)), key) == var_of(
            vars_of(entries),
            key,
        ),
        var_of(vars_of(Seq::empty()), key) is None,
{
    assert(entries.push(entry).drop_last() =~= entries);
}

} // verus!
