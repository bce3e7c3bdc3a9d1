//! Text as a sequence of characters.

use vstd::prelude::*;
use vstd::string::*;
use vstd::utf8::*;

verus! {

/// `String::push` of std: the character goes to the end of the text.
pub assume_specification[ String::push ](s: &mut String, ch: char)
    ensures
        final(s)@ == old(s)@.push(ch),
;

/// Whether `s` holds ASCII characters only.
pub open spec fn is_ascii_text(s: Seq<char>) -> bool {
    forall|i: int| 0 <= i < s.len() ==> #[trigger] s[i] <= '\u{7f}'
}

/// The lower-case text that Unicode gives for `s`.
pub uninterp spec fn unicode_lowercase(s: Seq<char>) -> Seq<char>;

/// `s` in lower case.
pub open spec fn lowercased(s: Seq<char>) -> Seq<char> {
    if is_ascii_text(s) {
        ascii_lowercased(s)
    } else {
        unicode_lowercase(s)
    }
}

/// `str::to_lowercase` of std, whose result is a function of the text alone; of ASCII text it is
/// the text with the letters `A` to `Z` as `a` to `z`.
#[verifier::external_body]
pub(crate) fn lowercase(s: &str) -> (r: String)
    ensures
        is_ascii_text(s@) ==> r@ == ascii_lowercased(s@),
        !is_ascii_text(s@) ==> r@ == unicode_lowercase(s@),
{
    s.to_lowercase()
}

/// The characters with the Unicode property `White_Space`.
pub open spec fn is_white(c: char) -> bool {
    ||| '\u{9}' <= c <= '\u{d}'
    ||| c == ' '
    ||| c == '\u{85}'
    ||| c == '\u{a0}'
    ||| c == '\u{1680}'
    ||| '\u{2000}' <= c <= '\u{200a}'
    ||| c == '\u{2028}'
    ||| c == '\u{2029}'
    ||| c == '\u{202f}'
    ||| c == '\u{205f}'
    ||| c == '\u{3000}'
}

/// Whether `c` has the Unicode property `White_Space`.
pub fn is_white_space(c: char) -> (r: bool)
    ensures
        r == is_white(c),
{
    ('\u{9}' <= c && c <= '\u{d}') || c == ' ' || c == '\u{85}' || c == '\u{a0}' || c == '\u{1680}'
        || ('\u{2000}' <= c && c <= '\u{200a}') || c == '\u{2028}' || c == '\u{2029}' || c
        == '\u{202f}' || c == '\u{205f}' || c == '\u{3000}'
}

/// `s` without the white space that it starts with.
pub open spec fn trimmed_start(s: Seq<char>) -> Seq<char>
    decreases s.len(),
{
    if s.len() > 0 && is_white(s[0]) {
        trimmed_start(s.skip(1))
    } else {
        s
    }
}

/// `s` without the white space that it ends with.
pub open spec fn trimmed_end(s: Seq<char>) -> Seq<char>
    decreases s.len(),
{
    if s.len() > 0 && is_white(s.last()) {
        trimmed_end(s.drop_last())
    } else {
        s
    }
}

/// `s` without the white space at its two ends.
pub open spec fn trimmed(s: Seq<char>) -> Seq<char> {
    trimmed_end(trimmed_start(s))
}

/// The characters of `s`, in order.
pub fn chars_of(s: &str) -> (r: Vec<char>)
    ensures
        r@ == s@,
{
    let mut out: Vec<char> = Vec::new();
    for c in iter: s.chars()
        invariant
            out@ == iter.seq().take(iter.index()),
    {
        out.push(c);
    }
    out
}

/// The text made of the characters `from..to` of `chars`.
pub fn text_of(chars: &Vec<char>, from: usize, to: usize) -> (r: String)
    requires
        from <= to <= chars@.len(),
    ensures
        r@ == chars@.subrange(from as int, to as int),
{
    let mut out = String::new();
    let mut i: usize = from;
    while i < to
        invariant
            from <= i <= to <= chars@.len(),
            out@ == chars@.subrange(from as int, i as int),
        decreases to - i,
    {
        out.push(chars[i]);
        i += 1;
    }
    out
}

/// `str::trim`: the text without the white space at its two ends.
pub fn trim(s: &str) -> (r: String)
    ensures
        r@ == trimmed(s@),
{
    let chars = chars_of(s);
    let mut from: usize = 0;
    proof {
        assert(chars@.skip(0) =~= chars@);
    }
    while from < chars.len() && is_white_space(chars[from])
        invariant
            from <= chars@.len(),
            trimmed_start(chars@) == trimmed_start(chars@.skip(from as int)),
        decreases chars@.len() - from,
    {
        proof {
            assert(chars@.skip(from as int).skip(1) =~= chars@.skip(from + 1));
        }
        from += 1;
    }
    let mut to: usize = chars.len();
    proof {
        assert(chars@.skip(from as int) =~= chars@.subrange(from as int, to as int));
    }
    while to > from && is_white_space(chars[to - 1])
        invariant
            from <= to <= chars@.len(),
            trimmed(s@) == trimmed_end(chars@.subrange(from as int, to as int)),
        decreases to,
    {
        proof {
            assert(chars@.subrange(from as int, to as int).drop_last() =~= chars@.subrange(
                from as int,
                to - 1,
            ));
        }
        to -= 1;
    }
    text_of(&chars, from, to)
}

/// `str::trim_start_matches` with one character: `s` without the run of `c` that it starts with.
pub open spec fn without_leading(s: Seq<char>, c: char) -> Seq<char>
    decreases s.len(),
{
    if s.len() > 0 && s[0] == c {
        without_leading(s.skip(1), c)
    } else {
        s
    }
}

/// `str::trim_end_matches` with one character: `s` without the run of `c` that it ends with.
pub open spec fn without_trailing(s: Seq<char>, c: char) -> Seq<char>
    decreases s.len(),
{
    if s.len() > 0 && s.last() == c {
        without_trailing(s.drop_last(), c)
    } else {
        s
    }
}

/// The text without the run of `c` that it starts with.
pub fn drop_leading(s: &str, c: char) -> (r: String)
    ensures
        r@ == without_leading(s@, c),
{
    let chars = chars_of(s);
    let mut from: usize = 0;
    proof {
        assert(chars@.skip(0) =~= chars@);
    }
    while from < chars.len() && chars[from] == c
        invariant
            from <= chars@.len(),
            without_leading(chars@, c) == without_leading(chars@.skip(from as int), c),
        decreases chars@.len() - from,
    {
        proof {
            assert(chars@.skip(from as int).skip(1) =~= chars@.skip(from + 1));
        }
        from += 1;
    }
    let to: usize = chars.len();
    proof {
        assert(chars@.skip(from as int) =~= chars@.subrange(from as int, to as int));
    }
    text_of(&chars, from, to)
}

/// The text without the run of `c` that it ends with.
pub fn drop_trailing(s: &str, c: char) -> (r: String)
    ensures
        r@ == without_trailing(s@, c),
{
    let chars = chars_of(s);
    let mut to: usize = chars.len();
    proof {
        assert(chars@.take(to as int) =~= chars@);
    }
    while to > 0 && chars[to - 1] == c
        invariant
            to <= chars@.len(),
            without_trailing(chars@, c) == without_trailing(chars@.take(to as int), c),
        decreases to,
    {
        proof {
            assert(chars@.take(to as int).drop_last() =~= chars@.take(to - 1));
        }
        to -= 1;
    }
    proof {
        assert(chars@.take(to as int) =~= chars@.subrange(0, to as int));
    }
    text_of(&chars, 0, to)
}

/// Whether two texts hold the same characters.
pub fn same(a: &str, b: &str) -> (r: bool)
    ensures
        r == (a@ == b@),
{
    let x = chars_of(a);
    let y = chars_of(b);
    if x.len() != y.len() {
        return false;
    }
    proof {
        assert(x@.subrange(0, x@.len() as int) =~= x@);
    }
    starts_at(&x, &y, 0)
}

/// Whether `part` stands in `chars` from position `at` on.
fn starts_at(chars: &Vec<char>, part: &Vec<char>, at: usize) -> (r: bool)
    requires
        at + part@.len() <= chars@.len(),
    ensures
        r == (chars@.subrange(at as int, at + part@.len()) == part@),
{
    let mut i: usize = 0;
    let end: usize = chars.len();
    while i < part.len()
        invariant
            i <= part@.len(),
            at + part@.len() <= chars@.len() == end,
            forall|k: int| 0 <= k < i ==> chars@[at + k] == part@[k],
        decreases part@.len() - i,
    {
        if chars[at + i] != part[i] {
            proof {
                assert(chars@.subrange(at as int, at + part@.len())[i as int] != part@[i as int]);
            }
            return false;
        }
        i += 1;
    }
    proof {
        assert(chars@.subrange(at as int, at + part@.len()) =~= part@);
    }
    true
}

/// `str::starts_with`.
pub fn starts_with(s: &str, prefix: &str) -> (r: bool)
    ensures
        r == prefix@.is_prefix_of(s@),
{
    let x = chars_of(s);
    let y = chars_of(prefix);
    if y.len() > x.len() {
        return false;
    }
    starts_at(&x, &y, 0)
}

/// `str::ends_with`.
pub fn ends_with(s: &str, suffix: &str) -> (r: bool)
    ensures
        r == suffix@.is_suffix_of(s@),
{
    let x = chars_of(s);
    let y = chars_of(suffix);
    if y.len() > x.len() {
        return false;
    }
    starts_at(&x, &y, x.len() - y.len())
}

/// `s` without `prefix`, where it starts with it.
pub open spec fn without_prefix(s: Seq<char>, prefix: Seq<char>) -> Seq<char> {
    if prefix.is_prefix_of(s) {
        s.skip(prefix.len() as int)
    } else {
        s
    }
}

/// The text without `prefix`, where it starts with it.
pub fn drop_prefix(s: &str, prefix: &str) -> (r: String)
    ensures
        r@ == without_prefix(s@, prefix@),
{
    let x = chars_of(s);
    let y = chars_of(prefix);
    let end: usize = x.len();
    if y.len() <= end && starts_at(&x, &y, 0) {
        proof {
            assert(s@.skip(y@.len() as int) =~= s@.subrange(y@.len() as int, end as int));
        }
        text_of(&x, y.len(), end)
    } else {
        s.to_string()
    }
}

/// Whether `part` stands somewhere in `s`.
pub open spec fn holds_part(s: Seq<char>, part: Seq<char>) -> bool {
    exists|at: int|
        0 <= at && at + part.len() <= s.len() && #[trigger] s.subrange(at, at + part.len()) == part
}

/// `str::contains` with a text.
pub fn contains_text(s: &str, part: &str) -> (r: bool)
    ensures
        r == holds_part(s@, part@),
{
    let x = chars_of(s);
    let y = chars_of(part);
    if y.len() > x.len() {
        return false;
    }
    let last: usize = x.len() - y.len();
    let mut at: usize = 0;
    while at < last
        invariant
            x@ == s@,
            y@ == part@,
            last + y@.len() == x@.len(),
            at <= last,
            forall|k: int|
                0 <= k < at ==> #[trigger] s@.subrange(k, k + part@.len()) != part@,
        decreases last - at,
    {
        if starts_at(&x, &y, at) {
            return true;
        }
        at += 1;
    }
    starts_at(&x, &y, last)
}

/// `str::contains` with a character.
pub fn contains_char(s: &str, c: char) -> (r: bool)
    ensures
        r == s@.contains(c),
{
    let chars = chars_of(s);
    let mut i: usize = 0;
    while i < chars.len()
        invariant
            chars@ == s@,
            i <= chars@.len(),
            forall|k: int| 0 <= k < i ==> chars@[k] != c,
        decreases chars@.len() - i,
    {
        if chars[i] == c {
            proof {
                assert(s@[i as int] == c);
            }
            return true;
        }
        i += 1;
    }
    false
}

/// What follows the last `c` of `s`; all of `s` where `c` does not occur.
pub open spec fn after_last(s: Seq<char>, c: char) -> Seq<char>
    decreases s.len(),
{
    if s.len() == 0 || s.last() == c {
        Seq::empty()
    } else {
        after_last(s.drop_last(), c).push(s.last())
    }
}

/// What follows the last `c` of the text; all of it where `c` does not occur.
pub fn tail_after_last(s: &str, c: char) -> (r: String)
    ensures
        r@ == after_last(s@, c),
{
    let chars = chars_of(s);
    let end: usize = chars.len();
    let mut i: usize = end;
    proof {
        assert(chars@.take(end as int) =~= chars@);
    }
    while i > 0 && chars[i - 1] != c
        invariant
            i <= end == chars@.len(),
            after_last(chars@, c) =~= after_last(chars@.take(i as int), c) + chars@.subrange(
                i as int,
                end as int,
            ),
        decreases i,
    {
        proof {
            assert(chars@.take(i as int).drop_last() =~= chars@.take(i - 1));
        }
        i -= 1;
    }
    text_of(&chars, i, end)
}

/// `s` with every `from` replaced by `to`.
pub open spec fn replaced(s: Seq<char>, from: char, to: char) -> Seq<char> {
    s.map_values(
        |c: char|
            if c == from {
                to
            } else {
                c
            },
    )
}

/// `str::replace` of one character by another.
pub fn replace_char(s: &str, from: char, to: char) -> (r: String)
    ensures
        r@ == replaced(s@, from, to),
{
    let mut out = String::new();
    for c in iter: s.chars()
        invariant
            out@ == replaced(iter.seq().take(iter.index()), from, to),
    {
        out.push(
            if c == from {
                to
            } else {
                c
            },
        );
    }
    out
}

/// The ASCII lower-case letter of an ASCII upper-case letter; any other character as it is.
pub open spec fn ascii_lower(c: char) -> char {
    if 'A' <= c <= 'Z' {
        ((c as u32 + 32) as u32) as char
    } else {
        c
    }
}

/// `char::to_ascii_lowercase`.
pub fn to_ascii_lower(c: char) -> (r: char)
    ensures
        r == ascii_lower(c),
{
    if 'A' <= c && c <= 'Z' {
        ((c as u8) + 32) as char
    } else {
        c
    }
}

/// `s` with its ASCII letters in lower case.
pub open spec fn ascii_lowercased(s: Seq<char>) -> Seq<char> {
    s.map_values(|c: char| ascii_lower(c))
}

/// `str::to_ascii_lowercase`.
pub fn ascii_lowercase(s: &str) -> (r: String)
    ensures
        r@ == ascii_lowercased(s@),
{
    let mut out = String::new();
    for c in iter: s.chars()
        invariant
            out@ == ascii_lowercased(iter.seq().take(iter.index())),
    {
        out.push(to_ascii_lower(c));
    }
    out
}

/// The number of bytes of `c` in UTF-8.
pub open spec fn width(c: char) -> nat {
    encode_scalar(c as u32).len()
}

/// `char::len_utf8`.
pub fn char_width(c: char) -> (r: usize)
    ensures
        r == width(c),
        1 <= r <= 4,
{
    broadcast use vstd::utf8::char_is_scalar;

    let v: u32 = c as u32;
    if v < 0x80 {
        1
    } else if v < 0x800 {
        2
    } else if v < 0x10000 {
        3
    } else {
        4
    }
}

/// The number of bytes of a text in UTF-8.
pub open spec fn byte_len(s: Seq<char>) -> nat {
    encode_utf8(s).len()
}

/// The bytes of two texts stand one behind the other.
pub proof fn lemma_encode_concat(a: Seq<char>, b: Seq<char>)
    ensures
        encode_utf8(a + b) == encode_utf8(a) + encode_utf8(b),
    decreases a.len(),
{
    if a.len() == 0 {
        assert(a + b =~= b);
        assert(encode_utf8(a) + encode_utf8(b) =~= encode_utf8(b));
    } else {
        assert((a + b).drop_first() =~= a.drop_first() + b);
        lemma_encode_concat(a.drop_first(), b);
        assert(encode_utf8(a + b) =~= encode_utf8(a) + encode_utf8(b));
    }
}

/// A text's bytes are those of its first `n` characters and those of the rest.
pub proof fn lemma_byte_len_split(s: Seq<char>, n: int)
    requires
        0 <= n <= s.len(),
    ensures
        byte_len(s) == byte_len(s.take(n)) + byte_len(s.skip(n)),
{
    assert(s =~= s.take(n) + s.skip(n));
    lemma_encode_concat(s.take(n), s.skip(n));
}

/// One more character adds its own bytes.
pub proof fn lemma_byte_len_push(s: Seq<char>, c: char)
    ensures
        byte_len(s.push(c)) == byte_len(s) + width(c),
{
    assert(s.push(c) =~= s + seq![c]);
    lemma_encode_concat(s, seq![c]);
    assert(seq![c].drop_first() =~= Seq::<char>::empty());
    reveal_with_fuel(encode_utf8, 2);
    assert(encode_utf8(seq![c]) =~= encode_scalar(c as u32));
}

/// More characters have more bytes.
pub proof fn lemma_byte_len_grows(s: Seq<char>, a: int, b: int)
    requires
        0 <= a < b <= s.len(),
    ensures
        byte_len(s.take(a)) < byte_len(s.take(b)),
    decreases b,
{
    broadcast use vstd::utf8::char_is_scalar;

    assert(s.take(b) =~= s.take(b - 1).push(s[b - 1]));
    lemma_byte_len_push(s.take(b - 1), s[b - 1]);
    if a < b - 1 {
        lemma_byte_len_grows(s, a, b - 1);
    }
}

/// Whether the first `count` characters of `s` have `at` bytes.
pub open spec fn bytes_before(s: Seq<char>, count: int, at: nat) -> bool {
    0 <= count <= s.len() && byte_len(s.take(count)) == at
}

/// `String::split_off`: the text before byte `at`, and the text from there on.
pub fn split_at_byte(s: &str, at: usize) -> (r: (String, String))
    requires
        exists|count: int| bytes_before(s@, count, at as nat),
    ensures
        r.0@ + r.1@ == s@,
        byte_len(r.0@) == at,
        forall|count: int|
            bytes_before(s@, count, at as nat) ==> r.0@ == s@.take(count) && r.1@ == s@.skip(count),
{
    let ghost count = choose|count: int| bytes_before(s@, count, at as nat);
    let chars = chars_of(s);
    let end: usize = chars.len();
    let mut i: usize = 0;
    let mut bytes: usize = 0;
    proof {
        assert(s@.take(0) =~= Seq::<char>::empty());
    }
    while bytes < at
        invariant
            chars@ == s@,
            end == chars@.len(),
            bytes_before(s@, count, at as nat),
            i <= count,
            bytes == byte_len(s@.take(i as int)),
            bytes <= at,
        decreases count - i,
    {
        proof {
            if i == count {
                assert(false);
            }
            assert(s@.take(i + 1) =~= s@.take(i as int).push(s@[i as int]));
            lemma_byte_len_push(s@.take(i as int), s@[i as int]);
            if i + 1 < count {
                lemma_byte_len_grows(s@, i + 1, count);
            }
        }
        bytes += char_width(chars[i]);
        i += 1;
    }
    proof {
        if i < count {
            lemma_byte_len_grows(s@, i as int, count);
        }
        assert forall|other: int| bytes_before(s@, other, at as nat) implies other == count by {
            if other < count {
                lemma_byte_len_grows(s@, other, count);
            } else if other > count {
                lemma_byte_len_grows(s@, count, other);
            }
        }
        assert(s@.subrange(0, i as int) =~= s@.take(i as int));
        assert(s@.subrange(i as int, end as int) =~= s@.skip(i as int));
        assert(s@.take(i as int) + s@.skip(i as int) =~= s@);
    }
    (text_of(&chars, 0, i), text_of(&chars, i, end))
}

/// Whether `a` comes before `b` in the order of their characters, or is equal to it.
pub open spec fn ordered(a: Seq<char>, b: Seq<char>) -> bool
    decreases a.len(),
{
    if a.len() == 0 {
        true
    } else if b.len() == 0 {
        false
    } else if a[0] == b[0] {
        ordered(a.skip(1), b.skip(1))
    } else {
        a[0] < b[0]
    }
}

/// Whether `a` comes before `b` in the order of their characters, or is equal to it.
pub fn comes_before(a: &str, b: &str) -> (r: bool)
    ensures
        r == ordered(a@, b@),
{
    let x = chars_of(a);
    let y = chars_of(b);
    let mut i: usize = 0;
    proof {
        assert(x@.skip(0) =~= x@);
        assert(y@.skip(0) =~= y@);
    }
    while i < x.len() && i < y.len()
        invariant
            x@ == a@,
            y@ == b@,
            i <= x@.len(),
            i <= y@.len(),
            ordered(a@, b@) == ordered(x@.skip(i as int), y@.skip(i as int)),
        decreases x@.len() - i,
    {
        proof {
            assert(x@.skip(i as int).skip(1) =~= x@.skip(i + 1));
            assert(y@.skip(i as int).skip(1) =~= y@.skip(i + 1));
        }
        if x[i] != y[i] {
            return x[i] < y[i];
        }
        i += 1;
    }
    i == x.len()
}

/// Any two texts are in order, one way or the other.
pub proof fn lemma_ordered_total(a: Seq<char>, b: Seq<char>)
    ensures
        ordered(a, b) || ordered(b, a),
    decreases a.len(),
{
    if a.len() > 0 && b.len() > 0 && a[0] == b[0] {
        lemma_ordered_total(a.skip(1), b.skip(1));
    }
}

/// The order of texts carries over.
pub proof fn lemma_ordered_transitive(a: Seq<char>, b: Seq<char>, c: Seq<char>)
    requires
        ordered(a, b),
        ordered(b, c),
    ensures
        ordered(a, c),
    decreases a.len(),
{
    if a.len() > 0 && b.len() > 0 && c.len() > 0 && a[0] == b[0] && b[0] == c[0] {
        lemma_ordered_transitive(a.skip(1), b.skip(1), c.skip(1));
    }
}

/// Whether texts stand in order.
pub open spec fn in_order(list: Seq<Seq<char>>) -> bool {
    forall|i: int, j: int| 0 <= i <= j < list.len() ==> ordered(#[trigger] list[i], #[trigger] list[j])
}

/// Texts as characters.
pub open spec fn spelled(list: Seq<String>) -> Seq<Seq<char>> {
    list.map_values(|s: String| s@)
}

/// A text is in order with itself.
pub proof fn lemma_ordered_same(a: Seq<char>)
    ensures
        ordered(a, a),
    decreases a.len(),
{
    if a.len() > 0 {
        lemma_ordered_same(a.skip(1));
    }
}

/// Puts a text into its place in an ordered list.
fn insert_ordered(list: &mut Vec<String>, text: String)
    requires
        in_order(spelled(old(list)@)),
    ensures
        in_order(spelled(final(list)@)),
        spelled(final(list)@).to_multiset() == spelled(old(list)@).to_multiset().insert(text@),
{
    let ghost before = spelled(list@);
    let mut at: usize = list.len();
    while at > 0 && !comes_before(list[at - 1].as_str(), text.as_str())
        invariant
            at <= list@.len(),
            before == spelled(list@),
            in_order(before),
            forall|k: int| at <= k < list@.len() ==> ordered(text@, #[trigger] before[k]),
        decreases at,
    {
        proof {
            lemma_ordered_total(text@, before[at - 1]);
        }
        at -= 1;
    }
    list.insert(at, text);
    proof {
        let after = spelled(list@);
        assert(after =~= before.insert(at as int, text@));
        assert forall|i: int, j: int| 0 <= i <= j < after.len() implies ordered(
            #[trigger] after[i],
            #[trigger] after[j],
        ) by {
            if i == j {
                lemma_ordered_same(after[i]);
            } else if i < at && j == at {
                lemma_ordered_transitive(before[i], before[at - 1], text@);
            } else if i == at {
                assert(after[j] == before[j - 1]);
            } else if j > at {
                assert(after[j] == before[j - 1]);
                if i > at {
                    assert(after[i] == before[i - 1]);
                }
            }
        }
        vstd::seq_lib::to_multiset_insert(before, at as int, text@);
    }
}

/// The texts in order.
pub fn sort_texts(list: &Vec<String>) -> (r: Vec<String>)
    ensures
        in_order(spelled(r@)),
        spelled(r@).to_multiset() == spelled(list@).to_multiset(),
{
    let mut out: Vec<String> = Vec::new();
    let mut i: usize = 0;
    proof {
        assert(spelled(out@) =~= spelled(list@.take(0)));
    }
    while i < list.len()
        invariant
            i <= list@.len(),
            in_order(spelled(out@)),
            spelled(out@).to_multiset() == spelled(list@.take(i as int)).to_multiset(),
        decreases list@.len() - i,
    {
        insert_ordered(&mut out, list[i].clone());
        proof {
            let before = spelled(list@.take(i as int));
            assert(spelled(list@.take(i + 1)) =~= before.push(list@[i as int]@));
            vstd::seq_lib::to_multiset_build(before, list@[i as int]@);
        }
        i += 1;
    }
    proof {
        assert(list@.take(i as int) =~= list@);
    }
    out
}

/// The white space characters, one by one.
pub proof fn law_white_characters(c: char)
    ensures
        is_white(c) <==> seq![
            '\t',
            '\n',
            '\u{b}',
            '\u{c}',
            '\r',
            ' ',
            '\u{85}',
            '\u{a0}',
            '\u{1680}',
            '\u{2000}',
            '\u{2001}',
            '\u{2002}',
            '\u{2003}',
            '\u{2004}',
            '\u{2005}',
            '\u{2006}',
            '\u{2007}',
            '\u{2008}',
            '\u{2009}',
            '\u{200a}',
            '\u{2028}',
            '\u{2029}',
            '\u{202f}',
            '\u{205f}',
            '\u{3000}',
        ].contains(c),
{
    let all = seq![
        '\t',
        '\n',
        '\u{b}',
        '\u{c}',
        '\r',
        ' ',
        '\u{85}',
        '\u{a0}',
        '\u{1680}',
        '\u{2000}',
        '\u{2001}',
        '\u{2002}',
        '\u{2003}',
        '\u{2004}',
        '\u{2005}',
        '\u{2006}',
        '\u{2007}',
        '\u{2008}',
        '\u{2009}',
        '\u{200a}',
        '\u{2028}',
        '\u{2029}',
        '\u{202f}',
        '\u{205f}',
        '\u{3000}',
    ];
    assert(all[0] == '\u{9}' && all[1] == '\u{a}' && all[2] == '\u{b}' && all[3] == '\u{c}'
        && all[4] == '\u{d}' && all[5] == ' ' && all[6] == '\u{85}' && all[7] == '\u{a0}' && all[8]
        == '\u{1680}');
    assert(all[9] == '\u{2000}' && all[10] == '\u{2001}' && all[11] == '\u{2002}' && all[12]
        == '\u{2003}' && all[13] == '\u{2004}' && all[14] == '\u{2005}' && all[15] == '\u{2006}'
        && all[16] == '\u{2007}' && all[17] == '\u{2008}' && all[18] == '\u{2009}' && all[19]
        == '\u{200a}');
    assert(all[20] == '\u{2028}' && all[21] == '\u{2029}' && all[22] == '\u{202f}' && all[23]
        == '\u{205f}' && all[24] == '\u{3000}');
}

/// Where the text without the white space at its start begins.
proof fn lemma_trimmed_start_at(s: Seq<char>) -> (a: int)
    ensures
        0 <= a <= s.len(),
        trimmed_start(s) == s.skip(a),
        forall|i: int| 0 <= i < a ==> is_white(#[trigger] s[i]),
        a < s.len() ==> !is_white(s[a]),
    decreases s.len(),
{
    if s.len() > 0 && is_white(s[0]) {
        let tail = s.skip(1);
        let a = lemma_trimmed_start_at(tail);
        assert(tail.skip(a) =~= s.skip(a + 1));
        assert forall|i: int| 0 <= i < a + 1 implies is_white(#[trigger] s[i]) by {
            if i > 0 {
                assert(tail[i - 1] == s[i]);
            }
        }
        a + 1
    } else {
        assert(s.skip(0) =~= s);
        0
    }
}

/// Where the text without the white space at its end stops.
proof fn lemma_trimmed_end_at(s: Seq<char>) -> (b: int)
    ensures
        0 <= b <= s.len(),
        trimmed_end(s) == s.take(b),
        forall|i: int| b <= i < s.len() ==> is_white(#[trigger] s[i]),
        b > 0 ==> !is_white(s[b - 1]),
    decreases s.len(),
{
    if s.len() > 0 && is_white(s.last()) {
        let head = s.drop_last();
        let b = lemma_trimmed_end_at(head);
        assert(head.take(b) =~= s.take(b));
        assert forall|i: int| b <= i < s.len() implies is_white(#[trigger] s[i]) by {
            if i < s.len() - 1 {
                assert(head[i] == s[i]);
            }
        }
        b
    } else {
        assert(s.take(s.len() as int) =~= s);
        s.len() as int
    }
}

/// Trimming keeps a stretch of the text that has white space at neither end, with nothing but
/// white space outside of it; nothing is left exactly where all of the text is white space.
pub proof fn law_trimming(s: Seq<char>)
    ensures
        exists|a: int, b: int|
            0 <= a <= b <= s.len() && trimmed(s) == #[trigger] s.subrange(a, b) && (forall|i: int|
                (0 <= i < a || b <= i < s.len()) ==> is_white(#[trigger] s[i])),
        trimmed(s).len() > 0 ==> !is_white(trimmed(s)[0]) && !is_white(trimmed(s).last()),
        trimmed(s).len() == 0 <==> forall|i: int| 0 <= i < s.len() ==> is_white(#[trigger] s[i]),
{
    let a = lemma_trimmed_start_at(s);
    let tail = s.skip(a);
    let b = lemma_trimmed_end_at(tail);
    assert(tail.take(b) =~= s.subrange(a, a + b));
    assert forall|i: int| (0 <= i < a || a + b <= i < s.len()) implies is_white(
        #[trigger] s[i],
    ) by {
        if i >= a {
            assert(tail[i - a] == s[i]);
        }
    }
    if b > 0 {
        assert(tail[0] == s[a]);
        assert(tail[b - 1] == s[a + b - 1]);
        if a < s.len() {
            assert(!is_white(s[a]));
        }
    }
}

/// What is left behind the run of a character at the start does not start with it, and what was
/// dropped is that run alone.
pub proof fn law_leading_run(s: Seq<char>, c: char)
    ensures
        without_leading(s, c).len() <= s.len(),
        without_leading(s, c) == s.skip(s.len() - without_leading(s, c).len()),
        forall|i: int| 0 <= i < s.len() - without_leading(s, c).len() ==> #[trigger] s[i] == c,
        without_leading(s, c).len() > 0 ==> without_leading(s, c)[0] != c,
    decreases s.len(),
{
    if s.len() > 0 && s[0] == c {
        let tail = s.skip(1);
        law_leading_run(tail, c);
        let rest = without_leading(s, c);
        assert(tail.skip(tail.len() - rest.len()) =~= s.skip(s.len() - rest.len()));
        assert forall|i: int| 0 <= i < s.len() - rest.len() implies #[trigger] s[i] == c by {
            if i > 0 {
                assert(tail[i - 1] == s[i]);
            }
        }
    } else {
        assert(s.skip(0) =~= s);
    }
}

/// The same at the end.
pub proof fn law_trailing_run(s: Seq<char>, c: char)
    ensures
        without_trailing(s, c).len() <= s.len(),
        without_trailing(s, c) == s.take(without_trailing(s, c).len() as int),
        forall|i: int| without_trailing(s, c).len() <= i < s.len() ==> #[trigger] s[i] == c,
        without_trailing(s, c).len() > 0 ==> without_trailing(s, c).last() != c,
    decreases s.len(),
{
    if s.len() > 0 && s.last() == c {
        let head = s.drop_last();
        law_trailing_run(head, c);
        let rest = without_trailing(s, c);
        assert(head.take(rest.len() as int) =~= s.take(rest.len() as int));
        assert forall|i: int| rest.len() <= i < s.len() implies #[trigger] s[i] == c by {
            if i < s.len() - 1 {
                assert(head[i] == s[i]);
            }
        }
    } else {
        assert(s.take(s.len() as int) =~= s);
    }
}

/// What follows the last of a character is the end of the text that holds none of it, as far as
/// it goes.
pub proof fn law_after_the_last(s: Seq<char>, c: char)
    ensures
        after_last(s, c).len() <= s.len(),
        after_last(s, c) == s.skip(s.len() - after_last(s, c).len()),
        !after_last(s, c).contains(c),
        after_last(s, c).len() < s.len() ==> s[s.len() - after_last(s, c).len() - 1] == c,
    decreases s.len(),
{
    if s.len() > 0 && s.last() != c {
        let head = s.drop_last();
        law_after_the_last(head, c);
        let tail = after_last(head, c);
        let all = after_last(s, c);
        assert(all =~= s.skip(s.len() - all.len())) by {
            assert forall|i: int| 0 <= i < tail.len() implies all[i] == s[s.len() - all.len() + i] by {
                assert(all[i] == tail[i]);
                assert(tail[i] == head.skip(head.len() - tail.len())[i]);
            }
        }
        assert forall|i: int| 0 <= i < all.len() implies all[i] != c by {
            if i < tail.len() {
                assert(all[i] == tail[i]);
                assert(tail.contains(tail[i]));
            }
        }
    } else {
        assert(s.skip(s.len() as int) =~= Seq::<char>::empty());
    }
}

/// A prefix is taken off once where it is there, and nothing else is.
pub proof fn law_prefix_is_taken_off(prefix: Seq<char>, rest: Seq<char>, s: Seq<char>)
    ensures
        without_prefix(prefix + rest, prefix) == rest,
        !prefix.is_prefix_of(s) ==> without_prefix(s, prefix) == s,
{
    let all = prefix + rest;
    assert(all.subrange(0, prefix.len() as int) =~= prefix);
    assert(all.skip(prefix.len() as int) =~= rest);
}

/// Replacing a character changes that one alone, wherever it stands.
pub proof fn law_replacing(s: Seq<char>, from: char, to: char, i: int)
    requires
        0 <= i < s.len(),
    ensures
        replaced(s, from, to).len() == s.len(),
        s[i] == from ==> replaced(s, from, to)[i] == to,
        s[i] != from ==> replaced(s, from, to)[i] == s[i],
{
}

/// Only the 26 upper-case ASCII letters change, each into the letter of the same place.
pub proof fn law_ascii_lower_case(c: char)
    ensures
        'A' <= c <= 'Z' ==> ascii_lower(c) as u32 - 'a' as u32 == c as u32 - 'A' as u32,
        !('A' <= c <= 'Z') ==> ascii_lower(c) == c,
{
}

/// Texts are ordered by their first characters that differ, and a text comes before any longer
/// one that it starts.
pub proof fn law_order_of_texts(x: char, y: char, a: Seq<char>, b: Seq<char>)
    ensures
        ordered(Seq::<char>::empty(), b),
        a.len() > 0 ==> !ordered(a, Seq::<char>::empty()),
        ordered(seq![x] + a, seq![y] + b) <==> x < y || (x == y && ordered(a, b)),
{
    assert((seq![x] + a).skip(1) =~= a);
    assert((seq![y] + b).skip(1) =~= b);
}

/// A text holds a part exactly where it stands between what comes before it and what comes behind
/// it; nothing shorter holds it.
pub proof fn law_holding_a_part(a: Seq<char>, part: Seq<char>, b: Seq<char>, s: Seq<char>)
    ensures
        holds_part(a + part + b, part),
        s.len() < part.len() ==> !holds_part(s, part),
        holds_part(s, part) ==> exists|x: Seq<char>, y: Seq<char>| #[trigger] (x + part + y) == s,
{
    let all = a + part + b;
    let n = a.len() as int;
    assert(all.subrange(n, n + part.len()) =~= part);
    if holds_part(s, part) {
        let at = choose|at: int|
            0 <= at && at + part.len() <= s.len() && #[trigger] s.subrange(at, at + part.len())
                == part;
        let x = s.take(at);
        let y = s.skip(at + part.len());
        assert(x + part + y =~= s);
    }
}

/// A text is ASCII exactly where each of its characters is, of which there are 128; such a text is
/// brought into lower case letter by letter.
pub proof fn law_ascii_texts(s: Seq<char>, c: char, i: int)
    ensures
        is_ascii_text(Seq::empty()),
        is_ascii_text(s.push(c)) <==> is_ascii_text(s) && (c as u32) < 128,
        ascii_lowercased(s).len() == s.len(),
        0 <= i < s.len() ==> ascii_lowercased(s)[i] == ascii_lower(s[i]),
        is_ascii_text(s) ==> lowercased(s) == ascii_lowercased(s),
{
    let all = s.push(c);
    assert(all[s.len() as int] == c);
    if is_ascii_text(all) {
        assert forall|k: int| 0 <= k < s.len() implies #[trigger] s[k] <= '\u{7f}' by {
            assert(all[k] == s[k]);
        }
    }
}

/// A character takes one to four bytes, more the higher it stands.
pub proof fn law_width_of_a_character(c: char)
    ensures
        (c as u32) < 0x80 ==> width(c) == 1,
        0x80 <= c as u32 && (c as u32) < 0x800 ==> width(c) == 2,
        0x800 <= c as u32 && (c as u32) < 0x10000 ==> width(c) == 3,
        0x10000 <= c as u32 ==> width(c) == 4,
{
}

/// Texts are in order where each comes no later than any behind it.
pub proof fn law_texts_in_order(list: Seq<Seq<char>>, i: int, j: int)
    requires
        in_order(list),
        0 <= i <= j < list.len(),
    ensures
        ordered(list[i], list[j]),
{
}

} // verus!
