//! Splitting a text into sentences.

use crate::text::{
    ends_with, is_ascii_text, is_white, same, spelled, trim, trimmed, trimmed_end, trimmed_start,
};
use unicode_segmentation::UnicodeSegmentation;
use vstd::prelude::*;
use vstd::seq_lib::lemma_flatten_concat;
use vstd::string::*;

verus! {

/// A language whose sentences can be told apart.
#[derive(Debug, Clone, Copy, PartialEq, Eq, Structural)]
pub enum Language {
    Chinese,
    English,
}

/// Whether `c` is a CJK unified ideograph.
pub open spec fn is_ideograph(c: char) -> bool {
    '\u{4e00}' <= c <= '\u{9fff}'
}

/// Chinese where a text holds an ideograph, else English.
pub open spec fn language_of(text: Seq<char>) -> Language {
    if exists|i: int| 0 <= i < text.len() && is_ideograph(#[trigger] text[i]) {
        Language::Chinese
    } else {
        Language::English
    }
}

/// Chinese where a text holds an ideograph, else English.
pub fn detect_language(text: &str) -> (r: Language)
    ensures
        r == language_of(text@),
{
    for c in iter: text.chars()
        invariant
            iter.seq() == text@,
            forall|i: int| 0 <= i < iter.index() ==> !is_ideograph(#[trigger] text@[i]),
    {
        if '\u{4e00}' <= c && c <= '\u{9fff}' {
            proof {
                assert(is_ideograph(text@[iter.index()]));
            }
            return Language::Chinese;
        }
    }
    Language::English
}

/// The extended grapheme clusters of a text, in order.
pub uninterp spec fn graphemes_of(text: Seq<char>) -> Seq<Seq<char>>;

/// The characters of a text, each by itself but for a carriage return and the line feed behind it.
pub open spec fn crlf_clusters(text: Seq<char>) -> Seq<Seq<char>>
    decreases text.len(),
{
    if text.len() == 0 {
        Seq::empty()
    } else if text.len() >= 2 && text[0] == '\r' && text[1] == '\n' {
        seq![text.take(2)] + crlf_clusters(text.skip(2))
    } else {
        seq![text.take(1)] + crlf_clusters(text.skip(1))
    }
}

/// `UnicodeSegmentation::graphemes` for extended grapheme clusters, which depend on the text
/// alone and make up the text when put one behind the other. Those of ASCII text are its
/// characters, but for a carriage return and the line feed behind it, which are one.
#[verifier::external_body]
fn graphemes(text: &str) -> (r: Vec<String>)
    ensures
        spelled(r@) == graphemes_of(text@),
        spelled(r@).flatten() == text@,
        is_ascii_text(text@) ==> spelled(r@) == crlf_clusters(text@),
{
    text.graphemes(true).map(String::from).collect()
}

/// Whether a text ends with the abbreviation of a title.
pub open spec fn ends_with_title(s: Seq<char>) -> bool {
    "Dr."@.is_suffix_of(s) || "Mr."@.is_suffix_of(s) || "Mrs."@.is_suffix_of(s)
        || "Ms."@.is_suffix_of(s) || "Prof."@.is_suffix_of(s) || "Sr."@.is_suffix_of(s)
        || "Jr."@.is_suffix_of(s)
}

/// Whether a sentence ends with a character, which is the last of the text so far.
pub open spec fn ends_sentence(lang: Language, grapheme: Seq<char>, current: Seq<char>) -> bool {
    match lang {
        Language::Chinese => grapheme == "。"@ || grapheme == "！"@ || grapheme == "？"@,
        Language::English => (grapheme == "."@ || grapheme == "!"@ || grapheme == "?"@)
            && !ends_with_title(trimmed_end(current)),
    }
}

/// The sentences that have ended, as they stand in the text, and the text behind them.
pub open spec fn split_state(lang: Language, graphemes: Seq<Seq<char>>) -> (
    Seq<Seq<char>>,
    Seq<char>,
)
    decreases graphemes.len(),
{
    if graphemes.len() == 0 {
        (Seq::empty(), Seq::empty())
    } else {
        let (done, rest) = split_state(lang, graphemes.drop_last());
        let current = rest + graphemes.last();
        if ends_sentence(lang, graphemes.last(), current) {
            (done.push(current), Seq::empty())
        } else {
            (done, current)
        }
    }
}

/// The sentences of a text without the white space round them; what follows the last sentence
/// counts as one unless it is blank.
pub open spec fn sentences_of(lang: Language, graphemes: Seq<Seq<char>>) -> Seq<Seq<char>> {
    let (done, rest) = split_state(lang, graphemes);
    let trimmed_done = done.map_values(|s: Seq<char>| trimmed(s));
    if trimmed(rest).len() > 0 {
        trimmed_done.push(trimmed(rest))
    } else {
        trimmed_done
    }
}

/// `str::trim_end`.
fn trim_end(s: &str) -> (r: String)
    ensures
        r@ == trimmed_end(s@),
{
    let chars = crate::text::chars_of(s);
    let mut to: usize = chars.len();
    proof {
        assert(chars@.take(to as int) =~= chars@);
    }
    while to > 0 && crate::text::is_white_space(chars[to - 1])
        invariant
            to <= chars@.len(),
            trimmed_end(s@) == trimmed_end(chars@.take(to as int)),
        decreases to,
    {
        proof {
            assert(chars@.take(to as int).drop_last() =~= chars@.take(to - 1));
        }
        to -= 1;
    }
    proof {
        assert(chars@.subrange(0, to as int) =~= chars@.take(to as int));
    }
    crate::text::text_of(&chars, 0, to)
}

/// Whether a sentence ends with a character, which is the last of the text so far.
pub fn is_sentence_end(lang: Language, grapheme: &str, current: &str) -> (r: bool)
    ensures
        r == ends_sentence(lang, grapheme@, current@),
{
    match lang {
        Language::Chinese => same(grapheme, "。") || same(grapheme, "！") || same(grapheme, "？"),
        Language::English => {
            if !(same(grapheme, ".") || same(grapheme, "!") || same(grapheme, "?")) {
                return false;
            }
            let t = trim_end(current);
            let s = t.as_str();
            !ends_with(s, "Dr.") && !ends_with(s, "Mr.") && !ends_with(s, "Mrs.") && !ends_with(
                s,
                "Ms.",
            ) && !ends_with(s, "Prof.") && !ends_with(s, "Sr.") && !ends_with(s, "Jr.")
        },
    }
}

/// Splits a text, given by its characters, into sentences.
pub fn split_graphemes(lang: Language, graphemes: &Vec<String>) -> (r: Vec<String>)
    ensures
        spelled(r@) == sentences_of(lang, spelled(graphemes@)),
{
    let ghost all = spelled(graphemes@);
    let mut sentences: Vec<String> = Vec::new();
    let mut current = String::new();
    let mut i: usize = 0;
    proof {
        assert(spelled(sentences@) =~= split_state(lang, all.take(0)).0.map_values(
            |s: Seq<char>| trimmed(s),
        ));
    }
    while i < graphemes.len()
        invariant
            all == spelled(graphemes@),
            i <= graphemes@.len(),
            current@ == split_state(lang, all.take(i as int)).1,
            spelled(sentences@) == split_state(lang, all.take(i as int)).0.map_values(
                |s: Seq<char>| trimmed(s),
            ),
        decreases graphemes@.len() - i,
    {
        let ghost done = split_state(lang, all.take(i as int)).0;
        let ghost had = sentences@;
        proof {
            assert(all.take(i + 1).drop_last() =~= all.take(i as int));
            assert(all.take(i + 1).last() == graphemes@[i as int]@);
        }
        current.append(graphemes[i].as_str());
        if is_sentence_end(lang, graphemes[i].as_str(), current.as_str()) {
            sentences.push(trim(current.as_str()));
            proof {
                assert(spelled(sentences@) =~= spelled(had).push(trimmed(current@)));
                assert(done.push(current@).map_values(|s: Seq<char>| trimmed(s))
                    =~= done.map_values(|s: Seq<char>| trimmed(s)).push(trimmed(current@)));
            }
            current = String::new();
        }
        i += 1;
    }
    proof {
        assert(all.take(i as int) =~= all);
    }
    let rest = trim(current.as_str());
    let ghost had = sentences@;
    if !rest.as_str().is_empty() {
        sentences.push(rest);
        proof {
            assert(spelled(sentences@) =~= spelled(had).push(rest@));
        }
    }
    sentences
}

/// Splits a text into sentences. Nothing of the text is lost but white space: the sentences as they
/// stand in it and what follows them, one behind the other, are the text.
pub fn split_sentences(text: &str) -> (r: Vec<String>)
    ensures
        spelled(r@) == sentences_of(language_of(text@), graphemes_of(text@)),
        ({
            let (done, rest) = split_state(language_of(text@), graphemes_of(text@));
            done.flatten() + rest == text@
        }),
        is_ascii_text(text@) ==> spelled(r@) == sentences_of(
            language_of(text@),
            crlf_clusters(text@),
        ),
{
    let lang = detect_language(text);
    let parts = graphemes(text);
    proof {
        law_sentences_make_the_text(lang, spelled(parts@));
    }
    split_graphemes(lang, &parts)
}

/// Splitting loses nothing: the sentences as they stand in the text and what follows them, one
/// behind the other, are the characters that were given.
pub proof fn law_sentences_make_the_text(lang: Language, graphemes: Seq<Seq<char>>)
    ensures
        ({
            let (done, rest) = split_state(lang, graphemes);
            done.flatten() + rest == graphemes.flatten()
        }),
    decreases graphemes.len(),
{
    if graphemes.len() == 0 {
        let (done, rest) = split_state(lang, graphemes);
        assert(done.flatten() + rest =~= graphemes.flatten());
    } else {
        let before = graphemes.drop_last();
        law_sentences_make_the_text(lang, before);
        let (done, rest) = split_state(lang, before);
        let current = rest + graphemes.last();
        before.lemma_flatten_push(graphemes.last());
        assert(before.push(graphemes.last()) =~= graphemes);
        done.lemma_flatten_push(current);
        assert(done.flatten() + current =~= graphemes.flatten());
        let (new_done, new_rest) = split_state(lang, graphemes);
        assert(new_done.flatten() + new_rest =~= graphemes.flatten());
    }
}

/// Whether all of a text is white space.
spec fn is_blank(s: Seq<char>) -> bool {
    forall|i: int| 0 <= i < s.len() ==> is_white(#[trigger] s[i])
}

/// Whether each of the parts of a text is one character, or white space.
spec fn is_plain(parts: Seq<Seq<char>>) -> bool {
    forall|i: int|
        0 <= i < parts.len() ==> (#[trigger] parts[i]).len() > 0 && (parts[i].len() == 1
            || is_blank(parts[i]))
}

/// Where what follows the last sentence starts.
proof fn lemma_rest(lang: Language, parts: Seq<Seq<char>>) -> (a: int)
    ensures
        0 <= a <= parts.len(),
        split_state(lang, parts.skip(a)) == (
            Seq::<Seq<char>>::empty(),
            split_state(lang, parts).1,
        ),
    decreases parts.len(),
{
    if parts.len() == 0 {
        assert(parts.skip(0) =~= parts);
        0
    } else {
        let before = parts.drop_last();
        let (_, rest) = split_state(lang, before);
        if ends_sentence(lang, parts.last(), rest + parts.last()) {
            assert(parts.skip(parts.len() as int) =~= Seq::<Seq<char>>::empty());
            parts.len() as int
        } else {
            let a = lemma_rest(lang, before);
            assert(parts.skip(a).drop_last() =~= before.skip(a));
            a
        }
    }
}

/// The parts that a sentence is made of are that sentence, and no other.
proof fn lemma_sentence(lang: Language, parts: Seq<Seq<char>>, k: int) -> (range: (int, int))
    requires
        0 <= k < split_state(lang, parts).0.len(),
    ensures
        0 <= range.0 < range.1 <= parts.len(),
        split_state(lang, parts.subrange(range.0, range.1)) == (
            seq![split_state(lang, parts).0[k]],
            Seq::<char>::empty(),
        ),
    decreases parts.len(),
{
    let before = parts.drop_last();
    let (done, rest) = split_state(lang, before);
    if k < done.len() {
        let (a, b) = lemma_sentence(lang, before, k);
        assert(parts.subrange(a, b) =~= before.subrange(a, b));
        (a, b)
    } else {
        let a = lemma_rest(lang, before);
        let b = parts.len() as int;
        assert(parts.subrange(a, b).drop_last() =~= before.skip(a));
        assert(split_state(lang, parts.subrange(a, b)).0 =~= seq![rest + parts.last()]);
        (a, b)
    }
}

/// The white space before a text does not tell whether a title stands at its end.
proof fn lemma_title_behind_space(space: Seq<char>, s: Seq<char>)
    requires
        is_blank(space),
        s.len() > 0,
        !is_white(s.last()),
    ensures
        ends_with_title(trimmed_end(space + s)) == ends_with_title(trimmed_end(s)),
{
    let all = space + s;
    assert(all.last() == s.last());
    assert(trimmed_end(all) == all);
    assert(trimmed_end(s) == s);
    lemma_word_behind_space(space, s, "Dr."@);
    lemma_word_behind_space(space, s, "Mr."@);
    lemma_word_behind_space(space, s, "Mrs."@);
    lemma_word_behind_space(space, s, "Ms."@);
    lemma_word_behind_space(space, s, "Prof."@);
    lemma_word_behind_space(space, s, "Sr."@);
    lemma_word_behind_space(space, s, "Jr."@);
    reveal_strlit("Dr.");
    reveal_strlit("Mr.");
    reveal_strlit("Mrs.");
    reveal_strlit("Ms.");
    reveal_strlit("Prof.");
    reveal_strlit("Sr.");
    reveal_strlit("Jr.");
}

/// The white space before a text does not tell whether a word stands at its end.
proof fn lemma_word_behind_space(space: Seq<char>, s: Seq<char>, word: Seq<char>)
    requires
        is_blank(space),
    ensures
        (forall|i: int| 0 <= i < word.len() ==> !is_white(#[trigger] word[i])) ==> (
        word.is_suffix_of(space + s) == word.is_suffix_of(s)),
{
    if forall|i: int| 0 <= i < word.len() ==> !is_white(#[trigger] word[i]) {
        let all = space + s;
        if word.is_suffix_of(all) {
            if word.len() > s.len() {
                let at = word.len() - s.len() - 1;
                assert(word[at] == all.subrange(all.len() - word.len(), all.len() as int)[at]);
                assert(word[at] == space[space.len() - 1]);
                assert(false);
            }
            assert(all.subrange(all.len() - word.len(), all.len() as int) =~= s.subrange(
                s.len() - word.len(),
                s.len() as int,
            ));
        }
        if word.is_suffix_of(s) {
            assert(all.subrange(all.len() - word.len(), all.len() as int) =~= s.subrange(
                s.len() - word.len(),
                s.len() as int,
            ));
        }
    }
}

/// The white space before a text does not tell whether a sentence ends with it.
proof fn lemma_end_behind_space(
    lang: Language,
    part: Seq<char>,
    space: Seq<char>,
    rest: Seq<char>,
)
    requires
        is_blank(space),
    ensures
        ends_sentence(lang, part, space + rest + part) == ends_sentence(lang, part, rest + part),
{
    reveal_strlit(".");
    reveal_strlit("!");
    reveal_strlit("?");
    if lang == Language::English && (part == "."@ || part == "!"@ || part == "?"@) {
        assert((rest + part).last() == part[0]);
        lemma_title_behind_space(space, rest + part);
        assert(space + (rest + part) =~= space + rest + part);
    }
}

/// White space does not end a sentence.
proof fn lemma_space_ends_nothing(lang: Language, part: Seq<char>, current: Seq<char>)
    requires
        is_blank(part),
        part.len() > 0,
    ensures
        !ends_sentence(lang, part, current),
{
    reveal_strlit(".");
    reveal_strlit("!");
    reveal_strlit("?");
    reveal_strlit("。");
    reveal_strlit("！");
    reveal_strlit("？");
    assert(is_white(part[0]));
}

/// Parts within which no sentence ends have none without the white space before them either.
proof fn lemma_rest_behind_space(lang: Language, parts: Seq<Seq<char>>)
    requires
        parts.len() > 0,
        is_blank(parts[0]),
        parts[0].len() > 0,
        split_state(lang, parts).0.len() == 0,
    ensures
        split_state(lang, parts.skip(1)).0.len() == 0,
        split_state(lang, parts).1 == parts[0] + split_state(lang, parts.skip(1)).1,
    decreases parts.len(),
{
    let before = parts.drop_last();
    if before.len() == 0 {
        assert(parts.skip(1) =~= Seq::<Seq<char>>::empty());
        assert(split_state(lang, before).1 =~= Seq::<char>::empty());
        lemma_space_ends_nothing(lang, parts.last(), Seq::<char>::empty() + parts.last());
        assert(split_state(lang, parts).1 =~= parts[0] + Seq::<char>::empty());
    } else {
        let (done, rest) = split_state(lang, before);
        assert(done.len() == 0);
        lemma_rest_behind_space(lang, before);
        let tail = split_state(lang, before.skip(1)).1;
        assert(parts.skip(1).drop_last() =~= before.skip(1));
        assert(parts.skip(1).last() == parts.last());
        lemma_end_behind_space(lang, parts.last(), parts[0], tail);
        assert(parts[0] + (tail + parts.last()) =~= parts[0] + tail + parts.last());
    }
}

/// Parts that are one sentence are one without the white space before them too.
proof fn lemma_sentence_behind_space(lang: Language, parts: Seq<Seq<char>>, e: Seq<char>)
    requires
        is_plain(parts),
        parts.len() > 0,
        is_blank(parts[0]),
        split_state(lang, parts) == (seq![e], Seq::<char>::empty()),
    ensures
        ({
            let (done, rest) = split_state(lang, parts.skip(1));
            done.len() == 1 && rest.len() == 0 && e == parts[0] + done[0]
        }),
{
    let before = parts.drop_last();
    let (done, rest) = split_state(lang, before);
    let current = rest + parts.last();
    assert(parts.last() == parts[parts.len() - 1]);
    assert(current.len() > 0);
    assert(split_state(lang, parts).1.len() == 0);
    assert(ends_sentence(lang, parts.last(), current));
    assert(split_state(lang, parts).0.len() == 1);
    assert(done.len() == 0);
    assert(split_state(lang, parts).0[0] == current);
    assert(seq![e][0] == e);
    if before.len() == 0 {
        lemma_space_ends_nothing(lang, parts.last(), current);
    } else {
        lemma_rest_behind_space(lang, before);
        let tail = split_state(lang, before.skip(1)).1;
        assert(parts.skip(1).drop_last() =~= before.skip(1));
        lemma_end_behind_space(lang, parts.last(), parts[0], tail);
        assert(parts[0] + (tail + parts.last()) =~= current);
    }
}

/// Trimming takes the white space before a text away.
proof fn lemma_trim_start(space: Seq<char>, s: Seq<char>)
    requires
        is_blank(space),
    ensures
        trimmed(space + s) == trimmed(s),
    decreases space.len(),
{
    if space.len() == 0 {
        assert(space + s =~= s);
    } else {
        let all = space + s;
        assert(is_white(all[0]));
        assert(all.skip(1) =~= space.skip(1) + s);
        assert(is_blank(space.skip(1)));
        lemma_trim_start(space.skip(1), s);
    }
}

/// Trimming takes the white space behind a text away.
proof fn lemma_trim_end(s: Seq<char>, space: Seq<char>)
    requires
        is_blank(space),
    ensures
        trimmed(s + space) == trimmed(s),
    decreases s.len(),
{
    if s.len() == 0 {
        assert(s + space =~= space);
        assert(space =~= space + Seq::<char>::empty());
        lemma_trim_start(space, Seq::<char>::empty());
        assert(s =~= Seq::<char>::empty());
    } else if is_white(s[0]) {
        assert((s + space)[0] == s[0]);
        assert((s + space).skip(1) =~= s.skip(1) + space);
        lemma_trim_end(s.skip(1), space);
    } else {
        assert((s + space)[0] == s[0]);
        lemma_trim_end_only(s, space);
    }
}

/// The same for the end alone.
proof fn lemma_trim_end_only(s: Seq<char>, space: Seq<char>)
    requires
        is_blank(space),
    ensures
        trimmed_end(s + space) == trimmed_end(s),
    decreases space.len(),
{
    if space.len() == 0 {
        assert(s + space =~= s);
    } else {
        assert((s + space).last() == space.last());
        assert((s + space).drop_last() =~= s + space.drop_last());
        assert(is_blank(space.drop_last()));
        lemma_trim_end_only(s, space.drop_last());
    }
}

/// One sentence, or what follows the last one, is that sentence alone once it is trimmed: some of
/// its parts in a row make it up, and they split into it.
proof fn lemma_trimmed_parts(lang: Language, parts: Seq<Seq<char>>) -> (range: (int, int))
    requires
        is_plain(parts),
        ({
            let (done, rest) = split_state(lang, parts);
            (done.len() == 1 && rest.len() == 0) || (done.len() == 0 && trimmed(rest).len() > 0)
        }),
    ensures
        ({
            let (done, rest) = split_state(lang, parts);
            let e = trimmed(
                if done.len() == 1 {
                    done[0]
                } else {
                    rest
                },
            );
            &&& 0 <= range.0 <= range.1 <= parts.len()
            &&& parts.subrange(range.0, range.1).flatten() == e
            &&& sentences_of(lang, parts.subrange(range.0, range.1)) == seq![e]
        }),
    decreases parts.len(),
{
    let (done, rest) = split_state(lang, parts);
    let whole = if done.len() == 1 {
        done[0]
    } else {
        rest
    };
    let n = parts.len() as int;
    assert(parts.len() > 0) by {
        if parts.len() == 0 {
            assert(trimmed(Seq::<char>::empty()) =~= Seq::<char>::empty());
        }
    }
    if is_blank(parts[0]) {
        let tail = parts.skip(1);
        assert(is_plain(tail));
        if done.len() == 1 {
            assert(done =~= seq![done[0]]);
            assert(rest =~= Seq::<char>::empty());
            lemma_sentence_behind_space(lang, parts, done[0]);
            lemma_trim_start(parts[0], split_state(lang, tail).0[0]);
        } else {
            lemma_rest_behind_space(lang, parts);
            lemma_trim_start(parts[0], split_state(lang, tail).1);
        }
        let (a, b) = lemma_trimmed_parts(lang, tail);
        assert(parts.subrange(a + 1, b + 1) =~= tail.subrange(a, b));
        (a + 1, b + 1)
    } else if done.len() == 0 && is_blank(parts.last()) {
        let head = parts.drop_last();
        assert(is_plain(head));
        assert(rest == split_state(lang, head).1 + parts.last());
        lemma_trim_end(split_state(lang, head).1, parts.last());
        let (a, b) = lemma_trimmed_parts(lang, head);
        assert(parts.subrange(a, b) =~= head.subrange(a, b));
        (a, b)
    } else {
        law_sentences_make_the_text(lang, parts);
        assert(done.flatten() + rest =~= whole) by {
            if done.len() == 1 {
                assert(done =~= seq![whole]);
                assert(done.drop_first() =~= Seq::<Seq<char>>::empty());
                assert(done.flatten() =~= whole + done.drop_first().flatten());
            }
        }
        assert(parts.flatten() == whole);
        lemma_ends_of_flatten(parts);
        if is_blank(parts.last()) {
            let before = split_state(lang, parts.drop_last());
            lemma_space_ends_nothing(lang, parts.last(), before.1 + parts.last());
            assert(rest.len() >= parts.last().len());
            assert(false);
        }
        assert(!is_white(parts[0][0]));
        assert(!is_white(parts.last()[0]));
        assert(trimmed_start(whole) == whole);
        assert(trimmed(whole) == whole);
        assert(parts.subrange(0, n) =~= parts);
        if done.len() == 1 {
            assert(trimmed(rest) =~= Seq::<char>::empty());
            assert(sentences_of(lang, parts) =~= seq![whole]);
        } else {
            assert(sentences_of(lang, parts) =~= seq![whole]);
        }
        (0, n)
    }
}

/// The first and the last character of a text are those of its first and its last part.
proof fn lemma_ends_of_flatten(parts: Seq<Seq<char>>)
    requires
        parts.len() > 0,
        is_plain(parts),
    ensures
        parts.flatten().len() > 0,
        parts.flatten()[0] == parts[0][0],
        parts.flatten().last() == parts.last().last(),
{
    assert(parts.flatten() =~= parts[0] + parts.drop_first().flatten());
    let head = parts.drop_last();
    head.lemma_flatten_push(parts.last());
    assert(head.push(parts.last()) =~= parts);
}

/// The parts of a sentence in a text: some parts in a row make it up, and they split into it
/// alone.
proof fn lemma_parts_of_sentence(lang: Language, parts: Seq<Seq<char>>, k: int) -> (range: (
    int,
    int,
))
    requires
        is_plain(parts),
        0 <= k < sentences_of(lang, parts).len(),
    ensures
        0 <= range.0 <= range.1 <= parts.len(),
        parts.subrange(range.0, range.1).flatten() == sentences_of(lang, parts)[k],
        sentences_of(lang, parts.subrange(range.0, range.1)) == seq![
            sentences_of(lang, parts)[k],
        ],
{
    let (done, rest) = split_state(lang, parts);
    let (a, b) = if k < done.len() {
        lemma_sentence(lang, parts, k)
    } else {
        (lemma_rest(lang, parts), parts.len() as int)
    };
    let own = parts.subrange(a, b);
    assert(is_plain(own));
    if k >= done.len() {
        assert(own =~= parts.skip(a));
    }
    let (c, d) = lemma_trimmed_parts(lang, own);
    assert(parts.subrange(a + c, a + d) =~= own.subrange(c, d));
    (a + c, a + d)
}

/// Each character of a text by itself.
pub open spec fn single_characters(text: Seq<char>) -> Seq<Seq<char>> {
    Seq::new(text.len(), |i: int| seq![text[i]])
}

/// Parts of one character each are the characters of what they make up.
proof fn lemma_singles_of_flatten(parts: Seq<Seq<char>>)
    requires
        forall|i: int| 0 <= i < parts.len() ==> (#[trigger] parts[i]).len() == 1,
    ensures
        single_characters(parts.flatten()) == parts,
    decreases parts.len(),
{
    if parts.len() == 0 {
        assert(single_characters(parts.flatten()) =~= parts);
    } else {
        let tail = parts.drop_first();
        lemma_singles_of_flatten(tail);
        assert(parts.flatten() =~= parts[0] + tail.flatten());
        let all = single_characters(parts.flatten());
        let rest = single_characters(tail.flatten());
        assert(all.len() == parts.len());
        assert forall|i: int| 0 <= i < parts.len() implies all[i] == parts[i] by {
            if i == 0 {
                assert(all[0] =~= parts[0]);
            } else {
                assert(rest[i - 1] == tail[i - 1]);
                assert(all[i] =~= rest[i - 1]);
            }
        }
        assert(all =~= parts);
    }
}

/// A sentence does not split again, where each character stands by itself: it is its own only
/// sentence.
pub proof fn law_sentence_of_characters_is_whole(lang: Language, text: Seq<char>, k: int)
    requires
        0 <= k < sentences_of(lang, single_characters(text)).len(),
    ensures
        ({
            let e = sentences_of(lang, single_characters(text))[k];
            sentences_of(lang, single_characters(e)) == seq![e]
        }),
{
    let parts = single_characters(text);
    let (a, b) = lemma_parts_of_sentence(lang, parts, k);
    lemma_singles_of_flatten(parts.subrange(a, b));
}

/// Whether parts are characters by themselves, but for a carriage return and the line feed behind
/// it, which are one part.
spec fn is_clustered(parts: Seq<Seq<char>>) -> bool {
    &&& forall|i: int|
        0 <= i < parts.len() ==> (#[trigger] parts[i]).len() == 1 || parts[i] == seq!['\r', '\n']
    &&& forall|i: int, j: int|
        0 <= i && j == i + 1 && j < parts.len() && #[trigger] parts[i] == seq!['\r']
            ==> #[trigger] parts[j] != seq!['\n']
}

/// The clusters of a text are clustered, and make it up.
proof fn lemma_clusters(text: Seq<char>)
    ensures
        is_clustered(crlf_clusters(text)),
        crlf_clusters(text).flatten() == text,
        text.len() > 0 ==> crlf_clusters(text).len() > 0 && crlf_clusters(text)[0][0] == text[0],
    decreases text.len(),
{
    let parts = crlf_clusters(text);
    if text.len() == 0 {
        assert(parts.flatten() =~= text);
    } else {
        let n: int = if text.len() >= 2 && text[0] == '\r' && text[1] == '\n' {
            2
        } else {
            1
        };
        let rest = crlf_clusters(text.skip(n));
        lemma_clusters(text.skip(n));
        assert(parts =~= seq![text.take(n)] + rest);
        assert(parts.drop_first() =~= rest);
        assert(parts.flatten() =~= text.take(n) + rest.flatten());
        assert(text =~= text.take(n) + text.skip(n));
        if n == 2 {
            assert(text.take(2) =~= seq!['\r', '\n']);
        }
        assert forall|i: int|
            0 <= i < parts.len() implies (#[trigger] parts[i]).len() == 1 || parts[i] == seq![
            '\r',
            '\n',
        ] by {
            if i > 0 {
                assert(parts[i] == rest[i - 1]);
            }
        }
        assert forall|i: int, j: int|
            0 <= i && j == i + 1 && j < parts.len() && #[trigger] parts[i] == seq![
                '\r',
            ] implies #[trigger] parts[j] != seq!['\n'] by {
            assert(parts[j] == rest[j - 1]);
            if i > 0 {
                assert(parts[i] == rest[i - 1]);
            } else {
                assert(parts[0].len() == 1 && parts[0][0] == '\r');
                if parts[j] == seq!['\n'] {
                    assert(rest[0][0] == '\n');
                    assert(text.skip(1)[0] == text[1]);
                }
            }
        }
    }
}

/// Clustered parts are the clusters of what they make up.
proof fn lemma_clusters_of_flatten(parts: Seq<Seq<char>>)
    requires
        is_clustered(parts),
    ensures
        crlf_clusters(parts.flatten()) == parts,
    decreases parts.len(),
{
    let text = parts.flatten();
    if parts.len() == 0 {
        assert(text =~= Seq::<char>::empty());
        assert(crlf_clusters(text) =~= parts);
    } else {
        let tail = parts.drop_first();
        assert(is_clustered(tail)) by {
            assert forall|i: int|
                0 <= i < tail.len() implies (#[trigger] tail[i]).len() == 1 || tail[i] == seq![
                '\r',
                '\n',
            ] by {
                assert(tail[i] == parts[i + 1]);
            }
            assert forall|i: int, j: int|
                0 <= i && j == i + 1 && j < tail.len() && #[trigger] tail[i] == seq![
                    '\r',
                ] implies #[trigger] tail[j] != seq!['\n'] by {
                assert(tail[i] == parts[i + 1]);
                assert(tail[j] == parts[j + 1]);
            }
        }
        lemma_clusters_of_flatten(tail);
        assert(text =~= parts[0] + tail.flatten());
        let n = parts[0].len() as int;
        assert(text.skip(n) =~= tail.flatten());
        assert(text.take(n) =~= parts[0]);
        if n == 1 && text[0] == '\r' && text.len() >= 2 && text[1] == '\n' {
            assert(tail.len() > 0);
            assert(tail.flatten() =~= tail[0] + tail.drop_first().flatten());
            assert(tail[0][0] == '\n');
            assert(tail[0] =~= seq!['\n']);
            assert(parts[0] =~= seq!['\r']);
            assert(parts[1] == tail[0]);
        }
        assert(crlf_clusters(text) =~= seq![parts[0]] + tail);
        assert(crlf_clusters(text) =~= parts);
    }
}

/// A sentence of an ASCII text is an ASCII text.
proof fn lemma_ascii_parts(parts: Seq<Seq<char>>, a: int, b: int)
    requires
        0 <= a <= b <= parts.len(),
        is_ascii_text(parts.flatten()),
    ensures
        is_ascii_text(parts.subrange(a, b).flatten()),
{
    let head = parts.subrange(0, a);
    let own = parts.subrange(a, b);
    let tail = parts.subrange(b, parts.len() as int);
    lemma_flatten_concat(head, own);
    lemma_flatten_concat(head + own, tail);
    assert(head + own + tail =~= parts);
    let text = parts.flatten();
    let sub = own.flatten();
    let n = head.flatten().len();
    assert forall|i: int| 0 <= i < sub.len() implies #[trigger] sub[i] <= '\u{7f}' by {
        assert(sub[i] == text[n + i]);
    }
}

/// A sentence of an ASCII text does not split again: it is its own only sentence.
pub proof fn law_ascii_sentence_is_whole(text: Seq<char>, k: int)
    requires
        is_ascii_text(text),
        0 <= k < sentences_of(language_of(text), crlf_clusters(text)).len(),
    ensures
        ({
            let e = sentences_of(language_of(text), crlf_clusters(text))[k];
            &&& is_ascii_text(e)
            &&& sentences_of(language_of(e), crlf_clusters(e)) == seq![e]
        }),
{
    let lang = language_of(text);
    let parts = crlf_clusters(text);
    lemma_clusters(text);
    assert(is_plain(parts)) by {
        assert forall|i: int| 0 <= i < parts.len() implies (#[trigger] parts[i]).len() > 0 && (
        parts[i].len() == 1 || is_blank(parts[i])) by {}
    }
    let (a, b) = lemma_parts_of_sentence(lang, parts, k);
    let own = parts.subrange(a, b);
    lemma_clusters_of_flatten(own);
    lemma_ascii_parts(parts, a, b);
    assert(language_of(text) == Language::English);
    assert(language_of(own.flatten()) == Language::English);
}

/// A text is Chinese exactly where a character of it lies among the ideographs, which are those
/// from U+4E00 to U+9FFF.
pub proof fn law_language_of_a_text(a: Seq<char>, c: char, b: Seq<char>)
    ensures
        is_ideograph(c) <==> 0x4e00 <= c as u32 <= 0x9fff,
        language_of(Seq::empty()) == Language::English,
        language_of(a.push(c)) == Language::Chinese <==> is_ideograph(c) || language_of(a)
            == Language::Chinese,
        language_of(a + b) == Language::English <==> language_of(a) == Language::English
            && language_of(b) == Language::English,
{
    let one = a.push(c);
    assert(one[a.len() as int] == c);
    if exists|i: int| 0 <= i < a.len() && is_ideograph(#[trigger] a[i]) {
        let i = choose|i: int| 0 <= i < a.len() && is_ideograph(#[trigger] a[i]);
        assert(one[i] == a[i]);
        assert((a + b)[i] == a[i]);
    }
    if exists|i: int| 0 <= i < b.len() && is_ideograph(#[trigger] b[i]) {
        let i = choose|i: int| 0 <= i < b.len() && is_ideograph(#[trigger] b[i]);
        assert((a + b)[a.len() + i] == b[i]);
    }
    if exists|i: int| 0 <= i < (a + b).len() && is_ideograph(#[trigger] (a + b)[i]) {
        let i = choose|i: int| 0 <= i < (a + b).len() && is_ideograph(#[trigger] (a + b)[i]);
        if i < a.len() {
            assert(a[i] == (a + b)[i]);
        } else {
            assert(b[i - a.len()] == (a + b)[i]);
        }
    }
    if exists|i: int| 0 <= i < one.len() && is_ideograph(#[trigger] one[i]) {
        let i = choose|i: int| 0 <= i < one.len() && is_ideograph(#[trigger] one[i]);
        if i < a.len() {
            assert(a[i] == one[i]);
        }
    }
}

/// A Chinese sentence ends with one of three marks, an English one with one of three others,
/// unless the mark belongs to a title; nothing else ends a sentence.
pub proof fn law_marks_that_end_sentences(mark: Seq<char>, current: Seq<char>)
    ensures
        ends_sentence(Language::Chinese, mark, current) <==> mark == seq!['\u{3002}'] || mark
            == seq!['\u{ff01}'] || mark == seq!['\u{ff1f}'],
        ends_sentence(Language::English, mark, current) <==> (mark == seq!['.'] || mark == seq!['!']
            || mark == seq!['?']) && !ends_with_title(trimmed_end(current)),
{
    reveal_strlit(".");
    reveal_strlit("!");
    reveal_strlit("?");
    reveal_strlit("。");
    reveal_strlit("！");
    reveal_strlit("？");
    assert("."@ =~= seq!['.']);
    assert("!"@ =~= seq!['!']);
    assert("?"@ =~= seq!['?']);
    assert("。"@ =~= seq!['\u{3002}']);
    assert("！"@ =~= seq!['\u{ff01}']);
    assert("？"@ =~= seq!['\u{ff1f}']);
}

/// Seven words are titles; a text ends with one wherever it stands at its end, and only then.
pub proof fn law_titles(s: Seq<char>, title: Seq<char>)
    ensures
        title == "Dr."@ || title == "Mr."@ || title == "Mrs."@ || title == "Ms."@ || title
            == "Prof."@ || title == "Sr."@ || title == "Jr."@ ==> ends_with_title(s + title),
        ends_with_title(s) ==> exists|t: Seq<char>|
            (t == "Dr."@ || t == "Mr."@ || t == "Mrs."@ || t == "Ms."@ || t == "Prof."@ || t
                == "Sr."@ || t == "Jr."@) && #[trigger] t.is_suffix_of(s),
{
    let all = s + title;
    assert(all.subrange(all.len() - title.len(), all.len() as int) =~= title);
    assert(title.is_suffix_of(all));
}

/// One character more ends the sentence under way, which starts behind the last one that ended,
/// where it is the end of one; else it is put behind it.
pub proof fn law_one_character_more(lang: Language, parts: Seq<Seq<char>>, part: Seq<char>)
    ensures
        split_state(lang, Seq::empty()).0.len() == 0,
        split_state(lang, Seq::empty()).1.len() == 0,
        ({
            let (done, rest) = split_state(lang, parts);
            let (new_done, new_rest) = split_state(lang, parts.push(part));
            let current = rest + part;
            &&& ends_sentence(lang, part, current) ==> new_done == done.push(current)
                && new_rest.len() == 0
            &&& !ends_sentence(lang, part, current) ==> new_done == done && new_rest == current
        }),
{
    assert(parts.push(part).drop_last() =~= parts);
}

/// The sentences are those that have ended, and what follows them unless it is blank, each without
/// the white space round it.
pub proof fn law_sentences_are_trimmed(lang: Language, parts: Seq<Seq<char>>, k: int)
    ensures
        ({
            let (done, rest) = split_state(lang, parts);
            let sentences = sentences_of(lang, parts);
            &&& trimmed(rest).len() == 0 ==> sentences.len() == done.len()
            &&& trimmed(rest).len() > 0 ==> sentences.len() == done.len() + 1 && sentences.last()
                == trimmed(rest)
            &&& 0 <= k < done.len() ==> sentences[k] == trimmed(done[k])
        }),
{
}

/// The clusters of a text make it up; each is one character, or a carriage return with the line
/// feed behind it, and these two stand in one cluster wherever they stand together.
pub proof fn law_clusters_of_a_text(text: Seq<char>, i: int)
    ensures
        crlf_clusters(text).flatten() == text,
        0 <= i < crlf_clusters(text).len() ==> crlf_clusters(text)[i].len() == 1 || crlf_clusters(
            text,
        )[i] == seq!['\r', '\n'],
        0 <= i && i + 1 < crlf_clusters(text).len() && crlf_clusters(text)[i] == seq!['\r']
            ==> crlf_clusters(text)[i + 1] != seq!['\n'],
{
    lemma_clusters(text);
}

} // verus!
