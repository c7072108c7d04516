//! Text as sequences of characters: trimming, splitting, joining, and decimal numerals.
//!
//! Contracts throughout the library speak of a string by its characters. The functions
//! here are what the rest of the library does to strings.

use vstd::prelude::*;

verus! {

// ---------------------------------------------------------------------------
// What is taken from the standard library
// ---------------------------------------------------------------------------

/// The characters with the Unicode property White_Space.
pub open spec fn white_space(c: char) -> bool {
    let code = c as u32;
    ||| 0x09 <= code <= 0x0d
    ||| code == 0x20
    ||| code == 0x85
    ||| code == 0xa0
    ||| code == 0x1680
    ||| 0x2000 <= code <= 0x200a
    ||| code == 0x2028
    ||| code == 0x2029
    ||| code == 0x202f
    ||| code == 0x205f
    ||| code == 0x3000
}

/// `char::is_whitespace`: whether the character has the Unicode property White_Space.
pub assume_specification[ char::is_whitespace ](c: char) -> (answer: bool)
    ensures
        answer == white_space(c),
;

/// What `char::is_alphanumeric` answers: the Unicode property Alphabetic, or one of the
/// numeric general categories.
pub uninterp spec fn alphanumeric(c: char) -> bool;

/// `char::is_alphanumeric`: a fixed property of the character.
pub assume_specification[ char::is_alphanumeric ](c: char) -> (answer: bool)
    ensures
        answer == alphanumeric(c),
;

/// What `str::to_lowercase` makes of a text, by the Unicode lower-case mapping.
pub uninterp spec fn lowercase(text: Seq<char>) -> Seq<char>;

/// `str::to_lowercase`: a fixed mapping of the text.
pub assume_specification[ str::to_lowercase ](text: &str) -> (lower: String)
    ensures
        lower@ == lowercase(text@),
;

/// `str::trim`: the text without the white space at its two ends.
pub assume_specification[ str::trim ](text: &str) -> (rest: &str)
    ensures
        rest@ == trimmed(text@),
;

/// `String::push`: appends one character.
pub assume_specification[ String::push ](text: &mut String, c: char)
    ensures
        final(text)@ == old(text)@.push(c),
;

/// `==` on string slices: the same characters in the same order.
pub assume_specification[ <str as PartialEq>::eq ](a: &str, b: &str) -> (same: bool)
    ensures
        same == (a@ == b@),
;

// ---------------------------------------------------------------------------
// Trimming
// ---------------------------------------------------------------------------

/// `text` from its first character that `drop` rejects.
pub open spec fn trim_start_of(text: Seq<char>, drop: spec_fn(char) -> bool) -> Seq<char>
    decreases text.len(),
{
    if text.len() > 0 && drop(text[0]) {
        trim_start_of(text.drop_first(), drop)
    } else {
        text
    }
}

/// `text` up to its last character that `drop` rejects.
pub open spec fn trim_end_of(text: Seq<char>, drop: spec_fn(char) -> bool) -> Seq<char>
    decreases text.len(),
{
    if text.len() > 0 && drop(text.last()) {
        trim_end_of(text.drop_last(), drop)
    } else {
        text
    }
}

/// `text` without the characters at its two ends that `drop` accepts.
pub open spec fn trim_of(text: Seq<char>, drop: spec_fn(char) -> bool) -> Seq<char> {
    trim_end_of(trim_start_of(text, drop), drop)
}

/// `text` without the white space at its two ends.
pub open spec fn trimmed(text: Seq<char>) -> Seq<char> {
    trim_of(text, |c: char| white_space(c))
}

/// Is there nothing but white space in `text`?
pub open spec fn blank(text: Seq<char>) -> bool {
    trimmed(text).len() == 0
}

/// What is left of the front of a text is a suffix of it, and all that went was dropped.
pub proof fn lemma_trim_start(text: Seq<char>, drop: spec_fn(char) -> bool)
    ensures
        trim_start_of(text, drop).len() <= text.len(),
        trim_start_of(text, drop) == text.skip(text.len() - trim_start_of(text, drop).len()),
        forall|i: int|
            0 <= i < text.len() - trim_start_of(text, drop).len() ==> drop(#[trigger] text[i]),
        trim_start_of(text, drop).len() > 0 ==> !drop(trim_start_of(text, drop)[0]),
    decreases text.len(),
{
    if text.len() > 0 && drop(text[0]) {
        let rest = text.drop_first();
        lemma_trim_start(rest, drop);
        let n = trim_start_of(rest, drop).len();
        assert(rest.skip(rest.len() - n) == text.skip(text.len() - n));
        assert forall|i: int| 0 <= i < text.len() - n implies drop(#[trigger] text[i]) by {
            if i > 0 {
                assert(text[i] == rest[i - 1]);
            }
        }
    } else {
        assert(text.skip(0) == text);
    }
}

/// What is left of the back of a text is a prefix of it, and all that went was dropped.
pub proof fn lemma_trim_end(text: Seq<char>, drop: spec_fn(char) -> bool)
    ensures
        trim_end_of(text, drop).len() <= text.len(),
        trim_end_of(text, drop) == text.take(trim_end_of(text, drop).len() as int),
        forall|i: int|
            trim_end_of(text, drop).len() <= i < text.len() ==> drop(#[trigger] text[i]),
        trim_end_of(text, drop).len() > 0 ==> !drop(trim_end_of(text, drop).last()),
    decreases text.len(),
{
    if text.len() > 0 && drop(text.last()) {
        let rest = text.drop_last();
        lemma_trim_end(rest, drop);
        let n = trim_end_of(rest, drop).len();
        assert(rest.take(n as int) == text.take(n as int));
        assert forall|i: int| n <= i < text.len() implies drop(#[trigger] text[i]) by {
            if i < text.len() - 1 {
                assert(text[i] == rest[i]);
            }
        }
    } else {
        assert(text.take(text.len() as int) == text);
    }
}

/// Skipping a dropped front changes nothing about what trimming the front leaves.
proof fn lemma_trim_start_skip(text: Seq<char>, n: int, drop: spec_fn(char) -> bool)
    requires
        0 <= n <= text.len(),
        forall|i: int| 0 <= i < n ==> drop(#[trigger] text[i]),
    ensures
        trim_start_of(text, drop) == trim_start_of(text.skip(n), drop),
    decreases n,
{
    if n == 0 {
        assert(text.skip(0) == text);
    } else {
        let rest = text.drop_first();
        assert forall|i: int| 0 <= i < n - 1 implies drop(#[trigger] rest[i]) by {
            assert(rest[i] == text[i + 1]);
        }
        lemma_trim_start_skip(rest, n - 1, drop);
        assert(rest.skip(n - 1) == text.skip(n));
    }
}

/// Cutting a dropped back changes nothing about what trimming the back leaves.
proof fn lemma_trim_end_take(text: Seq<char>, n: int, drop: spec_fn(char) -> bool)
    requires
        0 <= n <= text.len(),
        forall|i: int| n <= i < text.len() ==> drop(#[trigger] text[i]),
    ensures
        trim_end_of(text, drop) == trim_end_of(text.take(n), drop),
    decreases text.len() - n,
{
    if n == text.len() {
        assert(text.take(n) == text);
    } else {
        assert(drop(text.last()));
        let rest = text.drop_last();
        lemma_trim_end_take(rest, n, drop);
        assert(rest.take(n) == text.take(n));
    }
}

/// A trimmed text has nothing more to trim.
pub proof fn law_trim_idempotent(text: Seq<char>)
    ensures
        trimmed(trimmed(text)) == trimmed(text),
{
    let drop = |c: char| white_space(c);
    let front = trim_start_of(text, drop);
    lemma_trim_start(text, drop);
    lemma_trim_end(front, drop);
    let t = trimmed(text);
    if t.len() > 0 {
        assert(t[0] == front[0]);
        assert(trim_start_of(t, drop) == t);
        assert(trim_end_of(t, drop) == t);
    }
}

/// A text is blank exactly when all its characters are white space.
pub proof fn law_blank(text: Seq<char>)
    ensures
        blank(text) <==> forall|i: int| 0 <= i < text.len() ==> white_space(#[trigger] text[i]),
{
    let drop = |c: char| white_space(c);
    let front = trim_start_of(text, drop);
    lemma_trim_start(text, drop);
    lemma_trim_end(front, drop);
    let n = text.len() - front.len();
    if blank(text) {
        assert forall|i: int| 0 <= i < text.len() implies white_space(#[trigger] text[i]) by {
            if i >= n {
                assert(text[i] == front[i - n]);
                assert(drop(front[i - n]));
            } else {
                assert(drop(text[i]));
            }
        }
    } else {
        assert(!drop(front[0]));
        assert(front[0] == text[n]);
        assert(!white_space(text[n]));
    }
}

/// The characters of `text`.
pub fn chars_of(text: &str) -> (chars: Vec<char>)
    ensures
        chars@ == text@,
{
    let mut chars: Vec<char> = Vec::new();
    for c in it: text.chars()
        invariant
            it.seq() == text@,
            chars@ == it.seq().take(it.index() as int),
    {
        chars.push(c);
    }
    chars
}

/// The string made of `chars[from..to]`.
pub fn string_of(chars: &Vec<char>, from: usize, to: usize) -> (text: String)
    requires
        from <= to <= chars@.len(),
    ensures
        text@ == chars@.subrange(from as int, to as int),
{
    let mut text = String::new();
    let mut i: usize = from;
    while i < to
        invariant
            from <= i <= to <= chars@.len(),
            text@ == chars@.subrange(from as int, i as int),
        decreases to - i,
    {
        text.push(chars[i]);
        i += 1;
        assert(chars@.subrange(from as int, i as int) == chars@.subrange(
            from as int,
            i - 1,
        ).push(chars@[i - 1]));
    }
    text
}

/// `text` without the characters at its two ends that are neither letters nor numbers.
pub fn trim_to_alphanumeric(text: &str) -> (core: String)
    ensures
        core@ == trim_of(text@, |c: char| !alphanumeric(c)),
{
    let ghost drop = |c: char| !alphanumeric(c);
    let chars = chars_of(text);
    let mut from: usize = 0;
    while from < chars.len() && !chars[from].is_alphanumeric()
        invariant
            from <= chars@.len(),
            drop == (|c: char| !alphanumeric(c)),
            forall|i: int| 0 <= i < from ==> drop(#[trigger] chars@[i]),
        decreases chars.len() - from,
    {
        from += 1;
    }
    let ghost front = chars@.skip(from as int);
    proof {
        lemma_trim_start_skip(chars@, from as int, drop);
        assert(from < chars@.len() ==> front[0] == chars@[from as int]);
        assert(trim_start_of(front, drop) == front);
    }
    let mut to: usize = chars.len();
    while from < to && !chars[to - 1].is_alphanumeric()
        invariant
            from <= to <= chars@.len(),
            drop == (|c: char| !alphanumeric(c)),
            front == chars@.skip(from as int),
            forall|i: int| to - from <= i < front.len() ==> drop(#[trigger] front[i]),
        decreases to,
    {
        assert(front[to - from - 1] == chars@[to - 1]);
        to -= 1;
    }
    proof {
        lemma_trim_end_take(front, to - from, drop);
        let kept = front.take(to - from);
        assert(kept.len() > 0 ==> kept.last() == chars@[to - 1]);
        assert(trim_end_of(kept, drop) == kept);
        assert(kept == chars@.subrange(from as int, to as int));
    }
    string_of(&chars, from, to)
}

// ---------------------------------------------------------------------------
// Splitting into words
// ---------------------------------------------------------------------------

/// How many characters stand before the first white space of `text`.
pub open spec fn word_length(text: Seq<char>) -> nat
    decreases text.len(),
{
    if text.len() == 0 || white_space(text[0]) {
        0
    } else {
        1 + word_length(text.drop_first())
    }
}

/// The words of `text`: its longest runs of characters that are not white space, in order.
pub open spec fn words_of(text: Seq<char>) -> Seq<Seq<char>>
    decreases text.len(),
{
    if text.len() == 0 {
        seq![]
    } else if white_space(text[0]) {
        words_of(text.drop_first())
    } else {
        let n = word_length(text);
        if 0 < n <= text.len() {
            seq![text.take(n as int)] + words_of(text.skip(n as int))
        } else {
            seq![]
        }
    }
}

proof fn lemma_word_length(text: Seq<char>, n: int)
    requires
        0 <= n <= text.len(),
        forall|i: int| 0 <= i < n ==> !white_space(#[trigger] text[i]),
        n < text.len() ==> white_space(text[n]),
    ensures
        word_length(text) == n,
    decreases n,
{
    if n > 0 {
        let rest = text.drop_first();
        assert forall|i: int| 0 <= i < n - 1 implies !white_space(#[trigger] rest[i]) by {
            assert(rest[i] == text[i + 1]);
        }
        lemma_word_length(rest, n - 1);
    }
}

/// A word: at least one character, none of them white space.
pub open spec fn is_word(text: Seq<char>) -> bool {
    &&& text.len() > 0
    &&& forall|i: int| 0 <= i < text.len() ==> !white_space(#[trigger] text[i])
}

/// What a text splits into are words: none is empty, and none holds white space.
pub proof fn law_words(text: Seq<char>)
    ensures
        forall|k: int| 0 <= k < words_of(text).len() ==> is_word(#[trigger] words_of(text)[k]),
    decreases text.len(),
{
    if text.len() == 0 {
        assert(words_of(text).len() == 0);
    } else if white_space(text[0]) {
        law_words(text.drop_first());
        assert(words_of(text) == words_of(text.drop_first()));
    } else {
        lemma_word_run(text);
        let n = word_length(text);
        let first = text.take(n as int);
        let rest = words_of(text.skip(n as int));
        law_words(text.skip(n as int));
        assert(is_word(first));
        assert(words_of(text) == seq![first] + rest);
        assert forall|k: int| 0 <= k < words_of(text).len() implies is_word(
            #[trigger] words_of(text)[k],
        ) by {
            if k > 0 {
                assert(words_of(text)[k] == rest[k - 1]);
            }
        }
    }
}

/// A text has no words exactly when it is blank.
pub proof fn law_words_blank(text: Seq<char>)
    ensures
        words_of(text).len() == 0 <==> blank(text),
    decreases text.len(),
{
    law_blank(text);
    if text.len() == 0 {
    } else if white_space(text[0]) {
        let rest = text.drop_first();
        law_words_blank(rest);
        law_blank(rest);
        if blank(rest) {
            assert forall|i: int| 0 <= i < text.len() implies white_space(#[trigger] text[i]) by {
                if i > 0 {
                    assert(text[i] == rest[i - 1]);
                }
            }
        } else {
            let j = choose|j: int| 0 <= j < rest.len() && !white_space(#[trigger] rest[j]);
            assert(text[j + 1] == rest[j]);
        }
    } else {
        lemma_word_run(text);
    }
}

/// The characters that `word_length` counts are no white space.
proof fn lemma_word_run(text: Seq<char>)
    ensures
        word_length(text) <= text.len(),
        forall|i: int| 0 <= i < word_length(text) ==> !white_space(#[trigger] text[i]),
        text.len() > 0 && !white_space(text[0]) ==> word_length(text) > 0,
    decreases text.len(),
{
    if text.len() == 0 || white_space(text[0]) {
    } else {
        let rest = text.drop_first();
        lemma_word_run(rest);
        assert forall|i: int| 0 <= i < word_length(text) implies !white_space(
            #[trigger] text[i],
        ) by {
            if i > 0 {
                assert(text[i] == rest[i - 1]);
            }
        }
    }
}

/// The characters of each of a list of strings.
pub open spec fn texts(strings: Seq<String>) -> Seq<Seq<char>> {
    Seq::new(strings.len(), |i: int| strings[i]@)
}

/// The words of `text`.
pub fn split_words(text: &str) -> (words: Vec<String>)
    ensures
        texts(words@) == words_of(text@),
{
    let chars = chars_of(text);
    let mut words: Vec<String> = Vec::new();
    let mut i: usize = 0;
    assert(chars@.skip(0) == chars@);
    assert(texts(words@) + words_of(chars@) == words_of(chars@));
    while i < chars.len()
        invariant
            i <= chars@.len(),
            texts(words@) + words_of(chars@.skip(i as int)) == words_of(chars@),
        decreases chars.len() - i,
    {
        let ghost rest = chars@.skip(i as int);
        assert(rest[0] == chars@[i as int]);
        if chars[i].is_whitespace() {
            assert(rest.drop_first() == chars@.skip(i + 1));
            i += 1;
        } else {
            let start: usize = i;
            while i < chars.len() && !chars[i].is_whitespace()
                invariant
                    start <= i <= chars@.len(),
                    forall|k: int| start <= k < i ==> !white_space(#[trigger] chars@[k]),
                decreases chars.len() - i,
            {
                i += 1;
            }
            proof {
                assert forall|k: int| 0 <= k < i - start implies !white_space(
                    #[trigger] rest[k],
                ) by {
                    assert(rest[k] == chars@[start + k]);
                }
                assert(i < chars@.len() ==> rest[i - start] == chars@[i as int]);
                lemma_word_length(rest, i - start);
                lemma_word_run(rest);
            }
            let word = string_of(&chars, start, i);
            let ghost before = words@;
            words.push(word);
            proof {
                assert(rest.take(i - start) == word@);
                assert(rest.skip(i - start) == chars@.skip(i as int));
                assert(texts(words@) == texts(before).push(word@));
                assert(texts(words@) + words_of(chars@.skip(i as int)) == texts(before) + (seq![
                    word@,
                ] + words_of(chars@.skip(i as int))));
            }
        }
    }
    assert(words_of(chars@.skip(i as int)) == Seq::<Seq<char>>::empty());
    assert(texts(words@) + words_of(chars@.skip(i as int)) == texts(words@));
    words
}

// ---------------------------------------------------------------------------
// Splitting into lines
// ---------------------------------------------------------------------------

/// How many characters stand before the first line feed of `text`.
pub open spec fn line_length(text: Seq<char>) -> nat
    decreases text.len(),
{
    if text.len() == 0 || text[0] == '\n' {
        0
    } else {
        1 + line_length(text.drop_first())
    }
}

/// A line without the carriage return before its line feed.
pub open spec fn without_return(line: Seq<char>) -> Seq<char> {
    if line.len() > 0 && line.last() == '\r' {
        line.drop_last()
    } else {
        line
    }
}

/// The lines of `text`, without their endings. A last line needs no ending.
pub open spec fn lines_of(text: Seq<char>) -> Seq<Seq<char>>
    decreases text.len(),
{
    let n = line_length(text) as int;
    if text.len() == 0 {
        seq![]
    } else if n >= text.len() {
        seq![text]
    } else {
        seq![without_return(text.take(n))] + lines_of(text.skip(n + 1))
    }
}

proof fn lemma_line_length(text: Seq<char>, n: int)
    requires
        0 <= n <= text.len(),
        forall|i: int| 0 <= i < n ==> #[trigger] text[i] != '\n',
        n < text.len() ==> text[n] == '\n',
    ensures
        line_length(text) == n,
    decreases n,
{
    if n > 0 {
        let rest = text.drop_first();
        assert forall|i: int| 0 <= i < n - 1 implies #[trigger] rest[i] != '\n' by {
            assert(rest[i] == text[i + 1]);
        }
        lemma_line_length(rest, n - 1);
    }
}

/// The lines of `text`.
pub fn split_lines(text: &str) -> (lines: Vec<String>)
    ensures
        texts(lines@) == lines_of(text@),
{
    let chars = chars_of(text);
    let mut lines: Vec<String> = Vec::new();
    let mut start: usize = 0;
    assert(chars@.skip(0) == chars@);
    assert(texts(lines@) + lines_of(chars@) =~= lines_of(chars@));
    while start < chars.len()
        invariant
            start <= chars@.len(),
            texts(lines@) + lines_of(chars@.skip(start as int)) == lines_of(chars@),
        decreases chars.len() - start,
    {
        let ghost rest = chars@.skip(start as int);
        let mut end: usize = start;
        while end < chars.len() && chars[end] != '\n'
            invariant
                start <= end <= chars@.len(),
                forall|k: int| start <= k < end ==> #[trigger] chars@[k] != '\n',
            decreases chars.len() - end,
        {
            end += 1;
        }
        proof {
            assert forall|k: int| 0 <= k < end - start implies #[trigger] rest[k] != '\n' by {
                assert(rest[k] == chars@[start + k]);
            }
            assert(end < chars@.len() ==> rest[end - start] == chars@[end as int]);
            lemma_line_length(rest, end - start);
            assert(rest.take(end - start) == chars@.subrange(start as int, end as int));
        }
        let ghost before = lines@;
        if end == chars.len() {
            let line = string_of(&chars, start, end);
            lines.push(line);
            proof {
                assert(rest == line@);
                assert(texts(lines@) =~= texts(before).push(line@));
                assert(chars@.skip(end as int) =~= Seq::<char>::empty());
                assert(texts(lines@) + lines_of(chars@.skip(end as int)) =~= texts(before)
                    + seq![line@]);
            }
            start = end;
        } else {
            let to: usize = if start < end && chars[end - 1] == '\r' {
                end - 1
            } else {
                end
            };
            let line = string_of(&chars, start, to);
            lines.push(line);
            proof {
                assert(line@ == without_return(rest.take(end - start)));
                assert(texts(lines@) =~= texts(before).push(line@));
                assert(rest.skip(end - start + 1) == chars@.skip(end + 1));
                assert(texts(lines@) + lines_of(chars@.skip(end + 1)) =~= texts(before) + (seq![
                    line@,
                ] + lines_of(chars@.skip(end + 1))));
            }
            start = end + 1;
        }
    }
    assert(lines_of(chars@.skip(start as int)) =~= Seq::<Seq<char>>::empty());
    assert(texts(lines@) + lines_of(chars@.skip(start as int)) =~= texts(lines@));
    lines
}

/// No line holds a line feed.
pub proof fn law_lines(text: Seq<char>, k: int, i: int)
    requires
        0 <= k < lines_of(text).len(),
        0 <= i < lines_of(text)[k].len(),
    ensures
        lines_of(text)[k][i] != '\n',
    decreases text.len(),
{
    let n = line_length(text) as int;
    lemma_line_run(text);
    if n < text.len() {
        let first = without_return(text.take(n));
        assert(lines_of(text) == seq![first] + lines_of(text.skip(n + 1)));
        if k > 0 {
            law_lines(text.skip(n + 1), k - 1, i);
        } else {
            assert(first[i] == text[i]);
        }
    }
}

proof fn lemma_line_run(text: Seq<char>)
    ensures
        line_length(text) <= text.len(),
        forall|i: int| 0 <= i < line_length(text) ==> #[trigger] text[i] != '\n',
    decreases text.len(),
{
    if text.len() > 0 && text[0] != '\n' {
        let rest = text.drop_first();
        lemma_line_run(rest);
        assert forall|i: int| 0 <= i < line_length(text) implies #[trigger] text[i] != '\n' by {
            if i > 0 {
                assert(text[i] == rest[i - 1]);
            }
        }
    }
}

// ---------------------------------------------------------------------------
// Joining
// ---------------------------------------------------------------------------

/// The parts one after the other, with `separator` between each two.
pub open spec fn joined(parts: Seq<Seq<char>>, separator: Seq<char>) -> Seq<char>
    decreases parts.len(),
{
    if parts.len() == 0 {
        seq![]
    } else if parts.len() == 1 {
        parts[0]
    } else {
        joined(parts.drop_last(), separator) + separator + parts.last()
    }
}

/// The strings from `from` on, joined by `separator`.
pub fn join_from(strings: &Vec<String>, from: usize, separator: &str) -> (text: String)
    requires
        from <= strings@.len(),
    ensures
        text@ == joined(texts(strings@).skip(from as int), separator@),
{
    let ghost parts = texts(strings@).skip(from as int);
    let mut text = String::new();
    let mut i: usize = from;
    while i < strings.len()
        invariant
            from <= i <= strings@.len(),
            parts == texts(strings@).skip(from as int),
            text@ == joined(parts.take(i - from), separator@),
        decreases strings.len() - i,
    {
        if i > from {
            text.append(separator);
        }
        text.append(strings[i].as_str());
        i += 1;
        proof {
            let upto = parts.take(i - from);
            assert(upto.drop_last() == parts.take(i - from - 1));
            assert(upto.last() == strings@[i - 1]@);
            if i == from + 1 {
                assert(text@ == strings@[i - 1]@);
            }
        }
    }
    assert(parts.take(i - from) == parts);
    text
}

// ---------------------------------------------------------------------------
// Numerals
// ---------------------------------------------------------------------------

/// The decimal digit of value `n`.
pub open spec fn digit(n: int) -> char {
    (0x30 + n) as char
}

/// The decimal numeral of `n`, without leading zeros.
pub open spec fn decimal(n: nat) -> Seq<char>
    decreases n,
{
    if n < 10 {
        seq![digit(n as int)]
    } else {
        decimal(n / 10).push(digit((n % 10) as int))
    }
}

fn digit_of(n: u64) -> (c: char)
    requires
        n < 10,
    ensures
        c == digit(n as int),
{
    if n == 0 {
        '0'
    } else if n == 1 {
        '1'
    } else if n == 2 {
        '2'
    } else if n == 3 {
        '3'
    } else if n == 4 {
        '4'
    } else if n == 5 {
        '5'
    } else if n == 6 {
        '6'
    } else if n == 7 {
        '7'
    } else if n == 8 {
        '8'
    } else {
        '9'
    }
}

/// The decimal numeral of `n`.
pub fn decimal_of(n: u64) -> (text: String)
    ensures
        text@ == decimal(n as nat),
    decreases n,
{
    let mut text = if n < 10 {
        String::new()
    } else {
        decimal_of(n / 10)
    };
    text.push(digit_of(n % 10));
    proof {
        if n < 10 {
            assert(text@ == seq![digit(n as int)]);
        }
    }
    text
}

// ---------------------------------------------------------------------------
// What trimming, splitting, joining and numerals come to
// ---------------------------------------------------------------------------

/// Trimming is exact: what is kept is one piece of the text, all that goes is white space, and
/// a piece that is kept neither starts nor ends with any.
pub proof fn law_trim_is_exact(text: Seq<char>)
    ensures
        exists|from: int, to: int|
            0 <= from <= to <= text.len() && trimmed(text) == #[trigger] text.subrange(from, to)
                && (forall|i: int| 0 <= i < from ==> white_space(#[trigger] text[i])) && (forall|
                i: int,
            | to <= i < text.len() ==> white_space(#[trigger] text[i])),
        trimmed(text).len() > 0 ==> !white_space(trimmed(text)[0]) && !white_space(
            trimmed(text).last(),
        ),
{
    let drop = |c: char| white_space(c);
    let front = trim_start_of(text, drop);
    lemma_trim_start(text, drop);
    lemma_trim_end(front, drop);
    let from = text.len() - front.len();
    let to = from + trimmed(text).len();
    assert(trimmed(text) =~= text.subrange(from, to));
    assert forall|i: int| 0 <= i < from implies white_space(#[trigger] text[i]) by {
        assert(drop(text[i]));
    }
    assert forall|i: int| to <= i < text.len() implies white_space(#[trigger] text[i]) by {
        assert(text[i] == front[i - from]);
        assert(drop(front[i - from]));
    }
    if trimmed(text).len() > 0 {
        assert(trimmed(text)[0] == front[0]);
        assert(!drop(front[0]));
        assert(!drop(trimmed(text).last()));
    }
}

/// Nothing but white space is lost in splitting: white space in front of a text changes none of
/// its words, and a word in front, with white space or the end behind it, is the first of them.
pub proof fn law_words_in_order(space: char, word: Seq<char>, rest: Seq<char>)
    requires
        white_space(space),
        word.len() > 0,
        forall|i: int| 0 <= i < word.len() ==> !white_space(#[trigger] word[i]),
        rest.len() > 0 ==> white_space(rest[0]),
    ensures
        words_of(Seq::<char>::empty()) == Seq::<Seq<char>>::empty(),
        words_of(seq![space] + rest) == words_of(rest),
        words_of(word + rest) == seq![word] + words_of(rest),
{
    assert((seq![space] + rest).drop_first() =~= rest);
    let all = word + rest;
    let n = word.len() as int;
    assert forall|i: int| 0 <= i < n implies !white_space(#[trigger] all[i]) by {
        assert(all[i] == word[i]);
    }
    lemma_word_length(all, n);
    assert(!white_space(all[0]));
    assert(all.take(n) =~= word);
    assert(all.skip(n) =~= rest);
}

/// A text is read line by line: up to each line feed, which goes, with a carriage return just
/// before it. A last line without a line feed is kept as it stands.
pub proof fn law_lines_in_order(line: Seq<char>, rest: Seq<char>)
    requires
        forall|i: int| 0 <= i < line.len() ==> #[trigger] line[i] != '\n',
    ensures
        line.len() > 0 ==> lines_of(line) == seq![line],
        lines_of(Seq::<char>::empty()) == Seq::<Seq<char>>::empty(),
        (line.len() == 0 || line.last() != '\r') ==> lines_of(line + seq!['\n'] + rest)
            == seq![line] + lines_of(rest),
        lines_of(line + seq!['\r', '\n'] + rest) == seq![line] + lines_of(rest),
{
    lemma_line_length(line, line.len() as int);
    let n = line.len() as int;
    let all = line + seq!['\n'] + rest;
    assert forall|i: int| 0 <= i < n implies #[trigger] all[i] != '\n' by {
        assert(all[i] == line[i]);
    }
    lemma_line_length(all, n);
    assert(all.take(n) =~= line);
    assert(all.skip(n + 1) =~= rest);
    let ended = line + seq!['\r', '\n'] + rest;
    assert forall|i: int| 0 <= i < n + 1 implies #[trigger] ended[i] != '\n' by {
        if i < n {
            assert(ended[i] == line[i]);
        }
    }
    lemma_line_length(ended, n + 1);
    assert(ended.take(n + 1) =~= line.push('\r'));
    assert(line.push('\r').drop_last() =~= line);
    assert(ended.skip(n + 2) =~= rest);
}

/// Joining keeps the order, with one separator between two parts and none at the ends.
pub proof fn law_join_in_order(first: Seq<Seq<char>>, later: Seq<Seq<char>>, separator: Seq<char>)
    requires
        first.len() > 0,
        later.len() > 0,
    ensures
        joined(first + later, separator) == joined(first, separator) + separator + joined(
            later,
            separator,
        ),
        first.len() == 1 ==> joined(first, separator) == first[0],
        joined(Seq::<Seq<char>>::empty(), separator).len() == 0,
    decreases later.len(),
{
    let all = first + later;
    if later.len() == 1 {
        assert(all.drop_last() =~= first);
    } else {
        let front = later.drop_last();
        law_join_in_order(first, front, separator);
        assert(all.drop_last() =~= first + front);
        assert(joined(all, separator) =~= joined(first, separator) + separator + (joined(
            front,
            separator,
        ) + separator + later.last()));
    }
}

/// A numeral is read by its digits: the last one is worth itself, what stands before it ten
/// times itself, and no numeral of more than one digit starts with a zero.
pub proof fn law_numeral(n: nat, ones: nat)
    requires
        ones < 10,
    ensures
        n > 0 ==> decimal(10 * n + ones) == decimal(n).push(
            seq!['0', '1', '2', '3', '4', '5', '6', '7', '8', '9'][ones as int],
        ),
        decimal(ones) == seq![seq!['0', '1', '2', '3', '4', '5', '6', '7', '8', '9'][ones as int]],
        n > 0 ==> decimal(n).len() > 0 && decimal(n)[0] != '0',
    decreases n,
{
    assert((10 * n + ones) / 10 == n);
    assert((10 * n + ones) % 10 == ones);
    if n >= 10 {
        law_numeral(n / 10, n % 10);
    }
}

} // verus!
