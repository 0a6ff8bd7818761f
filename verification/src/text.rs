//! Characters, tokens and lines: the text-level notions the request grammar
//! rests on.
//!
//! Text is modelled as a `Seq<char>`. Tokens are the maximal runs of
//! characters that hold no whitespace; a line ends at the first line feed.

use vstd::prelude::*;

verus! {

/// The characters that separate tokens: those with the Unicode `White_Space`
/// property.
pub open spec fn is_whitespace(c: char) -> bool {
    let u = c as u32;
    ||| 0x09 <= u <= 0x0D
    ||| u == 0x20
    ||| u == 0x85
    ||| u == 0xA0
    ||| u == 0x1680
    ||| 0x2000 <= u <= 0x200A
    ||| u == 0x2028
    ||| u == 0x2029
    ||| u == 0x202F
    ||| u == 0x205F
    ||| u == 0x3000
}

/// Tells whether `c` is whitespace.
fn separates(c: char) -> (r: bool)
    ensures
        r == is_whitespace(c),
{
    let u: u32 = c as u32;
    (0x09 <= u && u <= 0x0D) || u == 0x20 || u == 0x85 || u == 0xA0 || u == 0x1680 || (0x2000 <= u
        && u <= 0x200A) || u == 0x2028 || u == 0x2029 || u == 0x202F || u == 0x205F || u == 0x3000
}

/// A property of single characters that a scan can stop at.
#[derive(Clone, Copy, Debug, PartialEq, Eq)]
pub enum CharClass {
    /// A character that separates tokens.
    Whitespace,
    /// A character that belongs to a token.
    Word,
    /// The line feed, which ends a line.
    LineFeed,
}

impl CharClass {
    /// Whether `c` belongs to the class.
    pub open spec fn contains(self, c: char) -> bool {
        match self {
            CharClass::Whitespace => is_whitespace(c),
            CharClass::Word => !is_whitespace(c),
            CharClass::LineFeed => c == '\n',
        }
    }

    /// Tells whether `c` belongs to the class.
    pub fn has(self, c: char) -> (r: bool)
        ensures
            r == self.contains(c),
    {
        match self {
            CharClass::Whitespace => separates(c),
            CharClass::Word => !separates(c),
            CharClass::LineFeed => c == '\n',
        }
    }
}

/// The first position at or after `from` whose character belongs to `class`,
/// or the length of `s` where no such position is left.
pub open spec fn find(s: Seq<char>, from: int, class: CharClass) -> int
    decreases s.len() - from,
{
    if 0 <= from < s.len() && !class.contains(s[from]) {
        find(s, from + 1, class)
    } else {
        from
    }
}

/// `find` stops inside the text, on the first character of the class, and
/// passes over none.
pub proof fn lemma_find(s: Seq<char>, from: int, class: CharClass)
    requires
        0 <= from <= s.len(),
    ensures
        from <= find(s, from, class) <= s.len(),
        find(s, from, class) < s.len() ==> class.contains(s[find(s, from, class)]),
        forall|i: int| from <= i < find(s, from, class) ==> !class.contains(#[trigger] s[i]),
    decreases s.len() - from,
{
    if from < s.len() && !class.contains(s[from]) {
        lemma_find(s, from + 1, class);
    }
}

/// The converse: the first position of the class at or after `from` is what
/// `find` gives.
pub proof fn lemma_find_at(s: Seq<char>, from: int, class: CharClass, at: int)
    requires
        0 <= from <= at <= s.len(),
        forall|i: int| from <= i < at ==> !class.contains(#[trigger] s[i]),
        at < s.len() ==> class.contains(s[at]),
    ensures
        find(s, from, class) == at,
    decreases at - from,
{
    if from < at {
        lemma_find_at(s, from + 1, class, at);
    }
}

/// The tokens of `s` that begin at or after `from`, in order: each is a
/// maximal run of characters that are not whitespace.
pub open spec fn tokens_from(s: Seq<char>, from: int) -> Seq<Seq<char>>
    decreases s.len() - from,
{
    let start = find(s, from, CharClass::Word);
    let end = find(s, start, CharClass::Whitespace);
    if 0 <= from <= start < end <= s.len() {
        seq![s.subrange(start, end)] + tokens_from(s, end)
    } else {
        Seq::empty()
    }
}

/// The whitespace-separated tokens of `s`, in order.
pub open spec fn tokens(s: Seq<char>) -> Seq<Seq<char>> {
    tokens_from(s, 0)
}

/// A token: text that is not empty and holds no whitespace.
pub open spec fn is_token(t: Seq<char>) -> bool {
    &&& t.len() > 0
    &&& forall|i: int| 0 <= i < t.len() ==> !is_whitespace(#[trigger] t[i])
}

/// Every element of a tokenization is a token.
pub proof fn lemma_tokens_are_tokens(s: Seq<char>, from: int)
    requires
        0 <= from <= s.len(),
    ensures
        forall|k: int|
            0 <= k < tokens_from(s, from).len() ==> is_token(#[trigger] tokens_from(s, from)[k]),
    decreases s.len() - from,
{
    let start = find(s, from, CharClass::Word);
    lemma_find(s, from, CharClass::Word);
    let end = find(s, start, CharClass::Whitespace);
    lemma_find(s, start, CharClass::Whitespace);
    if start < end {
        lemma_tokens_are_tokens(s, end);
        let head = s.subrange(start, end);
        assert forall|i: int| 0 <= i < head.len() implies !is_whitespace(#[trigger] head[i]) by {
            assert(head[i] == s[start + i]);
        }
        assert(is_token(head));
        assert forall|k: int| 0 <= k < tokens_from(s, from).len() implies is_token(
            #[trigger] tokens_from(s, from)[k],
        ) by {
            if k > 0 {
                assert(tokens_from(s, from)[k] == tokens_from(s, end)[k - 1]);
            }
        }
    }
}

/// A token found by its surroundings: where only whitespace stands between
/// `from` and `start`, no whitespace between `start` and `end`, and whitespace
/// or nothing at `end`, the tokens from `from` on are that run and then the
/// tokens from `end` on.
pub proof fn lemma_token_at(s: Seq<char>, from: int, start: int, end: int)
    requires
        0 <= from <= start < end <= s.len(),
        forall|i: int| from <= i < start ==> is_whitespace(#[trigger] s[i]),
        forall|i: int| start <= i < end ==> !is_whitespace(#[trigger] s[i]),
        end < s.len() ==> is_whitespace(s[end]),
    ensures
        tokens_from(s, from) == seq![s.subrange(start, end)] + tokens_from(s, end),
{
    lemma_find_at(s, from, CharClass::Word, start);
    lemma_find_at(s, start, CharClass::Whitespace, end);
}

/// Scanning the text that is left after `k` characters finds what scanning
/// the whole text finds, `k` positions earlier.
pub proof fn lemma_find_skip(s: Seq<char>, k: int, from: int, class: CharClass)
    requires
        0 <= k <= from <= s.len(),
    ensures
        find(s, from, class) == k + find(s.skip(k), from - k, class),
    decreases s.len() - from,
{
    if from < s.len() {
        assert(s.skip(k)[from - k] == s[from]);
        if !class.contains(s[from]) {
            lemma_find_skip(s, k, from + 1, class);
        }
    }
}

/// The tokens from `from` on are those of the text that is left after any
/// `k <= from` characters, from `from - k` on.
pub proof fn lemma_tokens_skip(s: Seq<char>, k: int, from: int)
    requires
        0 <= k <= from <= s.len(),
    ensures
        tokens_from(s, from) == tokens_from(s.skip(k), from - k),
    decreases s.len() - from,
{
    let start = find(s, from, CharClass::Word);
    lemma_find(s, from, CharClass::Word);
    lemma_find_skip(s, k, from, CharClass::Word);
    let end = find(s, start, CharClass::Whitespace);
    lemma_find(s, start, CharClass::Whitespace);
    lemma_find_skip(s, k, start, CharClass::Whitespace);
    if start < end {
        assert(s.subrange(start, end) == s.skip(k).subrange(start - k, end - k));
        lemma_tokens_skip(s, k, end);
    }
}

/// Tokenizing piece by piece: a token, then whitespace, then any text give
/// that token and then the tokens of the text. The whitespace may be left out
/// only where no text follows.
pub proof fn lemma_tokens_of_joined(token: Seq<char>, gap: Seq<char>, rest: Seq<char>)
    requires
        is_token(token),
        forall|i: int| 0 <= i < gap.len() ==> is_whitespace(#[trigger] gap[i]),
        gap.len() > 0 || rest.len() == 0,
    ensures
        tokens(token + gap + rest) == seq![token] + tokens(rest),
{
    let s = token + gap + rest;
    let start = token.len() as int;
    let resume = start + gap.len();
    assert(s.subrange(0, start) == token);
    assert(s.skip(resume) == rest);
    assert forall|i: int| 0 <= i < start implies !is_whitespace(#[trigger] s[i]) by {
        assert(s[i] == token[i]);
    }
    assert forall|i: int| start <= i < resume implies is_whitespace(#[trigger] s[i]) by {
        assert(s[i] == gap[i - start]);
    }
    lemma_token_at(s, 0, 0, start);
    lemma_find(s, resume, CharClass::Word);
    assert(find(s, start, CharClass::Word) == find(s, resume, CharClass::Word)) by {
        let at = find(s, resume, CharClass::Word);
        lemma_find_at(s, start, CharClass::Word, at);
    }
    assert(tokens_from(s, start) == tokens_from(s, resume));
    lemma_tokens_skip(s, resume, resume);
}

/// The first line of `text`, without its terminator: what precedes the first
/// line feed, less a carriage return that stands directly before that line
/// feed. Text without a line feed is one line; empty text has no line.
pub open spec fn spec_first_line(text: Seq<char>) -> Option<Seq<char>> {
    let end = find(text, 0, CharClass::LineFeed);
    if text.len() == 0 {
        None
    } else if 0 < end < text.len() && text[end - 1] == '\r' {
        Some(text.take(end - 1))
    } else {
        Some(text.take(end))
    }
}

/// The characters of `s`, one by one.
pub fn to_chars(s: &str) -> (chars: Vec<char>)
    ensures
        chars@ == s@,
{
    let mut chars: Vec<char> = Vec::new();
    for c in it: s.chars()
        invariant
            chars@ == it.seq().take(it.index()),
    {
        chars.push(c);
    }
    chars
}

/// Tells whether two texts hold the same characters.
pub fn same_text(a: &str, b: &str) -> (r: bool)
    ensures
        r == (a@ == b@),
{
    let x = to_chars(a);
    let y = to_chars(b);
    if x.len() != y.len() {
        return false;
    }
    let mut i: usize = 0;
    while i < x.len()
        invariant
            x@ == a@,
            y@ == b@,
            x.len() == y.len(),
            i <= x.len(),
            x@.take(i as int) == y@.take(i as int),
        decreases x.len() - i,
    {
        if x[i] != y[i] {
            return false;
        }
        assert(x@.take(i + 1) == x@.take(i as int).push(x@[i as int]));
        assert(y@.take(i + 1) == y@.take(i as int).push(y@[i as int]));
        i += 1;
    }
    assert(x@ == x@.take(i as int) && y@ == y@.take(i as int));
    true
}

/// The first position at or after `from` whose character belongs to `class`,
/// or the length of `chars` where no such position is left. A `from` beyond
/// the end is given back as it is.
pub fn scan(chars: &[char], from: usize, class: CharClass) -> (at: usize)
    ensures
        at == find(chars@, from as int, class),
        from <= at,
        from <= chars.len() ==> at <= chars.len(),
        at < chars.len() ==> class.contains(chars@[at as int]),
        forall|i: int| from <= i < at ==> !class.contains(#[trigger] chars@[i]),
{
    proof {
        if from <= chars.len() {
            lemma_find(chars@, from as int, class);
        }
    }
    let mut at: usize = from;
    while at < chars.len() && !class.has(chars[at])
        invariant
            from <= at,
            from <= chars.len() ==> at <= chars.len(),
            find(chars@, from as int, class) == find(chars@, at as int, class),
        decreases chars.len() - at,
    {
        at += 1;
    }
    at
}

/// The bounds of the first token of `chars` that begins at or after `from`,
/// if there is one.
pub fn next_token(chars: &[char], from: usize) -> (bounds: Option<(usize, usize)>)
    ensures
        match bounds {
            Some((start, end)) => {
                &&& from <= start < end <= chars.len()
                &&& tokens_from(chars@, from as int) == seq![
                    chars@.subrange(start as int, end as int),
                ] + tokens_from(chars@, end as int)
            },
            None => tokens_from(chars@, from as int) == Seq::<Seq<char>>::empty(),
        },
{
    let start = scan(chars, from, CharClass::Word);
    let end = scan(chars, start, CharClass::Whitespace);
    if start < end {
        Some((start, end))
    } else {
        None
    }
}

/// The first line of `text`, without its terminator; `None` where `text` is
/// empty.
pub fn first_line(text: &str) -> (line: Option<&str>)
    ensures
        match line {
            Some(l) => spec_first_line(text@) == Some(l@),
            None => spec_first_line(text@) is None,
        },
{
    let chars = to_chars(text);
    if chars.len() == 0 {
        return None;
    }
    let end = scan(chars.as_slice(), 0, CharClass::LineFeed);
    if 0 < end && end < chars.len() && chars[end - 1] == '\r' {
        Some(text.substring_char(0, end - 1))
    } else {
        Some(text.substring_char(0, end))
    }
}

} // verus!
