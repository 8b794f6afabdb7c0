//! Characters and tokens of a report line.
//!
//! A line is split into tokens at white space, as Unicode defines it. The
//! tokens of a line are described by [`tokens`]; [`token_spans`] finds them.

use vstd::prelude::*;

verus! {

/// Whether `c` separates tokens: the characters that carry Unicode's
/// `White_Space` property.
pub open spec fn whitespace(c: char) -> bool {
    ||| '\u{9}' <= c <= '\u{d}'
    ||| c == ' '
    ||| c == '\u{85}'
    ||| c == '\u{a0}'
    ||| c == '\u{1680}'
    ||| '\u{2000}' <= c <= '\u{200a}'
    ||| c == '\u{2028}'
    ||| c == '\u{2029}'
    ||| c == '\u{202f}'
    ||| c == '\u{205f}'
    ||| c == '\u{3000}'
}

/// Tells whether `c` separates tokens.
pub fn is_whitespace(c: char) -> (r: bool)
    ensures
        r == whitespace(c),
{
    ('\u{9}' <= c && c <= '\u{d}') || c == ' ' || c == '\u{85}' || c == '\u{a0}' || c
        == '\u{1680}' || ('\u{2000}' <= c && c <= '\u{200a}') || c == '\u{2028}' || c
        == '\u{2029}' || c == '\u{202f}' || c == '\u{205f}' || c == '\u{3000}'
}

/// What a scan from the left end of a text has found: the tokens that white
/// space has already closed, and the token that is still open at the right end
/// (empty where the text ends in white space).
pub struct Scan {
    pub closed: Seq<Seq<char>>,
    pub open: Seq<char>,
}

/// Scans `text` from the left: a character that is no white space extends the
/// open token, and white space closes it.
pub open spec fn scan(text: Seq<char>) -> Scan
    decreases text.len(),
{
    if text.len() == 0 {
        Scan { closed: Seq::empty(), open: Seq::empty() }
    } else {
        let before = scan(text.drop_last());
        if !whitespace(text.last()) {
            Scan { closed: before.closed, open: before.open.push(text.last()) }
        } else if before.open.len() > 0 {
            Scan { closed: before.closed.push(before.open), open: Seq::empty() }
        } else {
            before
        }
    }
}

/// The tokens of `text`: its maximal runs of characters that are no white
/// space, from left to right.
pub open spec fn tokens(text: Seq<char>) -> Seq<Seq<char>> {
    let found = scan(text);
    if found.open.len() > 0 {
        found.closed.push(found.open)
    } else {
        found.closed
    }
}

/// Whether `text` holds no white space.
pub open spec fn unbroken(text: Seq<char>) -> bool {
    forall|i: int| 0 <= i < text.len() ==> !whitespace(#[trigger] text[i])
}

/// Every token holds a character, and none that is white space.
pub proof fn lemma_tokens_are_unbroken(text: Seq<char>)
    ensures
        forall|k: int|
            0 <= k < tokens(text).len() ==> (#[trigger] tokens(text)[k]).len() > 0 && unbroken(
                tokens(text)[k],
            ),
{
    lemma_scan_is_unbroken(text);
}

/// A scan closes no empty token, and lets no white space into a token.
proof fn lemma_scan_is_unbroken(text: Seq<char>)
    ensures
        unbroken(scan(text).open),
        forall|k: int|
            0 <= k < scan(text).closed.len() ==> (#[trigger] scan(text).closed[k]).len() > 0
                && unbroken(scan(text).closed[k]),
    decreases text.len(),
{
    if text.len() > 0 {
        let before = scan(text.drop_last());
        lemma_scan_is_unbroken(text.drop_last());
        if !whitespace(text.last()) {
            let open = before.open.push(text.last());
            assert forall|i: int| 0 <= i < open.len() implies !whitespace(#[trigger] open[i]) by {
                if i < before.open.len() {
                    assert(open[i] == before.open[i]);
                }
            }
        } else if before.open.len() > 0 {
            let closed = before.closed.push(before.open);
            assert forall|k: int| 0 <= k < closed.len() implies (#[trigger] closed[k]).len() > 0
                && unbroken(closed[k]) by {
                if k < before.closed.len() {
                    assert(closed[k] == before.closed[k]);
                }
            }
        }
    }
}

/// The place of a token in its line: the characters from `start` up to, but
/// not including, `end`.
#[derive(Clone, Copy, Debug)]
pub struct Span {
    pub start: usize,
    pub end: usize,
}

impl Span {
    /// The characters of `text` that the span covers.
    pub open spec fn of(self, text: Seq<char>) -> Seq<char> {
        text.subrange(self.start as int, self.end as int)
    }

    /// Whether the span lies within a text of `len` characters.
    pub open spec fn within(self, len: nat) -> bool {
        self.start <= self.end <= len
    }
}

/// Whether `spans` are the places in `text` of the token sequence `found`, one
/// span for each token and in the same order.
pub open spec fn spans_locate(text: Seq<char>, spans: Seq<Span>, found: Seq<Seq<char>>) -> bool {
    &&& spans.len() == found.len()
    &&& forall|k: int|
        0 <= k < spans.len() ==> (#[trigger] spans[k]).within(text.len()) && spans[k].of(text)
            == found[k]
}

/// The characters of `text`, one by one.
pub fn chars_of(text: &str) -> (chars: Vec<char>)
    ensures
        chars@ == text@,
{
    let mut chars: Vec<char> = Vec::new();
    for c in it: text.chars()
        invariant
            chars@ == it.seq().take(it.index() as int),
            it.seq() == text@,
    {
        chars.push(c);
    }
    chars
}

/// Tells whether `text` is, character for character, the word `word`.
pub fn is_word(text: &[char], word: &str) -> (r: bool)
    ensures
        r == (text@ == word@),
{
    let n = word.unicode_len();
    if text.len() != n {
        return false;
    }
    let mut i: usize = 0;
    while i < n
        invariant
            i <= n,
            n == word@.len(),
            n == text@.len(),
            forall|j: int| 0 <= j < i ==> text@[j] == word@[j],
        decreases n - i,
    {
        if text[i] != word.get_char(i) {
            return false;
        }
        i = i + 1;
    }
    proof {
        assert(text@ =~= word@);
    }
    true
}

/// Finds the tokens of a line, given by its characters.
pub fn token_spans(chars: &[char]) -> (spans: Vec<Span>)
    ensures
        spans_locate(chars@, spans@, tokens(chars@)),
{
    let mut spans: Vec<Span> = Vec::new();
    let mut start: usize = 0;
    let mut inside: bool = false;
    let mut i: usize = 0;
    while i < chars.len()
        invariant
            i <= chars.len(),
            spans_locate(chars@, spans@, scan(chars@.take(i as int)).closed),
            inside ==> start < i && scan(chars@.take(i as int)).open == chars@.subrange(
                start as int,
                i as int,
            ),
            !inside ==> scan(chars@.take(i as int)).open.len() == 0,
        decreases chars.len() - i,
    {
        let c = chars[i];
        proof {
            assert(chars@.take(i + 1).drop_last() == chars@.take(i as int));
            assert(chars@.take(i + 1).last() == c);
        }
        if is_whitespace(c) {
            if inside {
                spans.push(Span { start, end: i });
                inside = false;
            }
        } else {
            if !inside {
                start = i;
                inside = true;
            }
            proof {
                assert(chars@.subrange(start as int, i + 1) == chars@.subrange(
                    start as int,
                    i as int,
                ).push(c));
            }
        }
        i = i + 1;
    }
    proof {
        assert(chars@.take(i as int) == chars@);
    }
    if inside {
        spans.push(Span { start, end: i });
    }
    spans
}

} // verus!
