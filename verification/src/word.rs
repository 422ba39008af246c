//! Words: the pieces of a line between white space.

use crate::value::Value;
use vstd::prelude::*;
use vstd::string::*;
use vstd::utf8::*;

verus! {

/// Whether two texts hold the same characters.
pub fn same_text(a: &str, b: &str) -> (r: bool)
    ensures
        r == (a@ == b@),
{
    let x = a.as_bytes();
    let y = b.as_bytes();
    if x.len() != y.len() {
        return false;
    }
    let mut i: usize = 0;
    while i < x.len()
        invariant
            i <= x@.len() == y@.len(),
            x@ == a.spec_bytes(),
            y@ == b.spec_bytes(),
            forall|j: int| 0 <= j < i ==> x@[j] == y@[j],
        decreases x@.len() - i,
    {
        if x[i] != y[i] {
            return false;
        }
        i = i + 1;
    }
    proof {
        assert(x@ =~= y@);
        encode_utf8_decode_utf8(a@);
        encode_utf8_decode_utf8(b@);
    }
    true
}

/// The characters that part the words of a line: space, tab, line feed, form
/// feed and carriage return.
pub open spec fn space(c: char) -> bool {
    c == ' ' || c == '\t' || c == '\n' || c == '\x0C' || c == '\r'
}

/// Whether `c` parts words.
pub fn is_space(c: char) -> (r: bool)
    ensures
        r == space(c),
{
    c == ' ' || c == '\t' || c == '\n' || c == '\x0C' || c == '\r'
}

/// Where the run of characters other than white space that holds position
/// `from` ends: the position of the next white space, or the end of `s`.
pub open spec fn word_end(s: Seq<char>, from: int) -> int
    decreases s.len() - from,
{
    if from < 0 || from >= s.len() || space(s[from]) {
        from
    } else {
        word_end(s, from + 1)
    }
}

/// The words of `s` that begin at or after `from`, in order. `from` is the
/// start of `s` or follows a white space or a word.
pub open spec fn words_from(s: Seq<char>, from: int) -> Seq<Seq<char>>
    decreases s.len() - from,
{
    if from < 0 || from >= s.len() {
        Seq::empty()
    } else if space(s[from]) {
        words_from(s, from + 1)
    } else {
        let end = word_end(s, from);
        if from < end <= s.len() {
            seq![s.subrange(from, end)] + words_from(s, end)
        } else {
            Seq::empty()
        }
    }
}

/// A word ends after it begins and within the text.
pub proof fn lemma_word_end(s: Seq<char>, from: int)
    requires
        0 <= from <= s.len(),
    ensures
        from <= word_end(s, from) <= s.len(),
        from < s.len() && !space(s[from]) ==> from < word_end(s, from),
        forall|i: int| from <= i < word_end(s, from) ==> !space(#[trigger] s[i]),
        word_end(s, from) < s.len() ==> space(s[word_end(s, from)]),
    decreases s.len() - from,
{
    if from < s.len() && !space(s[from]) {
        lemma_word_end(s, from + 1);
    }
}

/// The text is not empty and holds no white space.
pub open spec fn solid(w: Seq<char>) -> bool {
    w.len() > 0 && forall|i: int| 0 <= i < w.len() ==> !space(#[trigger] w[i])
}

/// No word is empty and no word holds white space.
pub proof fn lemma_words_are_solid(s: Seq<char>, from: int)
    requires
        0 <= from <= s.len(),
    ensures
        forall|k: int|
            0 <= k < words_from(s, from).len() ==> solid(#[trigger] words_from(s, from)[k]),
    decreases s.len() - from,
{
    if from < s.len() {
        if space(s[from]) {
            lemma_words_are_solid(s, from + 1);
            assert(words_from(s, from) == words_from(s, from + 1));
        } else {
            let end = word_end(s, from);
            lemma_word_end(s, from);
            lemma_words_are_solid(s, end);
            let first = s.subrange(from, end);
            let rest = words_from(s, end);
            assert(solid(first));
            assert(words_from(s, from) == seq![first] + rest);
            assert forall|k: int| 0 <= k < words_from(s, from).len() implies solid(
                #[trigger] words_from(s, from)[k],
            ) by {
                if k > 0 {
                    assert(words_from(s, from)[k] == rest[k - 1]);
                } else {
                    assert(words_from(s, from)[k] == first);
                }
            }
        }
    } else {
        assert(words_from(s, from).len() == 0);
    }
}

/// A text without white space that does not begin with `#` is one word, and
/// the empty text is none.
pub proof fn lemma_one_word(s: Seq<char>)
    requires
        s.len() > 0,
        s[0] != '#',
        forall|i: int| 0 <= i < s.len() ==> !space(#[trigger] s[i]),
    ensures
        line_words(s) == seq![s],
{
    lemma_word_end(s, 0);
    let end = word_end(s, 0);
    if end < s.len() {
        assert(space(s[end]));
    }
    assert(s.subrange(0, end) =~= s);
    assert(words_from(s, end) =~= Seq::<Seq<char>>::empty());
    assert(line_words(s) =~= seq![s]);
}

/// The words of a line: none where the line begins with `#`, else its runs of
/// characters other than white space.
pub open spec fn line_words(s: Seq<char>) -> Seq<Seq<char>> {
    if s.len() > 0 && s[0] == '#' {
        Seq::empty()
    } else {
        words_from(s, 0)
    }
}

/// The characters of each text.
pub open spec fn texts(ws: Seq<String>) -> Seq<Seq<char>> {
    ws.map_values(|w: String| w@)
}

/// How many characters `l` has. `ascii` says that all of them are ASCII, so
/// that each is one byte.
fn length(l: &str, ascii: bool) -> (n: usize)
    requires
        ascii ==> l.is_ascii(),
    ensures
        n == l@.len(),
{
    if ascii {
        proof {
            is_ascii_chars_encode_utf8(l@);
        }
        l.as_bytes().len()
    } else {
        l.unicode_len()
    }
}

/// The character of `l` at `i`.
fn char_at(l: &str, ascii: bool, i: usize) -> (c: char)
    requires
        ascii ==> l.is_ascii(),
        i < l@.len(),
    ensures
        c == l@[i as int],
{
    if ascii {
        l.get_ascii(i) as char
    } else {
        l.get_char(i)
    }
}

/// The characters of `l` from `from` up to `to`.
fn piece<'a>(l: &'a str, ascii: bool, from: usize, to: usize) -> (part: &'a str)
    requires
        ascii ==> l.is_ascii(),
        from <= to <= l@.len(),
    ensures
        part@ == l@.subrange(from as int, to as int),
{
    if ascii {
        l.substring_ascii(from, to)
    } else {
        l.substring_char(from, to)
    }
}

/// Splits a line into its words.
pub fn split_line(l: &str) -> (words: Vec<String>)
    ensures
        texts(words@) == line_words(l@),
{
    let ascii: bool = l.is_ascii();
    let n: usize = length(l, ascii);
    let mut words: Vec<String> = Vec::new();
    assert(texts(words@) =~= Seq::<Seq<char>>::empty());
    if n > 0 && char_at(l, ascii, 0) == '#' {
        return words;
    }
    let mut i: usize = 0;
    while i < n
        invariant
            i <= n == l@.len(),
            ascii ==> l.is_ascii(),
            texts(words@) + words_from(l@, i as int) == words_from(l@, 0),
        decreases n - i,
    {
        if is_space(char_at(l, ascii, i)) {
            i = i + 1;
        } else {
            let start: usize = i;
            i = i + 1;
            while i < n && !is_space(char_at(l, ascii, i))
                invariant
                    start < i <= n == l@.len(),
                    ascii ==> l.is_ascii(),
                    !space(l@[start as int]),
                    word_end(l@, start as int) == word_end(l@, i as int),
                decreases n - i,
            {
                i = i + 1;
            }
            let word = String::from_str(piece(l, ascii, start, i));
            proof {
                assert(word_end(l@, i as int) == i);
                assert(texts(words@.push(word)) =~= texts(words@) + seq![
                    l@.subrange(start as int, i as int),
                ]);
            }
            words.push(word);
        }
    }
    assert(words_from(l@, n as int) =~= Seq::<Seq<char>>::empty());
    words
}

/// A word of a line together with the number that it reads as, if it reads as
/// one. Reading numbers is the host's work: the calculator takes the reading
/// as it is given.
#[derive(Debug)]
pub struct Word {
    pub text: String,
    pub literal: Option<Value>,
}

/// A [`Word`] with its text as a sequence of characters.
pub struct WordView {
    pub text: Seq<char>,
    pub literal: Option<Value>,
}

impl View for Word {
    type V = WordView;

    open spec fn view(&self) -> WordView {
        WordView { text: self.text@, literal: self.literal }
    }
}

/// The views of the words of `ws`.
pub open spec fn views(ws: Seq<Word>) -> Seq<WordView> {
    ws.map_values(|w: Word| w@)
}

impl WordView {
    /// A word that reads as no number.
    pub open spec fn name(text: Seq<char>) -> WordView {
        WordView { text, literal: None }
    }
}

impl Word {
    /// The word `text`, which reads as `literal`.
    pub fn new(text: String, literal: Option<Value>) -> (w: Word)
        ensures
            w@ == (WordView { text: text@, literal }),
    {
        Word { text, literal }
    }

    /// A copy of the word.
    pub fn duplicate(&self) -> (w: Word)
        ensures
            w@ == self@,
    {
        Word { text: self.text.clone(), literal: self.literal }
    }
}

} // verus!
