use vstd::prelude::*;
use vstd::utf8::{decode_utf8, valid_utf8};
use vstd::string::StringSliceAdditionalSpecFns;
use vstd::std_specs::iter::IteratorSpec;
use crate::mesh::LoadError;

verus! {

/// Whether a character separates words: the result of `char::is_whitespace`.
pub uninterp spec fn is_whitespace(c: char) -> bool;

/// Asks `char::is_whitespace` of the standard library whether the
/// character has the Unicode property `White_Space`. The result is taken
/// on trust and goes by the name `is_whitespace` in the contracts of this
/// file.
#[verifier::external_body]
fn char_is_whitespace(c: char) -> (b: bool)
    ensures
        b == is_whitespace(c),
{
    c.is_whitespace()
}

/// Reads the bytes as UTF-8 with `std::str::from_utf8`: the text that they
/// encode, or `None` where they are no valid UTF-8. That the function
/// accepts exactly the valid encodings, and that the text has the bytes it
/// was read from, is taken on trust.
#[verifier::external_body]
fn text_of(data: &[u8]) -> (text: Option<&str>)
    ensures
        match text {
            Some(s) => valid_utf8(data@) && s.spec_bytes() == data@,
            None => !valid_utf8(data@),
        },
{
    std::str::from_utf8(data).ok()
}

/// The characters of a text.
fn chars_of(text: &str) -> (chars: Vec<char>)
    ensures
        chars@ == text@,
{
    broadcast use vstd::string::group_string_axioms;

    let mut chars: Vec<char> = Vec::new();
    let mut rest = text.chars();
    loop
        invariant_except_break
            chars@ + rest.remaining() == text@,
            rest.obeys_prophetic_iter_laws(),
            rest.decrease() is Some,
        ensures
            chars@ == text@,
        decreases rest.decrease()->0,
    {
        match rest.next() {
            Some(c) => {
                chars.push(c);
                assert(chars@ + rest.remaining() =~= text@);
            },
            None => {
                assert(chars@ + rest.remaining() =~= chars@);
                break;
            },
        }
    }
    chars
}

/// The position at which the line that starts at `start` ends: that of the
/// next line feed, or the end of the text.
pub open spec fn line_end(text: Seq<char>, start: int) -> int
    decreases text.len() - start,
{
    if start < 0 || start >= text.len() {
        text.len() as int
    } else if text[start] == '\n' {
        start
    } else {
        line_end(text, start + 1)
    }
}

/// The line that starts at `start`, without its line feed and without a
/// carriage return before that line feed.
pub open spec fn line_at(text: Seq<char>, start: int) -> Seq<char> {
    let end = line_end(text, start);
    if end < text.len() && start < end && text[end - 1] == '\r' {
        text.subrange(start, end - 1)
    } else {
        text.subrange(start, end)
    }
}

/// The lines of the text from position `start` on. A text that ends in a
/// line feed has no further, empty line after it.
pub open spec fn lines_from(text: Seq<char>, start: int) -> Seq<Seq<char>>
    decreases text.len() - start,
{
    if start < 0 || start >= text.len() {
        seq![]
    } else {
        proof {
            lemma_line_end_bounds(text, start);
        }
        let end = line_end(text, start);
        if end < text.len() {
            seq![line_at(text, start)] + lines_from(text, end + 1)
        } else {
            seq![line_at(text, start)]
        }
    }
}

/// A line ends at or after its start, and within the text.
pub proof fn lemma_line_end_bounds(text: Seq<char>, start: int)
    requires
        0 <= start <= text.len(),
    ensures
        start <= line_end(text, start) <= text.len(),
    decreases text.len() - start,
{
    if start < text.len() && text[start] != '\n' {
        lemma_line_end_bounds(text, start + 1);
    }
}

/// The first position from `i` on that holds no whitespace.
pub open spec fn word_start(line: Seq<char>, i: int) -> int
    decreases line.len() - i,
{
    if i < 0 || i >= line.len() {
        line.len() as int
    } else if !is_whitespace(line[i]) {
        i
    } else {
        word_start(line, i + 1)
    }
}

/// The first position from `i` on that holds whitespace.
pub open spec fn word_end(line: Seq<char>, i: int) -> int
    decreases line.len() - i,
{
    if i < 0 || i >= line.len() {
        line.len() as int
    } else if is_whitespace(line[i]) {
        i
    } else {
        word_end(line, i + 1)
    }
}

/// The words of the line from position `i` on: the longest runs of
/// characters that are no whitespace.
pub open spec fn words_from(line: Seq<char>, i: int) -> Seq<Seq<char>>
    decreases line.len() - i,
{
    let start = word_start(line, i);
    if i < 0 || start >= line.len() {
        seq![]
    } else {
        let end = word_end(line, start);
        proof {
            lemma_word_bounds(line, i);
        }
        seq![line.subrange(start, end)] + words_from(line, end)
    }
}

/// The next word from `i` on starts at or after `i`, and it is not empty.
pub proof fn lemma_word_bounds(line: Seq<char>, i: int)
    requires
        0 <= i,
        word_start(line, i) < line.len(),
    ensures
        i <= word_start(line, i) < word_end(line, word_start(line, i)) <= line.len(),
{
    lemma_word_start_bounds(line, i);
    lemma_word_end_bounds(line, word_start(line, i));
}

/// The next word from `i` on starts at or after `i`, at a character that
/// is no whitespace.
pub proof fn lemma_word_start_bounds(line: Seq<char>, i: int)
    requires
        0 <= i,
    ensures
        i <= word_start(line, i) || word_start(line, i) == line.len(),
        word_start(line, i) < line.len() ==> !is_whitespace(line[word_start(line, i)]),
    decreases line.len() - i,
{
    if i < line.len() && is_whitespace(line[i]) {
        lemma_word_start_bounds(line, i + 1);
    }
}

/// A word that starts at a character that is no whitespace ends after it.
pub proof fn lemma_word_end_bounds(line: Seq<char>, i: int)
    requires
        0 <= i <= line.len(),
    ensures
        i <= word_end(line, i) <= line.len(),
        i < line.len() && !is_whitespace(line[i]) ==> i < word_end(line, i),
    decreases line.len() - i,
{
    if i < line.len() && !is_whitespace(line[i]) {
        lemma_word_end_bounds(line, i + 1);
    }
}

/// Three words that stand for the components of a direction.
pub type Triple = (Seq<char>, Seq<char>, Seq<char>);

/// What a line of a tangent file says.
pub enum Entry {
    /// A comment, an empty line, or a line with a key that is not known.
    Ignored,
    /// A tangent: the key `t` and three numbers.
    Tangent(Triple),
    /// A bitangent: the key `bt` and three numbers.
    Bitangent(Triple),
    /// The key `t` or `bt` with fewer than three words after it.
    Malformed,
}

/// The key of a tangent.
pub open spec fn tangent_key() -> Seq<char> {
    seq!['t']
}

/// The key of a bitangent.
pub open spec fn bitangent_key() -> Seq<char> {
    seq!['b', 't']
}

/// What the line with the given words says. Words after the third number
/// are not looked at.
pub open spec fn entry_of(words: Seq<Seq<char>>) -> Entry {
    if words.len() == 0 {
        Entry::Ignored
    } else if words[0] == tangent_key() {
        if words.len() >= 4 {
            Entry::Tangent((words[1], words[2], words[3]))
        } else {
            Entry::Malformed
        }
    } else if words[0] == bitangent_key() {
        if words.len() >= 4 {
            Entry::Bitangent((words[1], words[2], words[3]))
        } else {
            Entry::Malformed
        }
    } else {
        Entry::Ignored
    }
}

/// The tangents and bitangents of a list of lines, each in the order of
/// the lines; `None` where a line is malformed.
pub open spec fn entries(lines: Seq<Seq<char>>) -> Option<(Seq<Triple>, Seq<Triple>)>
    decreases lines.len(),
{
    if lines.len() == 0 {
        Some((seq![], seq![]))
    } else {
        match entries(lines.drop_last()) {
            None => None,
            Some((tangents, bitangents)) => match entry_of(words_from(lines.last(), 0)) {
                Entry::Ignored => Some((tangents, bitangents)),
                Entry::Tangent(t) => Some((tangents.push(t), bitangents)),
                Entry::Bitangent(b) => Some((tangents, bitangents.push(b))),
                Entry::Malformed => None,
            },
        }
    }
}

/// The tangents and bitangents that a tangent file holds.
pub open spec fn tangent_file(text: Seq<char>) -> Option<(Seq<Triple>, Seq<Triple>)> {
    entries(lines_from(text, 0))
}

/// The three words of a tangent or a bitangent, as they stand in the file.
#[derive(Debug)]
pub struct NumberWords {
    pub x: Vec<char>,
    pub y: Vec<char>,
    pub z: Vec<char>,
}

impl View for NumberWords {
    type V = Triple;

    open spec fn view(&self) -> Triple {
        (self.x@, self.y@, self.z@)
    }
}

/// The tangents and the bitangents of a file, each in the order of the file.
#[derive(Debug)]
pub struct TangentWords {
    pub tangents: Vec<NumberWords>,
    pub bitangents: Vec<NumberWords>,
}

/// A list of word triples as a mathematical value.
pub open spec fn triples_view(words: Seq<NumberWords>) -> Seq<Triple> {
    words.map_values(|w: NumberWords| w@)
}

impl View for TangentWords {
    type V = (Seq<Triple>, Seq<Triple>);

    open spec fn view(&self) -> (Seq<Triple>, Seq<Triple>) {
        (triples_view(self.tangents@), triples_view(self.bitangents@))
    }
}

/// A list of words as a mathematical value.
pub open spec fn words_view(words: Seq<Vec<char>>) -> Seq<Seq<char>> {
    words.map_values(|w: Vec<char>| w@)
}

/// Where no position from `i` to `j` ends the line, the line that starts
/// at `i` ends where the line that starts at `j` ends.
proof fn lemma_line_end_skips(text: Seq<char>, i: int, j: int)
    requires
        0 <= i <= j <= text.len(),
        forall|k: int| i <= k < j ==> text[k] != '\n',
    ensures
        line_end(text, i) == line_end(text, j),
    decreases j - i,
{
    if i < j {
        lemma_line_end_skips(text, i + 1, j);
    }
}

/// Where every position from `i` to `j` holds whitespace, the next word
/// from `i` on starts where the next word from `j` on starts.
proof fn lemma_word_start_skips(line: Seq<char>, i: int, j: int)
    requires
        0 <= i <= j <= line.len(),
        forall|k: int| i <= k < j ==> is_whitespace(#[trigger] line[k]),
    ensures
        word_start(line, i) == word_start(line, j),
    decreases j - i,
{
    if i < j {
        lemma_word_start_skips(line, i + 1, j);
    }
}

/// Where no position from `i` to `j` holds whitespace, the word that
/// holds `i` ends where the word that holds `j` ends.
proof fn lemma_word_end_skips(line: Seq<char>, i: int, j: int)
    requires
        0 <= i <= j <= line.len(),
        forall|k: int| i <= k < j ==> !is_whitespace(#[trigger] line[k]),
    ensures
        word_end(line, i) == word_end(line, j),
    decreases j - i,
{
    if i < j {
        lemma_word_end_skips(line, i + 1, j);
    }
}

/// A copy of the characters of `text` from `from` up to `to`.
fn copy_range(text: &Vec<char>, from: usize, to: usize) -> (part: Vec<char>)
    requires
        from <= to <= text.len(),
    ensures
        part@ == text@.subrange(from as int, to as int),
{
    let mut part: Vec<char> = Vec::new();
    let mut i: usize = from;
    while i < to
        invariant
            from <= i <= to <= text.len(),
            part@ == text@.subrange(from as int, i as int),
        decreases to - i,
    {
        part.push(text[i]);
        assert(part@ =~= text@.subrange(from as int, i + 1));
        i = i + 1;
    }
    assert(part@ =~= text@.subrange(from as int, to as int));
    part
}

/// The words of a line.
pub fn split_words(line: &Vec<char>) -> (words: Vec<Vec<char>>)
    ensures
        words_view(words@) == words_from(line@, 0),
{
    let n: usize = line.len();
    let mut words: Vec<Vec<char>> = Vec::new();
    let mut i: usize = 0;
    assert(words_view(words@) =~= Seq::<Seq<char>>::empty());
    loop
        invariant_except_break
            i <= n,
            n == line@.len(),
            words_from(line@, 0) == words_view(words@) + words_from(line@, i as int),
        ensures
            words_view(words@) == words_from(line@, 0),
        decreases n - i,
    {
        let mut start: usize = i;
        while start < n && char_is_whitespace(line[start])
            invariant
                i <= start <= n,
                n == line@.len(),
                forall|k: int| i <= k < start ==> is_whitespace(#[trigger] line@[k]),
            decreases n - start,
        {
            start = start + 1;
        }
        proof {
            lemma_word_start_skips(line@, i as int, start as int);
        }
        if start >= n {
            assert(words_from(line@, i as int) =~= Seq::<Seq<char>>::empty());
            assert(words_view(words@) + Seq::<Seq<char>>::empty() =~= words_view(words@));
            break;
        }
        let mut end: usize = start + 1;
        while end < n && !char_is_whitespace(line[end])
            invariant
                start < end <= n,
                n == line@.len(),
                forall|k: int| start <= k < end ==> !is_whitespace(#[trigger] line@[k]),
            decreases n - end,
        {
            end = end + 1;
        }
        proof {
            lemma_word_end_skips(line@, start as int, end as int);
            assert(word_start(line@, i as int) == start);
            assert(word_end(line@, start as int) == end);
        }
        let ghost before = words_view(words@);
        let word = copy_range(line, start, end);
        words.push(word);
        proof {
            assert(words_view(words@) =~= before.push(line@.subrange(start as int, end as int)));
            assert(words_from(line@, i as int) =~= seq![line@.subrange(start as int, end as int)]
                + words_from(line@, end as int));
            assert(words_from(line@, 0) =~= words_view(words@) + words_from(line@, end as int));
        }
        i = end;
    }
    words
}

/// Once a line is malformed, no line after it mends the file.
proof fn lemma_malformed_stays(head: Seq<Seq<char>>, tail: Seq<Seq<char>>)
    requires
        entries(head) is None,
    ensures
        entries(head + tail) is None,
    decreases tail.len(),
{
    if tail.len() == 0 {
        assert(head + tail =~= head);
    } else {
        lemma_malformed_stays(head, tail.drop_last());
        assert((head + tail).drop_last() =~= head + tail.drop_last());
    }
}

/// Whether the word is the given key of one or two characters.
fn is_key(word: &Vec<char>, first: char, second: Option<char>) -> (b: bool)
    ensures
        b == (word@ == match second {
            Some(c) => seq![first, c],
            None => seq![first],
        }),
{
    match second {
        Some(c) => {
            let b = word.len() == 2 && word[0] == first && word[1] == c;
            assert(b == (word@ =~= seq![first, c]));
            b
        },
        None => {
            let b = word.len() == 1 && word[0] == first;
            assert(b == (word@ =~= seq![first]));
            b
        },
    }
}

/// The three words after the key.
fn numbers_of(words: &Vec<Vec<char>>) -> (numbers: NumberWords)
    requires
        words.len() >= 4,
    ensures
        numbers@ == (words[1]@, words[2]@, words[3]@),
{
    NumberWords {
        x: copy_range(&words[1], 0, words[1].len()),
        y: copy_range(&words[2], 0, words[2].len()),
        z: copy_range(&words[3], 0, words[3].len()),
    }
}

/// Reads a tangent file that is given as text. Each line holds a key and
/// its words, separated by whitespace: `t` and three numbers for a
/// tangent, `bt` and three numbers for a bitangent. Every other line is
/// passed over. The numbers are handed out as the words that stand in the
/// file. A line with the key `t` or `bt` and fewer than three further
/// words makes the file malformed.
pub fn scan_tangent_text(text: &Vec<char>) -> (r: Result<TangentWords, LoadError>)
    ensures
        match r {
            Ok(found) => tangent_file(text@) == Some(found@),
            Err(e) => e == LoadError::ParseError && tangent_file(text@) is None,
        },
{
    let n: usize = text.len();
    let mut tangents: Vec<NumberWords> = Vec::new();
    let mut bitangents: Vec<NumberWords> = Vec::new();
    let mut start: usize = 0;
    let ghost mut done: Seq<Seq<char>> = seq![];
    assert(triples_view(tangents@) =~= Seq::<Triple>::empty());
    assert(triples_view(bitangents@) =~= Seq::<Triple>::empty());
    assert(done + lines_from(text@, 0) =~= lines_from(text@, 0));
    while start < n
        invariant
            start <= n,
            n == text@.len(),
            lines_from(text@, 0) == done + lines_from(text@, start as int),
            entries(done) == Some((triples_view(tangents@), triples_view(bitangents@))),
        decreases n - start,
    {
        let mut end: usize = start;
        while end < n && text[end] != '\n'
            invariant
                start <= end <= n,
                n == text@.len(),
                forall|k: int| start <= k < end ==> text@[k] != '\n',
            decreases n - end,
        {
            end = end + 1;
        }
        proof {
            lemma_line_end_skips(text@, start as int, end as int);
            assert(line_end(text@, start as int) == end);
        }
        let stop: usize = if end < n && start < end && text[end - 1] == '\r' {
            end - 1
        } else {
            end
        };
        let line = copy_range(text, start, stop);
        assert(line@ == line_at(text@, start as int));
        let words = split_words(&line);
        let next: usize = if end < n {
            end + 1
        } else {
            n
        };
        let ghost found = words_view(words@);
        let ghost rest = lines_from(text@, next as int);
        proof {
            assert(lines_from(text@, start as int) =~= seq![line@] + rest);
            assert(lines_from(text@, 0) =~= done.push(line@) + rest);
            assert(done.push(line@).drop_last() =~= done);
            assert(forall|i: int| 0 <= i < words@.len() ==> found[i] == (#[trigger] words@[i])@);
        }
        if words.len() > 0 {
            let tangent = is_key(&words[0], 't', None);
            let bitangent = is_key(&words[0], 'b', Some('t'));
            if tangent || bitangent {
                if words.len() < 4 {
                    proof {
                        assert(entry_of(found) is Malformed);
                        assert(entries(done.push(line@)) is None);
                        lemma_malformed_stays(done.push(line@), rest);
                    }
                    return Err(LoadError::ParseError);
                }
                let numbers = numbers_of(&words);
                if tangent {
                    let ghost before = triples_view(tangents@);
                    tangents.push(numbers);
                    assert(triples_view(tangents@) =~= before.push((found[1], found[2], found[3])));
                } else {
                    let ghost before = triples_view(bitangents@);
                    bitangents.push(numbers);
                    assert(triples_view(bitangents@) =~= before.push((found[1], found[2], found[3])));
                }
            }
        }
        proof {
            done = done.push(line@);
        }
        start = next;
    }
    proof {
        assert(lines_from(text@, n as int) =~= Seq::<Seq<char>>::empty());
        assert(done + Seq::<Seq<char>>::empty() =~= done);
    }
    Ok(TangentWords { tangents, bitangents })
}

/// Reads a tangent file from its bytes. The bytes have to be UTF-8;
/// what the text has to look like, `scan_tangent_text` says.
pub fn load_tangent_buf(data: &[u8]) -> (r: Result<TangentWords, LoadError>)
    ensures
        match r {
            Ok(found) => valid_utf8(data@) && tangent_file(decode_utf8(data@)) == Some(found@),
            Err(LoadError::ReadError) => !valid_utf8(data@),
            Err(LoadError::ParseError) => valid_utf8(data@) && tangent_file(decode_utf8(data@)) is None,
        },
{
    match text_of(data) {
        None => Err(LoadError::ReadError),
        Some(text) => {
            proof {
                vstd::utf8::encode_utf8_decode_utf8(text@);
            }
            let chars = chars_of(text);
            scan_tangent_text(&chars)
        },
    }
}

} // verus!
