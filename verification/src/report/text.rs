//! Words: splitting a text at whitespace and joining words with single spaces.

use vstd::prelude::*;
use vstd::string::*;

verus! {

/// Whether `c` is white space: a character with the Unicode property `White_Space`.
pub open spec fn is_space(c: char) -> bool {
    let code = c as u32;
    ||| 0x09 <= code <= 0x0d
    ||| code == 0x20
    ||| code == 0x85
    ||| code == 0xa0
    ||| code == 0x1680
    ||| 0x2000 <= code <= 0x200a
    ||| code == 0x2028
    ||| code == 0x2029
    ||| code == 0x202f
    ||| code == 0x205f
    ||| code == 0x3000
}

/// Whether `c` is white space.
pub fn is_whitespace(c: char) -> (space: bool)
    ensures
        space == is_space(c),
{
    let code: u32 = c as u32;
    (0x09 <= code && code <= 0x0d) || code == 0x20 || code == 0x85 || code == 0xa0 || code
        == 0x1680 || (0x2000 <= code && code <= 0x200a) || code == 0x2028 || code == 0x2029
        || code == 0x202f || code == 0x205f || code == 0x3000
}

/// The words that a scan of `text` from position `from` on yields, when the characters in
/// `word` have been read since the last white space.
pub open spec fn words_scan(text: Seq<char>, from: int, word: Seq<char>) -> Seq<Seq<char>>
    decreases text.len() - from,
{
    if from < 0 || from >= text.len() {
        if word.len() > 0 {
            seq![word]
        } else {
            Seq::empty()
        }
    } else if is_space(text[from]) {
        if word.len() > 0 {
            seq![word] + words_scan(text, from + 1, Seq::empty())
        } else {
            words_scan(text, from + 1, Seq::empty())
        }
    } else {
        words_scan(text, from + 1, word.push(text[from]))
    }
}

/// The words of `text`: its longest runs of characters that are not white space, in order.
pub open spec fn words(text: Seq<char>) -> Seq<Seq<char>> {
    words_scan(text, 0, Seq::empty())
}

/// `words` joined by single spaces.
pub open spec fn join(words: Seq<Seq<char>>) -> Seq<char>
    decreases words.len(),
{
    if words.len() == 0 {
        Seq::empty()
    } else if words.len() == 1 {
        words[0]
    } else {
        join(words.drop_last()) + seq![' '] + words.last()
    }
}

/// `text` with each run of white space replaced by one space, and none at either end.
pub open spec fn normalized(text: Seq<char>) -> Seq<char> {
    join(words(text))
}

/// The views of a list of strings.
pub open spec fn texts(list: Seq<String>) -> Seq<Seq<char>> {
    Seq::new(list.len(), |i: int| list[i]@)
}

/// Every word that a scan yields has a character, provided the word being read does not
/// count as empty by mistake.
pub proof fn lemma_scan_words_nonempty(text: Seq<char>, from: int, word: Seq<char>)
    ensures
        forall|i: int|
            0 <= i < words_scan(text, from, word).len() ==> (#[trigger] words_scan(
                text,
                from,
                word,
            )[i]).len() > 0,
    decreases text.len() - from,
{
    let found = words_scan(text, from, word);
    if from < 0 || from >= text.len() {
    } else if is_space(text[from]) {
        lemma_scan_words_nonempty(text, from + 1, Seq::empty());
        let rest = words_scan(text, from + 1, Seq::empty());
        assert forall|i: int| 0 <= i < found.len() implies (#[trigger] found[i]).len() > 0 by {
            if word.len() > 0 {
                if i > 0 {
                    assert(found[i] == rest[i - 1]);
                }
            } else {
                assert(found[i] == rest[i]);
            }
        }
    } else {
        lemma_scan_words_nonempty(text, from + 1, word.push(text[from]));
        let rest = words_scan(text, from + 1, word.push(text[from]));
        assert forall|i: int| 0 <= i < found.len() implies (#[trigger] found[i]).len() > 0 by {
            assert(found[i] == rest[i]);
        }
    }
}

/// No word is empty.
pub proof fn lemma_words_nonempty(text: Seq<char>)
    ensures
        forall|i: int| 0 <= i < words(text).len() ==> (#[trigger] words(text)[i]).len() > 0,
{
    lemma_scan_words_nonempty(text, 0, Seq::empty());
}

/// A scan yields at most one word for the one being read and one for every two characters
/// that are left, rounded up; in any case no more words than there are characters.
pub proof fn lemma_scan_words_count(text: Seq<char>, from: int, word: Seq<char>)
    requires
        0 <= from <= text.len(),
    ensures
        words_scan(text, from, word).len() <= (if word.len() > 0 {
            1int
        } else {
            0int
        }) + text.len() - from,
    decreases text.len() - from,
{
    if from >= text.len() {
    } else if is_space(text[from]) {
        lemma_scan_words_count(text, from + 1, Seq::empty());
    } else {
        lemma_scan_words_count(text, from + 1, word.push(text[from]));
    }
}

/// A text has no more words than characters.
pub proof fn lemma_words_count(text: Seq<char>)
    ensures
        words(text).len() <= text.len(),
{
    lemma_scan_words_count(text, 0, Seq::empty());
}

/// Splits `text` at white space into its words.
pub fn split_words(text: &str) -> (list: Vec<String>)
    ensures
        texts(list@) == words(text@),
{
    let length: usize = text.unicode_len();
    let mut list: Vec<String> = Vec::new();
    let mut start: usize = 0;
    let mut at: usize = 0;
    let ghost all = words(text@);
    let chars = text.chars();
    proof {
        assert(text@.subrange(0, 0) =~= Seq::<char>::empty());
        assert(texts(list@) + all =~= all);
    }
    for c in iter: chars
        invariant
            iter.seq() == text@,
            text@.len() == length,
            at == iter.index(),
            start <= at,
            all == words(text@),
            texts(list@) + words_scan(text@, at as int, text@.subrange(start as int, at as int))
                == all,
    {
        proof {
            assert(text@[at as int] == c);
            assert(at < length);
        }
        let ghost word = text@.subrange(start as int, at as int);
        if is_whitespace(c) {
            if start < at {
                let piece = String::from_str(text.substring_char(start, at));
                proof {
                    assert(texts(list@.push(piece)) =~= texts(list@) + seq![word]);
                    assert((texts(list@) + seq![word]) + words_scan(
                        text@,
                        at + 1,
                        Seq::empty(),
                    ) =~= texts(list@) + (seq![word] + words_scan(text@, at + 1, Seq::empty())));
                }
                list.push(piece);
            }
            start = at + 1;
            assert(text@.subrange(at + 1, at + 1) =~= Seq::<char>::empty());
        } else {
            assert(text@.subrange(start as int, at + 1) =~= word.push(c));
        }
        at = at + 1;
    }
    if start < at {
        let piece = String::from_str(text.substring_char(start, at));
        proof {
            let word = text@.subrange(start as int, at as int);
            assert(texts(list@.push(piece)) =~= texts(list@) + seq![word]);
        }
        list.push(piece);
    } else {
        assert(texts(list@) + Seq::<Seq<char>>::empty() =~= texts(list@));
    }
    list
}

} // verus!
