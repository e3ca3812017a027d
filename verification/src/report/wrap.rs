//! Greedy word wrap: a paragraph is broken into lines that fit a given width.

use crate::report::fonts::{measure_width, text_width, FontMetrics};
use crate::report::text::{
    join, lemma_words_count, lemma_words_nonempty, normalized, split_words, texts, words,
};
use vstd::prelude::*;
use vstd::string::*;

verus! {

/// What a line is measured with and against.
pub struct Measure {
    /// The metrics of the face.
    pub metrics: FontMetrics,
    /// The font size, in thousandths of a point.
    pub size: u32,
    /// The page width, in thousandths of a point.
    pub page_width: u32,
    /// The width that a line may take, as a fraction of the page width.
    pub available: int,
}

impl Measure {
    /// Whether `line` is no wider than the available width.
    pub open spec fn fits(&self, line: Seq<char>) -> bool {
        text_width(self.metrics, line, self.size, self.page_width) <= self.available
    }
}

/// `line` with `word` added: after a space, unless the line is still empty.
pub open spec fn extended(line: Seq<char>, word: Seq<char>) -> Seq<char> {
    if line.len() == 0 {
        word
    } else {
        line + seq![' '] + word
    }
}

/// The lines that the words from the `next`-th on are wrapped into, when `line` holds the
/// words gathered for the line being filled. A word joins the line if the line still fits
/// with it; else the line is closed and the word starts the next one.
pub open spec fn wrap_from(words: Seq<Seq<char>>, next: int, line: Seq<char>, measure: Measure)
    -> Seq<Seq<char>>
    decreases words.len() - next,
{
    if next < 0 || next >= words.len() {
        if line.len() > 0 {
            seq![line]
        } else {
            Seq::empty()
        }
    } else {
        let longer = extended(line, words[next]);
        if measure.fits(longer) {
            wrap_from(words, next + 1, longer, measure)
        } else if line.len() > 0 {
            seq![line] + wrap_from(words, next + 1, words[next], measure)
        } else {
            wrap_from(words, next + 1, words[next], measure)
        }
    }
}

/// The lines that `text` is wrapped into.
pub open spec fn wrapped(text: Seq<char>, measure: Measure) -> Seq<Seq<char>> {
    wrap_from(words(text), 0, Seq::empty(), measure)
}

/// Joining a first word and the join of the rest gives the join of all.
pub proof fn lemma_join_first(first: Seq<char>, rest: Seq<Seq<char>>)
    ensures
        join(seq![first] + rest) == if rest.len() == 0 {
            first
        } else {
            first + seq![' '] + join(rest)
        },
    decreases rest.len(),
{
    let all = seq![first] + rest;
    if rest.len() == 0 {
        assert(all[0] == first);
    } else if rest.len() == 1 {
        assert(all.drop_last() =~= seq![first]);
        assert(join(all.drop_last()) == first);
        assert(all.last() == rest[0]);
    } else {
        lemma_join_first(first, rest.drop_last());
        assert(all.drop_last() =~= seq![first] + rest.drop_last());
        assert(all.last() == rest.last());
        assert(join(all) =~= first + seq![' '] + join(rest));
    }
}

/// What `wrap_from` yields is never empty while a line is being filled.
pub proof fn lemma_wrap_from_nonempty(
    words: Seq<Seq<char>>,
    next: int,
    line: Seq<char>,
    measure: Measure,
)
    requires
        0 <= next <= words.len(),
        line.len() > 0,
    ensures
        wrap_from(words, next, line, measure).len() > 0,
    decreases words.len() - next,
{
    if next < words.len() {
        let longer = extended(line, words[next]);
        if measure.fits(longer) {
            lemma_wrap_from_nonempty(words, next + 1, longer, measure);
        }
    }
}

/// Joined by single spaces, the lines that `wrap_from` yields read as the line being filled
/// followed by the words still to come.
pub proof fn lemma_wrap_from_joins(
    words: Seq<Seq<char>>,
    next: int,
    line: Seq<char>,
    measure: Measure,
)
    requires
        0 <= next <= words.len(),
        forall|i: int| 0 <= i < words.len() ==> (#[trigger] words[i]).len() > 0,
    ensures
        join(wrap_from(words, next, line, measure)) == if line.len() == 0 {
            join(words.skip(next))
        } else {
            join(seq![line] + words.skip(next))
        },
    decreases words.len() - next,
{
    let rest = words.skip(next);
    if next >= words.len() {
        assert(rest =~= Seq::<Seq<char>>::empty());
        if line.len() > 0 {
            assert(seq![line] + rest =~= seq![line]);
        }
    } else {
        let word = words[next];
        let after = words.skip(next + 1);
        assert(rest =~= seq![word] + after);
        let longer = extended(line, word);
        lemma_join_first(word, after);
        if measure.fits(longer) {
            lemma_wrap_from_joins(words, next + 1, longer, measure);
            if line.len() > 0 {
                lemma_join_first(longer, after);
                lemma_join_first(line, rest);
                assert(seq![line] + rest =~= seq![line] + words.skip(next));
                if after.len() == 0 {
                } else {
                    assert(longer + seq![' '] + join(after) =~= line + seq![' '] + (word + seq![
                        ' ',
                    ] + join(after)));
                }
            }
        } else {
            lemma_wrap_from_joins(words, next + 1, word, measure);
            if line.len() > 0 {
                let tail = wrap_from(words, next + 1, word, measure);
                lemma_wrap_from_nonempty(words, next + 1, word, measure);
                lemma_join_first(line, tail);
                lemma_join_first(line, rest);
            }
        }
    }
}

/// Each line that `wrap_from` yields fits the available width or is one of the words,
/// provided that holds of the line being filled.
pub proof fn lemma_wrap_from_fits(
    words: Seq<Seq<char>>,
    next: int,
    line: Seq<char>,
    measure: Measure,
)
    requires
        0 <= next <= words.len(),
        line.len() == 0 || measure.fits(line) || words.contains(line),
    ensures
        forall|i: int|
            0 <= i < wrap_from(words, next, line, measure).len() ==> {
                let made = #[trigger] wrap_from(words, next, line, measure)[i];
                measure.fits(made) || words.contains(made)
            },
    decreases words.len() - next,
{
    let lines = wrap_from(words, next, line, measure);
    if next < words.len() {
        let word = words[next];
        let longer = extended(line, word);
        assert(words.contains(word));
        if measure.fits(longer) {
            lemma_wrap_from_fits(words, next + 1, longer, measure);
            let tail = wrap_from(words, next + 1, longer, measure);
            assert forall|i: int| 0 <= i < lines.len() implies {
                let made = #[trigger] lines[i];
                measure.fits(made) || words.contains(made)
            } by {
                assert(lines[i] == tail[i]);
            }
        } else {
            lemma_wrap_from_fits(words, next + 1, word, measure);
            let tail = wrap_from(words, next + 1, word, measure);
            assert forall|i: int| 0 <= i < lines.len() implies {
                let made = #[trigger] lines[i];
                measure.fits(made) || words.contains(made)
            } by {
                if line.len() > 0 {
                    if i > 0 {
                        assert(lines[i] == tail[i - 1]);
                    }
                } else {
                    assert(lines[i] == tail[i]);
                }
            }
        }
    } else {
        assert forall|i: int| 0 <= i < lines.len() implies {
            let made = #[trigger] lines[i];
            measure.fits(made) || words.contains(made)
        } by {
            assert(lines[i] == line);
        }
    }
}

/// `wrap_from` yields at most one line for each word still to come, and one more while a
/// line is being filled.
pub proof fn lemma_wrap_from_count(
    words: Seq<Seq<char>>,
    next: int,
    line: Seq<char>,
    measure: Measure,
)
    requires
        0 <= next <= words.len(),
    ensures
        wrap_from(words, next, line, measure).len() <= words.len() - next + 1,
    decreases words.len() - next,
{
    if next < words.len() {
        let longer = extended(line, words[next]);
        if measure.fits(longer) {
            lemma_wrap_from_count(words, next + 1, longer, measure);
        } else {
            lemma_wrap_from_count(words, next + 1, words[next], measure);
        }
    }
}

/// Wrapping keeps the text and respects the width: joined by single spaces, the lines read
/// as the text with its white space normalized; and no line is wider than the available
/// width, unless it is a single word of the text.
pub proof fn lemma_wrap_correct(text: Seq<char>, measure: Measure)
    ensures
        join(wrapped(text, measure)) == normalized(text),
        forall|i: int|
            0 <= i < wrapped(text, measure).len() ==> {
                let line = #[trigger] wrapped(text, measure)[i];
                measure.fits(line) || words(text).contains(line)
            },
{
    lemma_words_nonempty(text);
    lemma_wrap_from_joins(words(text), 0, Seq::empty(), measure);
    assert(words(text).skip(0) =~= words(text));
    lemma_wrap_from_fits(words(text), 0, Seq::empty(), measure);
}

/// The index behind the last word of each line that `wrap_from` yields, when the line
/// being filled holds the words from the `start`-th up to the `next`-th.
pub open spec fn cuts_from(
    words: Seq<Seq<char>>,
    next: int,
    start: int,
    line: Seq<char>,
    measure: Measure,
) -> Seq<int>
    decreases words.len() - next,
{
    if next < 0 || next >= words.len() {
        if line.len() > 0 {
            seq![next]
        } else {
            Seq::empty()
        }
    } else {
        let longer = extended(line, words[next]);
        if measure.fits(longer) {
            cuts_from(words, next + 1, start, longer, measure)
        } else if line.len() > 0 {
            seq![next] + cuts_from(words, next + 1, next, words[next], measure)
        } else {
            cuts_from(words, next + 1, next, words[next], measure)
        }
    }
}

/// Joining one more word to the words from the `start`-th up to the `next`-th extends their
/// join by the word.
pub proof fn lemma_join_one_more(words: Seq<Seq<char>>, start: int, next: int)
    requires
        0 <= start <= next < words.len(),
        forall|i: int| 0 <= i < words.len() ==> (#[trigger] words[i]).len() > 0,
    ensures
        join(words.subrange(start, next + 1)) == extended(
            join(words.subrange(start, next)),
            words[next],
        ),
        join(words.subrange(start, next + 1)).len() > 0,
    decreases next - start,
{
    let more = words.subrange(start, next + 1);
    let fewer = words.subrange(start, next);
    assert(more.drop_last() =~= fewer);
    assert(more.last() == words[next]);
    if start < next {
        lemma_join_one_more(words, start, next - 1);
    } else {
        assert(more[0] == words[next]);
    }
}

/// Every word stands in exactly one line, whole and in its place: the lines that
/// `wrap_from` yields are the joins of runs of words that follow one another, the first of
/// which starts with the line being filled and the last of which ends with the last word.
pub proof fn lemma_wrap_from_partitions(
    words: Seq<Seq<char>>,
    next: int,
    start: int,
    line: Seq<char>,
    measure: Measure,
)
    requires
        0 <= start <= next <= words.len(),
        forall|i: int| 0 <= i < words.len() ==> (#[trigger] words[i]).len() > 0,
        line == join(words.subrange(start, next)),
        start < next <==> line.len() > 0,
    ensures
        ({
            let lines = wrap_from(words, next, line, measure);
            let cuts = cuts_from(words, next, start, line, measure);
            &&& cuts.len() == lines.len()
            &&& forall|i: int| 0 <= i < cuts.len() ==> next <= #[trigger] cuts[i] <= words.len()
            &&& forall|i: int, j: int| 0 <= i < j < cuts.len() ==> cuts[i] < cuts[j]
            &&& cuts.len() > 0 ==> cuts[0] > start && cuts.last() == words.len()
            &&& cuts.len() == 0 ==> start == words.len()
            &&& forall|i: int|
                0 <= i < lines.len() ==> #[trigger] lines[i] == join(
                    words.subrange(
                        if i == 0 {
                            start
                        } else {
                            cuts[i - 1]
                        },
                        cuts[i],
                    ),
                )
        }),
    decreases words.len() - next,
{
    let lines = wrap_from(words, next, line, measure);
    let cuts = cuts_from(words, next, start, line, measure);
    if next < words.len() {
        let word = words[next];
        let longer = extended(line, word);
        lemma_join_one_more(words, start, next);
        if measure.fits(longer) {
            lemma_wrap_from_partitions(words, next + 1, start, longer, measure);
        } else {
            assert(words.subrange(next, next + 1) =~= seq![word]);
            lemma_wrap_from_partitions(words, next + 1, next, word, measure);
            let tail = wrap_from(words, next + 1, word, measure);
            let tail_cuts = cuts_from(words, next + 1, next, word, measure);
            if line.len() > 0 {
                assert forall|i: int, j: int| 0 <= i < j < cuts.len() implies cuts[i] < cuts[j] by {
                    if i > 0 {
                        assert(cuts[i] == tail_cuts[i - 1] && cuts[j] == tail_cuts[j - 1]);
                    } else {
                        assert(cuts[j] == tail_cuts[j - 1]);
                    }
                }
                assert forall|i: int| 0 <= i < lines.len() implies #[trigger] lines[i] == join(
                    words.subrange(
                        if i == 0 {
                            start
                        } else {
                            cuts[i - 1]
                        },
                        cuts[i],
                    ),
                ) by {
                    if i > 0 {
                        assert(lines[i] == tail[i - 1]);
                        assert(cuts[i] == tail_cuts[i - 1]);
                        if i > 1 {
                            assert(cuts[i - 1] == tail_cuts[i - 2]);
                        }
                    }
                }
                assert(cuts.last() == tail_cuts.last());
            }
        }
    }
}

/// Every word of a text stands in exactly one line of the wrapped text, whole and in its
/// place: the lines are the joins of runs of words that follow one another and that make
/// up the words of the text from the first to the last.
pub proof fn lemma_wrap_partitions(text: Seq<char>, measure: Measure)
    ensures
        ({
            let all = words(text);
            let lines = wrapped(text, measure);
            let cuts = cuts_from(all, 0, 0, Seq::empty(), measure);
            &&& cuts.len() == lines.len()
            &&& forall|i: int, j: int| 0 <= i < j < cuts.len() ==> cuts[i] < cuts[j]
            &&& cuts.len() > 0 ==> cuts[0] > 0 && cuts.last() == all.len()
            &&& cuts.len() == 0 ==> all.len() == 0
            &&& forall|i: int|
                0 <= i < lines.len() ==> #[trigger] lines[i] == join(
                    all.subrange(
                        if i == 0 {
                            0
                        } else {
                            cuts[i - 1]
                        },
                        cuts[i],
                    ),
                )
        }),
{
    let all = words(text);
    lemma_words_nonempty(text);
    assert(all.subrange(0, 0) =~= Seq::<Seq<char>>::empty());
    lemma_wrap_from_partitions(all, 0, 0, Seq::empty(), measure);
}

/// A text is wrapped into no more lines than it has characters, and one at most if it has
/// none.
pub proof fn lemma_wrap_count(text: Seq<char>, measure: Measure)
    ensures
        wrapped(text, measure).len() <= text.len() + 1,
{
    lemma_words_count(text);
    lemma_wrap_from_count(words(text), 0, Seq::empty(), measure);
}

/// Wraps `text` into lines no wider than `available`, as far as single words allow.
#[verifier::loop_isolation(false)]
pub fn wrap(
    text: &str,
    available: i64,
    metrics: &FontMetrics,
    size: u32,
    page_width: u32,
) -> (lines: Vec<String>)
    requires
        page_width > 0,
    ensures
        texts(lines@) == wrapped(
            text@,
            Measure { metrics: *metrics, size, page_width, available: available as int },
        ),
{
    let ghost measure = Measure {
        metrics: *metrics,
        size,
        page_width,
        available: available as int,
    };
    let list = split_words(text);
    let ghost all = words(text@);
    let mut lines: Vec<String> = Vec::new();
    let mut current_line = String::new();
    let mut next: usize = 0;
    proof {
        assert(texts(lines@) + wrapped(text@, measure) =~= wrapped(text@, measure));
    }
    while next < list.len()
        invariant
            next <= list.len(),
            texts(lines@) + wrap_from(all, next as int, current_line@, measure) == wrapped(
                text@,
                measure,
            ),
        decreases list.len() - next,
    {
        let word: &String = &list[next];
        assert(word@ == all[next as int]) by {
            assert(texts(list@)[next as int] == list@[next as int]@);
        }
        let line_is_empty = current_line.as_str().is_empty();
        let test_line = if line_is_empty {
            word.clone()
        } else {
            let mut longer = current_line.clone();
            longer.append(" ");
            longer.append(word.as_str());
            proof {
                reveal_strlit(" ");
                assert(" "@ =~= seq![' ']);
            }
            longer
        };
        assert(test_line@ == extended(current_line@, word@));
        if measure_width(metrics, test_line.as_str(), size, page_width) <= available {
            current_line = test_line;
        } else {
            if !line_is_empty {
                proof {
                    let tail = wrap_from(all, next + 1, word@, measure);
                    assert(texts(lines@.push(current_line)) =~= texts(lines@) + seq![
                        current_line@,
                    ]);
                    assert((texts(lines@) + seq![current_line@]) + tail =~= texts(lines@) + (
                        seq![current_line@] + tail));
                }
                lines.push(current_line);
            }
            current_line = word.clone();
        }
        next = next + 1;
    }
    if !current_line.as_str().is_empty() {
        proof {
            assert(texts(lines@.push(current_line)) =~= texts(lines@) + seq![current_line@]);
        }
        lines.push(current_line);
    } else {
        assert(texts(lines@) + Seq::<Seq<char>>::empty() =~= texts(lines@));
    }
    lines
}

} // verus!
