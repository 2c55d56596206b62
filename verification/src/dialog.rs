//! Texts in lines: how a text is split into its lines, and how the message
//! of the error dialog is wrapped to the dialog's width.

use crate::text::{chars_of, is_space, string_of};
use crate::tree::split_on;
use vstd::prelude::*;

verus! {

/// The lines of a text as `str::lines` gives them: the pieces between
/// line feeds, each without the carriage return before its line feed; what
/// stands behind the last line feed is a line only if it is not empty.
pub open spec fn text_lines(text: Seq<char>) -> Seq<Seq<char>> {
    let pieces = split_on(text, '\n');
    let ended = Seq::new(
        (pieces.len() - 1) as nat,
        |k: int|
            if pieces[k].len() > 0 && pieces[k].last() == '\r' {
                pieces[k].drop_last()
            } else {
                pieces[k]
            },
    );
    if pieces.last().len() > 0 {
        ended.push(pieces.last())
    } else {
        ended
    }
}

/// The words of the first `n` characters of a line: the runs of characters
/// without white space, and the word that is being read.
pub open spec fn words_upto(line: Seq<char>, n: int) -> (Seq<Seq<char>>, Seq<char>)
    decreases n,
{
    if n <= 0 {
        (Seq::empty(), Seq::empty())
    } else {
        let (done, word) = words_upto(line, n - 1);
        if is_space(line[n - 1]) {
            if word.len() > 0 {
                (done.push(word), Seq::empty())
            } else {
                (done, word)
            }
        } else {
            (done, word.push(line[n - 1]))
        }
    }
}

/// The words of a line.
pub open spec fn words_of(line: Seq<char>) -> Seq<Seq<char>> {
    let (done, word) = words_upto(line, line.len() as int);
    if word.len() > 0 {
        done.push(word)
    } else {
        done
    }
}

/// Filling lines of at most `width` characters with words, greedily: the
/// lines that are full, and the line that is being filled. A word goes on
/// the line being filled if it fits behind a blank; otherwise it starts the
/// next line. A word longer than the width has a line of its own.
pub open spec fn filled(words: Seq<Seq<char>>, width: usize) -> (Seq<Seq<char>>, Seq<char>)
    decreases words.len(),
{
    if words.len() == 0 {
        (Seq::empty(), Seq::empty())
    } else {
        let (done, current) = filled(words.drop_last(), width);
        let word = words.last();
        if current.len() == 0 {
            (done, word)
        } else if current.len() + 1 + word.len() <= width {
            (done, current + seq![' '] + word)
        } else {
            (done.push(current), word)
        }
    }
}

/// One line wrapped: an empty line stays one empty line; a line of white
/// space gives no line at all.
pub open spec fn wrapped_line(line: Seq<char>, width: usize) -> Seq<Seq<char>> {
    if line.len() == 0 {
        seq![Seq::empty()]
    } else {
        let (done, current) = filled(words_of(line), width);
        if current.len() > 0 {
            done.push(current)
        } else {
            done
        }
    }
}

/// The first `n` lines wrapped, one after the other.
pub open spec fn wrapped_upto(lines: Seq<Seq<char>>, n: int, width: usize) -> Seq<Seq<char>>
    decreases n,
{
    if n <= 0 {
        Seq::empty()
    } else {
        wrapped_upto(lines, n - 1, width) + wrapped_line(lines[n - 1], width)
    }
}

/// A text wrapped to lines of at most `width` characters, where its words
/// allow it. There is always at least one line.
pub open spec fn wrapped(text: Seq<char>, width: usize) -> Seq<Seq<char>> {
    let lines = wrapped_upto(text_lines(text), text_lines(text).len() as int, width);
    if lines.len() == 0 {
        seq![Seq::empty()]
    } else {
        lines
    }
}

/// Splits a text into its lines.
pub fn lines_of(text: &str) -> (lines: Vec<Vec<char>>)
    ensures
        lines.deep_view() == text_lines(text@),
{
    let chars = chars_of(text);
    let mut lines: Vec<Vec<char>> = Vec::new();
    let mut current: Vec<char> = Vec::new();
    let mut i: usize = 0;
    let ghost mut pieces_done: Seq<Seq<char>> = Seq::empty();
    assert(chars@.take(0) =~= Seq::<char>::empty());
    while i < chars.len()
        invariant
            i <= chars.len(),
            chars@ == text@,
            split_on(chars@.take(i as int), '\n') == pieces_done.push(current@),
            lines.deep_view() == Seq::new(
                pieces_done.len(),
                |k: int|
                    if pieces_done[k].len() > 0 && pieces_done[k].last() == '\r' {
                        pieces_done[k].drop_last()
                    } else {
                        pieces_done[k]
                    },
            ),
        decreases chars.len() - i,
    {
        let ghost prefix = chars@.take(i as int);
        let ghost next = chars@.take(i + 1);
        let ghost cur = current@;
        let ghost before = lines.deep_view();
        proof {
            assert(next.drop_last() =~= prefix);
            assert(next.last() == chars@[i as int]);
        }
        if chars[i] == '\n' {
            if current.len() > 0 && current[current.len() - 1] == '\r' {
                current.pop();
            }
            let ghost stripped = current@;
            assert(current.deep_view() =~= stripped);
            lines.push(current);
            current = Vec::new();
            proof {
                pieces_done = pieces_done.push(cur);
                assert(lines.deep_view() =~= before.push(stripped));
                assert(lines.deep_view() =~= Seq::new(
                    pieces_done.len(),
                    |k: int|
                        if pieces_done[k].len() > 0 && pieces_done[k].last() == '\r' {
                            pieces_done[k].drop_last()
                        } else {
                            pieces_done[k]
                        },
                ));
            }
        } else {
            current.push(chars[i]);
            assert(pieces_done.push(cur).drop_last() =~= pieces_done);
        }
        i += 1;
    }
    proof {
        assert(chars@.take(i as int) =~= chars@);
        let pieces = split_on(text@, '\n');
        assert(pieces.last() == current@);
        assert(pieces.len() - 1 == pieces_done.len());
        assert forall|k: int| 0 <= k < pieces_done.len() implies pieces[k] == pieces_done[k] by {}
    }
    if current.len() > 0 {
        let ghost before = lines.deep_view();
        let ghost cur = current@;
        assert(current.deep_view() =~= cur);
        lines.push(current);
        assert(lines.deep_view() =~= before.push(cur));
        assert(lines.deep_view() =~= text_lines(text@));
    } else {
        assert(lines.deep_view() =~= text_lines(text@));
    }
    lines
}

fn split_words(line: &Vec<char>) -> (words: Vec<Vec<char>>)
    ensures
        words.deep_view() == words_of(line@),
        forall|k: int| 0 <= k < words.len() ==> (#[trigger] words[k]).len() > 0,
{
    let mut words: Vec<Vec<char>> = Vec::new();
    let mut word: Vec<char> = Vec::new();
    let mut i: usize = 0;
    assert(words.deep_view() =~= Seq::<Seq<char>>::empty());
    while i < line.len()
        invariant
            i <= line.len(),
            (words.deep_view(), word@) == words_upto(line@, i as int),
            forall|k: int| 0 <= k < words.len() ==> (#[trigger] words[k]).len() > 0,
        decreases line.len() - i,
    {
        let ghost before = words.deep_view();
        if line[i].is_whitespace() {
            if word.len() > 0 {
                let ghost w = word@;
                assert(word.deep_view() =~= w);
                words.push(word);
                word = Vec::new();
                assert(words.deep_view() =~= before.push(w));
            }
        } else {
            word.push(line[i]);
        }
        i += 1;
    }
    if word.len() > 0 {
        let ghost before = words.deep_view();
        let ghost w = word@;
        assert(word.deep_view() =~= w);
        words.push(word);
        assert(words.deep_view() =~= before.push(w));
    }
    words
}

fn append(out: &mut Vec<char>, more: &Vec<char>)
    ensures
        final(out)@ == old(out)@ + more@,
{
    let mut i: usize = 0;
    assert(out@ =~= old(out)@ + more@.take(0));
    while i < more.len()
        invariant
            i <= more.len(),
            out@ == old(out)@ + more@.take(i as int),
        decreases more.len() - i,
    {
        out.push(more[i]);
        assert(more@.take(i + 1) =~= more@.take(i as int).push(more@[i as int]));
        i += 1;
    }
    assert(more@.take(more.len() as int) =~= more@);
}

/// Wraps a text into lines of at most `width` characters.
pub fn wrap_text(text: &str, width: usize) -> (result: Vec<String>)
    ensures
        result.deep_view() == wrapped(text@, width),
        result.len() >= 1,
{
    let lines = lines_of(text);
    let ghost all = lines.deep_view();
    let mut result: Vec<String> = Vec::new();
    let mut n: usize = 0;
    assert(result.deep_view() =~= wrapped_upto(all, 0, width));
    while n < lines.len()
        invariant
            n <= lines.len(),
            all == lines.deep_view(),
            all == text_lines(text@),
            result.deep_view() == wrapped_upto(all, n as int, width),
        decreases lines.len() - n,
    {
        let raw = &lines[n];
        let ghost before = result.deep_view();
        assert(raw.deep_view() =~= raw@);
        assert(all[n as int] == raw@);
        if raw.len() == 0 {
            result.push(String::new());
            assert(result.deep_view() =~= before + wrapped_line(raw@, width));
        } else {
            let words = split_words(raw);
            let ghost wv = words.deep_view();
            let mut current: Vec<char> = Vec::new();
            let mut w: usize = 0;
            assert(wv.take(0) =~= Seq::<Seq<char>>::empty());
            assert(result.deep_view() =~= before + filled(wv.take(0), width).0);
            while w < words.len()
                invariant
                    w <= words.len(),
                    wv == words.deep_view(),
                    forall|k: int| 0 <= k < words.len() ==> (#[trigger] words[k]).len() > 0,
                    result.deep_view() == before + filled(wv.take(w as int), width).0,
                    current@ == filled(wv.take(w as int), width).1,
                decreases words.len() - w,
            {
                let word = &words[w];
                let ghost so_far = result.deep_view();
                proof {
                    assert(wv.take(w + 1).drop_last() =~= wv.take(w as int));
                    assert(word.deep_view() =~= word@);
                    assert(wv.take(w + 1).last() == word@);
                }
                if current.len() == 0 {
                    append(&mut current, word);
                    assert(current@ =~= word@);
                } else if word.len() <= width && current.len() < width - word.len() {
                    current.push(' ');
                    append(&mut current, word);
                } else {
                    let line = string_of(&current);
                    result.push(line);
                    assert(result.deep_view() =~= so_far.push(line@));
                    current = Vec::new();
                    append(&mut current, word);
                    assert(current@ =~= word@);
                }
                w += 1;
            }
            assert(wv.take(w as int) =~= wv);
            if current.len() > 0 {
                let ghost so_far = result.deep_view();
                let line = string_of(&current);
                result.push(line);
                assert(result.deep_view() =~= so_far.push(line@));
            }
            assert(result.deep_view() =~= before + wrapped_line(raw@, width));
        }
        n += 1;
    }
    if result.len() == 0 {
        result.push(String::new());
        assert(result.deep_view() =~= seq![Seq::<char>::empty()]);
    }
    result
}

} // verus!
