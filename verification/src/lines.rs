//! Splitting a text into its lines.

use crate::text::texts;
use vstd::prelude::*;

verus! {

/// `line` without the carriage return that ends it, if one does.
pub open spec fn without_cr(line: Seq<char>) -> Seq<char> {
    if line.len() > 0 && line.last() == '\r' {
        line.drop_last()
    } else {
        line
    }
}

/// What follows the last newline of `text`: the line that no newline has
/// ended yet.
pub open spec fn open_line(text: Seq<char>) -> Seq<char>
    decreases text.len(),
{
    if text.len() == 0 || text.last() == '\n' {
        Seq::empty()
    } else {
        open_line(text.drop_last()).push(text.last())
    }
}

/// The lines of `text` that a newline ends, each without that newline and
/// without a carriage return just before it.
pub open spec fn ended_lines(text: Seq<char>) -> Seq<Seq<char>>
    decreases text.len(),
{
    if text.len() == 0 {
        Seq::empty()
    } else if text.last() == '\n' {
        ended_lines(text.drop_last()).push(without_cr(open_line(text.drop_last())))
    } else {
        ended_lines(text.drop_last())
    }
}

/// The lines of `text`. A line ends at a newline, or at a carriage return
/// followed by a newline; neither is part of the line. The last line needs
/// no line ending, and an empty rest after the last newline is no line.
pub open spec fn lines_of(text: Seq<char>) -> Seq<Seq<char>> {
    if open_line(text).len() > 0 {
        ended_lines(text).push(open_line(text))
    } else {
        ended_lines(text)
    }
}

/// The lines put together again, a newline after each.
pub open spec fn joined(lines: Seq<Seq<char>>) -> Seq<char>
    decreases lines.len(),
{
    if lines.len() == 0 {
        Seq::empty()
    } else {
        joined(lines.drop_last()) + lines.last().push('\n')
    }
}

/// Whether every line of `text` ends in a lone newline: no carriage return
/// stands before a newline, and the text, unless empty, ends in a newline.
pub open spec fn ends_lines_plainly(text: Seq<char>) -> bool {
    &&& text.len() > 0 ==> text.last() == '\n'
    &&& forall|i: int| 0 < i < text.len() && text[i] == '\n' ==> #[trigger] text[i - 1] != '\r'
}

/// Splits `text` into its lines.
pub fn split_lines(text: &str) -> (lines: Vec<String>)
    ensures
        texts(lines@) == lines_of(text@),
{
    let mut lines: Vec<String> = Vec::new();
    let mut current = String::new();
    let mut held_cr = false;
    for c in it: text.chars()
        invariant
            it.seq() == text@,
            texts(lines@) == ended_lines(text@.take(it.index())),
            open_line(text@.take(it.index())) == if held_cr {
                current@.push('\r')
            } else {
                current@
            },
            !held_cr && current@.len() > 0 ==> current@.last() != '\r',
    {
        let ghost before = text@.take(it.index());
        let ghost after = text@.take(it.index() + 1);
        assert(after.drop_last() == before);
        assert(after.last() == c);
        if c == '\n' {
            let ghost old_lines = lines@;
            let ghost line = current@;
            assert(without_cr(open_line(before)) == line) by {
                if held_cr {
                    assert(line.push('\r').drop_last() == line);
                }
            }
            lines.push(current);
            current = String::new();
            held_cr = false;
            assert(texts(lines@) =~= texts(old_lines).push(line));
        } else {
            if held_cr {
                current.push('\r');
            }
            if c == '\r' {
                held_cr = true;
            } else {
                current.push(c);
                held_cr = false;
            }
        }
    }
    assert(text@.take(text@.len() as int) == text@);
    if held_cr {
        current.push('\r');
    }
    if !current.as_str().is_empty() {
        let ghost old_lines = lines@;
        lines.push(current);
        assert(texts(lines@) =~= texts(old_lines).push(open_line(text@)));
    }
    lines
}

/// No line holds a newline.
pub proof fn lemma_lines_hold_no_newline(text: Seq<char>, i: int, j: int)
    requires
        0 <= i < lines_of(text).len(),
        0 <= j < lines_of(text)[i].len(),
    ensures
        lines_of(text)[i][j] != '\n',
{
    lemma_open_line_holds_no_newline(text, j);
    if i < ended_lines(text).len() {
        lemma_ended_lines_hold_no_newline(text, i, j);
    }
}

proof fn lemma_open_line_holds_no_newline(text: Seq<char>, j: int)
    ensures
        0 <= j < open_line(text).len() ==> open_line(text)[j] != '\n',
    decreases text.len(),
{
    if text.len() > 0 && text.last() != '\n' {
        lemma_open_line_holds_no_newline(text.drop_last(), j);
    }
}

proof fn lemma_ended_lines_hold_no_newline(text: Seq<char>, i: int, j: int)
    requires
        0 <= i < ended_lines(text).len(),
        0 <= j < ended_lines(text)[i].len(),
    ensures
        ended_lines(text)[i][j] != '\n',
    decreases text.len(),
{
    if text.len() > 0 {
        let front = text.drop_last();
        if text.last() == '\n' && i == ended_lines(front).len() {
            lemma_open_line_holds_no_newline(front, j);
        } else {
            lemma_ended_lines_hold_no_newline(front, i, j);
        }
    }
}

proof fn lemma_open_line_is_suffix(text: Seq<char>)
    ensures
        open_line(text).len() <= text.len(),
        open_line(text).len() > 0 ==> open_line(text).last() == text.last(),
    decreases text.len(),
{
    if text.len() > 0 {
        lemma_open_line_is_suffix(text.drop_last());
    }
}

proof fn lemma_joined_prefix(text: Seq<char>)
    requires
        forall|i: int| 0 < i < text.len() && text[i] == '\n' ==> #[trigger] text[i - 1] != '\r',
    ensures
        joined(ended_lines(text)) + open_line(text) == text,
    decreases text.len(),
{
    if text.len() > 0 {
        let front = text.drop_last();
        assert forall|i: int| 0 < i < front.len() && front[i] == '\n' implies #[trigger] front[i
            - 1] != '\r' by {
            assert(text[i] == front[i]);
            assert(text[i - 1] == front[i - 1]);
        }
        lemma_joined_prefix(front);
        lemma_open_line_is_suffix(front);
        if text.last() == '\n' {
            let rest = open_line(front);
            if rest.len() > 0 {
                assert(rest.last() == front.last());
                assert(text[text.len() - 1] == '\n');
                assert(text[text.len() - 1 - 1] == front.last());
            }
            assert(without_cr(rest) == rest);
            assert(ended_lines(text).drop_last() == ended_lines(front));
            assert(joined(ended_lines(text)) == joined(ended_lines(front)) + rest.push('\n'));
            assert(joined(ended_lines(front)) + rest.push('\n') == (joined(ended_lines(front))
                + rest).push('\n'));
            assert(front.push('\n') == text);
        } else {
            assert(joined(ended_lines(front)) + open_line(front).push(text.last()) == (joined(
                ended_lines(front),
            ) + open_line(front)).push(text.last()));
            assert(front.push(text.last()) == text);
        }
    }
}

/// Where every line of a text ends in a lone newline, putting its lines
/// together again gives the text back.
pub proof fn lemma_joined_lines(text: Seq<char>)
    requires
        ends_lines_plainly(text),
    ensures
        joined(lines_of(text)) == text,
{
    lemma_joined_prefix(text);
    assert(open_line(text).len() == 0);
    assert(joined(ended_lines(text)) + open_line(text) == joined(ended_lines(text)));
}

} // verus!
