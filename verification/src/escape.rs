//! Escaping of raw text for inclusion in markup.

use vstd::prelude::*;
use vstd::string::*;

verus! {

/// The markup entity that stands for `c`, or `c` itself when it needs none.
pub open spec fn entity(c: char) -> Seq<char> {
    if c == '&' {
        "&amp;"@
    } else if c == '<' {
        "&lt;"@
    } else if c == '>' {
        "&gt;"@
    } else if c == '"' {
        "&quot;"@
    } else if c == '\'' {
        "&#39;"@
    } else {
        seq![c]
    }
}

/// Whether `c` is one of the five characters that markup gives a meaning.
pub open spec fn is_special(c: char) -> bool {
    c == '&' || c == '<' || c == '>' || c == '"' || c == '\''
}

/// The escaped form of `text`: every character replaced by its entity,
/// in place and in order.
pub open spec fn escaped(text: Seq<char>) -> Seq<char>
    decreases text.len(),
{
    if text.len() == 0 {
        Seq::empty()
    } else {
        escaped(text.drop_last()) + entity(text.last())
    }
}

/// `text` with every occurrence of `from` replaced by `to`.
pub open spec fn replaced(text: Seq<char>, from: char, to: Seq<char>) -> Seq<char>
    decreases text.len(),
{
    if text.len() == 0 {
        Seq::empty()
    } else {
        replaced(text.drop_last(), from, to) + if text.last() == from {
            to
        } else {
            seq![text.last()]
        }
    }
}

/// Five whole-text replacements, the ampersand first.
pub open spec fn replaced_in_turn(text: Seq<char>) -> Seq<char> {
    replaced(
        replaced(
            replaced(replaced(replaced(text, '&', "&amp;"@), '<', "&lt;"@), '>', "&gt;"@),
            '"',
            "&quot;"@,
        ),
        '\'',
        "&#39;"@,
    )
}

/// Escapes `text` for markup: `&`, `<`, `>`, `"` and `'` become entities,
/// every other character (newlines included) is kept as it is.
pub fn html_escape(text: &str) -> (out: String)
    ensures
        out@ == escaped(text@),
{
    let mut out = String::new();
    for c in it: text.chars()
        invariant
            it.seq() == text@,
            out@ == escaped(text@.take(it.index())),
    {
        assert(text@.take(it.index() + 1).drop_last() == text@.take(it.index()));
        if c == '&' {
            out.append("&amp;");
        } else if c == '<' {
            out.append("&lt;");
        } else if c == '>' {
            out.append("&gt;");
        } else if c == '"' {
            out.append("&quot;");
        } else if c == '\'' {
            out.append("&#39;");
        } else {
            out.push(c);
        }
    }
    assert(text@.take(text@.len() as int) == text@);
    out
}

/// Escaping works character by character: the escaped form of a
/// concatenation is the concatenation of the escaped forms.
pub proof fn lemma_escaped_concat(a: Seq<char>, b: Seq<char>)
    ensures
        escaped(a + b) == escaped(a) + escaped(b),
    decreases b.len(),
{
    if b.len() == 0 {
        assert(a + b == a);
    } else {
        lemma_escaped_concat(a, b.drop_last());
        assert((a + b).drop_last() == a + b.drop_last());
    }
}

/// One character gives exactly its entity.
pub proof fn lemma_escaped_single(c: char)
    ensures
        escaped(seq![c]) == entity(c),
{
    assert(seq![c].drop_last() == Seq::<char>::empty());
    assert(escaped(seq![c].drop_last()) == Seq::<char>::empty());
}

/// Each occurrence is substituted exactly once, and what a substitution
/// wrote is not touched again: the character at position `i` accounts for
/// its own entity, between the escaped text before it and after it.
pub proof fn lemma_escaped_at(text: Seq<char>, i: int)
    requires
        0 <= i < text.len(),
    ensures
        escaped(text) == escaped(text.take(i)) + entity(text[i]) + escaped(text.skip(i + 1)),
{
    let head = text.take(i);
    let mid = seq![text[i]];
    let tail = text.skip(i + 1);
    assert(text == head + mid + tail);
    lemma_escaped_concat(head + mid, tail);
    lemma_escaped_concat(head, mid);
    lemma_escaped_single(text[i]);
}

/// Text without any of the five characters is left unchanged.
pub proof fn lemma_escaped_plain(text: Seq<char>)
    requires
        forall|i: int| 0 <= i < text.len() ==> !is_special(#[trigger] text[i]),
    ensures
        escaped(text) == text,
    decreases text.len(),
{
    if text.len() > 0 {
        lemma_escaped_plain(text.drop_last());
        assert(text.drop_last().push(text.last()) == text);
    }
}

/// Escaped text holds no `<`, `>`, `"` or `'`.
pub proof fn lemma_escaped_is_safe(text: Seq<char>, i: int)
    requires
        0 <= i < escaped(text).len(),
    ensures
        escaped(text)[i] != '<',
        escaped(text)[i] != '>',
        escaped(text)[i] != '"',
        escaped(text)[i] != '\'',
    decreases text.len(),
{
    reveal_strlit("&amp;");
    reveal_strlit("&lt;");
    reveal_strlit("&gt;");
    reveal_strlit("&quot;");
    reveal_strlit("&#39;");
    if text.len() > 0 {
        let front = escaped(text.drop_last());
        if i < front.len() {
            lemma_escaped_is_safe(text.drop_last(), i);
        }
    }
}

proof fn lemma_replaced_concat(a: Seq<char>, b: Seq<char>, from: char, to: Seq<char>)
    ensures
        replaced(a + b, from, to) == replaced(a, from, to) + replaced(b, from, to),
    decreases b.len(),
{
    if b.len() == 0 {
        assert(a + b == a);
    } else {
        lemma_replaced_concat(a, b.drop_last(), from, to);
        assert((a + b).drop_last() == a + b.drop_last());
    }
}

proof fn lemma_replaced_absent(text: Seq<char>, from: char, to: Seq<char>)
    requires
        forall|i: int| 0 <= i < text.len() ==> #[trigger] text[i] != from,
    ensures
        replaced(text, from, to) == text,
    decreases text.len(),
{
    if text.len() > 0 {
        lemma_replaced_absent(text.drop_last(), from, to);
        assert(text.drop_last().push(text.last()) == text);
    }
}

proof fn lemma_replaced_single(c: char, from: char, to: Seq<char>)
    ensures
        replaced(seq![c], from, to) == if c == from {
            to
        } else {
            seq![c]
        },
{
    assert(seq![c].drop_last() == Seq::<char>::empty());
    assert(replaced(seq![c].drop_last(), from, to) == Seq::<char>::empty());
}

proof fn lemma_replaced_in_turn_single(c: char)
    ensures
        replaced_in_turn(seq![c]) == entity(c),
{
    reveal_strlit("&amp;");
    reveal_strlit("&lt;");
    reveal_strlit("&gt;");
    reveal_strlit("&quot;");
    reveal_strlit("&#39;");
    let amp = "&amp;"@;
    let lt = "&lt;"@;
    let gt = "&gt;"@;
    let quot = "&quot;"@;
    let apos = "&#39;"@;
    let s1 = replaced(seq![c], '&', amp);
    lemma_replaced_single(c, '&', amp);
    let s2 = replaced(s1, '<', lt);
    if c == '&' {
        lemma_replaced_absent(s1, '<', lt);
    } else {
        lemma_replaced_single(c, '<', lt);
    }
    let s3 = replaced(s2, '>', gt);
    if c == '&' || c == '<' {
        lemma_replaced_absent(s2, '>', gt);
    } else {
        lemma_replaced_single(c, '>', gt);
    }
    let s4 = replaced(s3, '"', quot);
    if c == '&' || c == '<' || c == '>' {
        lemma_replaced_absent(s3, '"', quot);
    } else {
        lemma_replaced_single(c, '"', quot);
    }
    if c == '&' || c == '<' || c == '>' || c == '"' {
        lemma_replaced_absent(s4, '\'', apos);
    } else {
        lemma_replaced_single(c, '\'', apos);
    }
}

proof fn lemma_replaced_in_turn_concat(a: Seq<char>, b: Seq<char>)
    ensures
        replaced_in_turn(a + b) == replaced_in_turn(a) + replaced_in_turn(b),
{
    let amp = "&amp;"@;
    let lt = "&lt;"@;
    let gt = "&gt;"@;
    let quot = "&quot;"@;
    let apos = "&#39;"@;
    lemma_replaced_concat(a, b, '&', amp);
    let a1 = replaced(a, '&', amp);
    let b1 = replaced(b, '&', amp);
    lemma_replaced_concat(a1, b1, '<', lt);
    let a2 = replaced(a1, '<', lt);
    let b2 = replaced(b1, '<', lt);
    lemma_replaced_concat(a2, b2, '>', gt);
    let a3 = replaced(a2, '>', gt);
    let b3 = replaced(b2, '>', gt);
    lemma_replaced_concat(a3, b3, '"', quot);
    let a4 = replaced(a3, '"', quot);
    let b4 = replaced(b3, '"', quot);
    lemma_replaced_concat(a4, b4, '\'', apos);
}

/// Escaping is what five whole-text replacements give when the ampersand is
/// replaced first: no replacement meets a character that one before it
/// wrote.
pub proof fn lemma_escaped_is_replaced_in_turn(text: Seq<char>)
    ensures
        escaped(text) == replaced_in_turn(text),
    decreases text.len(),
{
    if text.len() == 0 {
        assert(replaced(text, '&', "&amp;"@) == Seq::<char>::empty());
    } else {
        let front = text.drop_last();
        let back = seq![text.last()];
        lemma_escaped_is_replaced_in_turn(front);
        lemma_replaced_in_turn_single(text.last());
        lemma_replaced_in_turn_concat(front, back);
        assert(front + back == text);
    }
}

/// Escaping twice is not escaping once: the ampersand of an entity is
/// itself escaped again.
pub proof fn lemma_escaped_not_idempotent()
    ensures
        escaped(escaped(seq!['&'])) != escaped(seq!['&']),
{
    reveal_strlit("&amp;");
    lemma_escaped_single('&');
    let once = "&amp;"@;
    assert(escaped(once).len() > once.len()) by {
        lemma_escaped_at(once, 0);
    }
}

} // verus!
