//! What holds of every document, proved from the definitions of the parser
//! and of the markup.

use crate::lines::{ends_lines_plainly, joined, lemma_joined_lines, lines_of};
use crate::markup::{block_markup, group_id, language_order, lemma_group_id_injective, SectionView};
use crate::parser::{
    after_lines, applied, distinct, event_of, extended, holds, opened, rendered, start, step,
    valid, LineEventView, ParseStateView, ParserView,
};
use crate::pattern::{closes_block, opens_block, section_language};
use vstd::prelude::*;

verus! {

/// Opening a section keeps the languages apart, and the language opened
/// has a section afterwards.
pub proof fn lemma_opened(sections: Seq<SectionView>, language: Seq<char>)
    requires
        distinct(sections),
    ensures
        distinct(opened(sections, language)),
        holds(opened(sections, language), language),
{
    let after = opened(sections, language);
    if holds(sections, language) {
        let at = choose|i: int| 0 <= i < sections.len() && (#[trigger] sections[i]).language
            == language;
        assert(after[at].language == language);
        assert forall|i: int, j: int| 0 <= i < j < after.len() implies (#[trigger] after[i]).language
            != (#[trigger] after[j]).language by {
            assert(after[i].language == sections[i].language);
            assert(after[j].language == sections[j].language);
        }
    } else {
        assert(after[sections.len() as int].language == language);
        assert forall|i: int, j: int| 0 <= i < j < after.len() implies (#[trigger] after[i]).language
            != (#[trigger] after[j]).language by {
            assert(after[i] == sections[i]);
            if j < sections.len() {
                assert(after[j] == sections[j]);
            }
        }
    }
}

/// A language that is opened again keeps its place among the languages and
/// starts with an empty text; the other sections stay as they are. So the
/// selector, which has one option for each section, names it once.
pub proof fn lemma_reopened(sections: Seq<SectionView>, language: Seq<char>, at: int)
    requires
        distinct(sections),
        0 <= at < sections.len(),
        sections[at].language == language,
    ensures
        language_order(opened(sections, language)) == language_order(sections),
        opened(sections, language) == sections.update(
            at,
            SectionView { language, text: Seq::empty() },
        ),
{
    let after = opened(sections, language);
    assert(holds(sections, language));
    assert forall|i: int| 0 <= i < sections.len() implies #[trigger] after[i] == sections.update(
        at,
        SectionView { language, text: Seq::empty() },
    )[i] by {
        if i != at {
            assert(sections[i].language != sections[at].language);
        }
    }
    assert(after =~= sections.update(at, SectionView { language, text: Seq::empty() }));
    assert(language_order(after) =~= language_order(sections));
}

/// A language that is opened for the first time goes to the end.
pub proof fn lemma_first_opened(sections: Seq<SectionView>, language: Seq<char>)
    requires
        !holds(sections, language),
    ensures
        language_order(opened(sections, language)) == language_order(sections).push(language),
{
    assert(language_order(opened(sections, language)) =~= language_order(sections).push(language));
}

/// Adding to the text of a language changes no language.
pub proof fn lemma_extended(sections: Seq<SectionView>, language: Seq<char>, piece: Seq<char>)
    ensures
        language_order(extended(sections, language, piece)) == language_order(sections),
        distinct(sections) ==> distinct(extended(sections, language, piece)),
        holds(sections, language) ==> holds(extended(sections, language, piece), language),
{
    let after = extended(sections, language, piece);
    assert(language_order(after) =~= language_order(sections));
    if distinct(sections) {
        assert forall|i: int, j: int| 0 <= i < j < after.len() implies (#[trigger] after[i]).language
            != (#[trigger] after[j]).language by {
            assert(after[i].language == sections[i].language);
            assert(after[j].language == sections[j].language);
        }
    }
    if holds(sections, language) {
        let at = choose|i: int| 0 <= i < sections.len() && (#[trigger] sections[i]).language
            == language;
        assert(after[at].language == language);
    }
}

/// Whatever a line means, a valid parser stays valid.
pub proof fn lemma_applied_keeps_valid(p: ParserView, event: LineEventView, line: Seq<char>)
    requires
        valid(p),
    ensures
        valid(applied(p, event, line)),
{
    match p.state {
        ParseStateView::Nothing => {},
        ParseStateView::Multicode => {
            if let LineEventView::OpenSection(language) = event {
                lemma_opened(p.sections, language);
            }
        },
        ParseStateView::Code(language) => {
            lemma_extended(p.sections, language, line.push('\n'));
        },
    }
}

/// A valid parser stays valid over any lines.
pub proof fn lemma_after_lines_keeps_valid(p: ParserView, lines: Seq<Seq<char>>)
    requires
        valid(p),
    ensures
        valid(after_lines(p, lines)),
    decreases lines.len(),
{
    if lines.len() > 0 {
        lemma_after_lines_keeps_valid(p, lines.drop_last());
        let before = after_lines(p, lines.drop_last());
        lemma_applied_keeps_valid(before, event_of(before.state, lines.last()), lines.last());
    }
}

/// At every point of every document, no language has two sections in the
/// block at hand: however often a language is declared, the selector of
/// the block names it once.
pub proof fn lemma_languages_stay_distinct(header: Seq<char>, lines: Seq<Seq<char>>)
    ensures
        language_order(after_lines(start(header), lines).sections).no_duplicates(),
{
    lemma_after_lines_keeps_valid(start(header), lines);
    let sections = after_lines(start(header), lines).sections;
    let order = language_order(sections);
    assert forall|i: int, j: int| 0 <= i < order.len() && 0 <= j < order.len() && i != j implies order[i]
        != order[j] by {
        if i < j {
            assert(sections[i].language != sections[j].language);
        } else {
            assert(sections[j].language != sections[i].language);
        }
    }
}

/// What is written stays: the output before any lines is the beginning of
/// the output after them.
pub proof fn lemma_output_grows(p: ParserView, lines: Seq<Seq<char>>)
    ensures
        p.output.is_prefix_of(after_lines(p, lines).output),
    decreases lines.len(),
{
    if lines.len() > 0 {
        lemma_output_grows(p, lines.drop_last());
        let before = after_lines(p, lines.drop_last());
        let after = step(before, lines.last());
        assert(before.output.is_prefix_of(after.output)) by {
            assert(after.output.subrange(0, before.output.len() as int) =~= before.output);
        }
        assert(p.output =~= after.output.subrange(0, p.output.len() as int)) by {
            assert(p.output =~= before.output.subrange(0, p.output.len() as int));
        }
    } else {
        assert(p.output =~= p.output.subrange(0, p.output.len() as int));
    }
}

/// Every rewritten document begins with the header and a newline.
pub proof fn lemma_rendered_begins_with_header(header: Seq<char>, content: Seq<char>)
    ensures
        header.push('\n').is_prefix_of(rendered(header, content)),
{
    lemma_output_grows(start(header), lines_of(content));
}

/// Taking lines one run after another is taking them in one run.
pub proof fn lemma_after_lines_concat(p: ParserView, a: Seq<Seq<char>>, b: Seq<Seq<char>>)
    ensures
        after_lines(p, a + b) == after_lines(after_lines(p, a), b),
    decreases b.len(),
{
    if b.len() == 0 {
        assert(a + b =~= a);
    } else {
        lemma_after_lines_concat(p, a, b.drop_last());
        assert((a + b).drop_last() =~= a + b.drop_last());
    }
}

proof fn lemma_after_one(p: ParserView, line: Seq<char>)
    ensures
        after_lines(p, seq![line]) == step(p, line),
{
    assert(seq![line].drop_last() =~= Seq::<Seq<char>>::empty());
    assert(after_lines(p, seq![line].drop_last()) == p);
}

/// Outside a block, lines of which none opens a block are copied, each
/// with a newline, and nothing else changes.
pub proof fn lemma_lines_outside_blocks(p: ParserView, lines: Seq<Seq<char>>)
    requires
        p.state is Nothing,
        forall|i: int| 0 <= i < lines.len() ==> !opens_block(#[trigger] lines[i]),
    ensures
        after_lines(p, lines) == (ParserView { output: p.output + joined(lines), ..p }),
    decreases lines.len(),
{
    if lines.len() == 0 {
        assert(p.output + joined(lines) =~= p.output);
    } else {
        let front = lines.drop_last();
        assert forall|i: int| 0 <= i < front.len() implies !opens_block(#[trigger] front[i]) by {
            assert(front[i] == lines[i]);
        }
        lemma_lines_outside_blocks(p, front);
        assert(!opens_block(lines[lines.len() - 1]));
        assert(p.output + joined(front) + lines.last().push('\n') =~= p.output + joined(lines));
    }
}

/// A document of which no line opens a block is rewritten to the header, a
/// newline, and its own lines, each ended by a newline.
pub proof fn lemma_document_without_block(header: Seq<char>, content: Seq<char>)
    requires
        forall|i: int|
            0 <= i < lines_of(content).len() ==> !opens_block(#[trigger] lines_of(content)[i]),
    ensures
        rendered(header, content) == header.push('\n') + joined(lines_of(content)),
{
    lemma_lines_outside_blocks(start(header), lines_of(content));
}

/// A document of which no line opens a block, and of which every line ends
/// in a lone newline, is rewritten to the header, a newline, and the
/// document unchanged.
pub proof fn lemma_document_without_block_is_kept(header: Seq<char>, content: Seq<char>)
    requires
        forall|i: int|
            0 <= i < lines_of(content).len() ==> !opens_block(#[trigger] lines_of(content)[i]),
        ends_lines_plainly(content),
    ensures
        rendered(header, content) == header.push('\n') + content,
{
    lemma_document_without_block(header, content);
    lemma_joined_lines(content);
}

proof fn lemma_lines_inside_empty_block(p: ParserView, body: Seq<Seq<char>>)
    requires
        p.state is Multicode,
        forall|i: int|
            0 <= i < body.len() ==> !closes_block(#[trigger] body[i]) && section_language(
                body[i],
            ) is None,
    ensures
        after_lines(p, body) == p,
    decreases body.len(),
{
    if body.len() > 0 {
        let front = body.drop_last();
        assert forall|i: int| 0 <= i < front.len() implies !closes_block(#[trigger] front[i])
            && section_language(front[i]) is None by {
            assert(front[i] == body[i]);
        }
        lemma_lines_inside_empty_block(p, front);
        assert(!closes_block(body[body.len() - 1]));
    }
}

/// A block of which no line opens a section writes nothing, its markers
/// included; it is counted all the same.
pub proof fn lemma_block_without_section(
    p: ParserView,
    open: Seq<char>,
    body: Seq<Seq<char>>,
    close: Seq<char>,
)
    requires
        p.state is Nothing,
        opens_block(open),
        forall|i: int|
            0 <= i < body.len() ==> !closes_block(#[trigger] body[i]) && section_language(
                body[i],
            ) is None,
        closes_block(close),
    ensures
        after_lines(p, seq![open] + body + seq![close]) == (ParserView {
            state: ParseStateView::Nothing,
            sections: Seq::empty(),
            sequence_number: p.sequence_number + 1,
            output: p.output,
        }),
{
    let inside = step(p, open);
    lemma_after_one(p, open);
    lemma_after_lines_concat(p, seq![open], body);
    lemma_lines_inside_empty_block(inside, body);
    lemma_after_lines_concat(p, seq![open] + body, seq![close]);
    lemma_after_one(inside, close);
}

/// Whether line `i` of `lines` closes a block, for a parser that starts
/// at `p`.
pub open spec fn closes_at(p: ParserView, lines: Seq<Seq<char>>, i: int) -> bool {
    &&& 0 <= i < lines.len()
    &&& after_lines(p, lines.take(i)).state is Multicode
    &&& closes_block(lines[i])
}

/// The sequence number never goes down.
pub proof fn lemma_sequence_number_grows(p: ParserView, lines: Seq<Seq<char>>, i: int, j: int)
    requires
        0 <= i <= j <= lines.len(),
    ensures
        after_lines(p, lines.take(i)).sequence_number <= after_lines(
            p,
            lines.take(j),
        ).sequence_number,
    decreases j - i,
{
    if i < j {
        lemma_sequence_number_grows(p, lines, i, j - 1);
        assert(lines.take(j).drop_last() =~= lines.take(j - 1));
    }
}

/// The line that closes a block writes the markup of the block under the
/// sequence number reached, where the block has a section, and moves the
/// sequence number on by one.
pub proof fn lemma_block_close(p: ParserView, lines: Seq<Seq<char>>, i: int)
    requires
        closes_at(p, lines, i),
    ensures
        ({
            let before = after_lines(p, lines.take(i));
            let after = after_lines(p, lines.take(i + 1));
            &&& after.sequence_number == before.sequence_number + 1
            &&& after.state is Nothing
            &&& before.sections.len() > 0 ==> after.output == before.output + block_markup(
                before.sequence_number,
                before.sections,
            ).push('\n')
            &&& before.sections.len() == 0 ==> after.output == before.output
        }),
{
    assert(lines.take(i + 1).drop_last() =~= lines.take(i));
    assert(lines.take(i + 1).last() == lines[i]);
}

/// Two blocks of one document are written under different group
/// identifiers, whatever languages they declare.
pub proof fn lemma_blocks_get_distinct_ids(p: ParserView, lines: Seq<Seq<char>>, i: int, j: int)
    requires
        closes_at(p, lines, i),
        closes_at(p, lines, j),
        i < j,
    ensures
        group_id(after_lines(p, lines.take(i)).sequence_number) != group_id(
            after_lines(p, lines.take(j)).sequence_number,
        ),
{
    lemma_block_close(p, lines, i);
    lemma_sequence_number_grows(p, lines, i + 1, j);
    let m = after_lines(p, lines.take(i)).sequence_number;
    let n = after_lines(p, lines.take(j)).sequence_number;
    if group_id(m) == group_id(n) {
        lemma_group_id_injective(m, n);
    }
}

} // verus!
