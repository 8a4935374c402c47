//! The line-by-line rewriting of one document: a state machine that copies
//! ordinary lines, gathers the sections of each block, and writes the
//! block's markup where the block closes.

use crate::lines::lines_of;
use crate::markup::{block_markup, emit, views, Section, SectionView};
use crate::pattern::{closes_block, closes_section, opens_block, section_language};
use vstd::prelude::*;
use vstd::string::*;

verus! {

/// Where the parser stands: outside any block, inside a block, or inside
/// the section of a language.
#[derive(Debug, PartialEq, Eq)]
pub enum ParseState {
    Nothing,
    Multicode,
    Code(String),
}

/// What a `ParseState` holds.
pub enum ParseStateView {
    Nothing,
    Multicode,
    Code(Seq<char>),
}

impl View for ParseState {
    type V = ParseStateView;

    open spec fn view(&self) -> ParseStateView {
        match self {
            ParseState::Nothing => ParseStateView::Nothing,
            ParseState::Multicode => ParseStateView::Multicode,
            ParseState::Code(language) => ParseStateView::Code(language@),
        }
    }
}

/// What a line means to the parser in the state it is in.
#[derive(Debug, PartialEq, Eq)]
pub enum LineEvent {
    OpenBlock,
    CloseBlock,
    OpenSection(String),
    CloseSection,
    Text,
}

/// What a `LineEvent` holds.
pub enum LineEventView {
    OpenBlock,
    CloseBlock,
    OpenSection(Seq<char>),
    CloseSection,
    Text,
}

impl View for LineEvent {
    type V = LineEventView;

    open spec fn view(&self) -> LineEventView {
        match self {
            LineEvent::OpenBlock => LineEventView::OpenBlock,
            LineEvent::CloseBlock => LineEventView::CloseBlock,
            LineEvent::OpenSection(language) => LineEventView::OpenSection(language@),
            LineEvent::CloseSection => LineEventView::CloseSection,
            LineEvent::Text => LineEventView::Text,
        }
    }
}

/// The parser as a value: its state, the sections of the block it is in,
/// the number of blocks closed so far, and the output written so far.
pub struct ParserView {
    pub state: ParseStateView,
    pub sections: Seq<SectionView>,
    pub sequence_number: nat,
    pub output: Seq<char>,
}

/// Whether `sections` has a section of `language`.
pub open spec fn holds(sections: Seq<SectionView>, language: Seq<char>) -> bool {
    exists|i: int| 0 <= i < sections.len() && (#[trigger] sections[i]).language == language
}

/// Whether no two sections are of the same language.
pub open spec fn distinct(sections: Seq<SectionView>) -> bool {
    forall|i: int, j: int|
        0 <= i < j < sections.len() ==> (#[trigger] sections[i]).language != (
        #[trigger] sections[j]).language
}

/// `sections` after a section of `language` is opened: a language seen
/// before keeps its place and starts again with an empty text, a new one
/// goes to the end.
pub open spec fn opened(sections: Seq<SectionView>, language: Seq<char>) -> Seq<SectionView> {
    if holds(sections, language) {
        Seq::new(
            sections.len(),
            |i: int|
                if sections[i].language == language {
                    SectionView { language, text: Seq::empty() }
                } else {
                    sections[i]
                },
        )
    } else {
        sections.push(SectionView { language, text: Seq::empty() })
    }
}

/// `sections` with `piece` added to the text of `language`.
pub open spec fn extended(
    sections: Seq<SectionView>,
    language: Seq<char>,
    piece: Seq<char>,
) -> Seq<SectionView> {
    Seq::new(
        sections.len(),
        |i: int|
            if sections[i].language == language {
                SectionView { language, text: sections[i].text + piece }
            } else {
                sections[i]
            },
    )
}

/// What `line` means in `state`. Outside a block only the opening of a
/// block counts; inside a block its closing, and then the opening of a
/// section; inside a section only its closing.
pub open spec fn event_of(state: ParseStateView, line: Seq<char>) -> LineEventView {
    match state {
        ParseStateView::Nothing => if opens_block(line) {
            LineEventView::OpenBlock
        } else {
            LineEventView::Text
        },
        ParseStateView::Multicode => if closes_block(line) {
            LineEventView::CloseBlock
        } else {
            match section_language(line) {
                Some(language) => LineEventView::OpenSection(language),
                None => LineEventView::Text,
            }
        },
        ParseStateView::Code(_) => if closes_section(line) {
            LineEventView::CloseSection
        } else {
            LineEventView::Text
        },
    }
}

/// The parser after `line`, which means `event`.
///
/// Outside a block, the opening of a block starts a fresh block and any
/// other line is copied to the output with a newline. Inside a block, its
/// closing writes the markup of the sections and a newline, or nothing where
/// there is no section, and counts the block; the opening of a section
/// makes that language the active one; any other line is dropped. Inside a
/// section, its closing leads back into the block and any other line is
/// added, with a newline, to the text of the active language.
pub open spec fn applied(p: ParserView, event: LineEventView, line: Seq<char>) -> ParserView {
    match p.state {
        ParseStateView::Nothing => match event {
            LineEventView::OpenBlock => ParserView {
                state: ParseStateView::Multicode,
                sections: Seq::empty(),
                ..p
            },
            _ => ParserView { output: p.output + line.push('\n'), ..p },
        },
        ParseStateView::Multicode => match event {
            LineEventView::CloseBlock => ParserView {
                state: ParseStateView::Nothing,
                sections: Seq::empty(),
                sequence_number: p.sequence_number + 1,
                output: if p.sections.len() > 0 {
                    p.output + block_markup(p.sequence_number, p.sections).push('\n')
                } else {
                    p.output
                },
            },
            LineEventView::OpenSection(language) => ParserView {
                state: ParseStateView::Code(language),
                sections: opened(p.sections, language),
                ..p
            },
            _ => p,
        },
        ParseStateView::Code(language) => match event {
            LineEventView::CloseSection => ParserView { state: ParseStateView::Multicode, ..p },
            _ => ParserView { sections: extended(p.sections, language, line.push('\n')), ..p },
        },
    }
}

/// The parser after `line`.
pub open spec fn step(p: ParserView, line: Seq<char>) -> ParserView {
    applied(p, event_of(p.state, line), line)
}

/// The parser after `lines`, taken in order.
pub open spec fn after_lines(p: ParserView, lines: Seq<Seq<char>>) -> ParserView
    decreases lines.len(),
{
    if lines.len() == 0 {
        p
    } else {
        step(after_lines(p, lines.drop_last()), lines.last())
    }
}

/// The parser at the start of a document: outside any block, no block
/// closed yet, and the header with a newline as the output.
pub open spec fn start(header: Seq<char>) -> ParserView {
    ParserView {
        state: ParseStateView::Nothing,
        sections: Seq::empty(),
        sequence_number: 0,
        output: header.push('\n'),
    }
}

/// The document `content` rewritten: `header` and a newline, then what the
/// parser writes for the lines of `content`. Whatever is still open at the
/// end is given up.
pub open spec fn rendered(header: Seq<char>, content: Seq<char>) -> Seq<char> {
    after_lines(start(header), lines_of(content)).output
}

/// What a parser must keep: no language has two sections, and the active
/// language has one.
pub open spec fn valid(p: ParserView) -> bool {
    &&& distinct(p.sections)
    &&& p.state matches ParseStateView::Code(language) ==> holds(p.sections, language)
}

fn find(sections: &Vec<Section>, language: &String) -> (found: Option<usize>)
    ensures
        found matches Some(i) ==> i < sections.len() && sections[i as int].language@
            == language@,
        found is None ==> !holds(views(sections@), language@),
{
    for i in 0..sections.len()
        invariant
            forall|j: int| 0 <= j < i ==> (#[trigger] sections[j]).language@ != language@,
    {
        if sections[i].language == *language {
            return Some(i);
        }
    }
    assert forall|j: int| 0 <= j < views(sections@).len() implies (#[trigger] views(
        sections@,
    )[j]).language != language@ by {
        assert(sections[j].language@ != language@);
    }
    None
}

/// The parser of one document.
pub struct Parser {
    state: ParseState,
    active: usize,
    sections: Vec<Section>,
    sequence_number: usize,
    output: String,
}

impl View for Parser {
    type V = ParserView;

    /// What the parser holds. Where the section of the active language
    /// lies is left out: it is bookkeeping, which `wf` ties to the state.
    closed spec fn view(&self) -> ParserView {
        ParserView {
            state: self.state@,
            sections: views(self.sections@),
            sequence_number: self.sequence_number as nat,
            output: self.output@,
        }
    }
}

impl Parser {
    /// Whether the parser is in order: it is `valid`, and it knows where
    /// the section of the active language is.
    pub closed spec fn wf(&self) -> bool {
        &&& valid(self@)
        &&& self.state matches ParseState::Code(language) ==> self.active < self.sections.len()
            && self.sections[self.active as int].language@ == language@
    }

    /// A parser that is in order is `valid`, and its sequence number fits
    /// the machine.
    pub proof fn lemma_wf(&self)
        requires
            self.wf(),
        ensures
            valid(self@),
            self@.sequence_number <= usize::MAX,
    {
    }

    /// A parser at the start of a document, with `header` and a newline
    /// written.
    pub fn new(header: &str) -> (parser: Parser)
        ensures
            parser.wf(),
            parser@ == start(header@),
    {
        let mut output = String::new();
        output.append(header);
        output.push('\n');
        let parser = Parser {
            state: ParseState::Nothing,
            active: 0,
            sections: Vec::new(),
            sequence_number: 0,
            output,
        };
        assert(parser@.sections =~= Seq::<SectionView>::empty());
        assert(parser@.output =~= header@.push('\n'));
        parser
    }

    /// The state the parser is in.
    pub fn state(&self) -> (state: &ParseState)
        ensures
            state@ == self@.state,
    {
        &self.state
    }

    /// The number of blocks closed so far.
    pub fn sequence_number(&self) -> (n: usize)
        ensures
            n == self@.sequence_number,
    {
        self.sequence_number
    }

    /// Takes `line` as `event`, whatever the line itself looks like. The
    /// count of blocks must have room for one more.
    pub fn apply(&mut self, event: LineEvent, line: &str)
        requires
            old(self).wf(),
            old(self)@.sequence_number < usize::MAX,
        ensures
            final(self).wf(),
            final(self)@ == applied(old(self)@, event@, line@),
    {
        match self.state {
            ParseState::Nothing => {
                match event {
                    LineEvent::OpenBlock => {
                        self.state = ParseState::Multicode;
                        self.sections = Vec::new();
                        assert(self@.sections =~= Seq::<SectionView>::empty());
                    },
                    _ => {
                        self.output.append(line);
                        self.output.push('\n');
                        assert(self@.output =~= old(self)@.output + line@.push('\n'));
                    },
                }
            },
            ParseState::Multicode => {
                match event {
                    LineEvent::CloseBlock => {
                        if self.sections.len() > 0 {
                            let markup = emit(self.sequence_number, &self.sections);
                            self.output.append(markup.as_str());
                            self.output.push('\n');
                            assert(self@.output =~= old(self)@.output + block_markup(
                                old(self)@.sequence_number,
                                old(self)@.sections,
                            ).push('\n'));
                        }
                        self.state = ParseState::Nothing;
                        self.sections = Vec::new();
                        self.sequence_number = self.sequence_number + 1;
                        assert(self@.sections =~= Seq::<SectionView>::empty());
                    },
                    LineEvent::OpenSection(language) => {
                        self.open_section(language);
                    },
                    _ => {},
                }
            },
            ParseState::Code(_) => {
                match event {
                    LineEvent::CloseSection => {
                        self.state = ParseState::Multicode;
                    },
                    _ => {
                        self.sections[self.active].text.append(line);
                        self.sections[self.active].text.push('\n');
                        proof {
                            let language = old(self)@.state->Code_0;
                            let piece = line@.push('\n');
                            let before = old(self)@.sections;
                            let at = self.active as int;
                            assert(before[at].language == language);
                            assert forall|i: int| 0 <= i < before.len() implies (
                            #[trigger] self@.sections[i]) == extended(before, language, piece)[i] by {
                                if i != at {
                                    assert(before[i].language != before[at].language);
                                } else {
                                    assert(self@.sections[i].text =~= before[i].text + piece);
                                }
                            }
                            assert(self@.sections =~= extended(before, language, piece));
                            assert(holds(self@.sections, language)) by {
                                assert(self@.sections[at].language == language);
                            }
                        }
                    },
                }
            },
        }
    }

    fn open_section(&mut self, language: String)
        requires
            old(self).wf(),
            old(self).state is Multicode,
        ensures
            final(self).wf(),
            final(self)@ == (ParserView {
                state: ParseStateView::Code(language@),
                sections: opened(old(self)@.sections, language@),
                ..old(self)@
            }),
    {
        let ghost before = old(self)@.sections;
        match find(&self.sections, &language) {
            Some(at) => {
                self.sections[at].text = String::new();
                self.active = at;
                proof {
                    assert(before[at as int].language == language@);
                    assert(holds(before, language@));
                    assert forall|i: int| 0 <= i < before.len() implies (
                    #[trigger] self@.sections[i]) == opened(before, language@)[i] by {
                        if i != at {
                            assert(before[i].language != before[at as int].language);
                        }
                    }
                    assert(self@.sections =~= opened(before, language@));
                }
            },
            None => {
                self.active = self.sections.len();
                self.sections.push(Section { language: language.clone(), text: String::new() });
                assert(self@.sections =~= opened(before, language@));
            },
        }
        self.state = ParseState::Code(language);
        assert(holds(self@.sections, language@)) by {
            assert(self@.sections[self.active as int].language == language@);
        }
    }

    /// Ends the document and hands out what was written. A block or a
    /// section that is still open is given up without a trace.
    pub fn finish(self) -> (output: String)
        ensures
            output@ == self@.output,
    {
        self.output
    }
}

} // verus!
