//! The preprocessor as its host sees it: a name, the renderers it serves,
//! and the run over the chapters of a book.

use crate::lines::split_lines;
use crate::parser::{
    after_lines, event_of, rendered, start, step, LineEvent, ParseState, Parser,
};
use crate::pattern::{
    accepted, closes_block, closes_section, opens_block, section_language, LinePattern,
    PatternError, BLOCK_CLOSE, BLOCK_OPEN, LANGUAGE_GROUP, SECTION_CLOSE, SECTION_OPEN,
};
use crate::text::texts;
use vstd::prelude::*;

verus! {

/// The name under which the host knows the preprocessor and keeps its
/// settings.
pub const NAME: &'static str = "http-api";

/// The one renderer whose output can hold the markup.
pub const RENDERER: &'static str = "html";

/// The setting that makes a run fail on purpose.
pub const BLOW_UP: &'static str = "blow-up";

/// What the failed run says.
pub const BLOW_UP_MESSAGE: &'static str = "Blowing up!";

/// Why a run failed.
#[derive(Debug, Clone, Copy, PartialEq, Eq, Structural)]
pub enum RunError {
    /// The settings ask for the failure.
    BlowUp,
}

impl RunError {
    /// The message of the error.
    pub fn message(&self) -> (message: String)
        ensures
            message@ == BLOW_UP_MESSAGE@,
    {
        BLOW_UP_MESSAGE.to_owned()
    }
}

/// Whether `keys` holds `key`.
pub open spec fn has_key(keys: Seq<Seq<char>>, key: Seq<char>) -> bool {
    exists|i: int| 0 <= i < keys.len() && #[trigger] keys[i] == key
}

/// Whether `made` is the outcome of compiling `source`.
pub open spec fn compiled_from(made: Result<LinePattern, PatternError>, source: Seq<char>) -> bool {
    match made {
        Ok(pattern) => pattern.source() == source,
        Err(error) => error.source@ == source,
    }
}

/// The first of the four patterns of the block syntax that the `regex`
/// crate does not take, if there is one.
pub open spec fn first_refused() -> Option<Seq<char>> {
    if !accepted(BLOCK_OPEN@) {
        Some(BLOCK_OPEN@)
    } else if !accepted(BLOCK_CLOSE@) {
        Some(BLOCK_CLOSE@)
    } else if !accepted(SECTION_OPEN@) {
        Some(SECTION_OPEN@)
    } else if !accepted(SECTION_CLOSE@) {
        Some(SECTION_CLOSE@)
    } else {
        None
    }
}

/// The preprocessor that turns multicode blocks into tabbed markup. It
/// holds the four patterns of the block syntax, compiled.
pub struct Multicode {
    multicode_regex: LinePattern,
    end_multicode: LinePattern,
    code_start: LinePattern,
    code_end: LinePattern,
}

impl Multicode {
    #[verifier::type_invariant]
    spec fn holds_the_block_syntax(self) -> bool {
        &&& self.multicode_regex.source() == BLOCK_OPEN@
        &&& self.end_multicode.source() == BLOCK_CLOSE@
        &&& self.code_start.source() == SECTION_OPEN@
        &&& self.code_end.source() == SECTION_CLOSE@
    }

    /// Puts the preprocessor together from the outcomes of compiling the
    /// four patterns: it is made where all four were taken, and otherwise
    /// the error of the first that was refused comes back.
    pub fn from_patterns(
        block_open: Result<LinePattern, PatternError>,
        block_close: Result<LinePattern, PatternError>,
        section_open: Result<LinePattern, PatternError>,
        section_close: Result<LinePattern, PatternError>,
    ) -> (made: Result<Multicode, PatternError>)
        requires
            compiled_from(block_open, BLOCK_OPEN@),
            compiled_from(block_close, BLOCK_CLOSE@),
            compiled_from(section_open, SECTION_OPEN@),
            compiled_from(section_close, SECTION_CLOSE@),
        ensures
            made is Ok == (block_open is Ok && block_close is Ok && section_open is Ok
                && section_close is Ok),
            made matches Err(error) ==> error == if block_open is Err {
                block_open->Err_0
            } else if block_close is Err {
                block_close->Err_0
            } else if section_open is Err {
                section_open->Err_0
            } else {
                section_close->Err_0
            },
    {
        let multicode_regex = match block_open {
            Ok(pattern) => pattern,
            Err(error) => {
                return Err(error);
            },
        };
        let end_multicode = match block_close {
            Ok(pattern) => pattern,
            Err(error) => {
                return Err(error);
            },
        };
        let code_start = match section_open {
            Ok(pattern) => pattern,
            Err(error) => {
                return Err(error);
            },
        };
        let code_end = match section_close {
            Ok(pattern) => pattern,
            Err(error) => {
                return Err(error);
            },
        };
        Ok(Multicode { multicode_regex, end_multicode, code_start, code_end })
    }

    /// Compiles the four patterns of the block syntax. The preprocessor is
    /// made exactly where the `regex` crate takes all four; otherwise the
    /// error names the first that it does not take.
    pub fn new() -> (made: Result<Multicode, PatternError>)
        ensures
            made is Ok == first_refused() is None,
            made matches Err(error) ==> first_refused() == Some(error.source@),
    {
        Multicode::from_patterns(
            LinePattern::new(BLOCK_OPEN),
            LinePattern::new(BLOCK_CLOSE),
            LinePattern::new(SECTION_OPEN),
            LinePattern::new(SECTION_CLOSE),
        )
    }

    /// The name of the preprocessor.
    pub fn name(&self) -> (name: &'static str)
        ensures
            name@ == NAME@,
    {
        NAME
    }

    /// Whether the preprocessor serves `renderer`: it serves `html` alone.
    pub fn supports_renderer(&self, renderer: &str) -> (supported: bool)
        ensures
            supported == (renderer@ == RENDERER@),
    {
        renderer.to_owned() == RENDERER.to_owned()
    }

    /// Tells whether `line` is the marker that opens a block.
    pub fn is_block_open(&self, line: &str) -> (yes: bool)
        ensures
            yes == opens_block(line@),
    {
        proof {
            use_type_invariant(self);
        }
        self.multicode_regex.is_match(line)
    }

    /// Tells whether `line` is the marker that closes a block.
    pub fn is_block_close(&self, line: &str) -> (yes: bool)
        ensures
            yes == closes_block(line@),
    {
        proof {
            use_type_invariant(self);
        }
        self.end_multicode.is_match(line)
    }

    /// Gives the language identifier of `line` where it opens a section.
    pub fn match_section_open(&self, line: &str) -> (language: Option<String>)
        ensures
            match language {
                Some(identifier) => section_language(line@) == Some(identifier@),
                None => section_language(line@) is None,
            },
    {
        proof {
            use_type_invariant(self);
        }
        self.code_start.group(line, LANGUAGE_GROUP)
    }

    /// Tells whether `line` is the marker that closes a section.
    pub fn is_section_close(&self, line: &str) -> (yes: bool)
        ensures
            yes == closes_section(line@),
    {
        proof {
            use_type_invariant(self);
        }
        self.code_end.is_match(line)
    }

    /// Tells what `line` means in `state`.
    pub fn classify(&self, state: &ParseState, line: &str) -> (event: LineEvent)
        ensures
            event@ == event_of(state@, line@),
    {
        match state {
            ParseState::Nothing => {
                if self.is_block_open(line) {
                    LineEvent::OpenBlock
                } else {
                    LineEvent::Text
                }
            },
            ParseState::Multicode => {
                if self.is_block_close(line) {
                    LineEvent::CloseBlock
                } else {
                    match self.match_section_open(line) {
                        Some(language) => LineEvent::OpenSection(language),
                        None => LineEvent::Text,
                    }
                }
            },
            ParseState::Code(_) => {
                if self.is_section_close(line) {
                    LineEvent::CloseSection
                } else {
                    LineEvent::Text
                }
            },
        }
    }

    /// Feeds the next line of a document to its parser. The parser's count
    /// of blocks must have room for one more.
    pub fn step(&self, parser: &mut Parser, line: &str)
        requires
            old(parser).wf(),
            old(parser)@.sequence_number < usize::MAX,
        ensures
            final(parser).wf(),
            final(parser)@ == step(old(parser)@, line@),
    {
        let event = self.classify(parser.state(), line);
        parser.apply(event, line);
    }

    /// Whether the settings ask for the run to fail: `keys` are the keys of
    /// the preprocessor's own settings.
    pub fn asks_to_fail(&self, keys: &Vec<String>) -> (asked: bool)
        ensures
            asked == has_key(texts(keys@), BLOW_UP@),
    {
        let wanted = BLOW_UP.to_owned();
        for i in 0..keys.len()
            invariant
                wanted@ == BLOW_UP@,
                forall|j: int| 0 <= j < i ==> (#[trigger] texts(keys@)[j]) != BLOW_UP@,
        {
            if keys[i] == wanted {
                assert(texts(keys@)[i as int] == BLOW_UP@);
                return true;
            }
        }
        false
    }

    /// Rewrites one document: `header` and a newline come first, then the
    /// lines of `content`, each block replaced by its markup.
    pub fn render(&self, header: &str, content: &str) -> (output: String)
        ensures
            output@ == rendered(header@, content@),
    {
        let lines = split_lines(content);
        let mut parser = Parser::new(header);
        let ghost all = texts(lines@);
        assert(all.take(0) =~= Seq::<Seq<char>>::empty());
        for i in 0..lines.len()
            invariant
                all == texts(lines@),
                parser.wf(),
                parser@ == after_lines(start(header@), all.take(i as int)),
                parser@.sequence_number <= i,
        {
            assert(all.take(i + 1).drop_last() =~= all.take(i as int));
            assert(all.take(i + 1).last() == lines@[i as int]@);
            self.step(&mut parser, lines[i].as_str());
        }
        assert(all.take(lines.len() as int) =~= all);
        parser.finish()
    }

    /// Runs over the chapters of a book. Where the settings hold the key
    /// `blow-up` the run fails before any chapter is touched; otherwise
    /// every chapter is rewritten, in order.
    pub fn run(&self, keys: &Vec<String>, header: &str, chapters: Vec<String>) -> (result: Result<
        Vec<String>,
        RunError,
    >)
        ensures
            has_key(texts(keys@), BLOW_UP@) ==> result == Err::<Vec<String>, RunError>(
                RunError::BlowUp,
            ),
            !has_key(texts(keys@), BLOW_UP@) ==> result is Ok && result->Ok_0.len()
                == chapters.len() && forall|i: int|
                0 <= i < chapters.len() ==> (#[trigger] result->Ok_0[i])@ == rendered(
                    header@,
                    chapters[i]@,
                ),
    {
        if self.asks_to_fail(keys) {
            return Err(RunError::BlowUp);
        }
        let mut rewritten: Vec<String> = Vec::new();
        for i in 0..chapters.len()
            invariant
                rewritten.len() == i,
                forall|j: int|
                    0 <= j < i ==> (#[trigger] rewritten[j])@ == rendered(header@, chapters[j]@),
        {
            let output = self.render(header, chapters[i].as_str());
            rewritten.push(output);
        }
        Ok(rewritten)
    }
}

} // verus!
