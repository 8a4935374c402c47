//! The markup that stands for one finished block: a selector, one panel for
//! each language, and the call that shows the first panel.

use crate::escape::{escaped, html_escape};
use crate::text::{decimal, lemma_decimal_injective, push_decimal};
use vstd::prelude::*;
use vstd::string::*;

verus! {

/// The code sample of one language inside a block.
#[derive(Debug, PartialEq, Eq)]
pub struct Section {
    pub language: String,
    pub text: String,
}

/// What a `Section` holds.
pub struct SectionView {
    pub language: Seq<char>,
    pub text: Seq<char>,
}

impl View for Section {
    type V = SectionView;

    open spec fn view(&self) -> SectionView {
        SectionView { language: self.language@, text: self.text@ }
    }
}

/// What a sequence of sections holds.
pub open spec fn views(sections: Seq<Section>) -> Seq<SectionView> {
    Seq::new(sections.len(), |i: int| sections[i]@)
}

/// The languages of `sections`, in their order.
pub open spec fn language_order(sections: Seq<SectionView>) -> Seq<Seq<char>> {
    Seq::new(sections.len(), |i: int| sections[i].language)
}

/// What every group identifier begins with.
pub const GROUP_PREFIX: &'static str = "code-example-tab-";

/// The selector up to the group identifier.
pub const SELECT_HEAD: &'static str = "<div><select onchange=\"changeCodeExample('";

/// The selector between the group identifier and the first language.
pub const SELECT_VALUE: &'static str = "', event.target.value)\" value=\"";

/// The selector between the first language and the options.
pub const SELECT_TAIL: &'static str = "\" class=\"code-example\" autocomplete=\"off\">";

/// The selector after the options.
pub const SELECT_END: &'static str = "</select></div>";

/// An option up to its value.
pub const OPTION_HEAD: &'static str = "<option value=\"";

/// An option between its value and its label.
pub const OPTION_LABEL: &'static str = "\">";

/// An option after its label.
pub const OPTION_END: &'static str = "</option>";

/// A panel up to its identifier.
pub const PANEL_HEAD: &'static str = "<div id=\"";

/// A panel between its identifier and its class.
pub const PANEL_CLASS: &'static str = "\" class=\"";

/// A panel between its class and the language of its code block.
pub const PANEL_CODE: &'static str = "\"><pre><code class=\"language-";

/// A panel between the language and the text.
pub const PANEL_TEXT: &'static str = "\">";

/// A panel after the text.
pub const PANEL_END: &'static str = "</code></pre></div>";

/// The activation call up to the group identifier.
pub const SCRIPT_HEAD: &'static str = "<script>(()=>{changeCodeExample(\"";

/// The activation call between the group identifier and the panel's.
pub const SCRIPT_PANEL: &'static str = "\", \"";

/// The activation call after the panel's identifier.
pub const SCRIPT_END: &'static str = "\")})()</script>";

/// The identifier shared by the selector and the panels of the block with
/// the given sequence number.
pub open spec fn group_id(sequence_number: nat) -> Seq<char> {
    GROUP_PREFIX@ + decimal(sequence_number)
}

/// The identifier of the panel of `language` in the group `group`.
pub open spec fn panel_id(group: Seq<char>, language: Seq<char>) -> Seq<char> {
    group + seq!['-'] + language
}

/// One option of the selector: its value is the panel's identifier, its
/// label the language as written.
pub open spec fn option_markup(group: Seq<char>, language: Seq<char>) -> Seq<char> {
    OPTION_HEAD@ + panel_id(group, language) + OPTION_LABEL@ + language + OPTION_END@
}

/// The options of the selector, one for each section, in order.
pub open spec fn options_markup(group: Seq<char>, sections: Seq<SectionView>) -> Seq<char>
    decreases sections.len(),
{
    if sections.len() == 0 {
        Seq::empty()
    } else {
        options_markup(group, sections.drop_last()) + option_markup(
            group,
            sections.last().language,
        )
    }
}

/// The selector: a change of its value shows the panel chosen.
pub open spec fn selector_markup(group: Seq<char>, sections: Seq<SectionView>) -> Seq<char> {
    SELECT_HEAD@ + group + SELECT_VALUE@ + sections[0].language + SELECT_TAIL@ + options_markup(
        group,
        sections,
    ) + SELECT_END@ + seq!['\n']
}

/// The panel of one section: its text, escaped, inside a code block.
pub open spec fn panel_markup(group: Seq<char>, section: SectionView) -> Seq<char> {
    PANEL_HEAD@ + panel_id(group, section.language) + PANEL_CLASS@ + group + PANEL_CODE@
        + section.language + PANEL_TEXT@ + escaped(section.text) + PANEL_END@
}

/// The panels, one for each section, in order.
pub open spec fn panels_markup(group: Seq<char>, sections: Seq<SectionView>) -> Seq<char>
    decreases sections.len(),
{
    if sections.len() == 0 {
        Seq::empty()
    } else {
        panels_markup(group, sections.drop_last()) + panel_markup(group, sections.last())
    }
}

/// The call that shows the panel of `language` at once.
pub open spec fn activation_markup(group: Seq<char>, language: Seq<char>) -> Seq<char> {
    SCRIPT_HEAD@ + group + SCRIPT_PANEL@ + panel_id(group, language) + SCRIPT_END@
}

/// The markup of the block with the given sequence number and sections:
/// the selector, the panels, and the call that shows the first panel.
pub open spec fn block_markup(sequence_number: nat, sections: Seq<SectionView>) -> Seq<char> {
    let group = group_id(sequence_number);
    selector_markup(group, sections) + panels_markup(group, sections) + activation_markup(
        group,
        sections[0].language,
    )
}

fn push_panel_id(out: &mut String, group: &str, language: &str)
    ensures
        final(out)@ == old(out)@ + panel_id(group@, language@),
{
    out.append(group);
    out.push('-');
    out.append(language);
    assert(out@ =~= old(out)@ + panel_id(group@, language@));
}

fn push_option(out: &mut String, group: &str, language: &str)
    ensures
        final(out)@ == old(out)@ + option_markup(group@, language@),
{
    out.append(OPTION_HEAD);
    push_panel_id(out, group, language);
    out.append(OPTION_LABEL);
    out.append(language);
    out.append(OPTION_END);
    assert(out@ =~= old(out)@ + option_markup(group@, language@));
}

fn push_selector(out: &mut String, group: &str, sections: &Vec<Section>)
    requires
        sections.len() > 0,
    ensures
        final(out)@ == old(out)@ + selector_markup(group@, views(sections@)),
{
    let ghost all = views(sections@);
    out.append(SELECT_HEAD);
    out.append(group);
    out.append(SELECT_VALUE);
    out.append(sections[0].language.as_str());
    out.append(SELECT_TAIL);
    let ghost head = out@;
    assert(all.take(0) =~= Seq::<SectionView>::empty());
    for i in 0..sections.len()
        invariant
            all == views(sections@),
            out@ == head + options_markup(group@, all.take(i as int)),
    {
        assert(all.take(i + 1).drop_last() =~= all.take(i as int));
        assert(all.take(i + 1).last() == sections@[i as int]@);
        push_option(out, group, sections[i].language.as_str());
        assert(out@ =~= head + options_markup(group@, all.take(i + 1)));
    }
    assert(all.take(sections.len() as int) =~= all);
    out.append(SELECT_END);
    out.push('\n');
    assert(out@ =~= old(out)@ + selector_markup(group@, all));
}

fn push_panel(out: &mut String, group: &str, section: &Section)
    ensures
        final(out)@ == old(out)@ + panel_markup(group@, section@),
{
    out.append(PANEL_HEAD);
    push_panel_id(out, group, section.language.as_str());
    out.append(PANEL_CLASS);
    out.append(group);
    out.append(PANEL_CODE);
    out.append(section.language.as_str());
    out.append(PANEL_TEXT);
    let text = html_escape(section.text.as_str());
    out.append(text.as_str());
    out.append(PANEL_END);
    assert(out@ =~= old(out)@ + panel_markup(group@, section@));
}

fn push_panels(out: &mut String, group: &str, sections: &Vec<Section>)
    ensures
        final(out)@ == old(out)@ + panels_markup(group@, views(sections@)),
{
    let ghost all = views(sections@);
    let ghost head = out@;
    assert(all.take(0) =~= Seq::<SectionView>::empty());
    assert(out@ =~= head + panels_markup(group@, all.take(0)));
    for i in 0..sections.len()
        invariant
            all == views(sections@),
            out@ == head + panels_markup(group@, all.take(i as int)),
    {
        assert(all.take(i + 1).drop_last() =~= all.take(i as int));
        assert(all.take(i + 1).last() == sections@[i as int]@);
        push_panel(out, group, &sections[i]);
        assert(out@ =~= head + panels_markup(group@, all.take(i + 1)));
    }
    assert(all.take(sections.len() as int) =~= all);
}

fn push_activation(out: &mut String, group: &str, language: &str)
    ensures
        final(out)@ == old(out)@ + activation_markup(group@, language@),
{
    out.append(SCRIPT_HEAD);
    out.append(group);
    out.append(SCRIPT_PANEL);
    push_panel_id(out, group, language);
    out.append(SCRIPT_END);
    assert(out@ =~= old(out)@ + activation_markup(group@, language@));
}

/// Writes the markup of one block: a selector with one option for each
/// section, one panel for each section with its text escaped, and the call
/// that shows the panel of the first section.
pub fn emit(sequence_number: usize, sections: &Vec<Section>) -> (markup: String)
    requires
        sections.len() > 0,
    ensures
        markup@ == block_markup(sequence_number as nat, views(sections@)),
{
    let mut group = String::new();
    group.append(GROUP_PREFIX);
    push_decimal(&mut group, sequence_number);
    assert(group@ =~= group_id(sequence_number as nat));
    let mut markup = String::new();
    push_selector(&mut markup, group.as_str(), sections);
    push_panels(&mut markup, group.as_str(), sections);
    push_activation(&mut markup, group.as_str(), sections[0].language.as_str());
    assert(markup@ =~= block_markup(sequence_number as nat, views(sections@)));
    markup
}

/// Blocks with different sequence numbers have different group
/// identifiers.
pub proof fn lemma_group_id_injective(m: nat, n: nat)
    requires
        group_id(m) == group_id(n),
    ensures
        m == n,
{
    let prefix = GROUP_PREFIX@;
    assert(decimal(m) =~= group_id(m).skip(prefix.len() as int));
    assert(decimal(n) =~= group_id(n).skip(prefix.len() as int));
    lemma_decimal_injective(m, n);
}

} // verus!
