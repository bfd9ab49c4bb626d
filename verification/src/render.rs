//! What a chapter looks like once its sections have been judged.
//!
//! Plain text stays as it is. A section becomes a `div` that carries the
//! section's links, a line that says how things stand, and the section's body.
//! A section that is no longer valid can be left out instead.

use crate::issue_validator::ValidationResult;
use crate::link_formatter::enumeration_of;
use crate::sections::{
    misnames, raw_sections, scan, section_of, sources_of, stretches_cover_text, RawSectionView,
    SectionView,
};
use crate::text::{join, lemma_first_from};
use vstd::prelude::*;

verus! {

/// The warning that a section with a link that is no longer valid gets where
/// the options name no other.
pub open spec fn default_invalid_message() -> Seq<char> {
    "🚨 Warning, this content is out of date and is included for historical reasons. 🚨"@
}

/// The start of the `div` around a section with these links.
pub open spec fn wrapper_open(links: Seq<Seq<char>>) -> Seq<char> {
    "<div class=\"validated-content\" links=\""@ + join(links, ","@) + "\">\n\n"@
}

/// The end of the `div` around a section.
pub open spec fn wrapper_close() -> Seq<char> {
    "\n</div>"@
}

/// The line on top of a section whose links are all still valid. It names the
/// links, and agrees with their number.
pub open spec fn valid_banner(links: Seq<Seq<char>>) -> Seq<char> {
    "⚠️ This is only valid while "@ + enumeration_of(links) + if links.len() == 1 {
        " is open"@
    } else {
        " are open"@
    }
}

/// What one stretch of a chapter becomes. The verdict does not matter to
/// plain text.
pub open spec fn rendered(
    section: SectionView,
    verdict: ValidationResult,
    hide_invalid: bool,
    invalid_message: Seq<char>,
) -> Seq<char> {
    match section {
        SectionView::Plain(text) => text,
        SectionView::Conditional { links, body } => if verdict == ValidationResult::NoLongerValid {
            if hide_invalid {
                Seq::empty()
            } else {
                wrapper_open(links) + invalid_message + body + wrapper_close()
            }
        } else {
            wrapper_open(links) + valid_banner(links) + body + wrapper_close()
        },
    }
}

/// What each stretch of a chapter becomes, where `verdicts` holds at each
/// index the verdict on the stretch at that index.
pub open spec fn renderings(
    sections: Seq<SectionView>,
    verdicts: Seq<ValidationResult>,
    hide_invalid: bool,
    invalid_message: Seq<char>,
) -> Seq<Seq<char>> {
    Seq::new(
        sections.len(),
        |i: int| rendered(sections[i], verdicts[i], hide_invalid, invalid_message),
    )
}

/// What a chapter becomes: what its stretches become, one after the other.
pub open spec fn recomposed(
    sections: Seq<SectionView>,
    verdicts: Seq<ValidationResult>,
    hide_invalid: bool,
    invalid_message: Seq<char>,
) -> Seq<char> {
    renderings(sections, verdicts, hide_invalid, invalid_message).flatten()
}

/// A section that is no longer valid and is left out leaves no trace: the
/// chapter comes out as if the section, from its opening line to its closing
/// line, had never been in it.
pub proof fn hidden_section_leaves_no_trace(
    sections: Seq<SectionView>,
    verdicts: Seq<ValidationResult>,
    invalid_message: Seq<char>,
    i: int,
)
    requires
        verdicts.len() == sections.len(),
        0 <= i < sections.len(),
        sections[i] is Conditional,
        verdicts[i] == ValidationResult::NoLongerValid,
    ensures
        recomposed(sections, verdicts, true, invalid_message) == recomposed(
            sections.remove(i),
            verdicts.remove(i),
            true,
            invalid_message,
        ),
{
    let with = renderings(sections, verdicts, true, invalid_message);
    let without = renderings(sections.remove(i), verdicts.remove(i), true, invalid_message);
    assert(without =~= with.take(i) + with.skip(i + 1));
    assert(with =~= with.take(i) + seq![with[i]] + with.skip(i + 1));
    vstd::seq_lib::lemma_flatten_concat(with.take(i) + seq![with[i]], with.skip(i + 1));
    vstd::seq_lib::lemma_flatten_concat(with.take(i), seq![with[i]]);
    vstd::seq_lib::lemma_flatten_concat(with.take(i), with.skip(i + 1));
    seq![with[i]].lemma_flatten_singleton();
}

/// A text put together from its stretches with other lines around its
/// sections: plain text as it is, and each section as its body between the
/// head that `heads` holds at the section's index and `foot`.
pub open spec fn framed(raws: Seq<RawSectionView>, heads: Seq<Seq<char>>, foot: Seq<char>) -> Seq<
    char,
> {
    Seq::new(
        raws.len(),
        |i: int|
            match raws[i] {
                RawSectionView::Plain(text) => text,
                RawSectionView::Fenced { links, body } => heads[i] + body + foot,
            },
    ).flatten()
}

/// The heads of the sections among `raws` as they stand in the text: the
/// marker and behind it the links as they were written.
pub open spec fn written_heads(raws: Seq<RawSectionView>) -> Seq<Seq<char>> {
    Seq::new(
        raws.len(),
        |i: int|
            match raws[i] {
                RawSectionView::Plain(text) => Seq::empty(),
                RawSectionView::Fenced { links, body } => "!!!"@ + links,
            },
    )
}

/// The heads of the sections among `sections` as they come out when the
/// sections are still valid: the start of the `div` and the banner.
pub open spec fn valid_heads(sections: Seq<SectionView>) -> Seq<Seq<char>> {
    Seq::new(
        sections.len(),
        |i: int|
            match sections[i] {
                SectionView::Plain(text) => Seq::empty(),
                SectionView::Conditional { links, body } => wrapper_open(links) + valid_banner(
                    links,
                ),
            },
    )
}

/// A chapter whose sections are all still valid comes out as it went in, but
/// for the lines that open and close its sections: the text is its stretches
/// with the marker and the links as the head of each section and the marker as
/// its foot, and what the chapter becomes is the same stretches with the start
/// of the `div` and the banner as the head and the end of the `div` as the
/// foot. Plain text and bodies stay as they are, character for character.
pub proof fn valid_chapter_keeps_its_text(
    text: Seq<char>,
    verdicts: Seq<ValidationResult>,
    hide_invalid: bool,
    invalid_message: Seq<char>,
)
    requires
        scan(text) is Ok,
        verdicts.len() == scan(text)->Ok_0.len(),
        forall|i: int|
            0 <= i < verdicts.len() && scan(text)->Ok_0[i] is Conditional ==> verdicts[i]
                == ValidationResult::StillValid,
    ensures
        raw_sections(text) is Ok,
        scan(text)->Ok_0.len() == raw_sections(text)->Ok_0.len(),
        text == framed(raw_sections(text)->Ok_0, written_heads(raw_sections(text)->Ok_0), "!!!"@),
        recomposed(scan(text)->Ok_0, verdicts, hide_invalid, invalid_message) == framed(
            raw_sections(text)->Ok_0,
            valid_heads(scan(text)->Ok_0),
            wrapper_close(),
        ),
{
    let raws = raw_sections(text)->Ok_0;
    let sections = scan(text)->Ok_0;
    lemma_first_from(misnames(raws), 0, raws.len() as int);
    assert forall|i: int| 0 <= i < raws.len() implies section_of(raws[i]) == Ok::<
        SectionView,
        Seq<char>,
    >(sections[i]) by {
        assert(!misnames(raws)(i));
    }
    stretches_cover_text(text);
    let written = Seq::new(
        raws.len(),
        |i: int|
            match raws[i] {
                RawSectionView::Plain(text) => text,
                RawSectionView::Fenced { links, body } => written_heads(raws)[i] + body + "!!!"@,
            },
    );
    assert(written =~= sources_of(raws));
    let valid = Seq::new(
        raws.len(),
        |i: int|
            match raws[i] {
                RawSectionView::Plain(text) => text,
                RawSectionView::Fenced { links, body } => valid_heads(sections)[i] + body
                    + wrapper_close(),
            },
    );
    assert(valid =~= renderings(sections, verdicts, hide_invalid, invalid_message));
}

} // verus!
