//! The grammar of sections.
//!
//! A section is opened by a line that starts with the marker `!!!` and goes on
//! with a list of links, and closed by the next line that holds the marker and
//! nothing else. Everything between the two lines, the line breaks included,
//! is the body of the section. Text outside of sections is plain.

use crate::link::{link_texts, url_serialization, Link};
use crate::text::{
    chars_of, find_char, first_from, holds_at, index_of_from, lemma_first_from,
    lemma_first_from_is, split, split_from,
};
use crate::{ValidationSection, ValidatorProcessor};
use vstd::prelude::*;

verus! {

/// Whether a line starts at index `i` of `text`.
pub open spec fn at_line_start(text: Seq<char>, i: int) -> bool {
    i == 0 || (0 < i <= text.len() && text[i - 1] == '\n')
}

/// Whether a line ends at index `i` of `text`.
pub open spec fn at_line_end(text: Seq<char>, i: int) -> bool {
    i == text.len() || (0 <= i < text.len() && text[i] == '\n')
}

/// Whether the marker stands at index `i` of `text`.
pub open spec fn marker_at(text: Seq<char>, i: int) -> bool {
    0 <= i && i + 3 <= text.len() && text.subrange(i, i + 3) == "!!!"@
}

/// Whether a line that opens a section starts at index `i`: the marker at the
/// start of the line, and something behind it on the same line.
pub open spec fn opener_at(text: Seq<char>, i: int) -> bool {
    at_line_start(text, i) && marker_at(text, i) && !at_line_end(text, i + 3)
}

/// Whether a line that closes a section starts at index `i`: the marker, alone
/// on its line.
pub open spec fn closer_at(text: Seq<char>, i: int) -> bool {
    at_line_start(text, i) && marker_at(text, i) && at_line_end(text, i + 3)
}

/// The test "an opening line starts at this index of `text`".
pub open spec fn opens(text: Seq<char>) -> spec_fn(int) -> bool {
    |i: int| opener_at(text, i)
}

/// The test "a closing line starts at this index of `text`".
pub open spec fn closes(text: Seq<char>) -> spec_fn(int) -> bool {
    |i: int| closer_at(text, i)
}

/// Where the first opening line at or after `from` starts; `text.len()` where
/// there is none.
pub open spec fn next_opener(text: Seq<char>, from: int) -> int {
    first_from(opens(text), from, text.len() as int)
}

/// Where the first closing line at or after `from` starts; `text.len()` where
/// there is none.
pub open spec fn next_closer(text: Seq<char>, from: int) -> int {
    first_from(closes(text), from, text.len() as int)
}

/// Where the line that holds index `from` ends.
pub open spec fn line_end(text: Seq<char>, from: int) -> int {
    index_of_from(text, '\n', from)
}

/// The indices that bound a section lie in order: the start of the opening
/// line, the end of that line, the start of the closing line and its end.
pub proof fn lemma_fence(text: Seq<char>, from: int)
    requires
        next_opener(text, from) < text.len(),
    ensures
        ({
            let opener = next_opener(text, from);
            let eol = line_end(text, opener + 3);
            let closer = next_closer(text, eol + 1);
            &&& from <= opener
            &&& 0 <= opener
            &&& opener_at(text, opener)
            &&& opener + 3 < eol <= text.len()
            &&& at_line_end(text, eol)
            &&& forall|i: int| opener + 3 <= i < eol ==> text[i] != '\n'
            &&& closer < text.len() ==> {
                &&& eol < closer
                &&& closer_at(text, closer)
                &&& closer + 3 <= text.len()
                &&& forall|i: int| eol < i < closer ==> !closer_at(text, i)
            }
        }),
{
    let n = text.len() as int;
    let opener = next_opener(text, from);
    if from <= n {
        lemma_first_from(opens(text), from, n);
    }
    let eol = line_end(text, opener + 3);
    lemma_first_from(holds_at(text, '\n'), opener + 3, n);
    assert forall|i: int| opener + 3 <= i < eol implies text[i] != '\n' by {
        assert(!holds_at(text, '\n')(i));
    }
    let closer = next_closer(text, eol + 1);
    if closer < n {
        lemma_first_from(closes(text), eol + 1, n);
        assert forall|i: int| eol < i < closer implies !closer_at(text, i) by {
            assert(!closes(text)(i));
        }
    }
}

/// A stretch of a document: plain text, or a section with the text of its
/// opening line behind the marker and its body.
pub enum RawSectionView {
    Plain(Seq<char>),
    Fenced { links: Seq<char>, body: Seq<char> },
}

/// The text from `from` to `to` as one plain stretch, and no stretch at all
/// where there is no text between the two.
pub open spec fn gap(text: Seq<char>, from: int, to: int) -> Seq<RawSectionView> {
    if from < to {
        seq![RawSectionView::Plain(text.subrange(from, to))]
    } else {
        Seq::empty()
    }
}

/// The stretches of `text` from index `from` on, where `from` lies outside of
/// any section. Where an opening line is followed by no closing line, the
/// result is the text of that opening line behind the marker, as an error.
pub open spec fn raw_sections_from(text: Seq<char>, from: int) -> Result<
    Seq<RawSectionView>,
    Seq<char>,
>
    decreases text.len() - from,
{
    let n = text.len() as int;
    let opener = next_opener(text, from);
    if opener >= n {
        Ok(gap(text, from, n))
    } else {
        let eol = line_end(text, opener + 3);
        let closer = next_closer(text, eol + 1);
        if closer >= n {
            Err(text.subrange(opener + 3, eol))
        } else {
            proof {
                lemma_fence(text, from);
            }
            match raw_sections_from(text, closer + 3) {
                Err(unclosed) => Err(unclosed),
                Ok(rest) => Ok(
                    gap(text, from, opener) + seq![
                        RawSectionView::Fenced {
                            links: text.subrange(opener + 3, eol),
                            body: text.subrange(eol, closer),
                        },
                    ] + rest,
                ),
            }
        }
    }
}

/// The stretches of `text`, in order. A text without an opening line is one
/// plain stretch, even where it is empty; in any other text no plain stretch
/// is empty.
pub open spec fn raw_sections(text: Seq<char>) -> Result<Seq<RawSectionView>, Seq<char>> {
    if next_opener(text, 0) >= text.len() {
        Ok(seq![RawSectionView::Plain(text)])
    } else {
        raw_sections_from(text, 0)
    }
}

/// The text that a stretch was taken from: plain text as it is, a section with
/// the marker before the links of its opening line and after its body.
pub open spec fn source_of(raw: RawSectionView) -> Seq<char> {
    match raw {
        RawSectionView::Plain(text) => text,
        RawSectionView::Fenced { links, body } => "!!!"@ + links + body + "!!!"@,
    }
}

/// The text that each of `raws` was taken from.
pub open spec fn sources_of(raws: Seq<RawSectionView>) -> Seq<Seq<char>> {
    Seq::new(raws.len(), |i: int| source_of(raws[i]))
}

/// The stretches of a text from `from` on make up the text from `from` on.
proof fn lemma_cover_from(text: Seq<char>, from: int)
    requires
        0 <= from <= text.len(),
        raw_sections_from(text, from) is Ok,
    ensures
        sources_of(raw_sections_from(text, from)->Ok_0).flatten() == text.subrange(
            from,
            text.len() as int,
        ),
    decreases text.len() - from,
{
    let n = text.len() as int;
    let raws = raw_sections_from(text, from)->Ok_0;
    let opener = next_opener(text, from);
    if opener >= n {
        if from < n {
            sources_of(raws).lemma_flatten_singleton();
        }
    } else {
        lemma_fence(text, from);
        let eol = line_end(text, opener + 3);
        let closer = next_closer(text, eol + 1);
        let rest = raw_sections_from(text, closer + 3)->Ok_0;
        lemma_cover_from(text, closer + 3);
        let fenced = RawSectionView::Fenced {
            links: text.subrange(opener + 3, eol),
            body: text.subrange(eol, closer),
        };
        let before = gap(text, from, opener);
        assert(sources_of(raws) =~= sources_of(before) + seq![source_of(fenced)] + sources_of(
            rest,
        ));
        vstd::seq_lib::lemma_flatten_concat(
            sources_of(before) + seq![source_of(fenced)],
            sources_of(rest),
        );
        vstd::seq_lib::lemma_flatten_concat(sources_of(before), seq![source_of(fenced)]);
        seq![source_of(fenced)].lemma_flatten_singleton();
        if from < opener {
            sources_of(before).lemma_flatten_singleton();
        }
    }
}

/// Nothing of a text is lost and nothing is added when it is taken apart: the
/// texts that its stretches were taken from, one after the other, are the text.
pub proof fn stretches_cover_text(text: Seq<char>)
    requires
        raw_sections(text) is Ok,
    ensures
        sources_of(raw_sections(text)->Ok_0).flatten() == text,
{
    let raws = raw_sections(text)->Ok_0;
    if next_opener(text, 0) >= text.len() {
        sources_of(raws).lemma_flatten_singleton();
    } else {
        lemma_cover_from(text, 0);
    }
}

/// What is left of a document when the stretches `done` have been taken from
/// its front and the remainder gave `rest`.
pub open spec fn after(
    done: Seq<RawSectionView>,
    rest: Result<Seq<RawSectionView>, Seq<char>>,
) -> Result<Seq<RawSectionView>, Seq<char>> {
    match rest {
        Ok(more) => Ok(done + more),
        Err(unclosed) => Err(unclosed),
    }
}

/// A stretch of a document: plain text, or a section with the text of its
/// opening line behind the marker, and its body.
#[derive(Debug, PartialEq, Eq)]
pub enum RawSection {
    Plain(String),
    Fenced(String, String),
}

impl View for RawSection {
    type V = RawSectionView;

    open spec fn view(&self) -> RawSectionView {
        match self {
            RawSection::Plain(text) => RawSectionView::Plain(text@),
            RawSection::Fenced(links, body) => RawSectionView::Fenced {
                links: links@,
                body: body@,
            },
        }
    }
}

/// The views of a sequence of stretches.
pub open spec fn raw_views(pieces: Seq<RawSection>) -> Seq<RawSectionView> {
    pieces.map_values(|piece: RawSection| piece@)
}

/// Why a document cannot be taken apart into sections.
#[derive(Debug, PartialEq, Eq)]
pub enum SectionError {
    /// A section is opened and never closed. Holds the text of the opening
    /// line behind the marker.
    UnterminatedSection(String),
    /// An opening line names something that is no URL. Holds what it names.
    MalformedLink(String),
}

/// A `SectionError` as plain text.
pub enum SectionErrorView {
    UnterminatedSection(Seq<char>),
    MalformedLink(Seq<char>),
}

impl View for SectionError {
    type V = SectionErrorView;

    open spec fn view(&self) -> SectionErrorView {
        match self {
            SectionError::UnterminatedSection(links) => SectionErrorView::UnterminatedSection(
                links@,
            ),
            SectionError::MalformedLink(link) => SectionErrorView::MalformedLink(link@),
        }
    }
}

/// What to tell the author of a document that cannot be taken apart into
/// sections.
pub open spec fn description(error: SectionErrorView) -> Seq<char> {
    match error {
        SectionErrorView::UnterminatedSection(links) => "the section opened by `!!!"@ + links
            + "` is never closed"@,
        SectionErrorView::MalformedLink(link) => "a section names `"@ + link
            + "`, which is no absolute URL"@,
    }
}

impl SectionError {
    /// What to tell the author of the document.
    pub fn describe(&self) -> (text: String)
        ensures
            text@ == description(self@),
    {
        match self {
            SectionError::UnterminatedSection(links) => {
                let mut text = "the section opened by `!!!".to_owned();
                text.append(links.as_str());
                text.append("` is never closed");
                text
            },
            SectionError::MalformedLink(link) => {
                let mut text = "a section names `".to_owned();
                text.append(link.as_str());
                text.append("`, which is no absolute URL");
                text
            },
        }
    }
}

/// Whether the marker stands at index `at` of `text`.
fn has_marker_at(text: &Vec<char>, at: usize) -> (found: bool)
    ensures
        found == marker_at(text@, at as int),
{
    proof {
        reveal_strlit("!!!");
    }
    if text.len() < 3 || at > text.len() - 3 {
        return false;
    }
    let found = text[at] == '!' && text[at + 1] == '!' && text[at + 2] == '!';
    proof {
        let window = text@.subrange(at as int, at + 3);
        if found {
            assert(window =~= "!!!"@);
        } else {
            assert(window[0] == text@[at as int]);
            assert(window[1] == text@[at + 1]);
            assert(window[2] == text@[at + 2]);
        }
    }
    found
}

/// Whether a line starts at index `at` of `text`.
fn is_line_start(text: &Vec<char>, at: usize) -> (found: bool)
    ensures
        found == at_line_start(text@, at as int),
{
    at == 0 || (at <= text.len() && text[at - 1] == '\n')
}

/// Whether a line ends at index `at` of `text`.
fn is_line_end(text: &Vec<char>, at: usize) -> (found: bool)
    ensures
        found == at_line_end(text@, at as int),
{
    at == text.len() || (at < text.len() && text[at] == '\n')
}

/// Where the first opening line at or after `from` starts.
fn find_opener(text: &Vec<char>, from: usize) -> (at: usize)
    requires
        from <= text@.len(),
    ensures
        at == next_opener(text@, from as int),
        from <= at <= text@.len(),
{
    let n = text.len();
    let mut at: usize = from;
    while at < n && !(is_line_start(text, at) && has_marker_at(text, at) && !is_line_end(
        text,
        at + 3,
    ))
        invariant
            n == text@.len(),
            from <= at <= n,
            forall|i: int| from <= i < at ==> !#[trigger] opens(text@)(i),
        decreases n - at,
    {
        at += 1;
    }
    proof {
        lemma_first_from_is(opens(text@), from as int, n as int, at as int);
    }
    at
}

/// Where the first closing line at or after `from` starts.
fn find_closer(text: &Vec<char>, from: usize) -> (at: usize)
    requires
        from <= text@.len(),
    ensures
        at == next_closer(text@, from as int),
        from <= at <= text@.len(),
{
    let n = text.len();
    let mut at: usize = from;
    while at < n && !(is_line_start(text, at) && has_marker_at(text, at) && is_line_end(
        text,
        at + 3,
    ))
        invariant
            n == text@.len(),
            from <= at <= n,
            forall|i: int| from <= i < at ==> !#[trigger] closes(text@)(i),
        decreases n - at,
    {
        at += 1;
    }
    proof {
        lemma_first_from_is(closes(text@), from as int, n as int, at as int);
    }
    at
}

/// Takes a document apart into its stretches. Fails on a section that is
/// opened and never closed, with the text of its opening line behind the
/// marker.
pub fn split_sections(raw: &str) -> (result: Result<Vec<RawSection>, SectionError>)
    ensures
        match result {
            Ok(pieces) => raw_sections(raw@) == Ok::<Seq<RawSectionView>, Seq<char>>(
                raw_views(pieces@),
            ),
            Err(error) => raw_sections(raw@) matches Err(links) && error@
                == SectionErrorView::UnterminatedSection(links),
        },
{
    let text = chars_of(raw);
    let n = text.len();
    let mut pieces: Vec<RawSection> = Vec::new();
    let mut from: usize = 0;
    let mut opener = find_opener(&text, 0);
    if opener >= n {
        pieces.push(RawSection::Plain(raw.to_owned()));
        assert(raw_views(pieces@) =~= seq![RawSectionView::Plain(raw@)]);
        return Ok(pieces);
    }
    while opener < n
        invariant
            text@ == raw@,
            n == text@.len(),
            from <= n,
            opener == next_opener(text@, from as int),
            raw_sections(raw@) == after(raw_views(pieces@), raw_sections_from(text@, from as int)),
        decreases n - from,
    {
        proof {
            lemma_fence(text@, from as int);
        }
        let eol = find_char(&text, '\n', opener + 3);
        let closer = if eol < n {
            find_closer(&text, eol + 1)
        } else {
            n
        };
        if closer >= n {
            let links = raw.substring_char(opener + 3, eol).to_owned();
            return Err(SectionError::UnterminatedSection(links));
        }
        let ghost before = raw_views(pieces@);
        let ghost rest = raw_sections_from(text@, closer + 3);
        if from < opener {
            pieces.push(RawSection::Plain(raw.substring_char(from, opener).to_owned()));
        }
        let links = raw.substring_char(opener + 3, eol).to_owned();
        let body = raw.substring_char(eol, closer).to_owned();
        pieces.push(RawSection::Fenced(links, body));
        proof {
            let fenced = RawSectionView::Fenced {
                links: text@.subrange(opener + 3, eol as int),
                body: text@.subrange(eol as int, closer as int),
            };
            let step = gap(text@, from as int, opener as int) + seq![fenced];
            assert(raw_views(pieces@) =~= before + step);
            if rest is Ok {
                assert(before + (step + rest->Ok_0) =~= (before + step) + rest->Ok_0);
            }
        }
        from = closer + 3;
        opener = find_opener(&text, from);
    }
    let ghost before = raw_views(pieces@);
    if from < n {
        pieces.push(RawSection::Plain(raw.substring_char(from, n).to_owned()));
    }
    assert(raw_views(pieces@) =~= before + gap(text@, from as int, n as int));
    Ok(pieces)
}

/// The test "the piece at this index of `pieces` is no URL".
pub open spec fn unreadable(pieces: Seq<Seq<char>>) -> spec_fn(int) -> bool {
    |i: int| url_serialization(pieces[i]) is None
}

/// The links that the text behind an opening marker names: the serialization
/// of each of the URLs between its commas. Where one of the pieces is no URL,
/// the result is the first such piece, as an error.
pub open spec fn links_of(text: Seq<char>) -> Result<Seq<Seq<char>>, Seq<char>> {
    let pieces = split(text, ',');
    let bad = first_from(unreadable(pieces), 0, pieces.len() as int);
    if bad < pieces.len() {
        Err(pieces[bad])
    } else {
        Ok(Seq::new(pieces.len(), |i: int| url_serialization(pieces[i])->0))
    }
}

/// A stretch of a document with its links read: plain text, or a section with
/// the serializations of its links, and its body.
pub enum SectionView {
    Plain(Seq<char>),
    Conditional { links: Seq<Seq<char>>, body: Seq<char> },
}

/// A stretch with its links read. Where one of them is no URL, the result is
/// what stands in its place, as an error.
pub open spec fn section_of(raw: RawSectionView) -> Result<SectionView, Seq<char>> {
    match raw {
        RawSectionView::Plain(text) => Ok(SectionView::Plain(text)),
        RawSectionView::Fenced { links, body } => match links_of(links) {
            Ok(urls) => Ok(SectionView::Conditional { links: urls, body }),
            Err(bad) => Err(bad),
        },
    }
}

/// The test "the stretch at this index of `raws` names something that is no
/// URL".
pub open spec fn misnames(raws: Seq<RawSectionView>) -> spec_fn(int) -> bool {
    |i: int| section_of(raws[i]) is Err
}

/// The stretches `raws` with their links read. Where a stretch names
/// something that is no URL, the result is what the first such stretch names
/// first, as an error.
pub open spec fn sections_of(raws: Seq<RawSectionView>) -> Result<Seq<SectionView>, Seq<char>> {
    let bad = first_from(misnames(raws), 0, raws.len() as int);
    if bad < raws.len() {
        Err(section_of(raws[bad])->Err_0)
    } else {
        Ok(Seq::new(raws.len(), |i: int| section_of(raws[i])->Ok_0))
    }
}

/// The sections of a document. A section that is never closed is an error
/// wherever it stands; in a document without one, the first link that is no
/// URL is an error.
pub open spec fn scan(text: Seq<char>) -> Result<Seq<SectionView>, SectionErrorView> {
    match raw_sections(text) {
        Err(links) => Err(SectionErrorView::UnterminatedSection(links)),
        Ok(raws) => match sections_of(raws) {
            Ok(sections) => Ok(sections),
            Err(bad) => Err(SectionErrorView::MalformedLink(bad)),
        },
    }
}

/// Every section of a document names at least one link, and a document in
/// more than one stretch has no empty plain stretch.
pub proof fn sections_are_well_formed(text: Seq<char>)
    requires
        scan(text) is Ok,
    ensures
        forall|i: int|
            0 <= i < scan(text)->Ok_0.len() ==> match #[trigger] scan(text)->Ok_0[i] {
                SectionView::Plain(plain) => plain.len() > 0 || scan(text)->Ok_0.len() == 1,
                SectionView::Conditional { links, body } => links.len() > 0,
            },
{
    let raws = raw_sections(text)->Ok_0;
    let sections = scan(text)->Ok_0;
    lemma_first_from(misnames(raws), 0, raws.len() as int);
    if next_opener(text, 0) < text.len() {
        lemma_no_empty_gap(text, 0);
    }
    assert forall|i: int| 0 <= i < sections.len() implies match #[trigger] sections[i] {
        SectionView::Plain(plain) => plain.len() > 0 || sections.len() == 1,
        SectionView::Conditional { links, body } => links.len() > 0,
    } by {
        assert(!misnames(raws)(i));
    }
}

/// No plain stretch that `raw_sections_from` finds is empty.
proof fn lemma_no_empty_gap(text: Seq<char>, from: int)
    requires
        0 <= from <= text.len(),
        raw_sections_from(text, from) is Ok,
    ensures
        forall|i: int|
            0 <= i < raw_sections_from(text, from)->Ok_0.len() ==> (#[trigger] raw_sections_from(
                text,
                from,
            )->Ok_0[i] matches RawSectionView::Plain(plain) ==> plain.len() > 0),
    decreases text.len() - from,
{
    let n = text.len() as int;
    let opener = next_opener(text, from);
    if opener < n {
        lemma_fence(text, from);
        let eol = line_end(text, opener + 3);
        let closer = next_closer(text, eol + 1);
        lemma_no_empty_gap(text, closer + 3);
    }
}

/// The views of a sequence of sections.
pub open spec fn section_views(sections: Seq<ValidationSection>) -> Seq<SectionView> {
    sections.map_values(|section: ValidationSection| section@)
}

impl ValidatorProcessor {
    /// The links that the text behind an opening marker names. Fails on the
    /// first piece between commas that is no URL, with that piece.
    pub fn links_to_check(links: &str) -> (result: Result<Vec<Link>, SectionError>)
        ensures
            match result {
                Ok(urls) => links_of(links@) == Ok::<Seq<Seq<char>>, Seq<char>>(link_texts(urls@)),
                Err(error) => links_of(links@) matches Err(bad) && error@
                    == SectionErrorView::MalformedLink(bad),
            },
    {
        let text = chars_of(links);
        let n = text.len();
        let ghost pieces = split(text@, ',');
        let mut urls: Vec<Link> = Vec::new();
        let mut start: usize = 0;
        loop
            invariant
                text@ == links@,
                n == text@.len(),
                start <= n,
                pieces == split(text@, ','),
                urls@.len() < pieces.len(),
                split_from(text@, ',', start as int) == pieces.skip(urls@.len() as int),
                forall|i: int|
                    0 <= i < urls@.len() ==> url_serialization(#[trigger] pieces[i]) == Some(
                        urls@[i]@,
                    ),
            decreases n - start,
        {
            let ghost k = urls@.len() as int;
            let comma = find_char(&text, ',', start);
            let piece = links.substring_char(start, comma);
            assert(pieces.skip(k)[0] == pieces[k]);
            match Link::parse(piece) {
                Some(link) => {
                    urls.push(link);
                },
                None => {
                    proof {
                        lemma_first_from_is(unreadable(pieces), 0, pieces.len() as int, k);
                    }
                    return Err(SectionError::MalformedLink(piece.to_owned()));
                },
            }
            if comma >= n {
                proof {
                    assert(pieces.skip(k).len() == 1);
                    lemma_first_from_is(
                        unreadable(pieces),
                        0,
                        pieces.len() as int,
                        pieces.len() as int,
                    );
                    assert(link_texts(urls@) =~= Seq::new(
                        pieces.len(),
                        |i: int| url_serialization(pieces[i])->0,
                    ));
                }
                return Ok(urls);
            }
            assert(split_from(text@, ',', comma + 1) =~= pieces.skip(k).skip(1));
            start = comma + 1;
        }
    }

    /// The sections of a document, in order. Fails on a section that is never
    /// closed, and in a document without one on the first link that is no URL.
    pub fn validation_sections(raw_content: &str) -> (result: Result<
        Vec<ValidationSection>,
        SectionError,
    >)
        ensures
            match result {
                Ok(sections) => scan(raw_content@) == Ok::<Seq<SectionView>, SectionErrorView>(
                    section_views(sections@),
                ),
                Err(error) => scan(raw_content@) == Err::<Seq<SectionView>, SectionErrorView>(
                    error@,
                ),
            },
    {
        let pieces = match split_sections(raw_content) {
            Ok(pieces) => pieces,
            Err(error) => {
                return Err(error);
            },
        };
        let ghost raws = raw_views(pieces@);
        let mut sections: Vec<ValidationSection> = Vec::new();
        let mut i: usize = 0;
        while i < pieces.len()
            invariant
                i <= pieces@.len(),
                raws == raw_views(pieces@),
                raw_sections(raw_content@) == Ok::<Seq<RawSectionView>, Seq<char>>(raws),
                sections@.len() == i,
                forall|j: int|
                    0 <= j < i ==> section_of(#[trigger] raws[j]) == Ok::<SectionView, Seq<char>>(
                        sections@[j]@,
                    ),
            decreases pieces@.len() - i,
        {
            let section = match &pieces[i] {
                RawSection::Plain(text) => ValidationSection::NonValidationSection(text.clone()),
                RawSection::Fenced(links, body) => match ValidatorProcessor::links_to_check(
                    links.as_str(),
                ) {
                    Ok(urls) => ValidationSection::ValidationSection(urls, body.clone()),
                    Err(error) => {
                        proof {
                            lemma_first_from_is(misnames(raws), 0, raws.len() as int, i as int);
                        }
                        return Err(error);
                    },
                },
            };
            sections.push(section);
            i += 1;
        }
        proof {
            lemma_first_from_is(misnames(raws), 0, raws.len() as int, raws.len() as int);
            assert(section_views(sections@) =~= Seq::new(
                raws.len(),
                |j: int| section_of(raws[j])->Ok_0,
            ));
        }
        Ok(sections)
    }
}

} // verus!
