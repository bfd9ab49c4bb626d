//! Sections of a book that are only worth reading while the issues they name
//! are open.
//!
//! A chapter marks such a section with a line that starts with `!!!` and names
//! one or more links, and closes it with a line that holds `!!!` alone. This
//! library finds the sections of a chapter, has every link of a section judged,
//! and writes the chapter anew: a section whose links are all still valid gets
//! a banner that says so, and a section with a link that is no longer valid is
//! left out or gets a warning, as the options say.

pub mod issue_validator;
pub mod link;
pub mod link_formatter;
pub mod render;
pub mod sections;
pub mod text;

use crate::issue_validator::{
    aggregate, aggregate_verdicts, classify, issue_from_url, IssueValidator, ValidationResult,
};
use crate::link::{link_texts, Link};
use crate::link_formatter::LinkFormatter;
use crate::render::{default_invalid_message, recomposed, rendered, renderings};
use crate::sections::{scan, section_views, SectionError, SectionErrorView, SectionView};
use crate::text::{join, join_strings, same_text, texts};
use vstd::prelude::*;

verus! {

/// How a chapter is to be written anew.
pub struct ValidatorProcessorOptions {
    /// Whether a section with a link that is no longer valid is left out.
    pub hide_invalid: bool,
    /// The warning on top of such a section where it is not left out.
    pub invalid_message: String,
}

impl Default for ValidatorProcessorOptions {
    /// Sections that are no longer valid are left out; the warning, for when
    /// they are not, is the default one.
    fn default() -> (options: Self)
        ensures
            options.hide_invalid,
            options.invalid_message@ == default_invalid_message(),
    {
        ValidatorProcessorOptions {
            hide_invalid: true,
            invalid_message: "🚨 Warning, this content is out of date and is included for historical reasons. 🚨".to_owned(),
        }
    }
}

/// A stretch of a chapter: text outside of any section, or a section with its
/// links and its body.
#[derive(Debug, PartialEq, Eq)]
pub enum ValidationSection {
    NonValidationSection(String),
    ValidationSection(Vec<Link>, String),
}

impl View for ValidationSection {
    type V = SectionView;

    open spec fn view(&self) -> SectionView {
        match self {
            ValidationSection::NonValidationSection(text) => SectionView::Plain(text@),
            ValidationSection::ValidationSection(links, body) => SectionView::Conditional {
                links: link_texts(links@),
                body: body@,
            },
        }
    }
}

/// Writes chapters anew, with the verdicts of its validator on their
/// sections.
pub struct ValidatorProcessor {
    pub validator: Box<dyn IssueValidator>,
}

impl ValidatorProcessor {
    /// Whether `verdict` is one that the validator can come to on a section
    /// with these links: the aggregate of verdicts that it can come to on what
    /// each of the links points at.
    pub open spec fn may_judge(&self, links: Seq<Seq<char>>, verdict: ValidationResult) -> bool {
        exists|singles: Seq<ValidationResult>|
            {
                &&& singles.len() == links.len()
                &&& forall|i: int|
                    0 <= i < links.len() ==> self.validator.may_find(
                        classify(links[i]),
                        #[trigger] singles[i],
                    )
                &&& verdict == #[trigger] aggregate(singles)
            }
    }

    /// Whether `verdicts` holds, for each section among `sections` and at the
    /// same index, a verdict that the validator can come to on it.
    pub open spec fn may_judge_all(
        &self,
        sections: Seq<SectionView>,
        verdicts: Seq<ValidationResult>,
    ) -> bool {
        &&& verdicts.len() == sections.len()
        &&& forall|i: int|
            0 <= i < sections.len() ==> (#[trigger] sections[i] matches SectionView::Conditional {
                links,
                ..
            } ==> self.may_judge(links, verdicts[i]))
    }

    /// The name under which a book's configuration knows this preprocessor.
    pub fn name(&self) -> (name: &'static str)
        ensures
            name@ == "section-validator"@,
    {
        "section-validator"
    }

    /// Whether chapters can be written anew for `renderer`: they can for
    /// `html`, and for nothing else.
    pub fn supports_renderer(&self, renderer: &str) -> (supported: bool)
        ensures
            supported == (renderer@ == "html"@),
    {
        same_text(renderer, "html")
    }

    /// The options that a book's configuration asks for: the default ones,
    /// but for what the configuration sets.
    pub fn build_options(
        &self,
        hide_invalid: Option<bool>,
        invalid_message: Option<String>,
    ) -> (options: ValidatorProcessorOptions)
        ensures
            options.hide_invalid == (match hide_invalid {
                Some(choice) => choice,
                None => true,
            }),
            options.invalid_message@ == (match invalid_message {
                Some(message) => message@,
                None => default_invalid_message(),
            }),
    {
        let mut options = ValidatorProcessorOptions::default();
        if let Some(choice) = hide_invalid {
            options.hide_invalid = choice;
        }
        if let Some(message) = invalid_message {
            options.invalid_message = message;
        }
        options
    }

    /// The links of a section as its `div` carries them: their serializations
    /// with a comma between each two.
    pub fn links_joined(links: &Vec<Link>) -> (joined: String)
        ensures
            joined@ == join(link_texts(links@), ","@),
    {
        let mut serializations: Vec<String> = Vec::new();
        let mut i: usize = 0;
        while i < links.len()
            invariant
                i <= links@.len(),
                serializations@.len() == i,
                forall|k: int| 0 <= k < i ==> (#[trigger] serializations@[k])@ == links@[k]@,
            decreases links@.len() - i,
        {
            serializations.push(links[i].as_str().to_owned());
            i += 1;
        }
        assert(texts(serializations@) =~= link_texts(links@));
        join_strings(&serializations, ",")
    }

    /// The verdict on a section with these links. Every link is judged, in
    /// order, whatever the verdicts on the links before it.
    pub fn is_section_valid(&self, links: &Vec<Link>) -> (verdict: ValidationResult)
        ensures
            self.may_judge(link_texts(links@), verdict),
    {
        let mut singles: Vec<ValidationResult> = Vec::new();
        let mut i: usize = 0;
        while i < links.len()
            invariant
                i <= links@.len(),
                singles@.len() == i,
                forall|k: int|
                    0 <= k < i ==> self.validator.may_find(
                        classify(link_texts(links@)[k]),
                        #[trigger] singles@[k],
                    ),
            decreases links@.len() - i,
        {
            let issue = issue_from_url(&links[i]);
            let single = self.validator.validate(&issue);
            singles.push(single);
            i += 1;
        }
        aggregate_verdicts(&singles)
    }

    /// What one stretch of a chapter becomes under `verdict`.
    pub fn render_section(
        section: &ValidationSection,
        verdict: ValidationResult,
        options: &ValidatorProcessorOptions,
    ) -> (text: String)
        ensures
            text@ == rendered(section@, verdict, options.hide_invalid, options.invalid_message@),
    {
        match section {
            ValidationSection::NonValidationSection(text) => text.clone(),
            ValidationSection::ValidationSection(links, body) => {
                if options.hide_invalid && verdict == ValidationResult::NoLongerValid {
                    return String::new();
                }
                let mut text = "<div class=\"validated-content\" links=\"".to_owned();
                text.append(ValidatorProcessor::links_joined(links).as_str());
                text.append("\">\n\n");
                if verdict == ValidationResult::NoLongerValid {
                    text.append(options.invalid_message.as_str());
                } else {
                    text.append("⚠️ This is only valid while ");
                    text.append(LinkFormatter::markdown_many(links).as_str());
                    if links.len() == 1 {
                        text.append(" is open");
                    } else {
                        text.append(" are open");
                    }
                }
                text.append(body.as_str());
                text.append("\n</div>");
                text
            },
        }
    }

    /// What a chapter becomes, where `verdicts` holds at each index the
    /// verdict on the stretch at that index. The verdicts at the indices of
    /// plain text do not matter.
    pub fn recompose(
        sections: &Vec<ValidationSection>,
        verdicts: &Vec<ValidationResult>,
        options: &ValidatorProcessorOptions,
    ) -> (content: String)
        requires
            verdicts@.len() == sections@.len(),
        ensures
            content@ == recomposed(
                section_views(sections@),
                verdicts@,
                options.hide_invalid,
                options.invalid_message@,
            ),
    {
        let ghost all = renderings(
            section_views(sections@),
            verdicts@,
            options.hide_invalid,
            options.invalid_message@,
        );
        let mut content = String::new();
        let mut i: usize = 0;
        while i < sections.len()
            invariant
                verdicts@.len() == sections@.len(),
                i <= sections@.len(),
                all == renderings(
                    section_views(sections@),
                    verdicts@,
                    options.hide_invalid,
                    options.invalid_message@,
                ),
                content@ == all.take(i as int).flatten(),
            decreases sections@.len() - i,
        {
            let text = ValidatorProcessor::render_section(&sections[i], verdicts[i], options);
            content.append(text.as_str());
            proof {
                assert(all.take(i + 1) =~= all.take(i as int).push(text@));
                all.take(i as int).lemma_flatten_push(text@);
            }
            i += 1;
        }
        assert(all.take(sections@.len() as int) =~= all);
        content
    }

    /// Writes a chapter anew: finds its sections, has the validator judge each
    /// of them, and puts the chapter together again under those verdicts.
    /// Fails where the chapter cannot be taken apart into sections, before
    /// anything is judged.
    pub fn process_chapter(
        &self,
        raw_content: &str,
        options: &ValidatorProcessorOptions,
    ) -> (result: Result<String, SectionError>)
        ensures
            match result {
                Ok(content) => scan(raw_content@) matches Ok(sections) && exists|
                    verdicts: Seq<ValidationResult>,
                |
                    #![trigger self.may_judge_all(sections, verdicts)]
                    self.may_judge_all(sections, verdicts) && content@ == recomposed(
                        sections,
                        verdicts,
                        options.hide_invalid,
                        options.invalid_message@,
                    ),
                Err(error) => scan(raw_content@) == Err::<Seq<SectionView>, SectionErrorView>(
                    error@,
                ),
            },
    {
        let sections = match ValidatorProcessor::validation_sections(raw_content) {
            Ok(sections) => sections,
            Err(error) => {
                return Err(error);
            },
        };
        let mut verdicts: Vec<ValidationResult> = Vec::new();
        let mut i: usize = 0;
        while i < sections.len()
            invariant
                i <= sections@.len(),
                verdicts@.len() == i,
                forall|k: int|
                    0 <= k < i ==> (#[trigger] section_views(
                        sections@,
                    )[k] matches SectionView::Conditional { links, .. } ==> self.may_judge(
                        links,
                        verdicts@[k],
                    )),
            decreases sections@.len() - i,
        {
            let verdict = match &sections[i] {
                ValidationSection::NonValidationSection(_) => ValidationResult::StillValid,
                ValidationSection::ValidationSection(links, _) => self.is_section_valid(links),
            };
            verdicts.push(verdict);
            i += 1;
        }
        let content = ValidatorProcessor::recompose(&sections, &verdicts, options);
        proof {
            let found = scan(raw_content@)->Ok_0;
            assert(self.may_judge_all(found, verdicts@));
        }
        Ok(content)
    }
}

} // verus!
