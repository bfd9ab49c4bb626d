use mdbook_section_validator::issue_validator::{Issue, IssueValidator, ValidationResult};
use mdbook_section_validator::link::Link;
use mdbook_section_validator::{ValidationSection, ValidatorProcessor, ValidatorProcessorOptions};

enum ValidateBehavior {
    AllValid,
    NoneValid,
}

struct FakeIssueValidator {
    validate_behavior: ValidateBehavior,
}

impl IssueValidator for FakeIssueValidator {
    fn validate(&self, _link: &Issue) -> ValidationResult {
        match &self.validate_behavior {
            ValidateBehavior::NoneValid => ValidationResult::NoLongerValid,
            ValidateBehavior::AllValid => ValidationResult::StillValid,
        }
    }
}

#[test]
fn test_validation_sections_single_link() {
    let content = "whatever
!!!https://github.com/example/example/issues/1

some content to be conditionally included.

!!!

other content";

    let sections: Vec<ValidationSection> =
        ValidatorProcessor::validation_sections(&content).unwrap();

    assert_eq!(sections.len(), 3);
    assert_eq!(
        sections.get(0).unwrap(),
        &ValidationSection::NonValidationSection("whatever\n".to_string())
    );
    assert_eq!(
        sections.get(1).unwrap(),
        &ValidationSection::ValidationSection(
            vec![Link::parse("https://github.com/example/example/issues/1").unwrap()],
            "\n\nsome content to be conditionally included.\n\n".to_string()
        )
    );
    assert_eq!(
        sections.get(2).unwrap(),
        &ValidationSection::NonValidationSection("\n\nother content".to_string())
    );
}

#[test]
fn test_validation_sections_multiple() {
    let content = "!!!https://github.com/example/example/issues/1

some content to be conditionally included.

!!!

other content

!!!https://github.com/example/example/issues/1,https://github.com/example/example/issues/2

other content to be conditionally included.

!!!";

    let sections: Vec<ValidationSection> =
        ValidatorProcessor::validation_sections(&content).unwrap();

    assert_eq!(sections.len(), 3);
    assert_eq!(
        sections.get(0).unwrap(),
        &ValidationSection::ValidationSection(
            vec![Link::parse("https://github.com/example/example/issues/1").unwrap()],
            "\n\nsome content to be conditionally included.\n\n".to_string()
        )
    );
    assert_eq!(
        sections.get(1).unwrap(),
        &ValidationSection::NonValidationSection("\n\nother content\n\n".to_string())
    );
    assert_eq!(
        sections.get(2).unwrap(),
        &ValidationSection::ValidationSection(
            vec![
                Link::parse("https://github.com/example/example/issues/1").unwrap(),
                Link::parse("https://github.com/example/example/issues/2").unwrap()
            ],
            "\n\nother content to be conditionally included.\n\n".to_string()
        )
    );
}

#[test]
fn test_content_all_valid_still_included_with_warning() {
    let content = "whatever
!!!https://github.com/example/example/issues/1

some content to be conditionally included.

!!!

other content
        ";

    let validator = FakeIssueValidator { validate_behavior: ValidateBehavior::AllValid };

    let processor = ValidatorProcessor { validator: Box::new(validator) };

    let options = ValidatorProcessorOptions { hide_invalid: true, invalid_message: "".to_string() };

    let received_chapter = processor.process_chapter(content, &options).unwrap();

    let expected_chapter = "whatever
<div class=\"validated-content\" links=\"https://github.com/example/example/issues/1\">

⚠️ This is only valid while [`example/example#1`](https://github.com/example/example/issues/1) is open

some content to be conditionally included.


</div>

other content
        ";
    assert_eq!(received_chapter, expected_chapter.to_string());
}

#[test]
fn tset_content_none_valid_content_not_included() {
    let content = "whatever
!!!https://github.com/example/example/issues/1

some content to be conditionally included.

!!!

other content
        ";

    let validator = FakeIssueValidator { validate_behavior: ValidateBehavior::NoneValid };

    let processor = ValidatorProcessor { validator: Box::new(validator) };

    let received_chapter = processor
        .process_chapter(
            content,
            &ValidatorProcessorOptions {
                hide_invalid: true,
                invalid_message: "🚨 Warning, this content is out of date and is included for historical reasons. 🚨".to_string(),
            },
        )
        .unwrap();

    let expected_chapter = "whatever


other content
        ";
    assert_eq!(received_chapter, expected_chapter.to_string());
}

#[test]
fn test_content_none_valid_content_still_included_with_warning() {
    let content = "whatever
!!!https://github.com/example/example/issues/1

some content to be conditionally included.

!!!

other content
        ";

    let validator = FakeIssueValidator { validate_behavior: ValidateBehavior::NoneValid };

    let processor = ValidatorProcessor { validator: Box::new(validator) };

    let received_chapter = processor
        .process_chapter(
            content,
            &ValidatorProcessorOptions {
                hide_invalid: false,
                invalid_message: "🚨 Warning, this content is out of date and is included for historical reasons. 🚨".to_string(),
            },
        )
        .unwrap();

    let expected_chapter = "whatever
<div class=\"validated-content\" links=\"https://github.com/example/example/issues/1\">

🚨 Warning, this content is out of date and is included for historical reasons. 🚨

some content to be conditionally included.


</div>

other content
        ";
    assert_eq!(received_chapter, expected_chapter.to_string());
}
