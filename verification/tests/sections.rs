use mdbook_section_validator::link::Link;
use mdbook_section_validator::sections::{split_sections, RawSection, SectionError};
use mdbook_section_validator::{ValidationSection, ValidatorProcessor};
use regex::Regex;

fn plain(text: &str) -> RawSection {
    RawSection::Plain(text.to_string())
}

fn fenced(links: &str, body: &str) -> RawSection {
    RawSection::Fenced(links.to_string(), body.to_string())
}

fn link(text: &str) -> Link {
    Link::parse(text).unwrap()
}

#[test]
fn text_without_sections_is_one_plain_stretch() {
    assert_eq!(split_sections("just text\nmore text\n"), Ok(vec![plain("just text\nmore text\n")]));
    assert_eq!(split_sections("x"), Ok(vec![plain("x")]));
    assert_eq!(
        ValidatorProcessor::validation_sections("no marker here"),
        Ok(vec![ValidationSection::NonValidationSection("no marker here".to_string())])
    );
}

#[test]
fn empty_text_is_one_empty_plain_stretch() {
    assert_eq!(split_sections(""), Ok(vec![plain("")]));
    assert_eq!(
        ValidatorProcessor::validation_sections(""),
        Ok(vec![ValidationSection::NonValidationSection("".to_string())])
    );
}

#[test]
fn body_is_everything_between_the_two_lines() {
    assert_eq!(
        split_sections("x\n!!!https://github.com/o/r/issues/1\n\nbody\n\n!!!\ny"),
        Ok(vec![
            plain("x\n"),
            fenced("https://github.com/o/r/issues/1", "\n\nbody\n\n"),
            plain("\ny"),
        ])
    );
    assert_eq!(split_sections("!!!a\n!!!"), Ok(vec![fenced("a", "\n")]));
    assert_eq!(split_sections("!!!a\n  \t\n\n!!!\n"), Ok(vec![fenced("a", "\n  \t\n\n"), plain("\n")]));
}

#[test]
fn empty_gaps_are_left_out() {
    assert_eq!(
        split_sections("!!!a\nb\n!!!\n!!!c\nd\n!!!"),
        Ok(vec![fenced("a", "\nb\n"), plain("\n"), fenced("c", "\nd\n")])
    );
    assert_eq!(split_sections("!!!a\nb\n!!!"), Ok(vec![fenced("a", "\nb\n")]));
}

#[test]
fn a_closing_line_holds_the_marker_and_nothing_else() {
    // Not closed by a marker with something behind or before it.
    assert_eq!(
        split_sections("!!!a\n!!! \n !!!\n!!!!\nx!!!\n!!!\n"),
        Ok(vec![fenced("a", "\n!!! \n !!!\n!!!!\nx!!!\n"), plain("\n")])
    );
    assert_eq!(
        split_sections("!!!a\r\nbody\r\n!!!\r\n!!!\n"),
        Ok(vec![fenced("a\r", "\nbody\r\n!!!\r\n"), plain("\n")])
    );
}

#[test]
fn sections_do_not_nest() {
    assert_eq!(
        split_sections("!!!a\n!!!b\nfoo\n!!!\nbar\n!!!\n"),
        Ok(vec![fenced("a", "\n!!!b\nfoo\n"), plain("\nbar\n!!!\n")])
    );
}

#[test]
fn an_opening_line_starts_with_the_marker() {
    assert_eq!(split_sections(" !!!a\nb\n!!!\n"), Ok(vec![plain(" !!!a\nb\n!!!\n")]));
    assert_eq!(split_sections("x!!!a\nb\n!!!\n"), Ok(vec![plain("x!!!a\nb\n!!!\n")]));
    assert_eq!(split_sections("!!a\nb\n!!!\n"), Ok(vec![plain("!!a\nb\n!!!\n")]));
    assert_eq!(split_sections("!!!\nb\n!!!\n"), Ok(vec![plain("!!!\nb\n!!!\n")]));
    assert_eq!(split_sections("!!!!\nb\n!!!\n"), Ok(vec![fenced("!", "\nb\n"), plain("\n")]));
    assert_eq!(split_sections("!!! a\nb\n!!!"), Ok(vec![fenced(" a", "\nb\n")]));
}

#[test]
fn text_is_split_by_characters_not_bytes() {
    assert_eq!(
        split_sections("héllo ⚠️\n!!!ü\n🚨\n!!!\nwörld"),
        Ok(vec![plain("héllo ⚠️\n"), fenced("ü", "\n🚨\n"), plain("\nwörld")])
    );
}

#[test]
fn a_section_that_is_never_closed_is_an_error() {
    assert_eq!(
        split_sections("x\n!!!https://example.com\nbody\n"),
        Err(SectionError::UnterminatedSection("https://example.com".to_string()))
    );
    assert_eq!(
        split_sections("!!!a"),
        Err(SectionError::UnterminatedSection("a".to_string()))
    );
    assert_eq!(
        split_sections("!!!a\nb\n!!!\n!!!c,d\n!!! \n"),
        Err(SectionError::UnterminatedSection("c,d".to_string()))
    );
    assert_eq!(
        ValidatorProcessor::validation_sections("x\n!!!https://example.com\nbody\n"),
        Err(SectionError::UnterminatedSection("https://example.com".to_string()))
    );
}

#[test]
fn a_link_that_is_no_url_is_an_error() {
    assert_eq!(
        ValidatorProcessor::validation_sections("!!!not a url\nbody\n!!!\n"),
        Err(SectionError::MalformedLink("not a url".to_string()))
    );
    assert_eq!(
        ValidatorProcessor::validation_sections(
            "!!!https://example.com\nbody\n!!!\n!!!https://example.com/a,oops,nope\nbody\n!!!\n"
        ),
        Err(SectionError::MalformedLink("oops".to_string()))
    );
}

#[test]
fn a_section_that_is_never_closed_comes_before_a_link_that_is_no_url() {
    assert_eq!(
        ValidatorProcessor::validation_sections("!!!oops\nbody\n!!!\n!!!https://example.com\nbody\n"),
        Err(SectionError::UnterminatedSection("https://example.com".to_string()))
    );
}

#[test]
fn errors_describe_themselves() {
    assert_eq!(
        SectionError::UnterminatedSection("https://example.com".to_string()).describe(),
        "the section opened by `!!!https://example.com` is never closed"
    );
    assert_eq!(
        SectionError::MalformedLink("oops".to_string()).describe(),
        "a section names `oops`, which is no absolute URL"
    );
}

#[test]
fn links_are_the_pieces_between_commas() {
    assert_eq!(
        ValidatorProcessor::links_to_check("https://example.com/a"),
        Ok(vec![link("https://example.com/a")])
    );
    assert_eq!(
        ValidatorProcessor::links_to_check("https://example.com/a,https://example.com/b,mailto:x@example.com"),
        Ok(vec![
            link("https://example.com/a"),
            link("https://example.com/b"),
            link("mailto:x@example.com"),
        ])
    );
}

#[test]
fn links_are_kept_as_the_parser_writes_them() {
    let links = ValidatorProcessor::links_to_check(" HTTPS://Example.COM ,https://example.com/a b").unwrap();
    assert_eq!(links.len(), 2);
    assert_eq!(links[0].as_str(), "https://example.com/");
    assert_eq!(links[1].as_str(), "https://example.com/a%20b");
}

#[test]
fn an_empty_piece_is_no_link() {
    assert_eq!(
        ValidatorProcessor::links_to_check(""),
        Err(SectionError::MalformedLink("".to_string()))
    );
    assert_eq!(
        ValidatorProcessor::links_to_check("https://example.com,"),
        Err(SectionError::MalformedLink("".to_string()))
    );
    assert_eq!(
        ValidatorProcessor::links_to_check(",https://example.com"),
        Err(SectionError::MalformedLink("".to_string()))
    );
    assert_eq!(
        ValidatorProcessor::links_to_check("https://example.com,,https://example.com"),
        Err(SectionError::MalformedLink("".to_string()))
    );
    assert_eq!(
        ValidatorProcessor::links_to_check("https://example.com,x,y"),
        Err(SectionError::MalformedLink("x".to_string()))
    );
}

#[test]
fn links_joined_puts_commas_between_serializations() {
    assert_eq!(ValidatorProcessor::links_joined(&vec![]), "");
    assert_eq!(
        ValidatorProcessor::links_joined(&vec![link("https://EXAMPLE.com")]),
        "https://example.com/"
    );
    assert_eq!(
        ValidatorProcessor::links_joined(&vec![
            link("https://example.com/a"),
            link("https://example.com/b"),
            link("https://example.com/c"),
        ]),
        "https://example.com/a,https://example.com/b,https://example.com/c"
    );
}

#[test]
fn every_section_names_a_link() {
    let sections = ValidatorProcessor::validation_sections(
        "a\n!!!https://example.com/1\nb\n!!!\nc\n!!!https://example.com/2,https://example.com/3\nd\n!!!",
    )
    .unwrap();
    let mut conditional = 0;
    for section in sections.iter() {
        match section {
            ValidationSection::NonValidationSection(text) => assert!(!text.is_empty()),
            ValidationSection::ValidationSection(links, _) => {
                assert!(!links.is_empty());
                conditional += 1;
            }
        }
    }
    assert_eq!(conditional, 2);
}

#[test]
fn stretches_put_together_give_the_text_again() {
    let text = "intro\n!!!https://example.com/1\n\nfirst body\n\n!!!\nbetween\n!!!a,b\nsecond\n!!!\n";
    let mut again = String::new();
    for piece in split_sections(text).unwrap() {
        match piece {
            RawSection::Plain(plain) => again.push_str(&plain),
            RawSection::Fenced(links, body) => {
                again.push_str("!!!");
                again.push_str(&links);
                again.push_str(&body);
                again.push_str("!!!");
            }
        }
    }
    assert_eq!(again, text);
}

/// The stretches that the pattern `(?m)^!!!(.+)$(?s)(.+?)(?-s)^!!!$` finds,
/// and whether what is left behind the last of them holds an opening line.
fn by_pattern(pattern: &Regex, opener: &Regex, raw: &str) -> (Vec<RawSection>, bool) {
    let mut pieces = Vec::new();
    let mut last_endpoint = 0;
    let mut found = false;
    for capture in pattern.captures_iter(raw) {
        found = true;
        let whole = capture.get(0).unwrap();
        if whole.start() != last_endpoint {
            pieces.push(plain(&raw[last_endpoint..whole.start()]));
        }
        last_endpoint = whole.end();
        pieces.push(fenced(capture.get(1).unwrap().as_str(), capture.get(2).unwrap().as_str()));
    }
    let unclosed = opener.find_iter(raw).any(|line| line.start() >= last_endpoint);
    if !found {
        return (vec![plain(raw)], unclosed);
    }
    if raw.len() > last_endpoint {
        pieces.push(plain(&raw[last_endpoint..]));
    }
    (pieces, unclosed)
}

#[test]
fn agrees_with_the_pattern_on_many_texts() {
    let pattern = Regex::new(r"(?m)^!!!(.+)$(?s)(.+?)(?-s)^!!!$").unwrap();
    let opener = Regex::new(r"(?m)^!!!.+$").unwrap();
    let lines = ["!!!", "!!!a", "!!!a,b", "text", "", "!!! ", " !!!", "!!!!", "!!", "é!!!", "!!!\r"];
    let mut checked = 0;
    let mut split = 0;
    let mut unclosed_texts = 0;
    let mut texts: Vec<String> = vec![String::new()];
    for _ in 0..4 {
        let mut longer = Vec::new();
        for text in texts.iter() {
            for line in lines.iter() {
                longer.push(format!("{}{}\n", text, line));
            }
        }
        for text in longer.iter() {
            for ending in ["", "!!!", "!!!a", "x"].iter() {
                let raw = format!("{}{}", text, ending);
                let (expected, unclosed) = by_pattern(&pattern, &opener, &raw);
                match split_sections(&raw) {
                    Ok(pieces) => {
                        assert!(!unclosed, "{:?}", raw);
                        assert_eq!(pieces, expected, "{:?}", raw);
                        if pieces.len() > 1 {
                            split += 1;
                        }
                    }
                    Err(SectionError::UnterminatedSection(_)) => {
                        assert!(unclosed, "{:?}", raw);
                        unclosed_texts += 1;
                    }
                    Err(other) => panic!("{:?} on {:?}", other, raw),
                }
                checked += 1;
            }
        }
        texts = longer;
    }
    assert!(checked > 60_000);
    assert!(split > 5_000);
    assert!(unclosed_texts > 5_000);
}

#[test]
fn agrees_with_the_pattern_on_scrambled_texts() {
    let pattern = Regex::new(r"(?m)^!!!(.+)$(?s)(.+?)(?-s)^!!!$").unwrap();
    let opener = Regex::new(r"(?m)^!!!.+$").unwrap();
    let tokens = ["!!!", "\n", "\n!!!", "!!!\n", "\n", "x", ",", "\r", "é", "!", " "];
    let mut state: u64 = 0x2545_f491_4f6c_dd1d;
    let mut next = move |bound: usize| {
        state = state.wrapping_mul(6364136223846793005).wrapping_add(1442695040888963407);
        ((state >> 33) % bound as u64) as usize
    };
    let mut split = 0;
    let mut unclosed_texts = 0;
    for _ in 0..60_000 {
        let mut raw = String::new();
        for _ in 0..next(14) {
            raw.push_str(tokens[next(tokens.len())]);
        }
        let (expected, unclosed) = by_pattern(&pattern, &opener, &raw);
        match split_sections(&raw) {
            Ok(pieces) => {
                assert!(!unclosed, "{:?}", raw);
                assert_eq!(pieces, expected, "{:?}", raw);
                if pieces.len() > 1 {
                    split += 1;
                }
            }
            Err(SectionError::UnterminatedSection(_)) => {
                assert!(unclosed, "{:?}", raw);
                unclosed_texts += 1;
            }
            Err(other) => panic!("{:?} on {:?}", other, raw),
        }
    }
    assert!(split > 1_000, "{}", split);
    assert!(unclosed_texts > 1_000, "{}", unclosed_texts);
}
