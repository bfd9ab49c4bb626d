//! Links as Markdown, one at a time or as an enumeration in a sentence.

use crate::issue_validator::{classify, issue_from_url, Issue, IssueView};
use crate::link::{link_texts, Link};
use crate::text::{join, join_strings, texts};
use vstd::prelude::*;

verus! {

/// The Markdown for the link with serialization `url`: a tracker item shows as
/// `owner/repo#number`, any other link as its own address, both as code and
/// both pointing at `url`.
pub open spec fn markdown_of(url: Seq<char>) -> Seq<char> {
    match classify(url) {
        IssueView::Github { owner, repo, number, kind, url } => "[`"@ + owner + "/"@ + repo + "#"@
            + number + "`]("@ + url + ")"@,
        IssueView::Link { url } => "[`"@ + url + "`]("@ + url + ")"@,
    }
}

/// The Markdown for each of `urls`.
pub open spec fn markdowns_of(urls: Seq<Seq<char>>) -> Seq<Seq<char>> {
    Seq::new(urls.len(), |i: int| markdown_of(urls[i]))
}

/// The Markdown for `urls` as an enumeration: one link stands alone, and of
/// more the last is set off by `, and ` while the others are set off by `, `.
/// No links give no text.
pub open spec fn enumeration_of(urls: Seq<Seq<char>>) -> Seq<char> {
    let singles = markdowns_of(urls);
    if singles.len() <= 1 {
        join(singles, ", "@)
    } else {
        join(singles.drop_last(), ", "@) + ", and "@ + singles.last()
    }
}

/// Writes links as Markdown.
pub struct LinkFormatter;

impl LinkFormatter {
    /// The Markdown for `links` as an enumeration.
    pub fn markdown_many(links: &Vec<Link>) -> (text: String)
        ensures
            text@ == enumeration_of(link_texts(links@)),
    {
        let ghost singles = markdowns_of(link_texts(links@));
        if links.len() == 0 {
            return String::new();
        }
        let last = links.len() - 1;
        let mut firsts: Vec<String> = Vec::new();
        let mut i: usize = 0;
        while i < last
            invariant
                last + 1 == links@.len(),
                i <= last,
                singles == markdowns_of(link_texts(links@)),
                firsts@.len() == i,
                texts(firsts@) =~= singles.take(i as int),
            decreases last - i,
        {
            let single = LinkFormatter::markdown_single(&links[i]);
            firsts.push(single);
            i += 1;
        }
        let mut text = join_strings(&firsts, ", ");
        if last > 0 {
            text.append(", and ");
        }
        let single = LinkFormatter::markdown_single(&links[last]);
        text.append(single.as_str());
        text
    }

    /// The Markdown for one link.
    pub fn markdown_single(link: &Link) -> (text: String)
        ensures
            text@ == markdown_of(link@),
    {
        let mut text = "[`".to_owned();
        match issue_from_url(link) {
            Issue::Github(owner, repo, number, _, url) => {
                text.append(owner);
                text.append("/");
                text.append(repo);
                text.append("#");
                text.append(number);
                text.append("`](");
                text.append(url.as_str());
            },
            Issue::Link(url) => {
                text.append(url.as_str());
                text.append("`](");
                text.append(url.as_str());
            },
        }
        text.append(")");
        text
    }
}

} // verus!
