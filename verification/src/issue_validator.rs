//! What a link points at, and whether it is still worth pointing at.
//!
//! A link to an issue or a pull request of a tracker is told from any other
//! link by the shape of its URL alone. Whether the thing behind a link is still
//! open is for an `IssueValidator` to say.

use crate::link::Link;
use crate::text::{chars_of, same_text};
use vstd::prelude::*;

verus! {

/// The two kinds of tracker item.
#[derive(Debug, PartialEq, Eq, Structural, Clone, Copy)]
pub enum GithubIssueType {
    Issue,
    PullRequest,
}

/// What a link points at: an item of the tracker, with the owner, repository
/// and number read from the URL, or anything else.
#[derive(Debug, PartialEq, Eq)]
pub enum Issue<'u> {
    Github(&'u str, &'u str, &'u str, GithubIssueType, &'u Link),
    Link(&'u Link),
}

/// An `Issue` as plain text.
pub enum IssueView {
    Github {
        owner: Seq<char>,
        repo: Seq<char>,
        number: Seq<char>,
        kind: GithubIssueType,
        url: Seq<char>,
    },
    Link { url: Seq<char> },
}

impl<'u> View for Issue<'u> {
    type V = IssueView;

    open spec fn view(&self) -> IssueView {
        match *self {
            Issue::Github(owner, repo, number, kind, url) => IssueView::Github {
                owner: owner@,
                repo: repo@,
                number: number@,
                kind,
                url: url@,
            },
            Issue::Link(url) => IssueView::Link { url: url@ },
        }
    }
}

/// An upper-case ASCII letter as its lower-case twin, any other character as
/// it is.
pub open spec fn ascii_lower(c: char) -> char {
    if 'A' <= c && c <= 'Z' {
        ((c as u8) + 32) as char
    } else {
        c
    }
}

/// `text` with its ASCII letters in lower case.
pub open spec fn lowered(text: Seq<char>) -> Seq<char> {
    Seq::new(text.len(), |i: int| ascii_lower(text[i]))
}

/// The path segment that names a kind of item in a URL.
pub open spec fn keyword(kind: GithubIssueType) -> Seq<char> {
    match kind {
        GithubIssueType::Issue => "issues"@,
        GithubIssueType::PullRequest => "pull"@,
    }
}

/// The kind that a keyword names: an issue for `issues`, a pull request for
/// everything else.
pub open spec fn kind_of_keyword(word: Seq<char>) -> GithubIssueType {
    if word == "issues"@ {
        GithubIssueType::Issue
    } else {
        GithubIssueType::PullRequest
    }
}

/// An owner or a repository, which is one segment of a path: at least one
/// character, none of them a slash or a line break.
pub open spec fn is_name(text: Seq<char>) -> bool {
    text.len() > 0 && forall|i: int|
        0 <= i < text.len() ==> #[trigger] text[i] != '/' && text[i] != '\n'
}

/// An item's number: at least one character, each a digit `0` to `9`.
pub open spec fn is_number(text: Seq<char>) -> bool {
    text.len() > 0 && forall|i: int|
        0 <= i < text.len() ==> '0' <= #[trigger] text[i] && text[i] <= '9'
}

/// The tracker's site stands in `url` at `s`: `github`, one character that is
/// no line break, `com` and a slash, letter case ignored.
pub open spec fn site_at(url: Seq<char>, s: int) -> bool {
    &&& 0 <= s && s + 11 <= url.len()
    &&& lowered(url.subrange(s, s + 6)) == "github"@
    &&& url[s + 6] != '\n'
    &&& lowered(url.subrange(s + 7, s + 10)) == "com"@
    &&& url[s + 10] == '/'
}

/// `url` ends in a slash at `b`, the keyword of `kind` in any letter case, a
/// slash and a number.
pub open spec fn tail_at(url: Seq<char>, b: int, kind: GithubIssueType) -> bool {
    let c = b + 1 + keyword(kind).len();
    &&& 0 <= b && c < url.len()
    &&& url[b] == '/'
    &&& lowered(url.subrange(b + 1, c)) == keyword(kind)
    &&& url[c] == '/'
    &&& is_number(url.subrange(c + 1, url.len() as int))
}

/// Right before the slash at `b`, `url` holds the site at `s`, then the owner
/// as one segment up to the slash at `a`, then the repository as one segment.
pub open spec fn head_at(url: Seq<char>, s: int, a: int, b: int) -> bool {
    &&& site_at(url, s)
    &&& s + 11 <= a < b <= url.len()
    &&& is_name(url.subrange(s + 11, a))
    &&& url[a] == '/'
    &&& is_name(url.subrange(a + 1, b))
}

/// A reading of `url` as a tracker item: the site at `s`, then the owner up to
/// the slash at `a`, then the repository up to the slash at `b`, then the
/// keyword of `kind`, a slash and the number up to the end. Owner and
/// repository are the two segments between the site and the keyword, and
/// there is no third.
pub open spec fn tracker_reading(
    url: Seq<char>,
    s: int,
    a: int,
    b: int,
    kind: GithubIssueType,
) -> bool {
    head_at(url, s, a, b) && tail_at(url, b, kind)
}

/// Whether `url` can be read as a tracker item.
pub open spec fn is_tracker_url(url: Seq<char>) -> bool {
    exists|s: int, a: int, b: int, kind: GithubIssueType| tracker_reading(url, s, a, b, kind)
}

/// The item that a reading of `url` gives.
pub open spec fn item_of_reading(
    url: Seq<char>,
    s: int,
    a: int,
    b: int,
    kind: GithubIssueType,
) -> IssueView {
    IssueView::Github {
        owner: url.subrange(s + 11, a),
        repo: url.subrange(a + 1, b),
        number: url.subrange(b + 2 + keyword(kind).len(), url.len() as int),
        kind,
        url,
    }
}

/// What the link with serialization `url` points at: the tracker item of its
/// reading where `url` can be read as one, and a plain link where it cannot. A
/// URL has one reading at most. One with more than two segments between the
/// site and the keyword, or fewer, has none and is a plain link.
pub open spec fn classify(url: Seq<char>) -> IssueView {
    if is_tracker_url(url) {
        let (s, a, b, kind) = choose|s: int, a: int, b: int, kind: GithubIssueType|
            tracker_reading(url, s, a, b, kind);
        item_of_reading(url, s, a, b, kind)
    } else {
        IssueView::Link { url }
    }
}

/// A URL ends as a tracker item in one way at most.
pub proof fn lemma_tail_unique(
    url: Seq<char>,
    b1: int,
    kind1: GithubIssueType,
    b2: int,
    kind2: GithubIssueType,
)
    requires
        tail_at(url, b1, kind1),
        tail_at(url, b2, kind2),
    ensures
        b1 == b2,
        kind1 == kind2,
{
    reveal_strlit("issues");
    reveal_strlit("pull");
    let n = url.len() as int;
    let c1 = b1 + 1 + keyword(kind1).len();
    let c2 = b2 + 1 + keyword(kind2).len();
    let number1 = url.subrange(c1 + 1, n);
    let number2 = url.subrange(c2 + 1, n);
    // The slash before the number is no digit, so it cannot stand in the
    // number of the other ending: both numbers start at the same index.
    if c1 < c2 {
        assert(number1[c2 - c1 - 1] == url[c2]);
    }
    if c2 < c1 {
        assert(number2[c1 - c2 - 1] == url[c1]);
    }
    // The slash before `pull` would be the first `s` of `issues`.
    if kind1 != kind2 {
        let long = lowered(url.subrange(c1 - 6, c1));
        assert(long[1] == ascii_lower(url.subrange(c1 - 6, c1)[1]));
    }
}

/// Whether `url` is spelled `before`, the owner, a slash, the repository, a
/// slash, `segment`, a slash and the number.
pub open spec fn spells(
    url: Seq<char>,
    before: Seq<char>,
    owner: Seq<char>,
    repo: Seq<char>,
    segment: Seq<char>,
    number: Seq<char>,
) -> bool {
    url == before + owner + seq!['/'] + repo + seq!['/'] + segment + seq!['/'] + number
}

/// Whether `item` is a tracker item as `url` spells it: its owner and its
/// repository are one segment each, its number is digits, and `url` ends in
/// the owner, a slash, the repository, a slash, the keyword of its kind in any
/// letter case, a slash and the number.
pub open spec fn is_spelled_by(item: IssueView, url: Seq<char>) -> bool {
    &&& item matches IssueView::Github { owner, repo, number, kind, url: source }
    &&& source == url
    &&& is_name(owner)
    &&& is_name(repo)
    &&& is_number(number)
    &&& exists|before: Seq<char>, segment: Seq<char>| #[trigger]
        spells(url, before, owner, repo, segment, number) && lowered(segment) == keyword(kind)
}

/// A URL can be read as a tracker item in one way at most.
pub proof fn lemma_reading_unique(
    url: Seq<char>,
    s1: int,
    a1: int,
    b1: int,
    kind1: GithubIssueType,
    s2: int,
    a2: int,
    b2: int,
    kind2: GithubIssueType,
)
    requires
        tracker_reading(url, s1, a1, b1, kind1),
        tracker_reading(url, s2, a2, b2, kind2),
    ensures
        s1 == s2,
        a1 == a2,
        b1 == b2,
        kind1 == kind2,
{
    lemma_tail_unique(url, b1, kind1, b2, kind2);
    // The slash behind the one owner would stand in the other repository.
    let repo1 = url.subrange(a1 + 1, b1);
    let repo2 = url.subrange(a2 + 1, b1);
    if a1 < a2 {
        assert(repo1[a2 - (a1 + 1)] == url[a2]);
    }
    if a2 < a1 {
        assert(repo2[a1 - (a2 + 1)] == url[a1]);
    }
    // The slash behind the one site would stand in the other owner.
    let owner1 = url.subrange(s1 + 11, a1);
    let owner2 = url.subrange(s2 + 11, a1);
    if s1 < s2 {
        assert(owner1[s2 + 10 - (s1 + 11)] == url[s2 + 10]);
    }
    if s2 < s1 {
        assert(owner2[s1 + 10 - (s2 + 11)] == url[s1 + 10]);
    }
}

/// `classify` goes by the reading of a URL that has one.
pub proof fn lemma_classify_by_reading(
    url: Seq<char>,
    s: int,
    a: int,
    b: int,
    kind: GithubIssueType,
)
    requires
        tracker_reading(url, s, a, b, kind),
    ensures
        classify(url) == item_of_reading(url, s, a, b, kind),
{
    let (s2, a2, b2, kind2) = choose|s2: int, a2: int, b2: int, kind2: GithubIssueType|
        tracker_reading(url, s2, a2, b2, kind2);
    lemma_reading_unique(url, s, a, b, kind, s2, a2, b2, kind2);
}

/// What `classify` makes of a URL: of one that can be read as a tracker item,
/// the item of its reading; of any other, a plain link. The owner and the
/// repository of an item are the two segments between the site and the
/// keyword, as they stand in the URL, and neither holds a slash; the number is
/// the digits at the end.
pub proof fn classify_goes_by_shape(url: Seq<char>)
    ensures
        classify(url) is Github <==> is_tracker_url(url),
        !is_tracker_url(url) ==> classify(url) == (IssueView::Link { url }),
        forall|s: int, a: int, b: int, kind: GithubIssueType| #[trigger]
            tracker_reading(url, s, a, b, kind) ==> classify(url) == item_of_reading(
                url,
                s,
                a,
                b,
                kind,
            ),
        classify(url) is Github ==> is_spelled_by(classify(url), url),
{
    assert forall|s: int, a: int, b: int, kind: GithubIssueType| #[trigger]
        tracker_reading(url, s, a, b, kind) implies classify(url) == item_of_reading(
        url,
        s,
        a,
        b,
        kind,
    ) by {
        lemma_classify_by_reading(url, s, a, b, kind);
    }
    if is_tracker_url(url) {
        let (s, a, b, kind) = choose|s: int, a: int, b: int, kind: GithubIssueType|
            tracker_reading(url, s, a, b, kind);
        let c = b + 1 + keyword(kind).len();
        let before = url.subrange(0, s + 11);
        let owner = url.subrange(s + 11, a);
        let repo = url.subrange(a + 1, b);
        let segment = url.subrange(b + 1, c);
        let number = url.subrange(c + 1, url.len() as int);
        assert(url =~= before + owner + seq!['/'] + repo + seq!['/'] + segment + seq!['/']
            + number);
        let item = item_of_reading(url, s, a, b, kind);
        assert(item->Github_number == number);
        assert(is_number(number) && is_name(owner) && is_name(repo));
        assert(lowered(segment) == keyword(kind));
        assert(spells(
            url,
            before,
            item->Github_owner,
            item->Github_repo,
            segment,
            item->Github_number,
        ));
        assert(is_spelled_by(item, url));
    }
}

/// Between the site and the keyword of a reading stand two segments and no
/// more: the only slash there is the one between owner and repository.
pub proof fn reading_has_two_segments(
    url: Seq<char>,
    s: int,
    a: int,
    b: int,
    kind: GithubIssueType,
)
    requires
        tracker_reading(url, s, a, b, kind),
    ensures
        forall|i: int| s + 11 <= i < b ==> (url[i] == '/' <==> i == a),
{
    let owner = url.subrange(s + 11, a);
    let repo = url.subrange(a + 1, b);
    assert forall|i: int| s + 11 <= i < b implies (url[i] == '/' <==> i == a) by {
        if i < a {
            assert(owner[i - (s + 11)] == url[i]);
        }
        if i > a {
            assert(repo[i - (a + 1)] == url[i]);
        }
    }
}

/// An upper-case ASCII letter as its lower-case twin, any other character as
/// it is.
fn to_ascii_lower(c: char) -> (lower: char)
    ensures
        lower == ascii_lower(c),
{
    if 'A' <= c && c <= 'Z' {
        ((c as u8) + 32) as char
    } else {
        c
    }
}

/// Whether `text` holds `word` at `from`, letter case of `text` ignored.
fn reads_at(text: &Vec<char>, from: usize, word: &Vec<char>) -> (found: bool)
    ensures
        found == (from + word@.len() <= text@.len() && lowered(
            text@.subrange(from as int, from + word@.len()),
        ) == word@),
{
    if word.len() > text.len() || from > text.len() - word.len() {
        return false;
    }
    let ghost window = text@.subrange(from as int, from + word@.len());
    let mut k: usize = 0;
    while k < word.len()
        invariant
            from + word.len() <= text.len(),
            window == text@.subrange(from as int, from + word@.len()),
            k <= word@.len(),
            forall|i: int| 0 <= i < k ==> lowered(window)[i] == word@[i],
        decreases word@.len() - k,
    {
        if to_ascii_lower(text[from + k]) != word[k] {
            return false;
        }
        k += 1;
    }
    assert(lowered(window) =~= word@);
    true
}

/// The kind that a keyword names: an issue for `issues`, a pull request for
/// everything else.
pub fn issue_type_from_string(word: &str) -> (kind: GithubIssueType)
    ensures
        kind == kind_of_keyword(word@),
{
    if same_text(word, "issues") {
        GithubIssueType::Issue
    } else {
        GithubIssueType::PullRequest
    }
}

/// Whether the tracker's site stands in `url` at `s`.
fn is_site_at(url: &Vec<char>, s: usize, github: &Vec<char>, com: &Vec<char>) -> (found: bool)
    requires
        github@ == "github"@,
        com@ == "com"@,
    ensures
        found == site_at(url@, s as int),
{
    proof {
        reveal_strlit("github");
        reveal_strlit("com");
    }
    if url.len() < 11 || s > url.len() - 11 {
        return false;
    }
    reads_at(url, s, github) && url[s + 6] != '\n' && reads_at(url, s + 7, com) && url[s + 10]
        == '/'
}

/// Where and as what `url` ends as a tracker item: the slash before the
/// segment that names the kind, and the keyword that the segment reads as
/// when letter case is ignored.
fn find_tail(url: &Vec<char>) -> (tail: Option<(usize, &'static str)>)
    ensures
        match tail {
            Some((b, word)) => word@ == keyword(kind_of_keyword(word@)) && tail_at(
                url@,
                b as int,
                kind_of_keyword(word@),
            ),
            None => forall|b: int, kind: GithubIssueType| !tail_at(url@, b, kind),
        },
{
    proof {
        reveal_strlit("issues");
        reveal_strlit("pull");
    }
    let n = url.len();
    let mut first_digit: usize = n;
    while first_digit > 0 && '0' <= url[first_digit - 1] && url[first_digit - 1] <= '9'
        invariant
            first_digit <= n == url@.len(),
            forall|i: int| first_digit <= i < n ==> '0' <= #[trigger] url@[i] && url@[i] <= '9',
        decreases first_digit,
    {
        first_digit -= 1;
    }
    // Any ending has its second slash just before the trailing digits.
    assert forall|b: int, kind: GithubIssueType| tail_at(url@, b, kind) implies first_digit == b
        + 2 + keyword(kind).len() && first_digit < n by {
        let c = b + 1 + keyword(kind).len();
        let number = url@.subrange(c + 1, n as int);
        if first_digit > c + 1 {
            assert(number[first_digit - 1 - (c + 1)] == url@[first_digit - 1]);
        }
    }
    if first_digit == n || first_digit == 0 || url[first_digit - 1] != '/' {
        return None;
    }
    let c = first_digit - 1;
    let issues = chars_of("issues");
    let pull = chars_of("pull");
    if c >= 7 && url[c - 7] == '/' && reads_at(url, c - 6, &issues) {
        Some((c - 7, "issues"))
    } else if c >= 5 && url[c - 5] == '/' && reads_at(url, c - 4, &pull) {
        Some((c - 5, "pull"))
    } else {
        None
    }
}

/// Where the segment that ends before index `end` starts: behind the last
/// slash or line break before `end`, or at the start of `url`.
fn segment_start(url: &Vec<char>, end: usize) -> (start: usize)
    requires
        end <= url@.len(),
    ensures
        start <= end,
        forall|i: int| start <= i < end ==> url@[i] != '/' && url@[i] != '\n',
        start == 0 || url@[start - 1] == '/' || url@[start - 1] == '\n',
{
    let mut start: usize = end;
    while start > 0 && url[start - 1] != '/' && url[start - 1] != '\n'
        invariant
            start <= end <= url@.len(),
            forall|i: int| start <= i < end ==> url@[i] != '/' && url@[i] != '\n',
        decreases start,
    {
        start -= 1;
    }
    start
}

/// Where `url` holds the site, the owner and the repository right before the
/// slash at `b`: the start of the site and the slash behind the owner.
fn find_head(url: &Vec<char>, b: usize) -> (head: Option<(usize, usize)>)
    requires
        b < url@.len(),
        url@[b as int] == '/',
    ensures
        match head {
            Some((s, a)) => head_at(url@, s as int, a as int, b as int),
            None => forall|s2: int, a2: int| !head_at(url@, s2, a2, b as int),
        },
{
    let repo_start = segment_start(url, b);
    let owner_start = if repo_start > 0 {
        segment_start(url, repo_start - 1)
    } else {
        0
    };
    // Any head has its repository and its owner where these segments are.
    assert forall|s2: int, a2: int| head_at(url@, s2, a2, b as int) implies a2 + 1 == repo_start
        && s2 + 11 == owner_start by {
        let repo = url@.subrange(a2 + 1, b as int);
        let owner = url@.subrange(s2 + 11, a2);
        if repo_start > a2 + 1 {
            assert(repo[repo_start - 1 - (a2 + 1)] == url@[repo_start - 1]);
        }
        if a2 + 1 == repo_start && owner_start > s2 + 11 {
            assert(owner[owner_start - 1 - (s2 + 11)] == url@[owner_start - 1]);
        }
    }
    if repo_start == b || repo_start == 0 || url[repo_start - 1] != '/' {
        return None;
    }
    let a = repo_start - 1;
    if owner_start == a || owner_start < 11 {
        return None;
    }
    let github = chars_of("github");
    let com = chars_of("com");
    if !is_site_at(url, owner_start - 11, &github, &com) {
        return None;
    }
    assert(is_name(url@.subrange(owner_start as int, a as int)));
    assert(is_name(url@.subrange(a + 1, b as int)));
    Some((owner_start - 11, a))
}

/// What `url` points at: an item of the tracker where the URL reads as one,
/// and a plain link where it does not.
pub fn issue_from_url<'u>(url: &'u Link) -> (issue: Issue<'u>)
    ensures
        issue@ == classify(url@),
        issue is Link <==> !is_tracker_url(url@),
        issue is Link ==> issue@ == (IssueView::Link { url: url@ }),
        issue is Github ==> is_spelled_by(issue@, url@),
{
    proof {
        classify_goes_by_shape(url@);
    }
    let text = url.as_str();
    let chars = chars_of(text);
    let (b, word) = match find_tail(&chars) {
        Some(tail) => tail,
        None => {
            return Issue::Link(url);
        },
    };
    let kind = issue_type_from_string(word);
    let (s, a) = match find_head(&chars, b) {
        Some(head) => head,
        None => {
            assert forall|s2: int, a2: int, b2: int, kind2: GithubIssueType|
                !tracker_reading(url@, s2, a2, b2, kind2) by {
                if tracker_reading(url@, s2, a2, b2, kind2) {
                    lemma_tail_unique(url@, b as int, kind, b2, kind2);
                }
            }
            return Issue::Link(url);
        },
    };
    proof {
        reveal_strlit("issues");
        reveal_strlit("pull");
        lemma_classify_by_reading(url@, s as int, a as int, b as int, kind);
        assert(b + 1 + keyword(kind).len() < chars.len());
    }
    let c = match kind {
        GithubIssueType::Issue => b + 7,
        GithubIssueType::PullRequest => b + 5,
    };
    let owner = text.substring_char(s + 11, a);
    let repo = text.substring_char(a + 1, b);
    let number = text.substring_char(c + 1, chars.len());
    Issue::Github(owner, repo, number, kind, url)
}

/// Whether what a link points at is still what it was when the link was
/// written: an issue still open, a page still there.
#[derive(Debug, PartialEq, Eq, Structural, Clone, Copy)]
pub enum ValidationResult {
    NoLongerValid,
    StillValid,
}

/// Judges issues. How a validator comes to its verdict is its own business:
/// it may ask a remote service, and it may answer differently when asked
/// again.
pub trait IssueValidator {
    /// The verdicts that this validator can come to on an issue. A validator
    /// that does not say can come to any.
    open spec fn may_find(&self, issue: IssueView, verdict: ValidationResult) -> bool {
        true
    }

    /// A verdict on one issue.
    fn validate(&self, issue: &Issue) -> (verdict: ValidationResult)
        ensures
            self.may_find(issue@, verdict),
    ;
}

/// One verdict for many: still valid where every single verdict is, no longer
/// valid where one is not.
pub open spec fn aggregate(verdicts: Seq<ValidationResult>) -> ValidationResult {
    if forall|i: int| 0 <= i < verdicts.len() ==> verdicts[i] == ValidationResult::StillValid {
        ValidationResult::StillValid
    } else {
        ValidationResult::NoLongerValid
    }
}

/// The order of the single verdicts does not matter to their aggregate: two
/// sequences that hold the same verdicts the same number of times have the
/// same aggregate.
pub proof fn aggregate_ignores_order(first: Seq<ValidationResult>, second: Seq<ValidationResult>)
    requires
        first.to_multiset() == second.to_multiset(),
    ensures
        aggregate(first) == aggregate(second),
{
    assert forall|a: Seq<ValidationResult>, b: Seq<ValidationResult>|
        a.to_multiset() == b.to_multiset() && aggregate(a)
            == ValidationResult::NoLongerValid implies aggregate(b)
        == ValidationResult::NoLongerValid by {
        let i = choose|i: int| 0 <= i < a.len() && a[i] != ValidationResult::StillValid;
        vstd::seq_lib::to_multiset_contains(a, a[i]);
        vstd::seq_lib::to_multiset_contains(b, a[i]);
        let j = choose|j: int| 0 <= j < b.len() && b[j] == a[i];
        assert(b[j] != ValidationResult::StillValid);
    }
}

/// The aggregate of `verdicts`.
pub fn aggregate_verdicts(verdicts: &Vec<ValidationResult>) -> (verdict: ValidationResult)
    ensures
        verdict == aggregate(verdicts@),
{
    let mut verdict = ValidationResult::StillValid;
    let mut i: usize = 0;
    while i < verdicts.len()
        invariant
            i <= verdicts@.len(),
            verdict == aggregate(verdicts@.take(i as int)),
        decreases verdicts@.len() - i,
    {
        let ghost seen = verdicts@.take(i as int);
        let ghost next = verdicts@.take(i + 1);
        if verdicts[i] == ValidationResult::NoLongerValid {
            verdict = ValidationResult::NoLongerValid;
        }
        proof {
            assert(next[i as int] == verdicts@[i as int]);
            if aggregate(seen) == ValidationResult::NoLongerValid {
                let k = choose|k: int|
                    0 <= k < seen.len() && seen[k] != ValidationResult::StillValid;
                assert(next[k] == seen[k]);
            }
        }
        i += 1;
    }
    assert(verdicts@.take(verdicts@.len() as int) =~= verdicts@);
    verdict
}

/// What the default validator has to learn from outside before it can judge
/// an issue.
#[derive(Debug, PartialEq, Eq)]
pub enum RemoteCheck {
    /// The state of a tracker item, to be read at this address.
    IssueState(String),
    /// Whether there is anything at this address.
    Exists(String),
}

/// A `RemoteCheck` as plain text.
pub enum RemoteCheckView {
    IssueState(Seq<char>),
    Exists(Seq<char>),
}

impl View for RemoteCheck {
    type V = RemoteCheckView;

    open spec fn view(&self) -> RemoteCheckView {
        match self {
            RemoteCheck::IssueState(url) => RemoteCheckView::IssueState(url@),
            RemoteCheck::Exists(url) => RemoteCheckView::Exists(url@),
        }
    }
}

/// The name under which the tracker's API keeps items of a kind. It is not the
/// keyword of the kind's URLs: pull requests are `pull` there and `pulls` here.
pub open spec fn resource(kind: GithubIssueType) -> Seq<char> {
    match kind {
        GithubIssueType::Issue => "issues"@,
        GithubIssueType::PullRequest => "pulls"@,
    }
}

/// The address at which the tracker's API tells the state of an item.
pub open spec fn state_address(
    owner: Seq<char>,
    repo: Seq<char>,
    number: Seq<char>,
    kind: GithubIssueType,
) -> Seq<char> {
    "https://api.github.com/repos/"@ + owner + "/"@ + repo + "/"@ + resource(kind) + "/"@ + number
}

/// What has to be learned from outside to judge `issue`: the state of a
/// tracker item, or whether a plain link leads anywhere.
pub open spec fn remote_check(issue: IssueView) -> RemoteCheckView {
    match issue {
        IssueView::Github { owner, repo, number, kind, url } => RemoteCheckView::IssueState(
            state_address(owner, repo, number, kind),
        ),
        IssueView::Link { url } => RemoteCheckView::Exists(url),
    }
}

/// What came back from outside when a `RemoteCheck` was made.
#[derive(Debug, PartialEq, Eq)]
pub enum RemoteAnswer {
    /// Nothing: the request failed on its way.
    NoAnswer,
    /// An answer with this status. Where its body tells the state of a
    /// tracker item, the state comes with it.
    Answer(u16, Option<String>),
}

/// A `RemoteAnswer` as plain text.
pub enum RemoteAnswerView {
    NoAnswer,
    Answer(u16, Option<Seq<char>>),
}

impl View for RemoteAnswer {
    type V = RemoteAnswerView;

    open spec fn view(&self) -> RemoteAnswerView {
        match self {
            RemoteAnswer::NoAnswer => RemoteAnswerView::NoAnswer,
            RemoteAnswer::Answer(status, state) => RemoteAnswerView::Answer(
                *status,
                match state {
                    Some(text) => Some(text@),
                    None => None,
                },
            ),
        }
    }
}

/// Whether a status says that the request succeeded: it does from 200 to 299.
pub open spec fn is_success(status: u16) -> bool {
    200 <= status <= 299
}

/// The verdict on a tracker item whose state was asked for: still valid when
/// the request succeeded and the state is `open`. No status because the
/// request failed, a status of failure, and no state because the answer could
/// not be read all count against the item.
pub open spec fn verdict_of_state(
    status: Option<u16>,
    state: Option<Seq<char>>,
) -> ValidationResult {
    if status matches Some(code) && is_success(code) && state == Some("open"@) {
        ValidationResult::StillValid
    } else {
        ValidationResult::NoLongerValid
    }
}

/// The verdict on a plain link that was probed: still valid when the probe
/// succeeded. No status because the request failed, and a status of failure,
/// count against the link.
pub open spec fn verdict_of_status(status: Option<u16>) -> ValidationResult {
    if status matches Some(code) && is_success(code) {
        ValidationResult::StillValid
    } else {
        ValidationResult::NoLongerValid
    }
}

/// The verdict that an answer gives on the issue that a check was made for:
/// read by the rule for tracker items where the state of one was asked for,
/// and by the rule for plain links where a link was probed.
pub open spec fn verdict_of_answer(
    check: RemoteCheckView,
    answer: RemoteAnswerView,
) -> ValidationResult {
    match answer {
        RemoteAnswerView::NoAnswer => ValidationResult::NoLongerValid,
        RemoteAnswerView::Answer(status, state) => match check {
            RemoteCheckView::IssueState(_) => verdict_of_state(Some(status), state),
            RemoteCheckView::Exists(_) => verdict_of_status(Some(status)),
        },
    }
}

/// The rules of the validator that asks the tracker and the web. It says what
/// to ask and what to make of the answer; the asking itself is left to the
/// caller.
pub struct DefaultIssueValidator;

impl DefaultIssueValidator {
    /// The name by which every request tells the remote side who is asking.
    pub fn user_agent(&self) -> (agent: &'static str)
        ensures
            agent@ == "younata/mdbook-section-validator"@,
    {
        "younata/mdbook-section-validator"
    }

    /// What to ask in order to judge `issue`.
    pub fn remote_check(&self, issue: &Issue) -> (check: RemoteCheck)
        ensures
            check@ == remote_check(issue@),
    {
        match *issue {
            Issue::Github(owner, repo, number, kind, _) => {
                let resource = match kind {
                    GithubIssueType::Issue => "issues",
                    GithubIssueType::PullRequest => "pulls",
                };
                let mut address = "https://api.github.com/repos/".to_owned();
                address.append(owner);
                address.append("/");
                address.append(repo);
                address.append("/");
                address.append(resource);
                address.append("/");
                address.append(number);
                RemoteCheck::IssueState(address)
            },
            Issue::Link(url) => RemoteCheck::Exists(url.as_str().to_owned()),
        }
    }

    /// The verdict on a tracker item, given the status of the tracker's
    /// answer, if it answered, and the state that the answer tells for the
    /// item, if it tells one.
    pub fn github_validation_result(&self, status: Option<u16>, state: Option<&str>) -> (verdict:
        ValidationResult)
        ensures
            verdict == verdict_of_state(
                status,
                match state {
                    Some(s) => Some(s@),
                    None => None,
                },
            ),
    {
        match (status, state) {
            (Some(code), Some(s)) => {
                if 200 <= code && code <= 299 && same_text(s, "open") {
                    ValidationResult::StillValid
                } else {
                    ValidationResult::NoLongerValid
                }
            },
            _ => ValidationResult::NoLongerValid,
        }
    }

    /// The verdict on a plain link, given the status with which the probe of
    /// it was answered, if it was answered.
    pub fn arbitrary_url_validation_result(&self, status: Option<u16>) -> (verdict:
        ValidationResult)
        ensures
            verdict == verdict_of_status(status),
    {
        match status {
            Some(code) => {
                if 200 <= code && code <= 299 {
                    ValidationResult::StillValid
                } else {
                    ValidationResult::NoLongerValid
                }
            },
            None => ValidationResult::NoLongerValid,
        }
    }

    /// The verdict on the issue that `check` was made for, given what came
    /// back.
    pub fn verdict_on(&self, check: &RemoteCheck, answer: &RemoteAnswer) -> (verdict:
        ValidationResult)
        ensures
            verdict == verdict_of_answer(check@, answer@),
    {
        match answer {
            RemoteAnswer::NoAnswer => ValidationResult::NoLongerValid,
            RemoteAnswer::Answer(status, state) => match check {
                RemoteCheck::IssueState(_) => {
                    let state = match state {
                        Some(text) => Some(text.as_str()),
                        None => None,
                    };
                    self.github_validation_result(Some(*status), state)
                },
                RemoteCheck::Exists(_) => self.arbitrary_url_validation_result(Some(*status)),
            },
        }
    }
}

} // verus!
