//! The pull request of the current branch, and the chain of stacked pull requests.
use vstd::prelude::*;
use crate::text::{contains_seq, contains_str, chars_of, string_from_range, views};

verus! {

broadcast use vstd::string::group_string_axioms;

/// Why the pull request of the current branch could not be found.
#[derive(Debug)]
pub enum PrError {
    NotAGitRepo,
    GhError(String),
    NoAssociatedPr,
    IoError(String),
    ParseError(String),
}

/// The message shown for a `PrError`.
pub open spec fn pr_error_text(e: PrError) -> Seq<char> {
    match e {
        PrError::NotAGitRepo => "Not a git repository"@,
        PrError::GhError(err) => "gh error: "@ + err@,
        PrError::NoAssociatedPr => "No PR associated with current branch"@,
        PrError::IoError(err) => "IO error: "@ + err@,
        PrError::ParseError(err) => "Parse error: "@ + err@,
    }
}

impl PrError {
    /// The message of the error, as its `Display` writes it.
    pub fn message(&self) -> (s: String)
        ensures
            s@ == pr_error_text(*self),
    {
        let mut s = String::new();
        match self {
            PrError::NotAGitRepo => s.append("Not a git repository"),
            PrError::GhError(err) => {
                s.append("gh error: ");
                s.append(err.as_str());
            },
            PrError::NoAssociatedPr => s.append("No PR associated with current branch"),
            PrError::IoError(err) => {
                s.append("IO error: ");
                s.append(err.as_str());
            },
            PrError::ParseError(err) => {
                s.append("Parse error: ");
                s.append(err.as_str());
            },
        }
        s
    }
}

/// The error that a failed `gh pr view` stands for, read from what it wrote to stderr.
pub open spec fn pr_error_from_stderr_spec(stderr: Seq<char>) -> PrErrorKind {
    if contains_seq(stderr, "not a git repository"@) || contains_seq(
        stderr,
        "could not find a local checkout"@,
    ) {
        PrErrorKind::NotAGitRepo
    } else if contains_seq(stderr, "no pull requests found"@) || contains_seq(
        stderr,
        "could not find"@,
    ) {
        PrErrorKind::NoAssociatedPr
    } else {
        PrErrorKind::GhError
    }
}

/// The variants of `PrError` that a failed `gh pr view` leads to.
pub enum PrErrorKind {
    NotAGitRepo,
    NoAssociatedPr,
    GhError,
}

/// Classifies the stderr of a failed `gh pr view`; any other failure keeps the text.
pub fn pr_error_from_stderr(stderr: &str) -> (e: PrError)
    ensures
        match pr_error_from_stderr_spec(stderr@) {
            PrErrorKind::NotAGitRepo => e is NotAGitRepo,
            PrErrorKind::NoAssociatedPr => e is NoAssociatedPr,
            PrErrorKind::GhError => e matches PrError::GhError(t) && t@ == stderr@,
        },
{
    if contains_str(stderr, "not a git repository") || contains_str(
        stderr,
        "could not find a local checkout",
    ) {
        return PrError::NotAGitRepo;
    }
    if contains_str(stderr, "no pull requests found") || contains_str(stderr, "could not find") {
        return PrError::NoAssociatedPr;
    }
    PrError::GhError(String::from_str(stderr))
}

/// A pull request as `gh pr view` describes it.
pub struct PullRequest {
    pub number: u64,
    pub title: String,
    pub html_url: String,
    pub head_ref: String,
    pub base_ref: String,
    pub owner: String,
    pub repo: String,
}

impl Clone for PullRequest {
    fn clone(&self) -> (r: Self)
        ensures
            r == *self,
    {
        PullRequest {
            number: self.number,
            title: self.title.clone(),
            html_url: self.html_url.clone(),
            head_ref: self.head_ref.clone(),
            base_ref: self.base_ref.clone(),
            owner: self.owner.clone(),
            repo: self.repo.clone(),
        }
    }
}

/// The fields of the JSON object that `gh pr view --json number,title,headRefName,baseRefName,url`
/// prints; a field is `None` when it is absent or not of the expected JSON type.
pub struct PrViewFields {
    pub number: Option<u64>,
    pub title: Option<String>,
    pub head_ref_name: Option<String>,
    pub base_ref_name: Option<String>,
    pub url: Option<String>,
}

/// A text field, or the empty text where it is missing.
pub open spec fn text_or_empty(s: Option<String>) -> Seq<char> {
    match s {
        Some(t) => t@,
        None => Seq::empty(),
    }
}

/// `s` without its trailing slashes (`trim_end_matches('/')`).
pub open spec fn trim_end_slashes(s: Seq<char>) -> Seq<char>
    decreases s.len(),
{
    if s.len() > 0 && s.last() == '/' {
        trim_end_slashes(s.drop_last())
    } else {
        s
    }
}

/// The pieces of `s` between the separator `c` (`str::split` with a `char`):
/// one more piece than there are separators.
pub open spec fn split_on(s: Seq<char>, c: char) -> Seq<Seq<char>>
    decreases s.len(),
{
    if s.len() == 0 {
        seq![Seq::empty()]
    } else {
        let prev = split_on(s.drop_last(), c);
        if s.last() == c {
            prev.push(Seq::empty())
        } else {
            prev.update(prev.len() - 1, prev.last().push(s.last()))
        }
    }
}

proof fn lemma_split_on_nonempty(s: Seq<char>, c: char)
    ensures
        split_on(s, c).len() >= 1,
    decreases s.len(),
{
    if s.len() > 0 {
        lemma_split_on_nonempty(s.drop_last(), c);
    }
}

/// Owner and repository of a pull request URL `https://github.com/<owner>/<repo>/pull/<n>`;
/// two empty texts for any other URL.
pub open spec fn owner_repo_of(url: Seq<char>) -> (Seq<char>, Seq<char>) {
    let parts = split_on(trim_end_slashes(url), '/');
    if parts.len() >= 5 && parts[2] == "github.com"@ {
        (parts[3], parts[4])
    } else {
        (Seq::empty(), Seq::empty())
    }
}

/// The index range of each `/`-separated piece of `v[0..end]`.
fn split_ranges(v: &Vec<char>, end: usize) -> (r: Vec<(usize, usize)>)
    requires
        end <= v@.len(),
    ensures
        r@.len() == split_on(v@.take(end as int), '/').len(),
        forall|k: int|
            0 <= k < r@.len() ==> {
                &&& (#[trigger] r@[k]).0 <= r@[k].1 <= end
                &&& v@.subrange(r@[k].0 as int, r@[k].1 as int) == split_on(
                    v@.take(end as int),
                    '/',
                )[k]
            },
{
    let mut r: Vec<(usize, usize)> = Vec::new();
    let mut start: usize = 0;
    let mut i: usize = 0;
    while i < end
        invariant
            end <= v@.len(),
            start <= i <= end,
            r@.len() + 1 == split_on(v@.take(i as int), '/').len(),
            forall|k: int|
                0 <= k < r@.len() ==> {
                    &&& (#[trigger] r@[k]).0 <= r@[k].1 <= i
                    &&& v@.subrange(r@[k].0 as int, r@[k].1 as int) == split_on(
                        v@.take(i as int),
                        '/',
                    )[k]
                },
            v@.subrange(start as int, i as int) == split_on(v@.take(i as int), '/').last(),
        decreases end - i,
    {
        proof {
            lemma_split_on_nonempty(v@.take(i as int), '/');
        }
        assert(v@.take(i + 1).drop_last() =~= v@.take(i as int));
        assert(v@.take(i + 1).last() == v@[i as int]);
        if v[i] == '/' {
            r.push((start, i));
            start = i + 1;
            assert(v@.subrange(start as int, (i + 1) as int) =~= Seq::<char>::empty());
        } else {
            assert(v@.subrange(start as int, i + 1) =~= v@.subrange(start as int, i as int).push(
                v@[i as int],
            ));
        }
        i = i + 1;
    }
    proof {
        lemma_split_on_nonempty(v@.take(end as int), '/');
    }
    r.push((start, end));
    r
}

/// The length of `v` without its trailing slashes.
fn trimmed_slash_end(v: &Vec<char>) -> (end: usize)
    ensures
        end <= v@.len(),
        v@.take(end as int) == trim_end_slashes(v@),
{
    let mut end = v.len();
    assert(v@.take(v@.len() as int) =~= v@);
    while end > 0 && v[end - 1] == '/'
        invariant
            end <= v@.len(),
            trim_end_slashes(v@.take(end as int)) == trim_end_slashes(v@),
        decreases end,
    {
        assert(v@.take(end as int).drop_last() =~= v@.take(end - 1));
        end = end - 1;
    }
    end
}

/// Owner and repository named by a pull request URL.
pub fn owner_repo_from_url(url: &str) -> (r: (String, String))
    ensures
        r.0@ == owner_repo_of(url@).0,
        r.1@ == owner_repo_of(url@).1,
{
    let v = chars_of(url);
    let end = trimmed_slash_end(&v);
    let ranges = split_ranges(&v, end);
    if ranges.len() >= 5 {
        let (a, b) = ranges[2];
        let host = string_from_range(&v, a, b);
        if crate::text::str_eq(host.as_str(), "github.com") {
            let (oa, ob) = ranges[3];
            let (ra, rb) = ranges[4];
            return (string_from_range(&v, oa, ob), string_from_range(&v, ra, rb));
        }
    }
    (String::new(), String::new())
}

/// The pull request that `gh pr view` describes: missing fields are 0 or empty, and
/// owner and repository come from the URL.
pub fn pull_request_from_view(fields: PrViewFields) -> (pr: PullRequest)
    ensures
        pr.number == match fields.number {
            Some(n) => n,
            None => 0,
        },
        pr.title@ == text_or_empty(fields.title),
        pr.html_url@ == text_or_empty(fields.url),
        pr.head_ref@ == text_or_empty(fields.head_ref_name),
        pr.base_ref@ == text_or_empty(fields.base_ref_name),
        pr.owner@ == owner_repo_of(text_or_empty(fields.url)).0,
        pr.repo@ == owner_repo_of(text_or_empty(fields.url)).1,
{
    let url = match fields.url {
        Some(u) => u,
        None => String::new(),
    };
    let (owner, repo) = owner_repo_from_url(url.as_str());
    PullRequest {
        number: match fields.number {
            Some(n) => n,
            None => 0,
        },
        title: match fields.title {
            Some(t) => t,
            None => String::new(),
        },
        html_url: url,
        head_ref: match fields.head_ref_name {
            Some(t) => t,
            None => String::new(),
        },
        base_ref: match fields.base_ref_name {
            Some(t) => t,
            None => String::new(),
        },
        owner,
        repo,
    }
}

/// A pull request of a chain: number, title and branches.
pub struct PrInfo {
    pub number: u64,
    pub title: String,
    pub head_ref: String,
    pub base_ref: String,
}

impl Clone for PrInfo {
    fn clone(&self) -> (r: Self)
        ensures
            r == *self,
    {
        PrInfo {
            number: self.number,
            title: self.title.clone(),
            head_ref: self.head_ref.clone(),
            base_ref: self.base_ref.clone(),
        }
    }
}

impl PrInfo {
    /// The chain entry of a pull request.
    pub open spec fn of_pr(pr: PullRequest) -> PrInfo {
        PrInfo { number: pr.number, title: pr.title, head_ref: pr.head_ref, base_ref: pr.base_ref }
    }

    /// The chain entry of a pull request.
    pub fn from_pr(pr: PullRequest) -> (info: PrInfo)
        ensures
            info == PrInfo::of_pr(pr),
    {
        PrInfo { number: pr.number, title: pr.title, head_ref: pr.head_ref, base_ref: pr.base_ref }
    }
}

/// A chain of stacked pull requests (root first: main ← A ← B ← C) and the one being viewed.
pub struct PrChain {
    pub chain: Vec<PrInfo>,
    pub current_index: usize,
}

impl Clone for PrChain {
    fn clone(&self) -> (r: Self)
        ensures
            r.chain@ == self.chain@,
            r.current_index == self.current_index,
    {
        let chain = self.chain.clone();
        assert(chain@ =~= self.chain@);
        PrChain { chain, current_index: self.current_index }
    }
}

impl PrChain {
    /// The viewed pull request is the first of the chain.
    pub fn is_root(&self) -> (b: bool)
        ensures
            b == (self.current_index == 0),
    {
        self.current_index == 0
    }

    /// The viewed pull request is the last of the chain.
    pub fn is_tip(&self) -> (b: bool)
        ensures
            b == (self.current_index + 1 >= self.chain@.len()),
    {
        self.current_index >= self.chain.len() || self.chain.len() - self.current_index <= 1
    }

    /// The pull request before the viewed one, if there is one.
    pub fn parent(&self) -> (p: Option<&PrInfo>)
        ensures
            match p {
                Some(p) => 0 < self.current_index <= self.chain@.len() && *p == self.chain@[self.current_index - 1],
                None => self.current_index == 0 || self.current_index > self.chain@.len(),
            },
    {
        if self.current_index > 0 && self.current_index <= self.chain.len() {
            Some(&self.chain[self.current_index - 1])
        } else {
            None
        }
    }

    /// The pull request after the viewed one, if there is one.
    pub fn child(&self) -> (c: Option<&PrInfo>)
        ensures
            match c {
                Some(c) => self.current_index + 1 < self.chain@.len() && *c == self.chain@[self.current_index + 1],
                None => self.current_index + 1 >= self.chain@.len(),
            },
    {
        if self.current_index < self.chain.len() && self.chain.len() - self.current_index > 1 {
            Some(&self.chain[self.current_index + 1])
        } else {
            None
        }
    }
}

} // verus!
