use crate::error::FinderError;
use vstd::prelude::*;

verus! {

#[verifier::external_type_specification]
#[verifier::external_body]
pub struct ExUrlParseError(url::ParseError);

/// A parsed URL as plain values: its host and its path segments, each where the
/// URL has one.
pub struct UrlParts {
    pub host: Option<String>,
    pub segments: Option<Vec<String>>,
}

/// The host and path segments of a URL, as plain sequences.
pub type UrlPartsView = (Option<Seq<char>>, Option<Seq<Seq<char>>>);

impl View for UrlParts {
    type V = UrlPartsView;

    open spec fn view(&self) -> UrlPartsView {
        (
            match self.host {
                Some(h) => Some(h@),
                None => None,
            },
            match self.segments {
                Some(s) => Some(s@.map_values(|x: String| x@)),
                None => None,
            },
        )
    }
}

/// What `url::Url::parse` makes of a string, read back through `host_str` and
/// `path_segments`; `None` where the string is not a URL.
pub uninterp spec fn url_parts_of(s: Seq<char>) -> Option<UrlPartsView>;

/// Relies on `url::Url::parse`, and on `host_str` and `path_segments` of the
/// parsed value: the result depends on the string alone.
#[verifier::external_body]
fn split_url(s: &str) -> (r: Result<UrlParts, url::ParseError>)
    ensures
        r is Ok <==> url_parts_of(s@) is Some,
        r is Ok ==> url_parts_of(s@) == Some(r->Ok_0@),
{
    let u = url::Url::parse(s)?;
    Ok(
        UrlParts {
            host: u.host_str().map(|h| h.to_string()),
            segments: u.path_segments().map(|it| it.map(|p| p.to_string()).collect()),
        },
    )
}

/// Where a repository lives and which part of it a URL points at.
pub struct GithubInfo {
    pub repo_url: String,
    pub branch_name: Option<String>,
    pub folder_path: Option<String>,
}

pub struct GithubInfoView {
    pub repo_url: Seq<char>,
    pub branch_name: Option<Seq<char>>,
    pub folder_path: Option<Seq<char>>,
}

impl View for GithubInfo {
    type V = GithubInfoView;

    open spec fn view(&self) -> GithubInfoView {
        GithubInfoView {
            repo_url: self.repo_url@,
            branch_name: match self.branch_name {
                Some(b) => Some(b@),
                None => None,
            },
            folder_path: match self.folder_path {
                Some(f) => Some(f@),
                None => None,
            },
        }
    }
}

/// The segments joined with `/` between them.
pub open spec fn join_slash(s: Seq<Seq<char>>) -> Seq<char>
    decreases s.len(),
{
    if s.len() == 0 {
        Seq::empty()
    } else if s.len() == 1 {
        s[0]
    } else {
        join_slash(s.drop_last()) + "/"@ + s.last()
    }
}

/// `https://github.com/<owner>/<repo>`.
pub open spec fn repo_url_of(owner: Seq<char>, repo: Seq<char>) -> Seq<char> {
    "https://github.com/"@ + owner + "/"@ + repo
}

/// Whether the segments point into a branch: `<owner>/<repo>/tree/<branch>/...`.
pub open spec fn names_branch(s: Seq<Seq<char>>) -> bool {
    s.len() >= 4 && s[2] == "tree"@
}

/// What a URL with the given host and path segments says of a repository.
pub open spec fn github_info_spec(p: UrlPartsView) -> Result<GithubInfoView, FinderError> {
    if p.0 != Some("github.com"@) || p.1 is None || p.1->Some_0.len() < 2 {
        Err(FinderError::InvalidUrl)
    } else {
        let s = p.1->Some_0;
        Ok(
            GithubInfoView {
                repo_url: repo_url_of(s[0], s[1]),
                branch_name: if names_branch(s) {
                    Some(s[3])
                } else {
                    None
                },
                folder_path: if names_branch(s) && s.len() > 4 {
                    Some(join_slash(s.subrange(4, s.len() as int)))
                } else {
                    None
                },
            },
        )
    }
}

/// What parsing the URL string `s` gives.
pub open spec fn parse_github_url_spec(s: Seq<char>) -> Result<GithubInfoView, FinderError> {
    match url_parts_of(s) {
        Some(p) => github_info_spec(p),
        None => Err(FinderError::InvalidUrl),
    }
}

/// Whether a result matches its specified value.
pub open spec fn info_result_is(
    r: Result<GithubInfo, FinderError>,
    s: Result<GithubInfoView, FinderError>,
) -> bool {
    match r {
        Ok(i) => s is Ok && i@ == s->Ok_0,
        Err(e) => s is Err && e == s->Err_0,
    }
}

/// The segments from `start` on, joined with `/`.
fn join_segments(segs: &Vec<String>, start: usize) -> (r: String)
    requires
        start < segs.len(),
    ensures
        r@ == join_slash(segs@.map_values(|x: String| x@).subrange(start as int, segs.len() as int)),
{
    let ghost views = segs@.map_values(|x: String| x@);
    let mut out = segs[start].clone();
    let mut i: usize = start + 1;
    assert(views.subrange(start as int, i as int) =~= seq![views[start as int]]);
    while i < segs.len()
        invariant
            start < i <= segs.len(),
            views == segs@.map_values(|x: String| x@),
            out@ == join_slash(views.subrange(start as int, i as int)),
        decreases segs.len() - i,
    {
        out.append("/");
        out.append(segs[i].as_str());
        assert(views.subrange(start as int, i + 1).drop_last() =~= views.subrange(
            start as int,
            i as int,
        ));
        i = i + 1;
    }
    out
}

/// Reads the host and path segments of a URL as a GitHub repository
/// reference: `https://github.com/<owner>/<repo>`, optionally followed by
/// `/tree/<branch>` and a folder path inside that branch.
pub fn github_info_from_parts(parts: &UrlParts) -> (r: Result<GithubInfo, FinderError>)
    ensures
        info_result_is(r, github_info_spec(parts@)),
{
    let host_ok = match &parts.host {
        Some(h) => h.eq(&String::from_str("github.com")),
        None => false,
    };
    if !host_ok {
        return Err(FinderError::InvalidUrl);
    }
    let segs = match &parts.segments {
        Some(s) => s,
        None => {
            return Err(FinderError::InvalidUrl);
        },
    };
    if segs.len() < 2 {
        return Err(FinderError::InvalidUrl);
    }
    let mut repo_url = String::from_str("https://github.com/");
    repo_url.append(segs[0].as_str());
    repo_url.append("/");
    repo_url.append(segs[1].as_str());
    let in_tree = segs.len() >= 4 && segs[2].eq(&String::from_str("tree"));
    let branch_name = if in_tree {
        Some(segs[3].clone())
    } else {
        None
    };
    let folder_path = if in_tree && segs.len() > 4 {
        Some(join_segments(segs, 4))
    } else {
        None
    };
    let info = GithubInfo { repo_url, branch_name, folder_path };
    assert(info@ == github_info_spec(parts@)->Ok_0);
    Ok(info)
}

/// Parses a GitHub web URL into the repository URL and the branch and folder
/// that it points at, if any.
pub fn parse_github_url(url: &str) -> (r: Result<GithubInfo, FinderError>)
    ensures
        info_result_is(r, parse_github_url_spec(url@)),
{
    match split_url(url) {
        Ok(parts) => github_info_from_parts(&parts),
        Err(_) => Err(FinderError::InvalidUrl),
    }
}

/// `<repo_url>/archive/<branch>.zip`.
pub open spec fn zip_url_spec(repo_url: Seq<char>, branch: Seq<char>) -> Seq<char> {
    repo_url + "/archive/"@ + branch + ".zip"@
}

/// The address of the zip archive of a branch of a repository.
pub fn build_zip_url(repo_url: &str, branch: &str) -> (r: String)
    ensures
        r@ == zip_url_spec(repo_url@, branch@),
{
    let mut out = String::from_str(repo_url);
    out.append("/archive/");
    out.append(branch);
    out.append(".zip");
    out
}

/// The branch fetched when a URL names none.
pub open spec fn default_branch() -> Seq<char> {
    "main"@
}

/// The branch that a URL names, or `main`.
pub open spec fn branch_or_default(i: GithubInfoView) -> Seq<char> {
    match i.branch_name {
        Some(b) => b,
        None => default_branch(),
    }
}

impl GithubInfo {
    /// The archive to fetch for this reference: its branch, or `main` where it
    /// names none.
    pub fn zip_url(&self) -> (r: String)
        ensures
            r@ == zip_url_spec(self@.repo_url, branch_or_default(self@)),
    {
        match &self.branch_name {
            Some(b) => build_zip_url(self.repo_url.as_str(), b.as_str()),
            None => build_zip_url(self.repo_url.as_str(), "main"),
        }
    }
}

/// A URL on `github.com` whose path is `<owner>/<repo>`, or any path of two or
/// more segments that does not go on with `tree/<branch>`, names neither a
/// branch nor a folder, and its repository URL is built from the first two
/// segments.
pub proof fn lemma_repo_url_names_no_branch(s: Seq<char>, segs: Seq<Seq<char>>)
    requires
        url_parts_of(s) == Some((Some("github.com"@), Some(segs))),
        segs.len() >= 2,
        !names_branch(segs),
    ensures
        parse_github_url_spec(s) is Ok,
        parse_github_url_spec(s)->Ok_0.repo_url == repo_url_of(segs[0], segs[1]),
        parse_github_url_spec(s)->Ok_0.branch_name is None,
        parse_github_url_spec(s)->Ok_0.folder_path is None,
{
}

/// A URL on `github.com` whose path is `<owner>/<repo>/tree/<branch>/<a>/<b>`
/// names the branch `<branch>` and the folder `<a>/<b>`.
pub proof fn lemma_tree_url_names_branch_and_folder(
    s: Seq<char>,
    owner: Seq<char>,
    repo: Seq<char>,
    branch: Seq<char>,
    a: Seq<char>,
    b: Seq<char>,
)
    requires
        url_parts_of(s) == Some(
            (Some("github.com"@), Some(seq![owner, repo, "tree"@, branch, a, b])),
        ),
    ensures
        parse_github_url_spec(s) is Ok,
        parse_github_url_spec(s)->Ok_0.repo_url == repo_url_of(owner, repo),
        parse_github_url_spec(s)->Ok_0.branch_name == Some(branch),
        parse_github_url_spec(s)->Ok_0.folder_path == Some(a + "/"@ + b),
{
    let segs = seq![owner, repo, "tree"@, branch, a, b];
    let rest = segs.subrange(4, 6);
    assert(rest.drop_last() =~= seq![a]);
    assert(rest.last() == b);
    assert(join_slash(rest.drop_last()) == a);
}

/// A string that is no URL, a URL on another host than `github.com`, and a
/// URL with fewer than two path segments all fail as an invalid URL.
pub proof fn lemma_non_repo_urls_are_rejected(s: Seq<char>)
    requires
        match url_parts_of(s) {
            None => true,
            Some(p) => p.0 != Some("github.com"@) || p.1 is None || p.1->Some_0.len() < 2,
        },
    ensures
        parse_github_url_spec(s) == Err::<GithubInfoView, FinderError>(FinderError::InvalidUrl),
{
}

} // verus!
