use crate::error::FinderError;
use crate::github::{
    branch_or_default, info_result_is, parse_github_url, parse_github_url_spec, zip_url_spec,
    GithubInfoView,
};
use vstd::prelude::*;

verus! {

/// What a run does before it scans.
pub enum RunPlan {
    /// Scan the current directory.
    ScanLocal,
    /// Fetch the archive at `zip_url`, extract it, and scan the extracted tree,
    /// or the folder inside it where one is given.
    Fetch { zip_url: String, folder: Option<String> },
}

pub enum RunPlanView {
    ScanLocal,
    Fetch { zip_url: Seq<char>, folder: Option<Seq<char>> },
}

impl View for RunPlan {
    type V = RunPlanView;

    open spec fn view(&self) -> RunPlanView {
        match self {
            RunPlan::ScanLocal => RunPlanView::ScanLocal,
            RunPlan::Fetch { zip_url, folder } => RunPlanView::Fetch {
                zip_url: zip_url@,
                folder: match folder {
                    Some(f) => Some(f@),
                    None => None,
                },
            },
        }
    }
}

/// The plan for a repository reference.
pub open spec fn fetch_plan(i: GithubInfoView) -> RunPlanView {
    RunPlanView::Fetch {
        zip_url: zip_url_spec(i.repo_url, branch_or_default(i)),
        folder: i.folder_path,
    }
}

/// The plan for a run given an optional GitHub URL.
pub open spec fn run_plan_spec(github_url: Option<Seq<char>>) -> Result<RunPlanView, FinderError> {
    match github_url {
        None => Ok(RunPlanView::ScanLocal),
        Some(u) => match parse_github_url_spec(u) {
            Ok(i) => Ok(fetch_plan(i)),
            Err(e) => Err(e),
        },
    }
}

/// Decides what a run does: without a URL it scans the current directory;
/// with one it fetches the named branch, `main` where none is named, and
/// scans the named folder, if any, of the extracted tree. A URL that does not
/// name a repository fails.
pub fn plan_run(github_url: Option<&str>) -> (r: Result<RunPlan, FinderError>)
    ensures
        match (r, github_url) {
            (Ok(p), Some(u)) => run_plan_spec(Some(u@)) == Ok::<RunPlanView, FinderError>(p@),
            (Ok(p), None) => p@ == RunPlanView::ScanLocal,
            (Err(e), Some(u)) => run_plan_spec(Some(u@)) == Err::<RunPlanView, FinderError>(e),
            (Err(_), None) => false,
        },
{
    match github_url {
        None => Ok(RunPlan::ScanLocal),
        Some(u) => {
            let parsed = parse_github_url(u);
            assert(info_result_is(parsed, parse_github_url_spec(u@)));
            match parsed {
                Ok(info) => {
                    let zip_url = info.zip_url();
                    Ok(RunPlan::Fetch { zip_url, folder: info.folder_path })
                },
                Err(e) => Err(e),
            }
        },
    }
}

} // verus!
