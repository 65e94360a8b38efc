use repo_file_finder::error::FinderError;
use repo_file_finder::github::{build_zip_url, github_info_from_parts, parse_github_url, UrlParts};

fn parts(host: Option<&str>, segments: Option<&[&str]>) -> UrlParts {
    UrlParts {
        host: host.map(|h| h.to_string()),
        segments: segments.map(|s| s.iter().map(|x| x.to_string()).collect()),
    }
}

#[test]
fn repo_url_without_tree_names_no_branch() {
    let info = parse_github_url("https://github.com/rust-lang/rust").unwrap();
    assert_eq!(info.repo_url, "https://github.com/rust-lang/rust");
    assert_eq!(info.branch_name, None);
    assert_eq!(info.folder_path, None);
}

#[test]
fn repo_url_with_trailing_slash_names_no_branch() {
    let info = parse_github_url("https://github.com/owner/repo/").unwrap();
    assert_eq!(info.repo_url, "https://github.com/owner/repo");
    assert_eq!(info.branch_name, None);
    assert_eq!(info.folder_path, None);
}

#[test]
fn tree_url_names_branch_and_folder() {
    let info = parse_github_url("https://github.com/owner/repo/tree/dev/a/b").unwrap();
    assert_eq!(info.repo_url, "https://github.com/owner/repo");
    assert_eq!(info.branch_name.as_deref(), Some("dev"));
    assert_eq!(info.folder_path.as_deref(), Some("a/b"));
}

#[test]
fn tree_url_with_branch_only_has_no_folder() {
    let info = parse_github_url("https://github.com/owner/repo/tree/main").unwrap();
    assert_eq!(info.branch_name.as_deref(), Some("main"));
    assert_eq!(info.folder_path, None);
}

#[test]
fn third_segment_other_than_tree_names_no_branch() {
    let info = parse_github_url("https://github.com/owner/repo/blob/main/x.rs").unwrap();
    assert_eq!(info.branch_name, None);
    assert_eq!(info.folder_path, None);
}

#[test]
fn other_host_is_rejected() {
    let r = parse_github_url("https://gitlab.com/owner/repo");
    assert!(matches!(r, Err(FinderError::InvalidUrl)));
}

#[test]
fn single_segment_is_rejected() {
    let r = parse_github_url("https://github.com/owner");
    assert!(matches!(r, Err(FinderError::InvalidUrl)));
}

#[test]
fn malformed_url_is_rejected() {
    let r = parse_github_url("not a url");
    assert!(matches!(r, Err(FinderError::InvalidUrl)));
}

#[test]
fn parts_without_segments_are_rejected() {
    let r = github_info_from_parts(&parts(Some("github.com"), None));
    assert!(matches!(r, Err(FinderError::InvalidUrl)));
    let r = github_info_from_parts(&parts(None, Some(&["a", "b"])));
    assert!(matches!(r, Err(FinderError::InvalidUrl)));
}

#[test]
fn parts_with_deep_folder_join_with_slashes() {
    let p = parts(Some("github.com"), Some(&["o", "r", "tree", "b", "x", "y", "z"]));
    let info = github_info_from_parts(&p).unwrap();
    assert_eq!(info.repo_url, "https://github.com/o/r");
    assert_eq!(info.branch_name.as_deref(), Some("b"));
    assert_eq!(info.folder_path.as_deref(), Some("x/y/z"));
}

#[test]
fn zip_url_is_repo_archive_branch_zip() {
    assert_eq!(
        build_zip_url("https://github.com/owner/repo", "dev"),
        "https://github.com/owner/repo/archive/dev.zip"
    );
}

#[test]
fn zip_url_defaults_to_main() {
    let info = parse_github_url("https://github.com/owner/repo").unwrap();
    assert_eq!(info.zip_url(), "https://github.com/owner/repo/archive/main.zip");
    let info = parse_github_url("https://github.com/owner/repo/tree/v2").unwrap();
    assert_eq!(info.zip_url(), "https://github.com/owner/repo/archive/v2.zip");
}

#[test]
fn error_messages_name_the_kind() {
    assert_eq!(FinderError::InvalidUrl.message(), "invalid GitHub URL");
    assert_eq!(FinderError::Archive.message(), "unreadable zip archive");
}
