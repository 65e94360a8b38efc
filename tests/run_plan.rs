use repo_file_finder::error::FinderError;
use repo_file_finder::logging::{log_level, LogLevel};
use repo_file_finder::run::{plan_run, RunPlan};

#[test]
fn no_url_scans_the_current_directory() {
    assert!(matches!(plan_run(None), Ok(RunPlan::ScanLocal)));
}

#[test]
fn url_with_folder_fetches_branch_and_scans_folder() {
    match plan_run(Some("https://github.com/o/r/tree/dev/src/lib")) {
        Ok(RunPlan::Fetch { zip_url, folder }) => {
            assert_eq!(zip_url, "https://github.com/o/r/archive/dev.zip");
            assert_eq!(folder.as_deref(), Some("src/lib"));
        }
        _ => panic!("expected a fetch plan"),
    }
}

#[test]
fn url_without_branch_fetches_main() {
    match plan_run(Some("https://github.com/o/r")) {
        Ok(RunPlan::Fetch { zip_url, folder }) => {
            assert_eq!(zip_url, "https://github.com/o/r/archive/main.zip");
            assert_eq!(folder, None);
        }
        _ => panic!("expected a fetch plan"),
    }
}

#[test]
fn bad_url_fails_the_plan() {
    assert!(matches!(plan_run(Some("https://example.com/o/r")), Err(FinderError::InvalidUrl)));
}

#[test]
fn verbosity_levels() {
    assert_eq!(log_level(0), LogLevel::Warn);
    assert_eq!(log_level(1), LogLevel::Info);
    assert_eq!(log_level(2), LogLevel::Debug);
    assert_eq!(log_level(200), LogLevel::Debug);
}
