use repo_file_finder::scan::{
    contents_block, file_extension, strip_leading_dots, ScanAction, ScanConfig,
};
use std::io::{Read, Write};
use std::path::Path;
use tempfile::{Builder, NamedTempFile, TempDir};
use walkdir::WalkDir;

fn config(exts: &[&str], ignored: &[&str], print_contents: bool) -> ScanConfig {
    ScanConfig {
        extensions: exts.iter().map(|e| e.to_string()).collect(),
        ignored_dirs: ignored.iter().map(|e| e.to_string()).collect(),
        print_contents,
    }
}

/// A directory tree on disk that is removed when dropped.
struct Tree {
    files: Vec<NamedTempFile>,
    dirs: Vec<TempDir>,
    root: TempDir,
}

impl Tree {
    fn new() -> Tree {
        Tree { files: Vec::new(), dirs: Vec::new(), root: tempfile::tempdir().unwrap() }
    }

    fn path(&self) -> &Path {
        self.root.path()
    }

    fn dir(&mut self, name: &str) {
        let d = Builder::new().prefix(name).rand_bytes(0).tempdir_in(self.root.path()).unwrap();
        self.dirs.push(d);
    }

    fn file(&mut self, dir: Option<&str>, stem: &str, ext: &str, contents: &[u8]) {
        let parent = match dir {
            Some(d) => self.root.path().join(d),
            None => self.root.path().to_path_buf(),
        };
        let mut f = Builder::new()
            .prefix(stem)
            .suffix(ext)
            .rand_bytes(0)
            .tempfile_in(parent)
            .unwrap();
        f.write_all(contents).unwrap();
        self.files.push(f);
    }

    fn read(&self, path: &Path) -> Option<String> {
        let handle = self.files.iter().find(|f| f.path() == path)?;
        let mut text = String::new();
        handle.reopen().ok()?.read_to_string(&mut text).ok()?;
        Some(text)
    }
}

/// Walks the tree as the finder does, and returns the found files relative to
/// its root, sorted, with the printed blocks of those whose contents were read.
fn walk(tree: &Tree, cfg: &ScanConfig) -> (Vec<String>, Vec<String>) {
    let root = tree.path();
    let mut found = Vec::new();
    let mut printed = Vec::new();
    let it = WalkDir::new(root).into_iter().filter_entry(|e| {
        let name = e.file_name().to_string_lossy().to_string();
        cfg.decide(&name, e.file_type().is_file()) != ScanAction::Prune
    });
    for entry in it {
        let entry = entry.unwrap();
        let name = entry.file_name().to_string_lossy().to_string();
        if cfg.decide(&name, entry.file_type().is_file()) == ScanAction::Found {
            let rel = entry.path().strip_prefix(root).unwrap();
            let rel = rel.to_string_lossy().replace('\\', "/");
            if cfg.print_contents {
                if let Some(contents) = tree.read(entry.path()) {
                    printed.push(contents_block(&rel, &contents));
                }
            }
            found.push(rel);
        }
    }
    found.sort();
    printed.sort();
    (found, printed)
}

fn sample_tree() -> Tree {
    let mut t = Tree::new();
    t.file(None, "a", ".txt", b"alpha");
    t.file(None, "b", ".md", b"beta");
    t.dir("sub");
    t.file(Some("sub"), "c", ".txt", b"gamma");
    t
}

#[test]
fn scan_reports_matching_files_only() {
    let tree = sample_tree();
    let (found, _) = walk(&tree, &config(&["txt"], &[], false));
    assert_eq!(found, vec!["a.txt".to_string(), "sub/c.txt".to_string()]);
}

#[test]
fn ignored_directory_is_pruned() {
    let tree = sample_tree();
    let (found, _) = walk(&tree, &config(&["txt"], &["sub"], false));
    assert_eq!(found, vec!["a.txt".to_string()]);
}

#[test]
fn leading_dot_in_extension_is_ignored() {
    let tree = sample_tree();
    let (plain, _) = walk(&tree, &config(&["txt"], &[], false));
    let (dotted, _) = walk(&tree, &config(&[".txt"], &[], false));
    assert_eq!(plain, dotted);
    let cfg = config(&[".txt"], &[], false);
    assert!(cfg.matches_extension("notes.txt"));
    assert!(!cfg.matches_extension("notes.md"));
}

#[test]
fn unreadable_file_does_not_stop_the_scan() {
    let mut tree = Tree::new();
    tree.file(None, "a", ".txt", b"first");
    tree.file(None, "b", ".txt", &[0xffu8, 0xfe, 0x00, 0x80]);
    tree.file(None, "c", ".txt", b"last");
    let (found, printed) = walk(&tree, &config(&["txt"], &[], true));
    assert_eq!(found, vec!["a.txt".to_string(), "b.txt".to_string(), "c.txt".to_string()]);
    assert_eq!(printed.len(), 2);
}

#[test]
fn decide_prunes_ignored_directories_only() {
    let cfg = config(&["txt"], &["sub", "", "a.txt"], false);
    assert_eq!(cfg.decide("sub", false), ScanAction::Prune);
    assert_eq!(cfg.decide("sub", true), ScanAction::Pass);
    assert_eq!(cfg.decide("a.txt", true), ScanAction::Found);
    assert_eq!(cfg.decide("a.txt", false), ScanAction::Prune);
    assert_eq!(cfg.decide("other", false), ScanAction::Pass);
    assert_eq!(cfg.decide("x.txt", true), ScanAction::Found);
    assert_eq!(cfg.decide("x.txt", false), ScanAction::Pass);
    assert!(!cfg.is_pruned("Sub"));
}

#[test]
fn extension_matching_is_case_sensitive() {
    let cfg = config(&["txt"], &[], false);
    assert!(!cfg.matches_extension("A.TXT"));
    assert!(cfg.matches_extension("archive.tar.txt"));
    assert!(!cfg.matches_extension(".txt"));
    assert!(!cfg.matches_extension("txt"));
}

#[test]
fn file_extension_follows_the_last_dot() {
    assert_eq!(file_extension("a.txt").as_deref(), Some("txt"));
    assert_eq!(file_extension("a.tar.gz").as_deref(), Some("gz"));
    assert_eq!(file_extension("a.").as_deref(), Some(""));
    assert_eq!(file_extension(".bashrc"), None);
    assert_eq!(file_extension("README"), None);
    assert_eq!(file_extension(""), None);
}

#[test]
fn leading_dots_are_stripped() {
    assert_eq!(strip_leading_dots(".txt"), "txt");
    assert_eq!(strip_leading_dots("..txt"), "txt");
    assert_eq!(strip_leading_dots("txt"), "txt");
    assert_eq!(strip_leading_dots("t.x"), "t.x");
    assert_eq!(strip_leading_dots(""), "");
}

#[test]
fn contents_block_has_header_and_separator() {
    let block = contents_block("dir/a.txt", "hello");
    let expected = format!("# File: dir/a.txt\nhello\n# {}\n", "-".repeat(50));
    assert_eq!(block, expected);
}

#[test]
fn file_named_like_an_ignored_directory_is_still_found() {
    let tree = sample_tree();
    let (found, _) = walk(&tree, &config(&["txt"], &["a.txt"], false));
    assert_eq!(found, vec!["a.txt".to_string(), "sub/c.txt".to_string()]);
}
