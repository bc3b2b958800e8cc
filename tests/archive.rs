use repo_scan::archive::{
    archive_url, choose_scan_root, parse_github_input, plan_extraction, sanitize_zip_path,
    ArchiveError, DownloadError, DownloadGuard, GithubInputError, DOWNLOAD_LIMIT_BYTES,
};

#[test]
fn parse_github_owner_repo() {
    let parsed = parse_github_input("https://github.com/owner/repo").ok().unwrap();
    assert_eq!(parsed.owner, "owner");
    assert_eq!(parsed.repo, "repo");
    assert_eq!(parsed.reference, "HEAD");
    assert!(parsed.subdir.is_none());
}

#[test]
fn parse_github_tree_ref_subdir() {
    let parsed = parse_github_input("owner/repo/tree/main/apps/web").ok().unwrap();
    assert_eq!(parsed.owner, "owner");
    assert_eq!(parsed.repo, "repo");
    assert_eq!(parsed.reference, "main");
    assert_eq!(parsed.subdir.as_deref(), Some("apps/web"));
}

#[test]
fn github_reference_forms_and_errors() {
    let p = parse_github_input("  owner/repo  ").ok().unwrap();
    assert_eq!(p.display, "owner/repo@HEAD");
    let p = parse_github_input("http://www.github.com/o/r.git/").ok().unwrap();
    assert_eq!((p.owner.as_str(), p.repo.as_str()), ("o", "r"));
    let p = parse_github_input("github.com/o/r/tree/dev/a/b").ok().unwrap();
    assert_eq!(p.display, "o/r@dev/a/b");
    assert_eq!(archive_url(&p), "https://codeload.github.com/o/r/zip/dev");
    assert!(matches!(parse_github_input("   "), Err(GithubInputError::Empty)));
    assert!(matches!(parse_github_input("owner"), Err(GithubInputError::Malformed)));
    assert!(matches!(parse_github_input("o/.git"), Err(GithubInputError::Malformed)));
}

#[test]
fn unsafe_entries_are_rejected() {
    assert_eq!(sanitize_zip_path("repo-main/src/lib.rs").as_deref(), Some("repo-main/src/lib.rs"));
    assert_eq!(sanitize_zip_path("./a//b/./c").as_deref(), Some("a/b/c"));
    assert_eq!(sanitize_zip_path("../evil"), None);
    assert_eq!(sanitize_zip_path("a/../../evil"), None);
    assert_eq!(sanitize_zip_path("/etc/passwd"), None);
    assert_eq!(sanitize_zip_path("a/..b/c").as_deref(), Some("a/..b/c"));
}

#[test]
fn archive_with_one_bad_entry_is_refused_whole() {
    let names: Vec<String> = vec!["r/a.txt".into(), "r/b/../../x".into(), "r/c.txt".into()];
    assert_eq!(plan_extraction(&names).err(), Some(ArchiveError::UnsafeEntry { index: 1 }));
    let ok: Vec<String> = vec!["r/".into(), "r/a.txt".into()];
    assert_eq!(plan_extraction(&ok).ok(), Some(vec!["r".to_string(), "r/a.txt".to_string()]));
}

#[test]
fn single_top_level_directory_becomes_root() {
    assert_eq!(choose_scan_root(&vec!["repo-main".to_string()]), Some("repo-main".to_string()));
    assert_eq!(choose_scan_root(&vec!["a".to_string(), "b".to_string()]), None);
    assert_eq!(choose_scan_root(&vec![]), None);
}

#[test]
fn download_size_is_bounded() {
    assert!(matches!(DownloadGuard::start(Some(DOWNLOAD_LIMIT_BYTES + 1), DOWNLOAD_LIMIT_BYTES), Err(DownloadError::TooLarge)));
    let mut g = DownloadGuard::start(None, 100).ok().unwrap();
    assert!(g.on_chunk(60).is_ok());
    assert!(g.on_chunk(40).is_ok());
    assert!(matches!(g.on_chunk(1), Err(DownloadError::TooLarge)));
    assert_eq!(g.received, 101);
    assert_eq!(DOWNLOAD_LIMIT_BYTES, 80 * 1024 * 1024);
}
