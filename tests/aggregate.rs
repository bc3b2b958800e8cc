use repo_scan::aggregate::{aggregate_files, language_breakdown, FileEntry, LocalAgg};
use repo_scan::classify::{classify_file, Language, SemanticScanConfig};

fn entry(p: &str, size: u64) -> FileEntry {
    FileEntry { rel_path: p.to_string(), size }
}

fn sample() -> Vec<FileEntry> {
    vec![
        entry("src/a.ts", 300),
        entry("src/b.ts", 100),
        entry("src/c.py", 600),
        entry("node_modules/x.js", 5000),
        entry("app/migrations/0001_initial.py", 40),
        entry("img/big.png", 6 * 1024 * 1024),
        entry("README.md", 0),
    ]
}

fn snapshot(a: &LocalAgg) -> (u64, u64, u64, u64, u64, Vec<u64>, Vec<u64>, usize, Vec<String>) {
    (
        a.ignored_size,
        a.assets_size,
        a.assets_files,
        a.generated_files,
        a.effective_files,
        a.language_bytes.clone(),
        a.language_files.clone(),
        a.ignored_files.len(),
        a.generated_paths.clone(),
    )
}

#[test]
fn totals_of_a_module() {
    let cfg = SemanticScanConfig::default();
    let agg = aggregate_files(&sample(), &cfg);
    assert_eq!(agg.ignored_size, 5000);
    assert_eq!(agg.assets_files, 1);
    assert_eq!(agg.assets_size, 6 * 1024 * 1024);
    assert_eq!(agg.generated_files, 1);
    assert_eq!(agg.generated_paths, vec!["app/migrations/0001_initial.py".to_string()]);
    assert_eq!(agg.effective_files, 4);
    assert_eq!(agg.ignored_files.len(), 1);
    assert_eq!(agg.ignored_files[0].path, "node_modules/x.js");
    assert_eq!(agg.language_bytes[Language::TypeScript.index()], 400);
    assert_eq!(agg.language_files[Language::TypeScript.index()], 2);
    assert_eq!(agg.language_bytes[Language::Python.index()], 600);
    assert_eq!(agg.language_files[Language::Markdown.index()], 1);
}

#[test]
fn split_and_merge_in_any_order_gives_same_counts() {
    let cfg = SemanticScanConfig::default();
    let all = sample();
    let whole = aggregate_files(&all, &cfg);
    let (left, right) = all.split_at(3);
    let l = aggregate_files(&left.iter().map(|f| entry(&f.rel_path, f.size)).collect(), &cfg);
    let r = aggregate_files(&right.iter().map(|f| entry(&f.rel_path, f.size)).collect(), &cfg);
    let l2 = aggregate_files(&left.iter().map(|f| entry(&f.rel_path, f.size)).collect(), &cfg);
    let r2 = aggregate_files(&right.iter().map(|f| entry(&f.rel_path, f.size)).collect(), &cfg);
    let lr = l.merge(r, cfg.ignored_files_limit);
    let rl = r2.merge(l2, cfg.ignored_files_limit);
    assert_eq!(snapshot(&lr), snapshot(&whole));
    let (a, b) = (snapshot(&rl), snapshot(&whole));
    assert_eq!((a.0, a.1, a.2, a.3, a.4, a.5, a.6, a.7), (b.0, b.1, b.2, b.3, b.4, b.5, b.6, b.7));
}

#[test]
fn file_by_file_matches_fold() {
    let cfg = SemanticScanConfig::default();
    let mut agg = LocalAgg::new();
    for f in sample() {
        let c = classify_file(&f.rel_path, f.size, &cfg);
        agg.add_file(&f.rel_path, f.size, c, cfg.ignored_files_limit);
    }
    assert_eq!(snapshot(&agg), snapshot(&aggregate_files(&sample(), &cfg)));
}

#[test]
fn ignored_list_is_capped() {
    let mut cfg = SemanticScanConfig::default();
    cfg.ignored_files_limit = 2;
    let files: Vec<FileEntry> = (0..5).map(|i| entry(&format!("dist/f{}.js", i), 1)).collect();
    let agg = aggregate_files(&files, &cfg);
    assert_eq!(agg.ignored_files.len(), 2);
    assert_eq!(agg.ignored_size, 5);
}

#[test]
fn breakdown_is_sorted_and_percentages_add_up() {
    let cfg = SemanticScanConfig::default();
    let agg = aggregate_files(&sample(), &cfg);
    let stats = language_breakdown(&agg.language_bytes, &agg.language_files);
    let langs: Vec<(Language, u64, u64)> = stats.iter().map(|s| (s.language, s.bytes, s.files)).collect();
    assert_eq!(
        langs,
        vec![(Language::Python, 600, 1), (Language::TypeScript, 400, 2), (Language::Markdown, 0, 1)]
    );
    let total: u64 = stats.iter().map(|s| s.bytes).sum();
    assert_eq!(total, 1000);
    let percent: f64 = stats.iter().map(|s| s.bytes as f64 * 100.0 / total as f64).sum();
    assert!((percent - 100.0).abs() < 1e-9);
}

#[test]
fn no_code_bytes_means_no_languages() {
    let cfg = SemanticScanConfig::default();
    let agg = aggregate_files(&vec![entry("empty.py", 0), entry("dist/a.js", 9)], &cfg);
    assert!(language_breakdown(&agg.language_bytes, &agg.language_files).is_empty());
    let none = aggregate_files(&vec![], &cfg);
    assert!(language_breakdown(&none.language_bytes, &none.language_files).is_empty());
}
