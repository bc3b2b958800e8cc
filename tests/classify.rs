use repo_scan::classify::{
    classify_file, language_from_extension, Classification, IgnoreReason, Language,
    SemanticScanConfig,
};

fn cfg() -> SemanticScanConfig {
    SemanticScanConfig::default()
}

#[test]
fn ignored_dir_segment_wins_over_extension_and_size() {
    let c = cfg();
    assert_eq!(
        classify_file("node_modules/foo.js", 10, &c),
        Classification::Ignored { reason: IgnoreReason::Dir }
    );
    assert_eq!(
        classify_file("web/Node_Modules/pkg/big.bin", 50 * 1024 * 1024, &c),
        Classification::Ignored { reason: IgnoreReason::Dir }
    );
    assert_eq!(
        classify_file("a\\dist\\x.sql", 1, &c),
        Classification::Ignored { reason: IgnoreReason::Dir }
    );
    assert_eq!(IgnoreReason::Dir.label(), "ignoredDir");
}

#[test]
fn segment_must_match_whole_name() {
    let c = cfg();
    assert_eq!(
        classify_file("my_node_modules_x/foo.ts", 10, &c),
        Classification::Code { language: Language::TypeScript }
    );
}

#[test]
fn large_file_is_asset_unless_ignored() {
    let c = cfg();
    let big = 5 * 1024 * 1024 + 1;
    assert_eq!(classify_file("src/logo.png", big, &c), Classification::Asset);
    assert_eq!(classify_file("app/migrations/0001_initial.py", big, &c), Classification::Asset);
    assert_eq!(
        classify_file("src/app.ts", 5 * 1024 * 1024, &c),
        Classification::Code { language: Language::TypeScript }
    );
    assert_eq!(
        classify_file("dump.sql", big, &c),
        Classification::Ignored { reason: IgnoreReason::Extension }
    );
}

#[test]
fn minified_and_extension_rules() {
    let c = cfg();
    assert_eq!(
        classify_file("static/app.min.js", 10, &c),
        Classification::Ignored { reason: IgnoreReason::Minified }
    );
    assert_eq!(
        classify_file("Cargo.LOCK", 10, &c),
        Classification::Ignored { reason: IgnoreReason::Extension }
    );
    assert_eq!(IgnoreReason::Minified.label(), "ignoredMinified");
    assert_eq!(IgnoreReason::Extension.label(), "ignoredExtension");
}

#[test]
fn migrations_are_generated() {
    let c = cfg();
    assert_eq!(classify_file("app/migrations/0001_initial.py", 100, &c), Classification::Generated);
    assert_eq!(
        classify_file("backend/apps/deep/nested/migrations/001.py", 100, &c),
        Classification::Generated
    );
    assert_eq!(
        classify_file("app/migrations/readme.md", 100, &c),
        Classification::Code { language: Language::Markdown }
    );
    assert_eq!(
        classify_file("migrations.py", 100, &c),
        Classification::Code { language: Language::Python }
    );
}

#[test]
fn language_table() {
    assert_eq!(language_from_extension("src/main.rs"), Language::Rust);
    assert_eq!(language_from_extension("a/b.tsx"), Language::TypeScript);
    assert_eq!(language_from_extension("x.mjs"), Language::JavaScript);
    assert_eq!(language_from_extension("ios/app.mm"), Language::ObjectiveC);
    assert_eq!(language_from_extension("conf.plist"), Language::Config);
    assert_eq!(language_from_extension(".bashrc"), Language::Other);
    assert_eq!(language_from_extension("makefile"), Language::Other);
    assert_eq!(language_from_extension("dir.v2/file"), Language::Other);
    assert_eq!(Language::ObjectiveC.name(), "Objective-C");
    assert_eq!(Language::Css.name(), "CSS");
    for i in 0..16 {
        assert_eq!(Language::from_index(i).index(), i);
    }
}

#[test]
fn default_config_values() {
    let c = cfg();
    assert_eq!(c.ignore_extensions, vec![".sql", ".lock", ".map", ".log", ".tmp", ".bak"]);
    assert_eq!(
        c.ignore_dirs,
        vec!["node_modules", ".git", "__pycache__", "dist", "build", ".venv", "venv"]
    );
    assert_eq!(c.max_config_bytes, 1_048_576);
    assert_eq!(c.asset_threshold_bytes, 5 * 1024 * 1024);
    assert_eq!(c.ignored_files_limit, 200);
    assert_eq!(c.follow_requirements_depth, 3);
}
