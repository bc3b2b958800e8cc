use repo_scan::components::normalize_components;
use repo_scan::js::TechComponent;

fn comp(id: &str, name: &str, category: &str, version: Option<&str>, conf: u32, ev: &[&str]) -> TechComponent {
    TechComponent {
        id: id.to_string(),
        name: name.to_string(),
        category: category.to_string(),
        version: version.map(|s| s.to_string()),
        confidence_percent: conf,
        evidence: ev.iter().map(|s| s.to_string()).collect(),
    }
}

#[test]
fn repeated_detections_are_merged() {
    let list = vec![
        comp("postgres", "PostgreSQL", "database", None, 75, &["package.json: pg"]),
        comp("react", "React", "frontend", Some("^19"), 98, &["b", "a"]),
        comp("postgres", "Postgres", "database", Some("16"), 85, &["docker-compose.yml: postgres", "package.json: pg"]),
        comp("redis", "Redis", "database", None, 75, &[]),
        comp("postgres", "PG", "database", Some("15"), 70, &[]),
    ];
    let out = normalize_components(&list);
    let got: Vec<(&str, &str, Option<&str>, u32, Vec<&str>)> = out
        .iter()
        .map(|c| (c.id.as_str(), c.name.as_str(), c.version.as_deref(), c.confidence_percent, c.evidence.iter().map(|e| e.as_str()).collect()))
        .collect();
    assert_eq!(
        got,
        vec![
            ("react", "React", Some("^19"), 98, vec!["a", "b"]),
            ("postgres", "PostgreSQL", Some("16"), 85, vec!["docker-compose.yml: postgres", "package.json: pg"]),
            ("redis", "Redis", None, 75, vec![]),
        ]
    );
}

#[test]
fn same_id_in_two_categories_stays_apart() {
    let list = vec![comp("x", "X", "test", None, 50, &["t"]), comp("x", "X", "build", None, 50, &["b"])];
    let out = normalize_components(&list);
    let got: Vec<&str> = out.iter().map(|c| c.category.as_str()).collect();
    assert_eq!(got, vec!["build", "test"]);
    assert!(normalize_components(&vec![]).is_empty());
}

#[test]
fn build_and_test_tools_by_category() {
    let list = vec![
        comp("vite", "Vite", "build", None, 90, &[]),
        comp("jest", "Jest", "test", None, 90, &[]),
        comp("webpack", "Webpack", "build", None, 88, &[]),
    ];
    assert_eq!(repo_scan::components::detect_build_tools(&list), vec!["Vite", "Webpack"]);
    assert_eq!(repo_scan::components::detect_test_frameworks(&list), vec!["Jest"]);
}
