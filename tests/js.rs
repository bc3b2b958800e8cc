use repo_scan::js::{analyze_package_json, detect_js_components, js_rules, merge_dependency_objects};
use repo_scan::techstack::DeclaredDep;

fn dep(name: &str, version: &str) -> DeclaredDep {
    DeclaredDep { name: name.to_string(), version: version.to_string() }
}

#[test]
fn detect_react_vite_from_package_json() {
    let sections = vec![dep("react", "^19.0.0"), dep("vite", "^7.0.0")];
    let scripts = vec!["vite".to_string()];
    let (detected, graph) = analyze_package_json(&sections, &scripts, &None);
    let has_react = detected.iter().any(|c| c.id == "react" && c.category == "frontend");
    let has_vite = detected.iter().any(|c| c.id == "vite" && c.category == "build");
    assert!(has_react);
    assert!(has_vite);
    let edges: Vec<(&str, &str, &str)> =
        graph.edges.iter().map(|e| (e.from.as_str(), e.to.as_str(), e.label.as_str())).collect();
    assert_eq!(edges, vec![("package", "react", "^19.0.0"), ("package", "vite", "^7.0.0")]);
}

#[test]
fn first_declaration_wins_and_names_are_sorted() {
    let merged = merge_dependency_objects(&vec![dep("zod", "1"), dep("axios", "2"), dep("zod", "3")]);
    let pairs: Vec<(&str, &str)> = merged.iter().map(|d| (d.name.as_str(), d.version.as_str())).collect();
    assert_eq!(pairs, vec![("axios", "2"), ("zod", "1")]);
}

#[test]
fn rules_cover_versions_scripts_and_runtime() {
    let deps = vec![dep("webpack-cli", "5"), dep("ioredis", "4"), dep("pg", "8")];
    let scripts = vec!["jest --ci".to_string()];
    let found = detect_js_components(&js_rules(), &deps, &scripts);
    let ids: Vec<(&str, Option<&str>, u32)> =
        found.iter().map(|c| (c.id.as_str(), c.version.as_deref(), c.confidence_percent)).collect();
    assert_eq!(
        ids,
        vec![("webpack", Some("5"), 88), ("jest", None, 90), ("postgres", Some("8"), 75), ("redis", Some("4"), 70)]
    );
    let (all, graph) = analyze_package_json(&deps, &scripts, &Some(">=18".to_string()));
    assert_eq!(all[0].id, "node");
    assert_eq!(all[0].version.as_deref(), Some(">=18"));
    assert_eq!(all[0].evidence, vec!["package.json: engines.node"]);
    assert!(graph.nodes.iter().any(|n| n.id == "package"));
    assert!(graph.edges.is_empty());
    assert_eq!(js_rules().len(), 22);
}
