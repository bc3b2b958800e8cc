use repo_scan::cache::ResultCache;
use repo_scan::manifests::{
    cargo_dependency_names, package_dependencies, package_manifest, pipfile_dependency_names,
    pyproject_dependency_names, RequirementsWalk,
};

#[test]
fn package_json_dependencies_and_errors() {
    let deps = package_dependencies(r#"{ "dependencies": { "vue": "^3.4.0", "x": 1 } }"#).unwrap().unwrap();
    let got: Vec<(&str, &str)> = deps.iter().map(|d| (d.name.as_str(), d.version.as_str())).collect();
    assert_eq!(got, vec![("vue", "^3.4.0"), ("x", "")]);
    assert!(package_dependencies(r#"{ "name": "a" }"#).unwrap().is_none());
    let e = package_dependencies("{ invalid json }").err().unwrap();
    assert!(e.starts_with("package.json parse failed: "));
}

#[test]
fn package_manifest_sections_scripts_node() {
    let p = package_manifest(
        r#"{ "dependencies": { "react": "^19" }, "devDependencies": { "vite": "^7", "n": 3 },
             "scripts": { "dev": "vite" }, "engines": { "node": ">=18" } }"#,
    )
    .ok()
    .unwrap();
    let got: Vec<(&str, &str)> = p.sections.iter().map(|d| (d.name.as_str(), d.version.as_str())).collect();
    assert_eq!(got, vec![("react", "^19"), ("vite", "^7")]);
    assert_eq!(p.scripts, vec!["vite"]);
    assert_eq!(p.node.as_deref(), Some(">=18"));
}

#[test]
fn toml_manifests() {
    let names = cargo_dependency_names("[package]\nname = \"d\"\n[dependencies]\nTauri = \"2\"\nrusqlite = { version = \"0.30\" }\n").unwrap();
    assert_eq!(names, vec!["tauri", "rusqlite"]);
    assert!(cargo_dependency_names("[package]\nname = \"d\"\n").unwrap().is_empty());
    assert!(cargo_dependency_names("[dependencies\n").err().unwrap().starts_with("Cargo.toml parse failed: "));
    let py = pyproject_dependency_names(
        "[tool.poetry.dependencies]\npython = \"^3.11\"\nFlask = \"*\"\n[tool.poetry.group.dev.dependencies]\npytest = \"*\"\n",
    )
    .unwrap();
    assert_eq!(py, vec!["flask", "python", "pytest"]);
}

#[test]
fn pipfile_sections() {
    let names = pipfile_dependency_names("[[source]]\nurl = \"x\"\n[packages]\nDjango = \"*\"\n\"celery\" = \"*\"\n# c\n[dev-packages]\npytest = \"*\"\n[requires]\npython_version = \"3.11\"\n");
    assert_eq!(names, vec!["django", "celery", "pytest"]);
}

#[test]
fn requirements_walk_depth_and_once() {
    let mut w = RequirementsWalk::new(1);
    assert!(w.enter(0, &"/r/requirements.txt".to_string()));
    assert!(w.enter(1, &"/r/base.txt".to_string()));
    assert!(!w.enter(1, &"/r/requirements.txt".to_string()));
    assert!(!w.enter(2, &"/r/deep.txt".to_string()));
}

#[test]
fn cache_hit_is_marked() {
    let mut c = ResultCache::new();
    assert!(c.lookup("tech-local", "fp").is_none());
    let fresh = c.store("tech-local", "fp", "{}".to_string(), 5);
    assert!(!fresh.cache_hit);
    let hit = c.lookup("tech-local", "fp").unwrap();
    assert!(hit.cache_hit);
    assert_eq!(hit.report, "{}");
    assert_eq!(hit.elapsed_ms, 5);
}
