use repo_scan::js::TechComponent;
use repo_scan::tech_scan::{mark_submodule, merge_submodule};
use repo_scan::techstack::{GitSubmodule, TechGraph};
use repo_scan::techstack::{
    build_js_dependency_graph, detect_package_managers, should_skip_dir, ComponentRef,
    DeclaredDep, RootManifests, TechStackScanOptions,
};

fn comp(id: &str, name: &str, category: &str) -> ComponentRef {
    ComponentRef { id: id.to_string(), name: name.to_string(), category: category.to_string(), version: None }
}

fn dep(name: &str, version: &str) -> DeclaredDep {
    DeclaredDep { name: name.to_string(), version: version.to_string() }
}

#[test]
fn graph_links_manifest_to_detected_components() {
    let deps = vec![dep("lodash", "^4"), dep("react", "^19.0.0"), dep("vite", "^7.0.0")];
    let comps = vec![comp("vite", "Vite", "build"), comp("react", "React", "frontend"), comp("react", "React again", "x")];
    let g = build_js_dependency_graph(&deps, &comps);
    let ids: Vec<&str> = g.nodes.iter().map(|n| n.id.as_str()).collect();
    assert_eq!(ids, vec!["package", "react", "vite"]);
    assert_eq!(g.nodes[1].label, "React");
    assert_eq!(g.nodes[0].label, "package.json");
    assert_eq!(g.nodes[0].category, "meta");
    let edges: Vec<(&str, &str, &str)> =
        g.edges.iter().map(|e| (e.from.as_str(), e.to.as_str(), e.label.as_str())).collect();
    assert_eq!(edges, vec![("package", "react", "^19.0.0"), ("package", "vite", "^7.0.0")]);
}

#[test]
fn package_managers_in_fixed_order() {
    let m = RootManifests {
        pnpm_lock: false,
        yarn_lock: true,
        npm_lock: true,
        bun_lockb: false,
        bun_lock: true,
        poetry_lock: false,
        pipfile_lock: false,
        pipfile: true,
        gemfile_lock: false,
        gemfile: false,
    };
    assert_eq!(detect_package_managers(&m), vec!["yarn", "npm", "bun", "pipenv"]);
}

#[test]
fn skipped_directories() {
    assert!(should_skip_dir("node_modules"));
    assert!(should_skip_dir(".pytest_cache"));
    assert!(!should_skip_dir("src"));
    assert!(!should_skip_dir("Node_Modules"));
    let o = TechStackScanOptions::default();
    assert_eq!((o.max_files, o.max_total_bytes), (6000, 40 * 1024 * 1024));
}

#[test]
fn parse_gitmodules_file() {
    let text = r#"
[submodule "a"]
  path = libs/a
  url = https://github.com/x/a.git
[submodule "b"]
  path = libs/b
  url = https://github.com/x/b.git
"#;
    let mods = repo_scan::techstack::parse_git_submodules(text);
    assert_eq!(mods.len(), 2);
    assert_eq!(mods[0].path, "libs/a");
    assert_eq!(mods[1].path, "libs/b");
    assert_eq!(mods[0].name, "a");
    assert_eq!(mods[1].url.as_deref(), Some("https://github.com/x/b.git"));
    assert!(!mods[0].scanned);
}

#[test]
fn gitmodules_sections_without_path_are_dropped() {
    let text = "# c\n[submodule \"x\"]\nurl = u\n[core]\npath = p\n[submodule \"y\"]\npath = \"  \"\n[submodule \"z\"]\npath=\"q\"\n";
    let mods = repo_scan::techstack::parse_git_submodules(text);
    let got: Vec<(&str, &str, Option<&str>)> =
        mods.iter().map(|m| (m.name.as_str(), m.path.as_str(), m.url.as_deref())).collect();
    assert_eq!(got, vec![("z", "q", None)]);
}

#[test]
fn submodule_findings_are_prefixed() {
    let sub = vec![TechComponent {
        id: "vite".to_string(),
        name: "Vite".to_string(),
        category: "build".to_string(),
        version: None,
        confidence_percent: 90,
        evidence: vec!["package.json: vite".to_string()],
    }];
    let sub_graph = build_js_dependency_graph(&vec![dep("vite", "^7")], &vec![comp("vite", "Vite", "build")]);
    let mut detected = Vec::new();
    let mut graph = TechGraph { nodes: Vec::new(), edges: Vec::new() };
    merge_submodule(&"libs/a".to_string(), &sub, &sub_graph, &mut detected, &mut graph);
    assert_eq!(detected[0].evidence, vec!["submodule libs/a: package.json: vite"]);
    let ids: Vec<&str> = graph.nodes.iter().map(|n| n.id.as_str()).collect();
    assert_eq!(ids, vec!["libs/a::package", "libs/a::vite"]);
    assert_eq!((graph.edges[0].from.as_str(), graph.edges[0].to.as_str()), ("libs/a::package", "libs/a::vite"));
    let mut m = GitSubmodule { name: "a".into(), path: "libs/a".into(), url: None, scanned: false, scan_warning: None };
    mark_submodule(&mut m, true, &vec!["w1".to_string(), "w2".to_string()]);
    assert!(m.scanned);
    assert_eq!(m.scan_warning.as_deref(), Some("w1; w2"));
    mark_submodule(&mut m, false, &vec![]);
    assert!(!m.scanned);
}
