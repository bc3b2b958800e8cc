use repo_scan::classify::SemanticScanConfig;
use repo_scan::detect::ModuleFacts;
use repo_scan::report::ModuleReport;
use repo_scan::scan::ScanState;
use repo_scan::techstack::DeclaredDep;
use repo_scan::topology::{ModuleKind, ModuleSpec};

fn dep(name: &str, version: &str) -> DeclaredDep {
    DeclaredDep { name: name.to_string(), version: version.to_string() }
}

fn frontend_facts(package: Result<Option<Vec<DeclaredDep>>, String>, vite: bool) -> ModuleFacts {
    ModuleFacts {
        kind: ModuleKind::Frontend,
        manage_py: false,
        manage_py_error: None,
        python_deps: Ok(vec![]),
        app_init_py: Ok(None),
        main_py: Ok(None),
        alembic_ini: false,
        custom_ai: false,
        vite_config: vite,
        vite_config_error: None,
        package_deps: package,
        cargo_deps: Ok(None),
        tauri_conf: false,
        pubspec: Ok(None),
        android_gradle: None,
        ios_project: false,
    }
}

fn scan_frontend(facts: &ModuleFacts) -> ModuleReport {
    let cfg = SemanticScanConfig::default();
    let mut state = ScanState::new();
    let m = ModuleSpec { name: "Frontend".to_string(), rel_path: "/frontend".to_string(), kind: ModuleKind::Frontend };
    state.add_module(&m, facts, &vec![], 0, &cfg);
    state.modules.pop().unwrap()
}

#[test]
fn invalid_package_json_is_warning_not_crash() {
    let m = scan_frontend(&frontend_facts(Err("package.json parse failed: expected value".to_string()), true));
    assert!(m.frameworks.iter().any(|v| v == "Vite"));
    assert!(m.warnings.iter().any(|w| w.contains("package.json")));
    assert_eq!(m.frontend.unwrap().builder, "Vite");
}

#[test]
fn vue_store_and_ui_from_dependencies() {
    let deps = vec![dep("vue", "^3.4.0"), dep("pinia", "^2.0.0"), dep("element-plus", "^2.0.0"), dep("echarts", "5")];
    let m = scan_frontend(&frontend_facts(Ok(Some(deps)), true));
    let f = m.frontend.unwrap();
    assert_eq!(f.builder, "Vite");
    assert_eq!(f.vue, Some(3));
    assert_eq!(f.store, "Pinia");
    assert_eq!(f.ui, "ElementPlus");
    assert_eq!(f.visualization, vec!["ECharts"]);
    assert_eq!(m.frameworks, vec!["Vite", "Vue3"]);
    assert_eq!(m.deps, vec!["ECharts", "ElementPlus", "Pinia"]);
}

#[test]
fn react_with_tailwind_and_redux() {
    let deps = vec![
        dep("react", "^19.0.0"),
        dep("react-dom", "^19.0.0"),
        dep("redux", "5"),
        dep("tailwindcss", "4"),
        dep("lucide-react", "1"),
    ];
    let m = scan_frontend(&frontend_facts(Ok(Some(deps)), false));
    let f = m.frontend.unwrap();
    assert_eq!(f.builder, "Unknown");
    assert_eq!(f.store, "Redux");
    assert_eq!(f.ui, "Tailwind CSS");
    assert_eq!(f.vue, None);
    assert_eq!(m.frameworks, vec!["React"]);
    assert_eq!(m.deps, vec!["Lucide Icons", "Redux", "Tailwind CSS"]);
}

#[test]
fn kit_first_then_tailwind_label_only() {
    let deps = vec![dep("vuetify", "3"), dep("tailwindcss", "4"), dep("vue", "2.7.0")];
    let m = scan_frontend(&frontend_facts(Ok(Some(deps)), false));
    let f = m.frontend.unwrap();
    assert_eq!(f.ui, "Vuetify");
    assert_eq!(f.vue, None);
    assert_eq!(m.deps, vec!["Tailwind CSS", "Vuetify"]);
}

#[test]
fn backend_module_ignores_frontend_facts() {
    let mut facts = frontend_facts(Ok(Some(vec![dep("react", "1"), dep("react-dom", "1")])), true);
    facts.kind = ModuleKind::Backend;
    let cfg = SemanticScanConfig::default();
    let mut state = ScanState::new();
    let m = ModuleSpec { name: "Backend".to_string(), rel_path: "/backend".to_string(), kind: ModuleKind::Backend };
    state.add_module(&m, &facts, &vec![], 0, &cfg);
    let r = &state.modules[0];
    assert!(r.frontend.is_none());
    assert!(r.frameworks.is_empty());
}

#[test]
fn tauri_project_like_detects_rust_tauri_and_react_tailwind_vite() {
    let cfg = SemanticScanConfig::default();
    let mut state = ScanState::new();
    let layout = repo_scan::topology::RootLayout {
        tauri_dir: true,
        src_dir: true,
        pubspec: false,
        lib_dir: false,
        lib_main_dart: false,
        backend_dir: false,
        frontend_dir: false,
        server_dir: false,
        client_dir: false,
        apps_dir: false,
        web_dir: false,
        apps_web_dir: false,
    };
    let modules = repo_scan::topology::detect_modules(&layout);
    let mut back = frontend_facts(Ok(None), false);
    back.kind = ModuleKind::Backend;
    back.cargo_deps = Ok(Some(vec!["tauri".to_string(), "rusqlite".to_string(), "serde".to_string()]));
    back.tauri_conf = true;
    let back_files = vec![repo_scan::aggregate::FileEntry { rel_path: "src-tauri/src/main.rs".to_string(), size: 30 }];
    state.add_module(&modules[0], &back, &back_files, 0, &cfg);
    let front = frontend_facts(
        Ok(Some(vec![dep("react", "^18.0.0"), dep("react-dom", "^18.0.0"), dep("tailwindcss", "^3.0.0")])),
        true,
    );
    let front_files = vec![repo_scan::aggregate::FileEntry { rel_path: "src/main.tsx".to_string(), size: 31 }];
    state.add_module(&modules[1], &front, &front_files, 0, &cfg);

    let backend = state.modules.iter().find(|m| m.path == "/src-tauri").unwrap();
    assert_eq!(backend.name, "Tauri Core");
    let stack = backend.backend.as_ref().unwrap();
    assert_eq!(stack.framework, "Tauri");
    assert_eq!(stack.db, "SQLite");
    assert!(backend.frameworks.iter().any(|v| v == "Tauri"));
    assert!(backend.deps.iter().any(|v| v == "SQLite"));
    assert!(backend.languages.iter().any(|l| l.language.name() == "Rust"));

    let frontend = state.modules.iter().find(|m| m.path == "/src").unwrap();
    let fe = frontend.frontend.as_ref().unwrap();
    assert_eq!(fe.builder, "Vite");
    assert!(frontend.frameworks.iter().any(|v| v == "React"));
    assert!(frontend.deps.iter().any(|v| v == "Tailwind CSS"));
    assert_eq!(fe.ui, "Tailwind CSS");
    assert!(frontend.languages.iter().any(|l| l.language.name() == "TypeScript"));
}

#[test]
fn rust_rules_keep_known_values() {
    let cfg = SemanticScanConfig::default();
    let mut state = ScanState::new();
    let m = ModuleSpec { name: "Backend".to_string(), rel_path: "/server".to_string(), kind: ModuleKind::Backend };
    let mut facts = frontend_facts(Ok(None), false);
    facts.kind = ModuleKind::Backend;
    facts.python_deps = Ok(vec!["django".to_string(), "psycopg2".to_string()]);
    facts.cargo_deps = Ok(Some(vec!["axum".to_string(), "sqlx".to_string(), "rusqlite".to_string()]));
    state.add_module(&m, &facts, &vec![], 0, &cfg);
    let b = state.modules[0].backend.as_ref().unwrap();
    assert_eq!(b.framework, "Django");
    assert_eq!(b.db, "PostgreSQL");
    assert_eq!(b.orm.as_deref(), Some("Django ORM"));

    let mut facts = frontend_facts(Ok(None), false);
    facts.kind = ModuleKind::Backend;
    facts.cargo_deps = Err("Cargo.toml parse failed".to_string());
    let mut state = ScanState::new();
    state.add_module(&m, &facts, &vec![], 0, &cfg);
    assert!(state.modules[0].warnings.iter().any(|w| w == "RustDetector: Cargo.toml parse failed"));
}
