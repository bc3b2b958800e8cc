use repo_scan::aggregate::FileEntry;
use repo_scan::classify::SemanticScanConfig;
use repo_scan::detect::{build_detectors, DetectorKind, ModuleFacts};
use repo_scan::python::{has_custom_ai_logic, parse_requirements};
use repo_scan::report::ModuleReport;
use repo_scan::scan::ScanState;
use repo_scan::topology::{ModuleKind, ModuleSpec};

fn backend_facts(deps: &[&str]) -> ModuleFacts {
    ModuleFacts {
        kind: ModuleKind::Backend,
        manage_py: false,
        manage_py_error: None,
        python_deps: Ok(deps.iter().map(|s| s.to_string()).collect()),
        app_init_py: Ok(None),
        main_py: Ok(None),
        alembic_ini: false,
        custom_ai: false,
        vite_config: false,
        vite_config_error: None,
        package_deps: Ok(None),
        cargo_deps: Ok(None),
        tauri_conf: false,
        pubspec: Ok(None),
        android_gradle: None,
        ios_project: false,
    }
}

fn backend_module() -> ModuleSpec {
    ModuleSpec { name: "Backend".to_string(), rel_path: "/backend".to_string(), kind: ModuleKind::Backend }
}

fn scan_one(facts: &ModuleFacts, files: Vec<FileEntry>) -> ModuleReport {
    let cfg = SemanticScanConfig::default();
    let mut state = ScanState::new();
    state.add_module(&backend_module(), facts, &files, 0, &cfg);
    state.modules.pop().unwrap()
}

#[test]
fn requirements_lines() {
    let r = parse_requirements("Django>=3.2,<4.0\n# comment\ncelery\npsycopg2-binary\n");
    assert_eq!(r.names, vec!["django", "celery", "psycopg2-binary"]);
    let r = parse_requirements(
        "-r base.txt\n--requirement  dev.txt\n-e .\nrequests[security] ; python_version<'3'\nflask  # web\ngit+https://x/y.git\nhttp://x/y.whl\n  \nNumpy!=1.0\n",
    );
    assert_eq!(r.names, vec!["requests", "flask", "numpy"]);
    assert_eq!(r.includes, vec!["base.txt", "dev.txt"]);
    assert!(parse_requirements("").names.is_empty());
}

#[test]
fn django_celery_postgres_scenario() {
    let mut f = backend_facts(&["django", "celery", "psycopg2"]);
    f.manage_py = true;
    let m = scan_one(&f, vec![]);
    let b = m.backend.unwrap();
    assert_eq!(b.framework, "Django");
    assert_eq!(b.orm.as_deref(), Some("Django ORM"));
    assert_eq!(b.queue, "Celery");
    assert_eq!(b.db, "PostgreSQL");
    assert!(m.deps.iter().any(|d| d == "Celery"));
    assert!(m.deps.iter().any(|d| d == "PostgreSQL"));
    assert_eq!(m.frameworks, vec!["Django"]);
}

#[test]
fn missing_manage_or_requirements_falls_back_unknown() {
    let m = scan_one(&backend_facts(&["celery"]), vec![]);
    let backend = m.backend.unwrap();
    assert_eq!(backend.framework, "Python App (Generic)");
    assert_eq!(backend.queue, "Celery");
}

#[test]
fn db_driver_priority_psycopg2_over_mysqlclient() {
    let mut f = backend_facts(&["mysqlclient", "psycopg2"]);
    f.manage_py = true;
    let m = scan_one(&f, vec![]);
    assert_eq!(m.backend.unwrap().db, "PostgreSQL");
    let m = scan_one(&backend_facts(&["mysqlclient"]), vec![]);
    assert_eq!(m.backend.unwrap().db, "MySQL");
}

#[test]
fn deep_nested_migrations_is_generated() {
    let mut f = backend_facts(&[]);
    f.manage_py = true;
    let cfg = SemanticScanConfig::default();
    let mut state = ScanState::new();
    let files = vec![
        FileEntry { rel_path: "backend/manage.py".to_string(), size: 12 },
        FileEntry { rel_path: "backend/apps/deep/nested/migrations/001.py".to_string(), size: 90 },
    ];
    state.add_module(&backend_module(), &f, &files, 4, &cfg);
    let m = &state.modules[0];
    assert!(m.generated.is_some());
    assert_eq!(m.generated.as_ref().unwrap().lines, 4);
    assert!(state.summary.generated_files >= 1);
    assert_eq!(state.summary.total_size, 102);
    assert_eq!(state.summary.effective_files, 1);
}

#[test]
fn learning_analytics_system_like_detects_flask_sqlalchemy_alembic_ai() {
    let mut f = backend_facts(&["flask", "sqlalchemy", "alembic", "openai"]);
    f.app_init_py = Ok(Some("from flask import Flask\n\napp = Flask(__name__)\n".to_string()));
    f.alembic_ini = true;
    f.custom_ai = has_custom_ai_logic(&vec![
        "backend/run.py".to_string(),
        "backend/app/services/ai_planner/llm_client.py".to_string(),
    ]);
    assert!(f.custom_ai);
    let m = scan_one(&f, vec![]);
    let stack = m.backend.unwrap();
    assert_eq!(stack.framework, "Flask");
    assert_eq!(stack.orm.as_deref(), Some("SQLAlchemy"));
    assert_eq!(stack.migrations.as_deref(), Some("Alembic"));
    assert!(stack.ai_features.iter().any(|v| v == "OpenAI"));
    assert!(stack.ai_features.iter().any(|v| v == "Custom AI Logic"));
    assert_eq!(m.deps, vec!["Alembic", "Custom AI Logic", "OpenAI", "SQLAlchemy"]);
}

#[test]
fn fastapi_from_main_module_and_unreadable_manifest_is_a_warning() {
    let mut f = backend_facts(&[]);
    f.main_py = Ok(Some("from fastapi import FastAPI\napp = FastAPI()\n".to_string()));
    let m = scan_one(&f, vec![]);
    assert_eq!(m.backend.unwrap().framework, "FastAPI");

    let mut f = backend_facts(&[]);
    f.python_deps = Err("file too large".to_string());
    let m = scan_one(&f, vec![]);
    assert!(m.warnings.iter().any(|w| w == "PythonDepsDetector: file too large"));
    assert!(m.warnings.iter().any(|w| w == "AiFeatureDetector: file too large"));
}

#[test]
fn custom_ai_paths() {
    assert!(has_custom_ai_logic(&vec!["src\\LLM\\x.py".to_string()]));
    assert!(has_custom_ai_logic(&vec!["a/prompts.py".to_string()]));
    assert!(!has_custom_ai_logic(&vec!["src/aid/x.py".to_string(), "mail.py".to_string()]));
}

#[test]
fn registry_order() {
    let ids: Vec<&str> = build_detectors().iter().map(|d| d.id()).collect();
    assert_eq!(
        ids,
        vec![
            "DjangoDetector",
            "PythonDepsDetector",
            "MicroFrameworkDetector",
            "OrmMigrationDetector",
            "AiFeatureDetector",
            "RustDetector",
            "FlutterDetector",
            "AndroidDetector",
            "IosDetector",
            "ViteDetector",
            "PackageJsonDepsDetector",
            "FrontendVisDetector"
        ]
    );
    assert_eq!(DetectorKind::Django.id(), "DjangoDetector");
}

#[test]
fn two_scans_of_the_same_input_agree() {
    let mut f = backend_facts(&["django", "celery"]);
    f.manage_py = true;
    let files = || {
        vec![
            FileEntry { rel_path: "backend/a.py".to_string(), size: 10 },
            FileEntry { rel_path: "backend/node_modules/b.js".to_string(), size: 3 },
        ]
    };
    let a = scan_one(&f, files());
    let b = scan_one(&f, files());
    assert_eq!(a.frameworks, b.frameworks);
    assert_eq!(a.deps, b.deps);
    assert_eq!(a.warnings, b.warnings);
    let la: Vec<_> = a.languages.iter().map(|s| (s.language, s.bytes, s.files)).collect();
    let lb: Vec<_> = b.languages.iter().map(|s| (s.language, s.bytes, s.files)).collect();
    assert_eq!(la, lb);
    assert_eq!(a.backend.unwrap().framework, b.backend.unwrap().framework);
}
