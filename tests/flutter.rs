use repo_scan::classify::SemanticScanConfig;
use repo_scan::detect::ModuleFacts;
use repo_scan::flutter::{decimal_string, extract_first_int, extract_gradle_sdk_versions, parse_pubspec};
use repo_scan::scan::ScanState;
use repo_scan::topology::{detect_modules, ModuleKind, RootLayout};

const PUBSPEC: &str = r#"
name: demo
environment:
  sdk: ">=3.0.0 <4.0.0"
dependencies:
  flutter:
    sdk: flutter
  isar: ^3.1.0
  flutter_riverpod: ^2.0.0
"#;

fn flutter_facts() -> ModuleFacts {
    ModuleFacts {
        kind: ModuleKind::Frontend,
        manage_py: false,
        manage_py_error: None,
        python_deps: Ok(vec![]),
        app_init_py: Ok(None),
        main_py: Ok(None),
        alembic_ini: false,
        custom_ai: false,
        vite_config: false,
        vite_config_error: None,
        package_deps: Ok(None),
        cargo_deps: Ok(None),
        tauri_conf: false,
        pubspec: Ok(Some(PUBSPEC.to_string())),
        android_gradle: Some(Ok("android { defaultConfig { minSdkVersion 24 targetSdkVersion 34 } }\n".to_string())),
        ios_project: true,
    }
}

#[test]
fn detects_flutter_project() {
    let layout = RootLayout {
        tauri_dir: false,
        src_dir: false,
        pubspec: true,
        lib_dir: true,
        lib_main_dart: true,
        backend_dir: false,
        frontend_dir: false,
        server_dir: false,
        client_dir: false,
        apps_dir: false,
        web_dir: false,
        apps_web_dir: true,
    };
    let modules = detect_modules(&layout);
    let cfg = SemanticScanConfig::default();
    let mut state = ScanState::new();
    let files = vec![repo_scan::aggregate::FileEntry { rel_path: "lib/main.dart".to_string(), size: 15 }];
    state.add_module(&modules[0], &flutter_facts(), &files, 0, &cfg);
    let module = state.modules.iter().find(|m| m.path == "/").unwrap();
    assert_eq!(module.name, "Flutter App");
    assert!(module.frameworks.iter().any(|v| v == "Flutter"));
    assert!(module.languages.iter().any(|l| l.language.name() == "Dart"));
    assert!(module.deps.iter().any(|v| v == "Isar"));
    assert!(module.deps.iter().any(|v| v == "Riverpod"));
    assert!(module.deps.iter().any(|v| v == "Android"));
    assert!(module.deps.iter().any(|v| v == "Dart SDK >=3.0.0 <4.0.0"));
    assert!(module.deps.iter().any(|v| v == "Android minSdk=24"));
    assert!(module.deps.iter().any(|v| v == "Android targetSdk=34"));
    assert!(module.deps.iter().any(|v| v == "iOS"));
    let fe = module.frontend.as_ref().unwrap();
    assert_eq!(fe.builder, "Flutter");
    assert_eq!(fe.store, "Riverpod");
    assert_eq!(module.frameworks, vec!["Flutter", "Mobile / Cross-platform"]);
}

#[test]
fn pubspec_sections() {
    let p = parse_pubspec(PUBSPEC);
    assert_eq!(p.deps, vec!["flutter", "sdk", "isar", "flutter_riverpod"]);
    assert_eq!(p.sdk.as_deref(), Some(">=3.0.0 <4.0.0"));
    let p = parse_pubspec("dev_dependencies:\n  Mockito: any\n- x: y\nflutter:\n  uses: true\n");
    assert_eq!(p.deps, vec!["mockito"]);
    assert_eq!(p.sdk, None);
}

#[test]
fn numbers_in_build_files() {
    let v: Vec<char> = "  = 0021;".chars().collect();
    assert_eq!(extract_first_int(&v), Some(21));
    let v: Vec<char> = "none".chars().collect();
    assert_eq!(extract_first_int(&v), None);
    let v: Vec<char> = "x 99999999999 y 3".chars().collect();
    assert_eq!(extract_first_int(&v), None);
    let g = extract_gradle_sdk_versions("minSdk = 21\ncompileSdk 34\n  targetSdk 33\n");
    assert_eq!((g.min_sdk, g.target_sdk), (Some(21), Some(33)));
    assert_eq!(decimal_string(0), "0");
    assert_eq!(decimal_string(4294967295), "4294967295");
    let mut f = flutter_facts();
    f.pubspec = Ok(Some("name: x\n".to_string()));
    f.android_gradle = Some(Err("file too large".to_string()));
    let cfg = SemanticScanConfig::default();
    let mut state = ScanState::new();
    let m = repo_scan::topology::ModuleSpec { name: "App".to_string(), rel_path: "/".to_string(), kind: ModuleKind::Frontend };
    state.add_module(&m, &f, &vec![], 0, &cfg);
    let r = &state.modules[0];
    assert!(r.frameworks.is_empty());
    assert!(r.deps.iter().any(|v| v == "Android"));
    assert!(r.warnings.iter().any(|w| w == "AndroidDetector: file too large"));
}
