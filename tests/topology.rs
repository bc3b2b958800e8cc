use repo_scan::topology::{detect_modules, ModuleKind, RootLayout};

fn empty() -> RootLayout {
    RootLayout {
        tauri_dir: false,
        src_dir: false,
        pubspec: false,
        lib_dir: false,
        lib_main_dart: false,
        backend_dir: false,
        frontend_dir: false,
        server_dir: false,
        client_dir: false,
        apps_dir: false,
        web_dir: false,
        apps_web_dir: false,
    }
}

fn paths(l: &RootLayout) -> Vec<(String, String, ModuleKind)> {
    detect_modules(l).into_iter().map(|m| (m.name, m.rel_path, m.kind)).collect()
}

#[test]
fn monorepo_backend_frontend_split() {
    let l = RootLayout { backend_dir: true, frontend_dir: true, server_dir: true, ..empty() };
    let m = paths(&l);
    assert_eq!(m.len(), 2);
    assert!(m.iter().any(|x| x.1 == "/backend"));
    assert!(m.iter().any(|x| x.1 == "/frontend"));
    assert_eq!(m[0], ("Backend".to_string(), "/backend".to_string(), ModuleKind::Backend));
    assert_eq!(m[1], ("Frontend".to_string(), "/frontend".to_string(), ModuleKind::Frontend));
}

#[test]
fn tauri_convention_comes_first() {
    let l = RootLayout { tauri_dir: true, backend_dir: true, frontend_dir: true, ..empty() };
    let m = paths(&l);
    assert_eq!(m[0].1, "/src-tauri");
    assert_eq!(m[1].1, "/");
    let l = RootLayout { tauri_dir: true, src_dir: true, ..empty() };
    let m = paths(&l);
    assert_eq!(m[0], ("Tauri Core".to_string(), "/src-tauri".to_string(), ModuleKind::Backend));
    assert_eq!(m[1], ("Frontend".to_string(), "/src".to_string(), ModuleKind::Frontend));
}

#[test]
fn flutter_needs_pubspec_and_lib() {
    let m = paths(&RootLayout { pubspec: true, lib_main_dart: true, ..empty() });
    assert_eq!(m, vec![("Flutter App".to_string(), "/".to_string(), ModuleKind::Frontend)]);
    let m = paths(&RootLayout { pubspec: true, ..empty() });
    assert_eq!(m, vec![("Repo".to_string(), "/".to_string(), ModuleKind::Unknown)]);
}

#[test]
fn other_conventions() {
    assert_eq!(paths(&RootLayout { backend_dir: true, ..empty() })[0].1, "/backend");
    assert_eq!(paths(&RootLayout { frontend_dir: true, ..empty() })[0].1, "/frontend");
    let m = paths(&RootLayout { server_dir: true, client_dir: true, ..empty() });
    assert_eq!((m[0].1.as_str(), m[1].1.as_str()), ("/server", "/client"));
    assert_eq!(paths(&RootLayout { client_dir: true, ..empty() })[0].1, "/client");
    let m = paths(&RootLayout { apps_dir: true, web_dir: true, ..empty() });
    assert_eq!(m[0], ("Apps".to_string(), "/apps".to_string(), ModuleKind::Unknown));
    assert_eq!(m[1].1, "/web");
    let m = paths(&RootLayout { apps_dir: true, apps_web_dir: true, ..empty() });
    assert_eq!(m, vec![("Frontend".to_string(), "/apps/web".to_string(), ModuleKind::Frontend)]);
    assert_eq!(paths(&empty()), vec![("Repo".to_string(), "/".to_string(), ModuleKind::Unknown)]);
}
