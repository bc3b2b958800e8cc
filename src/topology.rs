//! Partition of a repository root into modules by directory-naming conventions.
use vstd::prelude::*;

verus! {

#[derive(Clone, Copy, Debug, PartialEq, Eq, Structural)]
pub enum ModuleKind {
    Backend,
    Frontend,
    Unknown,
}

/// Which conventional entries exist directly under the repository root.
#[derive(Clone, Copy, Debug, PartialEq, Eq, Structural)]
pub struct RootLayout {
    /// `src-tauri/` is a directory.
    pub tauri_dir: bool,
    /// `src/` is a directory.
    pub src_dir: bool,
    /// `pubspec.yaml` exists.
    pub pubspec: bool,
    /// `lib/` is a directory.
    pub lib_dir: bool,
    /// `lib/main.dart` exists.
    pub lib_main_dart: bool,
    pub backend_dir: bool,
    pub frontend_dir: bool,
    pub server_dir: bool,
    pub client_dir: bool,
    pub apps_dir: bool,
    pub web_dir: bool,
    /// `apps/web/` is a directory.
    pub apps_web_dir: bool,
}

/// One resolved module: display name, path relative to the root (`/` for the root itself),
/// and kind.
pub struct ModuleSpec {
    pub name: String,
    pub rel_path: String,
    pub kind: ModuleKind,
}

pub open spec fn spec_view(m: ModuleSpec) -> (Seq<char>, Seq<char>, ModuleKind) {
    (m.name@, m.rel_path@, m.kind)
}

pub open spec fn specs_view(v: Seq<ModuleSpec>) -> Seq<(Seq<char>, Seq<char>, ModuleKind)> {
    v.map_values(|m: ModuleSpec| spec_view(m))
}

/// The conventions, first match wins: desktop shell, mobile app, backend/frontend,
/// server/client, apps/web, and otherwise the whole root as one module.
pub open spec fn module_plan(l: RootLayout) -> Seq<(Seq<char>, Seq<char>, ModuleKind)> {
    if l.tauri_dir {
        seq![
            ("Tauri Core"@, "/src-tauri"@, ModuleKind::Backend),
            ("Frontend"@, if l.src_dir { "/src"@ } else { "/"@ }, ModuleKind::Frontend),
        ]
    } else if l.pubspec && (l.lib_dir || l.lib_main_dart) {
        seq![("Flutter App"@, "/"@, ModuleKind::Frontend)]
    } else if l.backend_dir && l.frontend_dir {
        seq![
            ("Backend"@, "/backend"@, ModuleKind::Backend),
            ("Frontend"@, "/frontend"@, ModuleKind::Frontend),
        ]
    } else if l.backend_dir {
        seq![("Backend"@, "/backend"@, ModuleKind::Backend)]
    } else if l.frontend_dir {
        seq![("Frontend"@, "/frontend"@, ModuleKind::Frontend)]
    } else if l.server_dir && l.client_dir {
        seq![
            ("Backend"@, "/server"@, ModuleKind::Backend),
            ("Frontend"@, "/client"@, ModuleKind::Frontend),
        ]
    } else if l.server_dir {
        seq![("Backend"@, "/server"@, ModuleKind::Backend)]
    } else if l.client_dir {
        seq![("Frontend"@, "/client"@, ModuleKind::Frontend)]
    } else if l.apps_dir && l.web_dir {
        seq![
            ("Apps"@, "/apps"@, ModuleKind::Unknown),
            ("Frontend"@, "/web"@, ModuleKind::Frontend),
        ]
    } else if l.apps_web_dir {
        seq![("Frontend"@, "/apps/web"@, ModuleKind::Frontend)]
    } else {
        seq![("Repo"@, "/"@, ModuleKind::Unknown)]
    }
}

fn module(name: &str, rel_path: &str, kind: ModuleKind) -> (r: ModuleSpec)
    ensures
        spec_view(r) == (name@, rel_path@, kind),
{
    ModuleSpec { name: String::from_str(name), rel_path: String::from_str(rel_path), kind }
}

fn one(a: ModuleSpec) -> (r: Vec<ModuleSpec>)
    ensures
        specs_view(r@) == seq![spec_view(a)],
{
    let mut v: Vec<ModuleSpec> = Vec::new();
    v.push(a);
    assert(specs_view(v@) =~= seq![spec_view(a)]);
    v
}

fn two(a: ModuleSpec, b: ModuleSpec) -> (r: Vec<ModuleSpec>)
    ensures
        specs_view(r@) == seq![spec_view(a), spec_view(b)],
{
    let mut v: Vec<ModuleSpec> = Vec::new();
    v.push(a);
    v.push(b);
    assert(specs_view(v@) =~= seq![spec_view(a), spec_view(b)]);
    v
}

/// Resolves the modules of a repository root from its layout.
pub fn detect_modules(l: &RootLayout) -> (r: Vec<ModuleSpec>)
    ensures
        specs_view(r@) == module_plan(*l),
{
    if l.tauri_dir {
        let front = if l.src_dir {
            module("Frontend", "/src", ModuleKind::Frontend)
        } else {
            module("Frontend", "/", ModuleKind::Frontend)
        };
        two(module("Tauri Core", "/src-tauri", ModuleKind::Backend), front)
    } else if l.pubspec && (l.lib_dir || l.lib_main_dart) {
        one(module("Flutter App", "/", ModuleKind::Frontend))
    } else if l.backend_dir && l.frontend_dir {
        two(
            module("Backend", "/backend", ModuleKind::Backend),
            module("Frontend", "/frontend", ModuleKind::Frontend),
        )
    } else if l.backend_dir {
        one(module("Backend", "/backend", ModuleKind::Backend))
    } else if l.frontend_dir {
        one(module("Frontend", "/frontend", ModuleKind::Frontend))
    } else if l.server_dir && l.client_dir {
        two(
            module("Backend", "/server", ModuleKind::Backend),
            module("Frontend", "/client", ModuleKind::Frontend),
        )
    } else if l.server_dir {
        one(module("Backend", "/server", ModuleKind::Backend))
    } else if l.client_dir {
        one(module("Frontend", "/client", ModuleKind::Frontend))
    } else if l.apps_dir && l.web_dir {
        two(
            module("Apps", "/apps", ModuleKind::Unknown),
            module("Frontend", "/web", ModuleKind::Frontend),
        )
    } else if l.apps_web_dir {
        one(module("Frontend", "/apps/web", ModuleKind::Frontend))
    } else {
        one(module("Repo", "/", ModuleKind::Unknown))
    }
}

/// With `backend/` and `frontend/` both present and no desktop-shell or mobile-app
/// convention matching, there are exactly two modules, at `/backend` and `/frontend`.
pub proof fn lemma_backend_frontend_split(l: RootLayout)
    requires
        l.backend_dir,
        l.frontend_dir,
        !l.tauri_dir,
        !(l.pubspec && (l.lib_dir || l.lib_main_dart)),
    ensures
        module_plan(l).len() == 2,
        module_plan(l)[0].1 == "/backend"@,
        module_plan(l)[1].1 == "/frontend"@,
        module_plan(l)[0].2 == ModuleKind::Backend,
        module_plan(l)[1].2 == ModuleKind::Frontend,
{
}

/// Every layout yields one or two modules.
pub proof fn lemma_plan_nonempty(l: RootLayout)
    ensures
        1 <= module_plan(l).len() <= 2,
{
}

} // verus!
