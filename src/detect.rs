//! The detectors of the Python backend, run in a fixed order on each module.
use vstd::prelude::*;

use crate::classify::string_views;
use crate::python::{
    ai_fold, any_dep, apply_backend_ai_features, apply_backend_microframework,
    apply_backend_orm_migrations, apply_backend_semantics, first_orm, is_open_framework,
    microframework_of, semantics_backend, same_shape,
};
use crate::report::{
    backend_or_unknown, backend_view, current_backend, push_label, BackendStack, BackendView,
    ModuleReport,
};
use crate::text::{chars_of, contains, contains_str, split, split_chars, views};
use crate::topology::ModuleKind;

verus! {

/// The detectors, in the order they run.
#[derive(Clone, Copy, Debug, PartialEq, Eq, Structural)]
pub enum DetectorKind {
    Django,
    PythonDeps,
    MicroFramework,
    OrmMigration,
    AiFeature,
    Rust,
    Flutter,
    Android,
    Ios,
    Vite,
    PackageJsonDeps,
    FrontendVis,
}

pub open spec fn detector_id(d: DetectorKind) -> Seq<char> {
    match d {
        DetectorKind::Django => "DjangoDetector"@,
        DetectorKind::PythonDeps => "PythonDepsDetector"@,
        DetectorKind::MicroFramework => "MicroFrameworkDetector"@,
        DetectorKind::OrmMigration => "OrmMigrationDetector"@,
        DetectorKind::AiFeature => "AiFeatureDetector"@,
        DetectorKind::Rust => "RustDetector"@,
        DetectorKind::Flutter => "FlutterDetector"@,
        DetectorKind::Android => "AndroidDetector"@,
        DetectorKind::Ios => "IosDetector"@,
        DetectorKind::Vite => "ViteDetector"@,
        DetectorKind::PackageJsonDeps => "PackageJsonDepsDetector"@,
        DetectorKind::FrontendVis => "FrontendVisDetector"@,
    }
}

impl DetectorKind {
    pub fn id(&self) -> (r: &'static str)
        ensures
            r@ == detector_id(*self),
    {
        match self {
            DetectorKind::Django => "DjangoDetector",
            DetectorKind::PythonDeps => "PythonDepsDetector",
            DetectorKind::MicroFramework => "MicroFrameworkDetector",
            DetectorKind::OrmMigration => "OrmMigrationDetector",
            DetectorKind::AiFeature => "AiFeatureDetector",
            DetectorKind::Rust => "RustDetector",
            DetectorKind::Flutter => "FlutterDetector",
            DetectorKind::Android => "AndroidDetector",
            DetectorKind::Ios => "IosDetector",
            DetectorKind::Vite => "ViteDetector",
            DetectorKind::PackageJsonDeps => "PackageJsonDepsDetector",
            DetectorKind::FrontendVis => "FrontendVisDetector",
        }
    }
}

/// The detectors, in the order they run: precedence is the order of this list.
pub open spec fn detector_order() -> Seq<DetectorKind> {
    seq![
        DetectorKind::Django,
        DetectorKind::PythonDeps,
        DetectorKind::MicroFramework,
        DetectorKind::OrmMigration,
        DetectorKind::AiFeature,
        DetectorKind::Rust,
        DetectorKind::Flutter,
        DetectorKind::Android,
        DetectorKind::Ios,
        DetectorKind::Vite,
        DetectorKind::PackageJsonDeps,
        DetectorKind::FrontendVis,
    ]
}

/// The registry: precedence is the order of this list.
pub fn build_detectors() -> (r: Vec<DetectorKind>)
    ensures
        r@ == detector_order(),
        r@ == seq![
            DetectorKind::Django,
            DetectorKind::PythonDeps,
            DetectorKind::MicroFramework,
            DetectorKind::OrmMigration,
            DetectorKind::AiFeature,
            DetectorKind::Rust,
            DetectorKind::Flutter,
            DetectorKind::Android,
            DetectorKind::Ios,
            DetectorKind::Vite,
            DetectorKind::PackageJsonDeps,
            DetectorKind::FrontendVis,
        ],
{
    let mut v: Vec<DetectorKind> = Vec::new();
    v.push(DetectorKind::Django);
    v.push(DetectorKind::PythonDeps);
    v.push(DetectorKind::MicroFramework);
    v.push(DetectorKind::OrmMigration);
    v.push(DetectorKind::AiFeature);
    v.push(DetectorKind::Rust);
    v.push(DetectorKind::Flutter);
    v.push(DetectorKind::Android);
    v.push(DetectorKind::Ios);
    v.push(DetectorKind::Vite);
    v.push(DetectorKind::PackageJsonDeps);
    v.push(DetectorKind::FrontendVis);
    assert(v@ =~= seq![
        DetectorKind::Django,
        DetectorKind::PythonDeps,
        DetectorKind::MicroFramework,
        DetectorKind::OrmMigration,
        DetectorKind::AiFeature,
        DetectorKind::Rust,
        DetectorKind::Flutter,
        DetectorKind::Android,
        DetectorKind::Ios,
        DetectorKind::Vite,
        DetectorKind::PackageJsonDeps,
        DetectorKind::FrontendVis,
    ]);
    v
}

/// What the detectors read from a module's files, gathered beforehand. An `Err` holds
/// why a file could not be read or was too large.
pub struct ModuleFacts {
    pub kind: ModuleKind,
    /// `manage.py` exists.
    pub manage_py: bool,
    /// Why `manage.py` could not be read, if it could not.
    pub manage_py_error: Option<String>,
    /// The dependency names of `requirements.txt` (with its includes), `pyproject.toml`
    /// and `Pipfile`, in that order.
    pub python_deps: Result<Vec<String>, String>,
    /// The text of `app/__init__.py`, if it exists.
    pub app_init_py: Result<Option<String>, String>,
    /// The text of `main.py`, else of `app/main.py`, if one exists.
    pub main_py: Result<Option<String>, String>,
    /// `migrations/alembic.ini` exists.
    pub alembic_ini: bool,
    /// Some path of the module looks like hand-written AI code.
    pub custom_ai: bool,
    /// `vite.config.ts` or `vite.config.js` exists (in the module, or in its parent for
    /// a module directory named `src`).
    pub vite_config: bool,
    /// Why the Vite configuration could not be read, if it could not.
    pub vite_config_error: Option<String>,
    /// The `dependencies` of `package.json`: `Ok(None)` when there is no such file or no
    /// such object, `Err` with the warning to record when it cannot be read or parsed.
    pub package_deps: Result<Option<Vec<crate::techstack::DeclaredDep>>, String>,
    /// The dependency names of `Cargo.toml` in lower case (for a `src-tauri` module, the
    /// parent's when the module has none): `Ok(None)` when there is no such file.
    pub cargo_deps: Result<Option<Vec<String>>, String>,
    /// `tauri.conf.json` exists in the module.
    pub tauri_conf: bool,
    /// The text of `pubspec.yaml`, if it exists.
    pub pubspec: Result<Option<String>, String>,
    /// The text of `android/build.gradle` (else `android/build.gradle.kts`), if one exists.
    pub android_gradle: Option<Result<String, String>>,
    /// `ios/` holds a `Podfile` or an `.xcodeproj`.
    pub ios_project: bool,
}

/// One of the first fifty lines of `text` contains `pat`.
pub open spec fn head_contains(text: Seq<char>, pat: Seq<char>) -> bool {
    exists|i: int| 0 <= i < 50 && 0 <= i < split(text, '\n').len() && contains(#[trigger] split(text, '\n')[i], pat)
}

pub fn head_contains_exec(text: &String, pat: &str) -> (r: bool)
    ensures
        r == head_contains(text@, pat@),
{
    let lines = split_chars(&chars_of(text.as_str()), '\n');
    let ghost lv = views(lines@);
    let mut i: usize = 0;
    while i < lines.len() && i < 50
        invariant
            i <= lines@.len(),
            i <= 50,
            lv == views(lines@),
            lv == split(text@, '\n'),
            forall|j: int| 0 <= j < i ==> !contains(#[trigger] lv[j], pat@),
        decreases lines@.len() - i,
    {
        if contains_str(&lines[i], pat) {
            assert(contains(lv[i as int], pat@));
            return true;
        }
        i += 1;
    }
    false
}

pub open spec fn django_backend() -> BackendView {
    BackendView {
        framework: "Django"@,
        rest: false,
        db: "None"@,
        queue: "None"@,
        orm: Some("Django ORM"@),
        migrations: Some("Django Migrations"@),
        ai: Seq::empty(),
    }
}

/// What `detect_django` guarantees, from the report before (`o`) to the report after (`n`).
pub open spec fn django_post(facts: &ModuleFacts, o: ModuleReport, n: ModuleReport, r: Result<(), String>) -> bool {
    &&& (r.is_ok())
    &&& (same_shape(&n, &o))
    &&& (n.frontend == o.frontend)
    &&& (n.deps == o.deps)
    &&& (facts.kind == ModuleKind::Backend && facts.manage_py ==> {
            &&& n.backend.is_some()
            &&& backend_view(n.backend.unwrap()) == django_backend()
            &&& string_views(n.frameworks@) == string_views(o.frameworks@).push("Django"@)
            &&& string_views(n.warnings@) == string_views(o.warnings@) + match facts.manage_py_error {
                Some(e) => seq!["manage.py: "@ + e@],
                None => Seq::empty(),
            }
        })
    &&& (!(facts.kind == ModuleKind::Backend && facts.manage_py) ==> n == o)
}

/// A backend module with `manage.py` is a Django project (any earlier backend is replaced).
pub fn detect_django(facts: &ModuleFacts, report: &mut ModuleReport) -> (r: Result<(), String>)
    ensures
        django_post(facts, *old(report), *final(report), r),
{
    if facts.kind != ModuleKind::Backend || !facts.manage_py {
        return Ok(());
    }
    let ghost w0 = string_views(report.warnings@);
    match &facts.manage_py_error {
        Some(e) => {
            let mut msg = String::from_str("manage.py: ");
            msg.append(e.as_str());
            let ghost before = report.warnings@;
            report.warnings.push(msg);
            assert(string_views(report.warnings@) =~= w0 + seq!["manage.py: "@ + e@]);
        },
        None => {
            assert(string_views(report.warnings@) =~= w0 + Seq::<Seq<char>>::empty());
        },
    }
    push_label(&mut report.frameworks, "Django");
    let b = BackendStack {
        framework: String::from_str("Django"),
        rest: false,
        db: String::from_str("None"),
        queue: String::from_str("None"),
        orm: Some(String::from_str("Django ORM")),
        migrations: Some(String::from_str("Django Migrations")),
        ai_features: Vec::new(),
    };
    assert(string_views(b.ai_features@) =~= Seq::<Seq<char>>::empty());
    assert(backend_view(b) =~= django_backend());
    report.backend = Some(b);
    Ok(())
}

/// The dependency names, or the error to report.
fn python_deps(facts: &ModuleFacts) -> (r: Result<Vec<String>, String>)
    ensures
        match (r, facts.python_deps) {
            (Ok(a), Ok(b)) => a@ == b@,
            (Err(a), Err(b)) => a == b,
            _ => false,
        },
{
    match &facts.python_deps {
        Ok(v) => Ok(crate::report::clone_strings(v)),
        Err(e) => Err(e.clone()),
    }
}

/// What `detect_python_deps` guarantees, from the report before (`o`) to the report after (`n`).
pub open spec fn python_deps_post(facts: &ModuleFacts, o: ModuleReport, n: ModuleReport, r: Result<(), String>) -> bool {
    &&& (facts.kind != ModuleKind::Backend ==> r.is_ok() && n == o)
    &&& (facts.kind == ModuleKind::Backend ==> match facts.python_deps {
            Err(e) => r == Err::<(), String>(e) && n == o,
            Ok(d) => r.is_ok() && n.backend.is_some() && backend_view(n.backend.unwrap())
                == semantics_backend(current_backend(&o), string_views(d@)),
        })
    &&& (same_shape(&n, &o))
    &&& (n.warnings == o.warnings)
}

/// Django REST framework, Celery, the database and Django from the dependencies of a
/// backend module.
pub fn detect_python_deps(facts: &ModuleFacts, report: &mut ModuleReport) -> (r: Result<(), String>)
    ensures
        python_deps_post(facts, *old(report), *final(report), r),
{
    if facts.kind != ModuleKind::Backend {
        return Ok(());
    }
    let deps = match python_deps(facts) {
        Ok(d) => d,
        Err(e) => return Err(e),
    };
    apply_backend_semantics(&deps, report);
    Ok(())
}

/// What `detect_microframework` guarantees, from the report before (`o`) to the report after (`n`).
pub open spec fn microframework_post(facts: &ModuleFacts, o: ModuleReport, n: ModuleReport, r: Result<(), String>) -> bool {
    &&& (facts.kind != ModuleKind::Backend ==> r.is_ok() && n == o)
    &&& (facts.kind == ModuleKind::Backend && facts.python_deps.is_err() ==> r == Err::<(), String>(
            facts.python_deps->Err_0,
        ) && n == o)
    &&& (facts.kind == ModuleKind::Backend && facts.python_deps.is_ok() && facts.app_init_py.is_ok()
            && facts.main_py.is_ok() ==> r.is_ok() && n.backend.is_some() && ({
            let b0 = current_backend(&o);
            let f = microframework_of(string_views(facts.python_deps->Ok_0@));
            let b1 = if is_open_framework(b0.framework) && f.is_some() {
                BackendView { framework: f.unwrap(), ..b0 }
            } else {
                b0
            };
            let flask = match facts.app_init_py->Ok_0 {
                Some(t) => head_contains(t@, "Flask(__name__)"@),
                None => false,
            };
            let fastapi = match facts.main_py->Ok_0 {
                Some(t) => head_contains(t@, "FastAPI("@),
                None => false,
            };
            let fw = if is_open_framework(b1.framework) && fastapi {
                "FastAPI"@
            } else if is_open_framework(b1.framework) && flask {
                "Flask"@
            } else {
                b1.framework
            };
            backend_view(n.backend.unwrap()) == BackendView { framework: fw, ..b1 }
        }))
    &&& (same_shape(&n, &o))
    &&& (n.warnings == o.warnings)
    &&& (n.deps == o.deps)
}

/// FastAPI or Flask for a backend whose framework is still open, from the dependencies,
/// then from `app/__init__.py` (Flask) and the main module (FastAPI).
pub fn detect_microframework(facts: &ModuleFacts, report: &mut ModuleReport) -> (r: Result<(), String>)
    ensures
        microframework_post(facts, *old(report), *final(report), r),
{
    if facts.kind != ModuleKind::Backend {
        return Ok(());
    }
    let deps = match python_deps(facts) {
        Ok(d) => d,
        Err(e) => return Err(e),
    };
    let mut backend = backend_or_unknown(report);
    apply_backend_microframework(&deps, &mut backend, report);
    let fc = chars_of(backend.framework.as_str());
    if crate::text::eq_str(&fc, "Unknown") || crate::text::eq_str(&fc, "Python App (Generic)") {
        match &facts.app_init_py {
            Err(e) => return Err(e.clone()),
            Ok(Some(t)) => {
                if head_contains_exec(t, "Flask(__name__)") {
                    backend.framework = String::from_str("Flask");
                    push_label(&mut report.frameworks, "Flask");
                }
            },
            Ok(None) => {},
        }
        match &facts.main_py {
            Err(e) => return Err(e.clone()),
            Ok(Some(t)) => {
                if head_contains_exec(t, "FastAPI(") {
                    backend.framework = String::from_str("FastAPI");
                    push_label(&mut report.frameworks, "FastAPI");
                }
            },
            Ok(None) => {},
        }
    }
    report.backend = Some(backend);
    Ok(())
}

} // verus!

verus! {

/// The dependency names, with `alembic` added when `migrations/alembic.ini` exists.
pub open spec fn orm_inputs(d: Seq<Seq<char>>, alembic_ini: bool) -> Seq<Seq<char>> {
    if alembic_ini {
        d.push("alembic"@)
    } else {
        d
    }
}

/// What `detect_orm_migrations` guarantees, from the report before (`o`) to the report after (`n`).
pub open spec fn orm_migrations_post(facts: &ModuleFacts, o: ModuleReport, n: ModuleReport, r: Result<(), String>) -> bool {
    &&& (facts.kind != ModuleKind::Backend ==> r.is_ok() && n == o)
    &&& (facts.kind == ModuleKind::Backend && facts.python_deps.is_err() ==> r == Err::<(), String>(
            facts.python_deps->Err_0,
        ) && n == o)
    &&& (facts.kind == ModuleKind::Backend && facts.python_deps.is_ok() ==> r.is_ok() && n.backend.is_some()
            && ({
            let b0 = current_backend(&o);
            let d = orm_inputs(string_views(facts.python_deps->Ok_0@), facts.alembic_ini);
            let orm = first_orm(d);
            let mig = if any_dep(d, "alembic"@) { Some("Alembic"@) } else { None };
            backend_view(n.backend.unwrap()) == if b0.framework == "Django"@ {
                BackendView { orm: Some("Django ORM"@), migrations: Some("Django Migrations"@), ..b0 }
            } else {
                BackendView {
                    orm: if orm.is_some() { orm } else { b0.orm },
                    migrations: if mig.is_some() { mig } else { b0.migrations },
                    ..b0
                }
            }
        }))
    &&& (same_shape(&n, &o))
    &&& (n.warnings == o.warnings)
    &&& (n.frameworks == o.frameworks)
}

/// ORM and migrations tool of a backend module.
pub fn detect_orm_migrations(facts: &ModuleFacts, report: &mut ModuleReport) -> (r: Result<(), String>)
    ensures
        orm_migrations_post(facts, *old(report), *final(report), r),
{
    if facts.kind != ModuleKind::Backend {
        return Ok(());
    }
    let mut deps = match python_deps(facts) {
        Ok(d) => d,
        Err(e) => return Err(e),
    };
    if facts.alembic_ini {
        push_label(&mut deps, "alembic");
    }
    proof {
        if !facts.alembic_ini {
            assert(string_views(deps@) == orm_inputs(string_views(facts.python_deps->Ok_0@), false));
        }
    }
    let mut backend = backend_or_unknown(report);
    apply_backend_orm_migrations(&deps, &mut backend, report);
    report.backend = Some(backend);
    Ok(())
}

/// What `detect_ai_features` guarantees, from the report before (`o`) to the report after (`n`).
pub open spec fn ai_features_post(facts: &ModuleFacts, o: ModuleReport, n: ModuleReport, r: Result<(), String>) -> bool {
    &&& (facts.kind != ModuleKind::Backend ==> r.is_ok() && n == o)
    &&& (facts.kind == ModuleKind::Backend && facts.python_deps.is_err() ==> r == Err::<(), String>(
            facts.python_deps->Err_0,
        ) && n == o)
    &&& (facts.kind == ModuleKind::Backend && facts.python_deps.is_ok() ==> r.is_ok() && n.backend.is_some()
            && ({
            let b0 = current_backend(&o);
            let feats = ai_fold(b0.ai, string_views(facts.python_deps->Ok_0@));
            let f1 = if feats.len() > 0 { feats } else { b0.ai };
            let f2 = if facts.custom_ai && !f1.contains("Custom AI Logic"@) {
                f1.push("Custom AI Logic"@)
            } else {
                f1
            };
            backend_view(n.backend.unwrap()) == BackendView { ai: f2, ..b0 }
        }))
    &&& (same_shape(&n, &o))
    &&& (n.warnings == o.warnings)
    &&& (n.frameworks == o.frameworks)
}

/// AI integrations of a backend module, from its dependencies and its paths.
pub fn detect_ai_features(facts: &ModuleFacts, report: &mut ModuleReport) -> (r: Result<(), String>)
    ensures
        ai_features_post(facts, *old(report), *final(report), r),
{
    if facts.kind != ModuleKind::Backend {
        return Ok(());
    }
    let deps = match python_deps(facts) {
        Ok(d) => d,
        Err(e) => return Err(e),
    };
    let mut backend = backend_or_unknown(report);
    apply_backend_ai_features(&deps, &mut backend, report);
    if facts.custom_ai {
        let mut present = false;
        let mut k: usize = 0;
        while k < backend.ai_features.len()
            invariant
                k <= backend.ai_features@.len(),
                !present ==> forall|j: int| 0 <= j < k ==> backend.ai_features@[j]@ != "Custom AI Logic"@,
                present ==> string_views(backend.ai_features@).contains("Custom AI Logic"@),
            decreases backend.ai_features@.len() - k,
        {
            if crate::text::eq_str(&chars_of(backend.ai_features[k].as_str()), "Custom AI Logic") {
                present = true;
                assert(string_views(backend.ai_features@)[k as int] == "Custom AI Logic"@);
            }
            k += 1;
        }
        if !present {
            push_label(&mut backend.ai_features, "Custom AI Logic");
            push_label(&mut report.deps, "Custom AI Logic");
        }
    }
    report.backend = Some(backend);
    Ok(())
}

/// What a detector guarantees, from the report before (`o`) to the report after (`n`),
/// with `r` what it returned.
pub open spec fn detector_post(
    d: DetectorKind,
    facts: &ModuleFacts,
    o: ModuleReport,
    n: ModuleReport,
    r: Result<(), String>,
) -> bool {
    match d {
        DetectorKind::Django => django_post(facts, o, n, r),
        DetectorKind::PythonDeps => python_deps_post(facts, o, n, r),
        DetectorKind::MicroFramework => microframework_post(facts, o, n, r),
        DetectorKind::OrmMigration => orm_migrations_post(facts, o, n, r),
        DetectorKind::AiFeature => ai_features_post(facts, o, n, r),
        DetectorKind::Rust => crate::rust_backend::rust_post(facts, o, n, r),
        DetectorKind::Flutter => crate::flutter::flutter_post(facts, o, n, r),
        DetectorKind::Android => crate::flutter::android_post(facts, o, n, r),
        DetectorKind::Ios => crate::flutter::ios_post(facts, o, n) && r.is_ok(),
        DetectorKind::Vite => crate::frontend::vite_post(facts, o, n) && r.is_ok(),
        DetectorKind::PackageJsonDeps => crate::frontend::package_json_post(facts, o, n) && r.is_ok(),
        DetectorKind::FrontendVis => crate::frontend::frontend_vis_post(facts, o, n) && r.is_ok(),
    }
}

/// `f` is `n` with the warning `<detector id>: <error>` added when `r` is an error.
pub open spec fn with_failure(d: DetectorKind, n: ModuleReport, f: ModuleReport, r: Result<(), String>) -> bool {
    &&& f.name == n.name && f.path == n.path && f.languages == n.languages
    &&& f.frameworks == n.frameworks && f.deps == n.deps && f.backend == n.backend
    &&& f.frontend == n.frontend && f.generated == n.generated && f.assets == n.assets
    &&& string_views(f.warnings@) == string_views(n.warnings@) + match r {
        Ok(()) => Seq::empty(),
        Err(e) => seq![detector_id(d) + ": "@ + e@],
    }
}

/// One detector ran on `o` and left `n`: what it guarantees, then the warning
/// `<detector id>: <error>` when it failed.
pub open spec fn detector_step(d: DetectorKind, facts: &ModuleFacts, o: ModuleReport, n: ModuleReport) -> bool {
    exists|mid: ModuleReport, r: Result<(), String>|
        #[trigger] detector_post(d, facts, o, mid, r) && with_failure(d, mid, n, r)
}

/// `steps` are the reports before and after each detector of `ds`, run in order.
pub open spec fn detectors_ran(ds: Seq<DetectorKind>, facts: &ModuleFacts, steps: Seq<ModuleReport>) -> bool {
    &&& steps.len() == ds.len() + 1
    &&& forall|i: int| 0 <= i < ds.len() ==> #[trigger] detector_step(ds[i], facts, steps[i], steps[i + 1])
}

/// Runs one detector; an error becomes the warning `<detector id>: <error>`.
pub fn run_detector(d: DetectorKind, facts: &ModuleFacts, report: &mut ModuleReport)
    ensures
        same_shape(&*final(report), &*old(report)),
        detector_step(d, facts, *old(report), *final(report)),
{
    let ghost before = *report;
    let res = match d {
        DetectorKind::Django => detect_django(facts, report),
        DetectorKind::PythonDeps => detect_python_deps(facts, report),
        DetectorKind::MicroFramework => detect_microframework(facts, report),
        DetectorKind::OrmMigration => detect_orm_migrations(facts, report),
        DetectorKind::AiFeature => detect_ai_features(facts, report),
        DetectorKind::Rust => crate::rust_backend::detect_rust(facts, report),
        DetectorKind::Flutter => crate::flutter::detect_flutter(facts, report),
        DetectorKind::Android => crate::flutter::detect_android(facts, report),
        DetectorKind::Ios => {
            crate::flutter::detect_ios(facts, report);
            Ok(())
        },
        DetectorKind::Vite => {
            crate::frontend::detect_vite(facts, report);
            Ok(())
        },
        DetectorKind::PackageJsonDeps => {
            crate::frontend::detect_package_json(facts, report);
            Ok(())
        },
        DetectorKind::FrontendVis => {
            crate::frontend::detect_frontend_vis(facts, report);
            Ok(())
        },
    };
    let ghost mid = *report;
    assert(detector_post(d, facts, before, mid, res));
    let ghost w0 = string_views(report.warnings@);
    match &res {
        Ok(()) => {
            assert(string_views(report.warnings@) =~= w0 + Seq::<Seq<char>>::empty());
        },
        Err(e) => {
            let mut msg = String::from_str(d.id());
            msg.append(": ");
            msg.append(e.as_str());
            report.warnings.push(msg);
            assert(string_views(report.warnings@) =~= w0 + seq![detector_id(d) + ": "@ + e@]);
        },
    }
    assert(with_failure(d, mid, *report, res));
}

} // verus!
