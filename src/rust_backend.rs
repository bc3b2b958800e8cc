//! The detector of a Rust backend, from the dependency names of its `Cargo.toml`.
use vstd::prelude::*;

use crate::classify::string_views;
use crate::detect::ModuleFacts;
use crate::python::{is_open_framework, same_shape};
use crate::report::{backend_or_unknown, backend_view, current_backend, push_label, BackendView, ModuleReport};
use crate::text::{chars_of, eq_chars};
use crate::topology::ModuleKind;

verus! {

/// `name` is one of the dependency names.
pub open spec fn names_has(d: Seq<Seq<char>>, name: Seq<char>) -> bool {
    d.contains(name)
}

pub open spec fn rust_framework(d: Seq<Seq<char>>, tauri_conf: bool) -> Option<Seq<char>> {
    if names_has(d, "tauri"@) || tauri_conf {
        Some("Tauri"@)
    } else if names_has(d, "actix-web"@) {
        Some("Actix Web"@)
    } else if names_has(d, "axum"@) {
        Some("Axum"@)
    } else if names_has(d, "rocket"@) {
        Some("Rocket"@)
    } else {
        None
    }
}

pub open spec fn rust_orm(d: Seq<Seq<char>>) -> Option<Seq<char>> {
    if names_has(d, "diesel"@) {
        Some("Diesel"@)
    } else if names_has(d, "sea-orm"@) {
        Some("SeaORM"@)
    } else if names_has(d, "sqlx"@) {
        Some("SQLx"@)
    } else {
        None
    }
}

pub open spec fn rust_db(d: Seq<Seq<char>>) -> Option<Seq<char>> {
    if names_has(d, "postgres"@) || names_has(d, "tokio-postgres"@) {
        Some("PostgreSQL"@)
    } else if names_has(d, "mysql"@) || names_has(d, "mysql_async"@) {
        Some("MySQL"@)
    } else if names_has(d, "rusqlite"@) {
        Some("SQLite"@)
    } else {
        None
    }
}

/// The backend after the Rust rules: a framework only where none is known, an ORM only
/// where none is set, a database only where it is `None`.
pub open spec fn rust_backend(b: BackendView, d: Seq<Seq<char>>, tauri_conf: bool) -> BackendView {
    let fw = rust_framework(d, tauri_conf);
    let orm = rust_orm(d);
    let db = rust_db(d);
    BackendView {
        framework: if is_open_framework(b.framework) && fw.is_some() { fw.unwrap() } else { b.framework },
        orm: if b.orm.is_none() && orm.is_some() { orm } else { b.orm },
        db: if b.db == "None"@ && db.is_some() { db.unwrap() } else { b.db },
        ..b
    }
}

pub open spec fn some_if(cond: bool, o: Option<Seq<char>>) -> Seq<Seq<char>> {
    if cond && o.is_some() {
        seq![o.unwrap()]
    } else {
        Seq::empty()
    }
}

fn names_has_exec(d: &Vec<String>, name: &str) -> (r: bool)
    ensures
        r == names_has(string_views(d@), name@),
{
    let ghost dv = string_views(d@);
    let n = chars_of(name);
    let mut i: usize = 0;
    while i < d.len()
        invariant
            i <= d@.len(),
            dv == string_views(d@),
            n@ == name@,
            forall|j: int| 0 <= j < i ==> dv[j] != name@,
        decreases d@.len() - i,
    {
        if eq_chars(&chars_of(d[i].as_str()), &n) {
            assert(dv[i as int] == name@);
            return true;
        }
        i += 1;
    }
    false
}

/// What `detect_rust` guarantees, from the report before (`o`) to the report after (`n`).
pub open spec fn rust_post(facts: &ModuleFacts, o: ModuleReport, n: ModuleReport, r: Result<(), String>) -> bool {
    &&& (same_shape(&n, &o))
    &&& (n.warnings == o.warnings)
    &&& (n.frontend == o.frontend)
    &&& (facts.kind != ModuleKind::Backend ==> r.is_ok() && n == o)
    &&& (facts.kind == ModuleKind::Backend ==> match facts.cargo_deps {
            Err(e) => r == Err::<(), String>(e) && n == o,
            Ok(None) => r.is_ok() && n == o,
            Ok(Some(deps)) => {
                let d = string_views(deps@);
                let b0 = current_backend(&o);
                &&& r.is_ok()
                &&& n.backend.is_some()
                &&& backend_view(n.backend.unwrap()) == rust_backend(b0, d, facts.tauri_conf)
                &&& string_views(n.frameworks@) == string_views(o.frameworks@) + some_if(
                    is_open_framework(b0.framework),
                    rust_framework(d, facts.tauri_conf),
                )
                &&& string_views(n.deps@) == string_views(o.deps@) + some_if(
                    b0.orm.is_none(),
                    rust_orm(d),
                ) + some_if(b0.db == "None"@, rust_db(d))
            },
        })
}

/// Framework, ORM and database of a backend module from its `Cargo.toml` dependencies
/// (names in lower case) and its `tauri.conf.json`.
pub fn detect_rust(facts: &ModuleFacts, report: &mut ModuleReport) -> (r: Result<(), String>)
    ensures
        rust_post(facts, *old(report), *final(report), r),
{
    if facts.kind != ModuleKind::Backend {
        return Ok(());
    }
    let deps = match &facts.cargo_deps {
        Err(e) => return Err(e.clone()),
        Ok(None) => return Ok(()),
        Ok(Some(d)) => d,
    };
    let ghost d = string_views(deps@);
    let ghost fw0 = string_views(report.frameworks@);
    let ghost deps0 = string_views(report.deps@);
    let mut b = backend_or_unknown(report);
    let ghost b0 = backend_view(b);
    let fc = chars_of(b.framework.as_str());
    if crate::text::eq_str(&fc, "Unknown") || crate::text::eq_str(&fc, "Python App (Generic)") {
        let fw: Option<&str> = if names_has_exec(deps, "tauri") || facts.tauri_conf {
            Some("Tauri")
        } else if names_has_exec(deps, "actix-web") {
            Some("Actix Web")
        } else if names_has_exec(deps, "axum") {
            Some("Axum")
        } else if names_has_exec(deps, "rocket") {
            Some("Rocket")
        } else {
            None
        };
        match fw {
            Some(v) => {
                b.framework = String::from_str(v);
                push_label(&mut report.frameworks, v);
            },
            None => {},
        }
    }
    assert(string_views(report.frameworks@) =~= fw0 + some_if(is_open_framework(b0.framework), rust_framework(d, facts.tauri_conf)));
    if b.orm.is_none() {
        let orm: Option<&str> = if names_has_exec(deps, "diesel") {
            Some("Diesel")
        } else if names_has_exec(deps, "sea-orm") {
            Some("SeaORM")
        } else if names_has_exec(deps, "sqlx") {
            Some("SQLx")
        } else {
            None
        };
        match orm {
            Some(v) => {
                b.orm = Some(String::from_str(v));
                push_label(&mut report.deps, v);
            },
            None => {},
        }
    }
    let ghost deps1 = string_views(report.deps@);
    assert(deps1 =~= deps0 + some_if(b0.orm.is_none(), rust_orm(d)));
    if crate::text::eq_str(&chars_of(b.db.as_str()), "None") {
        let db: Option<&str> = if names_has_exec(deps, "postgres") || names_has_exec(deps, "tokio-postgres") {
            Some("PostgreSQL")
        } else if names_has_exec(deps, "mysql") || names_has_exec(deps, "mysql_async") {
            Some("MySQL")
        } else if names_has_exec(deps, "rusqlite") {
            Some("SQLite")
        } else {
            None
        };
        match db {
            Some(v) => {
                b.db = String::from_str(v);
                push_label(&mut report.deps, v);
            },
            None => {},
        }
    }
    assert(string_views(report.deps@) =~= deps1 + some_if(b0.db == "None"@, rust_db(d)));
    report.backend = Some(b);
    Ok(())
}

} // verus!
