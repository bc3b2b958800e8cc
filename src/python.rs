//! Python dependency manifests and the backend rules drawn from them.
use vstd::prelude::*;

use crate::classify::string_views;
use crate::text::{
    ascii_lower, chars_of, contains, contains_str, find, find_str, lower_chars, slice_chars,
    split, split_chars, starts_with, starts_with_str, string_of, trim, trim_chars, views,
};

verus! {

/// What one line of a requirements file holds.
pub enum ReqLine {
    Skip,
    Include(Seq<char>),
    Name(Seq<char>),
}

/// The line up to its first `#`.
pub open spec fn before_hash(t: Seq<char>) -> Seq<char> {
    let k = find(t, "#"@);
    if k >= 0 {
        t.subrange(0, k)
    } else {
        t
    }
}

pub open spec fn cut_at(c: int, f: int) -> int {
    if f >= 0 && f < c {
        f
    } else {
        c
    }
}

/// Where the name ends: at the first version operator or marker separator.
pub open spec fn requirement_cut(s: Seq<char>) -> int {
    cut_at(
        cut_at(
            cut_at(
                cut_at(cut_at(cut_at(cut_at(s.len() as int, find(s, "=="@)), find(s, ">="@)), find(s, "<="@)), find(s, "!="@)),
                find(s, ">"@),
            ),
            find(s, "<"@),
        ),
        find(s, ";"@),
    )
}

/// The package name of a requirement: before any version operator, marker or extras,
/// trimmed and in lower case.
pub open spec fn requirement_name(line: Seq<char>) -> Seq<char> {
    let s = trim(line);
    let name = trim(s.subrange(0, requirement_cut(s)));
    let b = find(name, "["@);
    ascii_lower(if b >= 0 { trim(name.subrange(0, b)) } else { name })
}

pub open spec fn requirement_line(line: Seq<char>) -> ReqLine {
    let t = trim(line);
    if t.len() == 0 || starts_with(t, "#"@) {
        ReqLine::Skip
    } else if starts_with(t, "-"@) {
        let rest = if starts_with(t, "-r"@) {
            trim(t.subrange("-r"@.len() as int, t.len() as int))
        } else if starts_with(t, "--requirement"@) {
            trim(t.subrange("--requirement"@.len() as int, t.len() as int))
        } else {
            Seq::empty()
        };
        if rest.len() > 0 {
            ReqLine::Include(rest)
        } else {
            ReqLine::Skip
        }
    } else {
        let part = trim(before_hash(t));
        if part.len() == 0 || contains(part, "git+"@) || contains(part, "://"@) {
            ReqLine::Skip
        } else if requirement_name(part).len() > 0 {
            ReqLine::Name(requirement_name(part))
        } else {
            ReqLine::Skip
        }
    }
}

/// The package names listed by the lines, in order.
pub open spec fn req_names(lines: Seq<Seq<char>>) -> Seq<Seq<char>>
    decreases lines.len(),
{
    if lines.len() == 0 {
        Seq::empty()
    } else {
        let rest = req_names(lines.drop_last());
        match requirement_line(lines.last()) {
            ReqLine::Name(n) => rest.push(n),
            _ => rest,
        }
    }
}

/// The files included with `-r` or `--requirement`, in order.
pub open spec fn req_includes(lines: Seq<Seq<char>>) -> Seq<Seq<char>>
    decreases lines.len(),
{
    if lines.len() == 0 {
        Seq::empty()
    } else {
        let rest = req_includes(lines.drop_last());
        match requirement_line(lines.last()) {
            ReqLine::Include(f) => rest.push(f),
            _ => rest,
        }
    }
}

/// The requirement name of a trimmed, non-empty requirement.
pub fn normalize_requirement_name(line: &Vec<char>) -> (r: Vec<char>)
    ensures
        r@ == requirement_name(line@),
{
    let s = trim_chars(line);
    let mut cut: usize = s.len();
    let ghost s0 = s@;
    match find_str(&s, "==") { Some(k) => if k < cut { cut = k }, None => {} }
    match find_str(&s, ">=") { Some(k) => if k < cut { cut = k }, None => {} }
    match find_str(&s, "<=") { Some(k) => if k < cut { cut = k }, None => {} }
    match find_str(&s, "!=") { Some(k) => if k < cut { cut = k }, None => {} }
    match find_str(&s, ">") { Some(k) => if k < cut { cut = k }, None => {} }
    match find_str(&s, "<") { Some(k) => if k < cut { cut = k }, None => {} }
    match find_str(&s, ";") { Some(k) => if k < cut { cut = k }, None => {} }
    assert(cut == requirement_cut(s0));
    let name = trim_chars(&slice_chars(&s, 0, cut));
    let name2 = match find_str(&name, "[") {
        Some(b) => trim_chars(&slice_chars(&name, 0, b)),
        None => name,
    };
    lower_chars(&name2)
}

/// What one line of a requirements file holds.
pub fn classify_requirement_line(line: &Vec<char>) -> (r: (Option<Vec<char>>, Option<Vec<char>>))
    ensures
        match requirement_line(line@) {
            ReqLine::Skip => r.0.is_none() && r.1.is_none(),
            ReqLine::Include(f) => r.0.is_some() && r.0.unwrap()@ == f && r.1.is_none(),
            ReqLine::Name(n) => r.0.is_none() && r.1.is_some() && r.1.unwrap()@ == n,
        },
{
    let t = trim_chars(line);
    if t.len() == 0 || starts_with_str(&t, "#") {
        return (None, None);
    }
    if starts_with_str(&t, "-") {
        let rest = if starts_with_str(&t, "-r") {
            let k = chars_of("-r").len();
            trim_chars(&slice_chars(&t, k, t.len()))
        } else if starts_with_str(&t, "--requirement") {
            let k = chars_of("--requirement").len();
            trim_chars(&slice_chars(&t, k, t.len()))
        } else {
            Vec::new()
        };
        if rest.len() > 0 {
            return (Some(rest), None);
        }
        return (None, None);
    }
    let before = match find_str(&t, "#") {
        Some(k) => slice_chars(&t, 0, k),
        None => slice_chars(&t, 0, t.len()),
    };
    assert(t@.subrange(0, t@.len() as int) =~= t@);
    let part = trim_chars(&before);
    if part.len() == 0 || contains_str(&part, "git+") || contains_str(&part, "://") {
        return (None, None);
    }
    let name = normalize_requirement_name(&part);
    if name.len() > 0 {
        (None, Some(name))
    } else {
        (None, None)
    }
}

/// The names and included files of a requirements file.
pub struct Requirements {
    pub names: Vec<String>,
    pub includes: Vec<String>,
}

/// Reads a requirements file: blank lines and comments are skipped, `-r`/`--requirement`
/// lines name included files, other options are ignored, and VCS or URL requirements are
/// left out.
pub fn parse_requirements(text: &str) -> (r: Requirements)
    ensures
        string_views(r.names@) == req_names(split(text@, '\n')),
        string_views(r.includes@) == req_includes(split(text@, '\n')),
{
    let lines = split_chars(&chars_of(text), '\n');
    let ghost lv = views(lines@);
    let mut names: Vec<String> = Vec::new();
    let mut includes: Vec<String> = Vec::new();
    let mut i: usize = 0;
    while i < lines.len()
        invariant
            i <= lines@.len(),
            lv == views(lines@),
            lv == split(text@, '\n'),
            string_views(names@) == req_names(lv.subrange(0, i as int)),
            string_views(includes@) == req_includes(lv.subrange(0, i as int)),
        decreases lines@.len() - i,
    {
        assert(lv.subrange(0, i + 1).drop_last() =~= lv.subrange(0, i as int));
        assert(lv.subrange(0, i + 1).last() == lines@[i as int]@);
        let (inc, name) = classify_requirement_line(&lines[i]);
        match inc {
            Some(f) => {
                let ghost before = includes@;
                includes.push(string_of(&f));
                assert(string_views(includes@) =~= string_views(before).push(f@));
            },
            None => {},
        }
        match name {
            Some(n) => {
                let ghost before = names@;
                names.push(string_of(&n));
                assert(string_views(names@) =~= string_views(before).push(n@));
            },
            None => {},
        }
        i += 1;
    }
    assert(lv.subrange(0, lv.len() as int) =~= lv);
    Requirements { names, includes }
}

} // verus!

verus! {

use crate::report::{
    backend_or_unknown, backend_view, current_backend, push_label, BackendStack, BackendView,
    ModuleReport,
};

/// Some dependency, in lower case, contains `pat`.
pub open spec fn any_dep(deps: Seq<Seq<char>>, pat: Seq<char>) -> bool {
    exists|i: int| 0 <= i < deps.len() && contains(ascii_lower(#[trigger] deps[i]), pat)
}

pub fn any_dep_exec(deps: &Vec<String>, pat: &str) -> (r: bool)
    ensures
        r == any_dep(string_views(deps@), pat@),
{
    let ghost d = string_views(deps@);
    let mut i: usize = 0;
    while i < deps.len()
        invariant
            i <= deps@.len(),
            d == string_views(deps@),
            forall|j: int| 0 <= j < i ==> !contains(ascii_lower(#[trigger] d[j]), pat@),
        decreases deps@.len() - i,
    {
        let n = lower_chars(&chars_of(deps[i].as_str()));
        if contains_str(&n, pat) {
            assert(contains(ascii_lower(d[i as int]), pat@));
            return true;
        }
        i += 1;
    }
    false
}

/// Everything but the detected stacks, labels and warnings is left as it was.
pub open spec fn same_shape(a: &ModuleReport, b: &ModuleReport) -> bool {
    a.name == b.name && a.path == b.path && a.languages == b.languages && a.generated == b.generated
        && a.assets == b.assets
}

pub open spec fn opt_label(cond: bool, s: Seq<char>) -> Seq<Seq<char>> {
    if cond {
        seq![s]
    } else {
        Seq::empty()
    }
}

pub open spec fn semantics_backend(b0: BackendView, d: Seq<Seq<char>>) -> BackendView {
    BackendView {
        framework: if b0.framework == "Unknown"@ && any_dep(d, "django"@) {
            "Django"@
        } else {
            b0.framework
        },
        rest: b0.rest || any_dep(d, "djangorestframework"@),
        db: if any_dep(d, "psycopg2"@) {
            "PostgreSQL"@
        } else if any_dep(d, "mysqlclient"@) {
            "MySQL"@
        } else {
            b0.db
        },
        queue: if any_dep(d, "celery"@) {
            "Celery"@
        } else {
            b0.queue
        },
        ..b0
    }
}

/// Django REST framework, Celery, the database driver (PostgreSQL before MySQL) and Django
/// itself, from the dependency names.
pub fn apply_backend_semantics(deps: &Vec<String>, report: &mut ModuleReport)
    ensures
        same_shape(&*final(report), &*old(report)),
        final(report).frontend == old(report).frontend,
        final(report).warnings == old(report).warnings,
        final(report).backend.is_some(),
        backend_view(final(report).backend.unwrap()) == semantics_backend(
            current_backend(&*old(report)),
            string_views(deps@),
        ),
        string_views(final(report).frameworks@) == string_views(old(report).frameworks@) + opt_label(
            any_dep(string_views(deps@), "djangorestframework"@),
            "DRF"@,
        ) + opt_label(
            current_backend(&*old(report)).framework == "Unknown"@ && any_dep(string_views(deps@), "django"@),
            "Django"@,
        ),
        string_views(final(report).deps@) == string_views(old(report).deps@) + opt_label(
            any_dep(string_views(deps@), "celery"@),
            "Celery"@,
        ) + (if any_dep(string_views(deps@), "psycopg2"@) {
            seq!["PostgreSQL"@]
        } else {
            opt_label(any_dep(string_views(deps@), "mysqlclient"@), "MySQL"@)
        }),
{
    let ghost fw0 = string_views(report.frameworks@);
    let ghost deps0 = string_views(report.deps@);
    let mut b = backend_or_unknown(report);
    let drf = any_dep_exec(deps, "djangorestframework");
    let celery = any_dep_exec(deps, "celery");
    let pg = any_dep_exec(deps, "psycopg2");
    let mysql = any_dep_exec(deps, "mysqlclient");
    let django = any_dep_exec(deps, "django");
    let unknown = crate::text::eq_str(&chars_of(b.framework.as_str()), "Unknown");
    if drf {
        b.rest = true;
        push_label(&mut report.frameworks, "DRF");
    }
    if celery {
        b.queue = String::from_str("Celery");
        push_label(&mut report.deps, "Celery");
    }
    if django && unknown {
        b.framework = String::from_str("Django");
        push_label(&mut report.frameworks, "Django");
    }
    if pg {
        b.db = String::from_str("PostgreSQL");
        push_label(&mut report.deps, "PostgreSQL");
    } else if mysql {
        b.db = String::from_str("MySQL");
        push_label(&mut report.deps, "MySQL");
    }
    report.backend = Some(b);
    assert(string_views(report.frameworks@) =~= fw0 + opt_label(drf, "DRF"@) + opt_label(django && unknown, "Django"@));
    assert(string_views(report.deps@) =~= deps0 + opt_label(celery, "Celery"@) + (if pg {
        seq!["PostgreSQL"@]
    } else {
        opt_label(mysql, "MySQL"@)
    }));
}

pub open spec fn is_open_framework(f: Seq<char>) -> bool {
    f == "Unknown"@ || f == "Python App (Generic)"@
}

/// The micro-framework a backend gets from its dependencies, if any.
pub open spec fn microframework_of(d: Seq<Seq<char>>) -> Option<Seq<char>> {
    if any_dep(d, "fastapi"@) {
        Some("FastAPI"@)
    } else if any_dep(d, "flask"@) || any_dep(d, "quart"@) {
        Some("Flask"@)
    } else {
        None
    }
}

/// FastAPI, else Flask (or Quart), for a backend whose framework is still open.
pub fn apply_backend_microframework(deps: &Vec<String>, backend: &mut BackendStack, report: &mut ModuleReport)
    ensures
        same_shape(&*final(report), &*old(report)),
        final(report).backend == old(report).backend,
        final(report).frontend == old(report).frontend,
        final(report).deps == old(report).deps,
        final(report).warnings == old(report).warnings,
        ({
            let f = microframework_of(string_views(deps@));
            let open = is_open_framework(old(backend).framework@);
            &&& backend_view(*final(backend)) == (if open && f.is_some() {
                BackendView { framework: f.unwrap(), ..backend_view(*old(backend)) }
            } else {
                backend_view(*old(backend))
            })
            &&& string_views(final(report).frameworks@) == string_views(old(report).frameworks@)
                + (if open && f.is_some() { seq![f.unwrap()] } else { Seq::empty() })
        }),
{
    let ghost fw0 = string_views(report.frameworks@);
    let fc = chars_of(backend.framework.as_str());
    if !crate::text::eq_str(&fc, "Unknown") && !crate::text::eq_str(&fc, "Python App (Generic)") {
        assert(string_views(report.frameworks@) =~= fw0 + Seq::<Seq<char>>::empty());
        return;
    }
    let fastapi = any_dep_exec(deps, "fastapi");
    let flask = any_dep_exec(deps, "flask") || any_dep_exec(deps, "quart");
    if fastapi {
        backend.framework = String::from_str("FastAPI");
        push_label(&mut report.frameworks, "FastAPI");
    } else if flask {
        backend.framework = String::from_str("Flask");
        push_label(&mut report.frameworks, "Flask");
    } else {
        assert(string_views(report.frameworks@) =~= fw0 + Seq::<Seq<char>>::empty());
    }
}

} // verus!

verus! {

/// The ORM named by the first dependency that names one (SQLAlchemy before Tortoise before
/// Peewee within one dependency).
pub open spec fn first_orm(d: Seq<Seq<char>>) -> Option<Seq<char>>
    decreases d.len(),
{
    if d.len() == 0 {
        None
    } else {
        let n = ascii_lower(d[0]);
        if contains(n, "sqlalchemy"@) || contains(n, "flask-sqlalchemy"@) {
            Some("SQLAlchemy"@)
        } else if contains(n, "tortoise-orm"@) {
            Some("Tortoise"@)
        } else if contains(n, "peewee"@) {
            Some("Peewee"@)
        } else {
            first_orm(d.drop_first())
        }
    }
}

fn first_orm_exec(deps: &Vec<String>) -> (r: Option<String>)
    ensures
        opt_view_eq(r, first_orm(string_views(deps@))),
{
    let ghost d = string_views(deps@);
    let mut i: usize = 0;
    assert(d.skip(0) =~= d);
    while i < deps.len()
        invariant
            i <= deps@.len(),
            d == string_views(deps@),
            first_orm(d) == first_orm(d.skip(i as int)),
        decreases deps@.len() - i,
    {
        assert(d.skip(i as int)[0] == d[i as int]);
        assert(d.skip(i as int).drop_first() =~= d.skip(i + 1));
        let n = lower_chars(&chars_of(deps[i].as_str()));
        if contains_str(&n, "sqlalchemy") || contains_str(&n, "flask-sqlalchemy") {
            return Some(String::from_str("SQLAlchemy"));
        }
        if contains_str(&n, "tortoise-orm") {
            return Some(String::from_str("Tortoise"));
        }
        if contains_str(&n, "peewee") {
            return Some(String::from_str("Peewee"));
        }
        i += 1;
    }
    assert(d.skip(i as int).len() == 0);
    None
}

pub open spec fn opt_view_eq(o: Option<String>, v: Option<Seq<char>>) -> bool {
    match (o, v) {
        (Some(a), Some(b)) => a@ == b,
        (None, None) => true,
        _ => false,
    }
}

pub open spec fn some_label(o: Option<Seq<char>>) -> Seq<Seq<char>> {
    match o {
        Some(s) => seq![s],
        None => Seq::empty(),
    }
}

/// ORM and migrations tool: Django's own for Django, else from the dependencies
/// (Alembic for migrations).
pub fn apply_backend_orm_migrations(deps: &Vec<String>, backend: &mut BackendStack, report: &mut ModuleReport)
    ensures
        same_shape(&*final(report), &*old(report)),
        final(report).backend == old(report).backend,
        final(report).frontend == old(report).frontend,
        final(report).frameworks == old(report).frameworks,
        final(report).warnings == old(report).warnings,
        ({
            let b0 = backend_view(*old(backend));
            let d = string_views(deps@);
            if b0.framework == "Django"@ {
                &&& backend_view(*final(backend)) == BackendView {
                    orm: Some("Django ORM"@),
                    migrations: Some("Django Migrations"@),
                    ..b0
                }
                &&& string_views(final(report).deps@) == string_views(old(report).deps@) + seq![
                    "Django ORM"@,
                    "Django Migrations"@,
                ]
            } else {
                let orm = first_orm(d);
                let mig = if any_dep(d, "alembic"@) { Some("Alembic"@) } else { None };
                &&& backend_view(*final(backend)) == BackendView {
                    orm: if orm.is_some() { orm } else { b0.orm },
                    migrations: if mig.is_some() { mig } else { b0.migrations },
                    ..b0
                }
                &&& string_views(final(report).deps@) == string_views(old(report).deps@) + some_label(orm)
                    + some_label(mig)
            }
        }),
{
    let ghost deps0 = string_views(report.deps@);
    if crate::text::eq_str(&chars_of(backend.framework.as_str()), "Django") {
        backend.orm = Some(String::from_str("Django ORM"));
        backend.migrations = Some(String::from_str("Django Migrations"));
        push_label(&mut report.deps, "Django ORM");
        push_label(&mut report.deps, "Django Migrations");
        assert(string_views(report.deps@) =~= deps0 + seq!["Django ORM"@, "Django Migrations"@]);
        return;
    }
    let orm = first_orm_exec(deps);
    let alembic = any_dep_exec(deps, "alembic");
    match orm {
        Some(v) => {
            push_label(&mut report.deps, v.as_str());
            backend.orm = Some(v);
        },
        None => {},
    }
    if alembic {
        backend.migrations = Some(String::from_str("Alembic"));
        push_label(&mut report.deps, "Alembic");
    }
    assert(string_views(report.deps@) =~= deps0 + some_label(first_orm(string_views(deps@))) + some_label(
        if alembic { Some("Alembic"@) } else { None },
    ));
}

/// `f` with `label` added at the end when `cond` holds and it is not there yet.
pub open spec fn add_if(f: Seq<Seq<char>>, cond: bool, label: Seq<char>) -> Seq<Seq<char>> {
    if cond && !f.contains(label) {
        f.push(label)
    } else {
        f
    }
}

/// The AI integrations named by one lower-case dependency, added in a fixed order.
pub open spec fn ai_step(f: Seq<Seq<char>>, n: Seq<char>) -> Seq<Seq<char>> {
    let f1 = add_if(f, contains(n, "openai"@), "OpenAI"@);
    let f2 = add_if(f1, contains(n, "langchain"@), "LangChain"@);
    let f3 = add_if(f2, contains(n, "anthropic"@), "Anthropic"@);
    let f4 = add_if(f3, contains(n, "transformers"@), "Transformers"@);
    let f5 = add_if(f4, contains(n, "pytorch"@), "PyTorch"@);
    add_if(f5, contains(n, "tensorflow"@), "TensorFlow"@)
}

/// The AI integrations after reading the dependencies in order.
pub open spec fn ai_fold(f: Seq<Seq<char>>, d: Seq<Seq<char>>) -> Seq<Seq<char>>
    decreases d.len(),
{
    if d.len() == 0 {
        f
    } else {
        ai_step(ai_fold(f, d.drop_last()), ascii_lower(d.last()))
    }
}

fn has_string(v: &Vec<String>, s: &str) -> (r: bool)
    ensures
        r == string_views(v@).contains(s@),
{
    let ghost sv = string_views(v@);
    let t = chars_of(s);
    let mut i: usize = 0;
    while i < v.len()
        invariant
            i <= v@.len(),
            sv == string_views(v@),
            t@ == s@,
            forall|j: int| 0 <= j < i ==> sv[j] != s@,
        decreases v@.len() - i,
    {
        if crate::text::eq_chars(&chars_of(v[i].as_str()), &t) {
            assert(sv[i as int] == s@);
            return true;
        }
        i += 1;
    }
    false
}

fn add_label_if(f: &mut Vec<String>, cond: bool, label: &str)
    ensures
        string_views(final(f)@) == add_if(string_views(old(f)@), cond, label@),
{
    if cond && !has_string(f, label) {
        push_label(f, label);
    }
}

/// The AI integrations named by the dependencies are added to the backend (each once, in
/// order of first mention); when there are any, all of them are listed as dependencies.
pub fn apply_backend_ai_features(deps: &Vec<String>, backend: &mut BackendStack, report: &mut ModuleReport)
    ensures
        same_shape(&*final(report), &*old(report)),
        final(report).backend == old(report).backend,
        final(report).frontend == old(report).frontend,
        final(report).frameworks == old(report).frameworks,
        final(report).warnings == old(report).warnings,
        ({
            let feats = ai_fold(string_views(old(backend).ai_features@), string_views(deps@));
            if feats.len() > 0 {
                &&& backend_view(*final(backend)) == BackendView { ai: feats, ..backend_view(*old(backend)) }
                &&& string_views(final(report).deps@) == string_views(old(report).deps@) + feats
            } else {
                &&& backend_view(*final(backend)) == backend_view(*old(backend))
                &&& final(report).deps == old(report).deps
            }
        }),
{
    let ghost d = string_views(deps@);
    let mut features = crate::report::clone_strings(&backend.ai_features);
    let ghost f0 = string_views(features@);
    let mut i: usize = 0;
    while i < deps.len()
        invariant
            i <= deps@.len(),
            d == string_views(deps@),
            string_views(features@) == ai_fold(f0, d.subrange(0, i as int)),
        decreases deps@.len() - i,
    {
        assert(d.subrange(0, i + 1).drop_last() =~= d.subrange(0, i as int));
        let n = lower_chars(&chars_of(deps[i].as_str()));
        add_label_if(&mut features, contains_str(&n, "openai"), "OpenAI");
        add_label_if(&mut features, contains_str(&n, "langchain"), "LangChain");
        add_label_if(&mut features, contains_str(&n, "anthropic"), "Anthropic");
        add_label_if(&mut features, contains_str(&n, "transformers"), "Transformers");
        add_label_if(&mut features, contains_str(&n, "pytorch"), "PyTorch");
        add_label_if(&mut features, contains_str(&n, "tensorflow"), "TensorFlow");
        i += 1;
    }
    assert(d.subrange(0, d.len() as int) =~= d);
    if features.len() > 0 {
        let ghost deps0 = string_views(report.deps@);
        let mut k: usize = 0;
        while k < features.len()
            invariant
                k <= features@.len(),
                same_shape(&*report, &*old(report)),
                report.backend == old(report).backend,
                report.frontend == old(report).frontend,
                report.frameworks == old(report).frameworks,
                report.warnings == old(report).warnings,
                string_views(report.deps@) == deps0 + string_views(features@).subrange(0, k as int),
            decreases features@.len() - k,
        {
            let ghost before = report.deps@;
            report.deps.push(features[k].clone());
            assert(string_views(report.deps@) =~= string_views(before).push(features@[k as int]@));
            k += 1;
            assert(string_views(features@).subrange(0, k as int) =~= string_views(features@).subrange(0, k - 1).push(
                features@[k - 1]@,
            ));
        }
        assert(string_views(features@).subrange(0, k as int) =~= string_views(features@));
        backend.ai_features = features;
    }
}

/// A path (lower case, slash-separated) that looks like hand-written AI code: an `ai`,
/// `llm` or `ml` directory, an `ai_planner` or `prompts` part, or a file named
/// `llm_client.py` or `prompts.py`.
pub open spec fn is_custom_ai_path(p: Seq<char>) -> bool {
    contains(p, "/ai/"@) || contains(p, "/llm/"@) || contains(p, "/ml/"@) || contains(p, "ai_planner"@)
        || contains(p, "prompts"@) || crate::classify::file_name(p) == "llm_client.py"@
        || crate::classify::file_name(p) == "prompts.py"@
}

/// Whether any of the module's paths looks like hand-written AI code.
pub fn has_custom_ai_logic(paths: &Vec<String>) -> (r: bool)
    ensures
        r == exists|i: int|
            0 <= i < paths@.len() && is_custom_ai_path(crate::classify::normalize_path(#[trigger] paths@[i]@)),
{
    let mut i: usize = 0;
    while i < paths.len()
        invariant
            i <= paths@.len(),
            forall|j: int| 0 <= j < i ==> !is_custom_ai_path(crate::classify::normalize_path(#[trigger] paths@[j]@)),
        decreases paths@.len() - i,
    {
        let p = crate::classify::normalize_path_exec(paths[i].as_str());
        let name = crate::classify::file_name_exec(&p);
        if contains_str(&p, "/ai/") || contains_str(&p, "/llm/") || contains_str(&p, "/ml/")
            || contains_str(&p, "ai_planner") || contains_str(&p, "prompts")
            || crate::text::eq_str(&name, "llm_client.py") || crate::text::eq_str(&name, "prompts.py") {
            return true;
        }
        i += 1;
    }
    false
}

} // verus!
