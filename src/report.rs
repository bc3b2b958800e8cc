//! The per-module report and the records it holds.
use vstd::prelude::*;

use crate::aggregate::LanguageStat;
use crate::classify::string_views;

verus! {

/// What is known of a module's server side.
pub struct BackendStack {
    pub framework: String,
    pub rest: bool,
    pub db: String,
    pub queue: String,
    pub orm: Option<String>,
    pub migrations: Option<String>,
    pub ai_features: Vec<String>,
}

/// What is known of a module's user interface side.
pub struct FrontendStack {
    pub builder: String,
    pub vue: Option<u8>,
    pub store: String,
    pub ui: String,
    pub visualization: Vec<String>,
}

/// Generated files of a module and their line count.
pub struct GeneratedSummary {
    pub files: u64,
    pub lines: u64,
}

/// Asset files of a module and their size.
pub struct AssetSummary {
    pub files: u64,
    pub bytes: u64,
}

/// The report of one module.
pub struct ModuleReport {
    pub name: String,
    pub path: String,
    pub languages: Vec<LanguageStat>,
    pub frameworks: Vec<String>,
    pub deps: Vec<String>,
    pub backend: Option<BackendStack>,
    pub frontend: Option<FrontendStack>,
    pub generated: Option<GeneratedSummary>,
    pub assets: Option<AssetSummary>,
    pub warnings: Vec<String>,
}

pub open spec fn opt_view(o: Option<String>) -> Option<Seq<char>> {
    match o {
        Some(s) => Some(s@),
        None => None,
    }
}

/// A backend as values: framework, REST flag, database, queue, ORM, migrations tool,
/// AI integrations.
pub struct BackendView {
    pub framework: Seq<char>,
    pub rest: bool,
    pub db: Seq<char>,
    pub queue: Seq<char>,
    pub orm: Option<Seq<char>>,
    pub migrations: Option<Seq<char>>,
    pub ai: Seq<Seq<char>>,
}

pub open spec fn backend_view(b: BackendStack) -> BackendView {
    BackendView {
        framework: b.framework@,
        rest: b.rest,
        db: b.db@,
        queue: b.queue@,
        orm: opt_view(b.orm),
        migrations: opt_view(b.migrations),
        ai: string_views(b.ai_features@),
    }
}

/// The backend a detector starts from when none was found before.
pub open spec fn unknown_backend() -> BackendView {
    BackendView {
        framework: "Unknown"@,
        rest: false,
        db: "None"@,
        queue: "None"@,
        orm: None,
        migrations: None,
        ai: Seq::empty(),
    }
}

/// The module's backend so far, or the unknown one.
pub open spec fn current_backend(r: &ModuleReport) -> BackendView {
    match r.backend {
        Some(b) => backend_view(b),
        None => unknown_backend(),
    }
}

pub fn new_unknown_backend() -> (r: BackendStack)
    ensures
        backend_view(r) == unknown_backend(),
{
    let r = BackendStack {
        framework: String::from_str("Unknown"),
        rest: false,
        db: String::from_str("None"),
        queue: String::from_str("None"),
        orm: None,
        migrations: None,
        ai_features: Vec::new(),
    };
    assert(string_views(r.ai_features@) =~= Seq::<Seq<char>>::empty());
    r
}

pub fn clone_opt(o: &Option<String>) -> (r: Option<String>)
    ensures
        r == *o,
{
    match o {
        Some(s) => Some(s.clone()),
        None => None,
    }
}

pub fn clone_strings(v: &Vec<String>) -> (r: Vec<String>)
    ensures
        r@ == v@,
{
    let mut out: Vec<String> = Vec::new();
    let mut i: usize = 0;
    while i < v.len()
        invariant
            i <= v@.len(),
            out@ == v@.subrange(0, i as int),
        decreases v@.len() - i,
    {
        out.push(v[i].clone());
        i += 1;
        assert(out@ =~= v@.subrange(0, i as int));
    }
    assert(v@.subrange(0, v@.len() as int) =~= v@);
    out
}

pub fn clone_backend(b: &BackendStack) -> (r: BackendStack)
    ensures
        backend_view(r) == backend_view(*b),
{
    BackendStack {
        framework: b.framework.clone(),
        rest: b.rest,
        db: b.db.clone(),
        queue: b.queue.clone(),
        orm: clone_opt(&b.orm),
        migrations: clone_opt(&b.migrations),
        ai_features: clone_strings(&b.ai_features),
    }
}

/// The module's backend so far, or a new unknown one.
pub fn backend_or_unknown(r: &ModuleReport) -> (b: BackendStack)
    ensures
        backend_view(b) == current_backend(r),
{
    match &r.backend {
        Some(b) => clone_backend(b),
        None => new_unknown_backend(),
    }
}

/// Appends a label to a list.
pub fn push_label(v: &mut Vec<String>, s: &str)
    ensures
        string_views(final(v)@) == string_views(old(v)@).push(s@),
{
    let ghost before = v@;
    v.push(String::from_str(s));
    assert(string_views(v@) =~= string_views(before).push(s@));
}

impl ModuleReport {
    /// An empty report for a module.
    pub fn new(name: &String, path: &String) -> (r: ModuleReport)
        ensures
            r.name == *name,
            r.path == *path,
            r.languages@.len() == 0,
            r.frameworks@.len() == 0,
            r.deps@.len() == 0,
            r.backend.is_none(),
            r.frontend.is_none(),
            r.generated.is_none(),
            r.assets.is_none(),
            r.warnings@.len() == 0,
    {
        ModuleReport {
            name: name.clone(),
            path: path.clone(),
            languages: Vec::new(),
            frameworks: Vec::new(),
            deps: Vec::new(),
            backend: None,
            frontend: None,
            generated: None,
            assets: None,
            warnings: Vec::new(),
        }
    }
}

} // verus!

verus! {

use crate::project_tree::{lemma_lex_total, lemma_lex_trans, lex_less, lex_lt};
use crate::text::chars_of;

/// Strictly increasing in lexicographic order, so without repeats.
pub open spec fn strictly_sorted(s: Seq<Seq<char>>) -> bool {
    forall|a: int, b: int| 0 <= a < b < s.len() ==> lex_lt(s[a], s[b])
}

pub proof fn lemma_sorted_insert(ov: Seq<Seq<char>>, p: int, x: Seq<char>)
    requires
        strictly_sorted(ov),
        0 <= p <= ov.len(),
        forall|k: int| 0 <= k < p ==> lex_lt(ov[k], x),
        p < ov.len() ==> lex_lt(x, ov[p]),
    ensures
        strictly_sorted(ov.insert(p, x)),
        forall|s: Seq<char>| ov.insert(p, x).contains(s) <==> (ov.contains(s) || s == x),
{
    let nv = ov.insert(p, x);
    ov.insert_ensures(p, x);
    assert forall|a: int, b: int| 0 <= a < b < nv.len() implies lex_lt(nv[a], nv[b]) by {
        if b < p {
        } else if b == p {
        } else if a < p {
            assert(nv[b] == ov[b - 1]);
            if p < b - 1 {
                lemma_lex_trans(x, ov[p], ov[b - 1]);
            }
            lemma_lex_trans(nv[a], x, ov[b - 1]);
        } else if a == p {
            assert(nv[b] == ov[b - 1]);
            if p < b - 1 {
                lemma_lex_trans(x, ov[p], ov[b - 1]);
            }
        } else {
            assert(nv[a] == ov[a - 1]);
            assert(nv[b] == ov[b - 1]);
        }
    }
    assert forall|s: Seq<char>| nv.contains(s) <==> (ov.contains(s) || s == x) by {
        if nv.contains(s) {
            let k = choose|k: int| 0 <= k < nv.len() && #[trigger] nv[k] == s;
            if k < p {
                assert(ov[k] == s);
            } else if k > p {
                assert(ov[k - 1] == s);
            }
        }
        if ov.contains(s) {
            let m = choose|m: int| 0 <= m < ov.len() && #[trigger] ov[m] == s;
            if m < p {
                assert(nv[m] == s);
            } else {
                assert(nv[m + 1] == s);
            }
        }
        if s == x {
            assert(nv[p] == s);
        }
    }
}

proof fn lemma_prefix_push_contains(vv: Seq<Seq<char>>, i: int)
    requires
        0 <= i < vv.len(),
    ensures
        forall|s: Seq<char>| vv.subrange(0, i + 1).contains(s) <==> (vv.subrange(0, i).contains(s) || s == vv[i]),
{
    let pre = vv.subrange(0, i);
    let post = vv.subrange(0, i + 1);
    assert(post =~= pre.push(vv[i]));
    assert forall|s: Seq<char>| post.contains(s) <==> (pre.contains(s) || s == vv[i]) by {
        if post.contains(s) {
            let k = choose|k: int| 0 <= k < post.len() && #[trigger] post[k] == s;
            if k < i {
                assert(pre[k] == s);
            }
        }
        if pre.contains(s) {
            let k = choose|k: int| 0 <= k < pre.len() && #[trigger] pre[k] == s;
            assert(post[k] == s);
        }
        if s == vv[i] {
            assert(post[i] == s);
        }
    }
}

/// The labels sorted, each once.
pub fn sort_dedup(v: &Vec<String>) -> (r: Vec<String>)
    ensures
        strictly_sorted(string_views(r@)),
        forall|s: Seq<char>| string_views(r@).contains(s) <==> string_views(v@).contains(s),
{
    let ghost vv = string_views(v@);
    let mut out: Vec<String> = Vec::new();
    let mut i: usize = 0;
    while i < v.len()
        invariant
            i <= v@.len(),
            vv == string_views(v@),
            strictly_sorted(string_views(out@)),
            forall|s: Seq<char>| string_views(out@).contains(s) <==> vv.subrange(0, i as int).contains(s),
        decreases v@.len() - i,
    {
        let x = chars_of(v[i].as_str());
        let ghost ov = string_views(out@);
        let mut p: usize = 0;
        let mut stop = false;
        let mut dup = false;
        while p < out.len() && !stop
            invariant
                p <= out@.len(),
                ov == string_views(out@),
                x@ == vv[i as int],
                i < v@.len(),
                forall|k: int| 0 <= k < p ==> lex_lt(ov[k], x@),
                stop ==> p < out@.len(),
                stop && !dup ==> lex_lt(x@, ov[p as int]),
                dup ==> stop && ov[p as int] == x@,
            decreases out@.len() - p, if stop { 0int } else { 1int },
        {
            let y = chars_of(out[p].as_str());
            if lex_less(&x, &y) {
                stop = true;
            } else if crate::text::eq_chars(&x, &y) {
                stop = true;
                dup = true;
            } else {
                proof {
                    lemma_lex_total(ov[p as int], x@);
                }
                p += 1;
            }
        }
        let ghost pre = vv.subrange(0, i as int);
        let ghost post = vv.subrange(0, i + 1);
        proof {
            lemma_prefix_push_contains(vv, i as int);
            assert(forall|s: Seq<char>| ov.contains(s) <==> pre.contains(s));
            assert(forall|s: Seq<char>| post.contains(s) <==> (pre.contains(s) || s == x@));
        }
        if dup {
            assert(ov.contains(x@));
            assert forall|s: Seq<char>| string_views(out@).contains(s) <==> vv.subrange(0, i + 1).contains(s) by {}
        } else {
            out.insert(p, v[i].clone());
            proof {
                assert(string_views(out@) =~= ov.insert(p as int, x@));
                lemma_sorted_insert(ov, p as int, x@);
                assert forall|s: Seq<char>| string_views(out@).contains(s) <==> post.contains(s) by {
                    assert(string_views(out@).contains(s) <==> (ov.contains(s) || s == x@));
                    assert(ov.contains(s) <==> pre.contains(s));
                }
            }
        }
        i += 1;
    }
    assert(vv.subrange(0, vv.len() as int) =~= vv);
    out
}

} // verus!

verus! {

/// A backend with any sign of a server side: REST, a database, a queue, an ORM, a
/// migrations tool or an AI integration.
pub open spec fn has_signals(b: BackendView) -> bool {
    b.rest || b.db != "None"@ || b.queue != "None"@ || b.orm.is_some() || b.migrations.is_some() || b.ai.len() > 0
}

/// The wrap-up of a backend: Django implies its ORM and migrations; an unknown framework
/// with signals becomes the generic Python label.
pub open spec fn finalize_backend(b: BackendView) -> BackendView {
    let b1 = if b.framework == "Django"@ {
        BackendView { orm: Some("Django ORM"@), migrations: Some("Django Migrations"@), ..b }
    } else {
        b
    };
    if b1.framework == "Unknown"@ && has_signals(b1) {
        BackendView { framework: "Python App (Generic)"@, ..b1 }
    } else {
        b1
    }
}

pub open spec fn opt_seq(o: Option<Seq<char>>) -> Seq<Seq<char>> {
    match o {
        Some(s) => seq![s],
        None => Seq::empty(),
    }
}

/// The labels a finished backend and frontend add to the dependency list.
pub open spec fn wrap_up_labels(r: &ModuleReport) -> Seq<Seq<char>> {
    (match r.backend {
        Some(b) => {
            let f = finalize_backend(backend_view(b));
            opt_seq(f.orm) + opt_seq(f.migrations) + f.ai
        },
        None => Seq::empty(),
    }) + (match r.frontend {
        Some(f) => string_views(f.visualization@),
        None => Seq::empty(),
    })
}

fn push_all(v: &mut Vec<String>, items: &Vec<String>)
    ensures
        string_views(final(v)@) == string_views(old(v)@) + string_views(items@),
{
    let ghost v0 = string_views(v@);
    let mut k: usize = 0;
    while k < items.len()
        invariant
            k <= items@.len(),
            string_views(v@) == v0 + string_views(items@).subrange(0, k as int),
        decreases items@.len() - k,
    {
        let ghost before = v@;
        v.push(items[k].clone());
        assert(string_views(v@) =~= string_views(before).push(items@[k as int]@));
        k += 1;
        assert(string_views(items@).subrange(0, k as int) =~= string_views(items@).subrange(0, k - 1).push(items@[k - 1]@));
    }
    assert(string_views(items@).subrange(0, k as int) =~= string_views(items@));
}

fn push_opt(v: &mut Vec<String>, o: &Option<String>)
    ensures
        string_views(final(v)@) == string_views(old(v)@) + opt_seq(opt_view(*o)),
{
    let ghost v0 = string_views(v@);
    match o {
        Some(s) => {
            v.push(s.clone());
            assert(string_views(v@) =~= v0 + opt_seq(opt_view(*o)));
        },
        None => {
            assert(string_views(v@) =~= v0 + opt_seq(opt_view(*o)));
        },
    }
}

/// What the wrap-up guarantees, from the report before (`o`) to the report after (`n`).
pub open spec fn finalize_post(o: ModuleReport, n: ModuleReport) -> bool {
    &&& n.name == o.name
    &&& n.path == o.path
    &&& n.languages == o.languages
    &&& n.generated == o.generated
    &&& n.assets == o.assets
    &&& n.frontend == o.frontend
    &&& n.warnings == o.warnings
    &&& n.backend.is_some() == o.backend.is_some()
    &&& o.backend.is_some() ==> backend_view(n.backend.unwrap()) == finalize_backend(backend_view(o.backend.unwrap()))
    &&& strictly_sorted(string_views(n.frameworks@))
    &&& forall|s: Seq<char>| string_views(n.frameworks@).contains(s) <==> string_views(o.frameworks@).contains(s)
    &&& strictly_sorted(string_views(n.deps@))
    &&& forall|s: Seq<char>|
        string_views(n.deps@).contains(s) <==> (string_views(o.deps@) + wrap_up_labels(&o)).contains(s)
}

/// Applies the wrap-up rules, then sorts the framework and dependency labels and keeps
/// each once.
pub fn finalize_module_report(report: &mut ModuleReport)
    ensures
        finalize_post(*old(report), *final(report)),
{
    let ghost old_r = *report;
    let ghost deps0 = string_views(report.deps@);
    let mut deps = crate::report::clone_strings(&report.deps);
    match &report.backend {
        Some(b0) => {
            let mut b = clone_backend(b0);
            if crate::text::eq_str(&chars_of(b.framework.as_str()), "Django") {
                b.orm = Some(String::from_str("Django ORM"));
                b.migrations = Some(String::from_str("Django Migrations"));
            }
            let signals = b.rest || !crate::text::eq_str(&chars_of(b.db.as_str()), "None")
                || !crate::text::eq_str(&chars_of(b.queue.as_str()), "None") || b.orm.is_some()
                || b.migrations.is_some() || b.ai_features.len() > 0;
            if crate::text::eq_str(&chars_of(b.framework.as_str()), "Unknown") && signals {
                b.framework = String::from_str("Python App (Generic)");
            }
            push_opt(&mut deps, &b.orm);
            push_opt(&mut deps, &b.migrations);
            push_all(&mut deps, &b.ai_features);
            report.backend = Some(b);
        },
        None => {},
    }
    let ghost mid = string_views(deps@);
    match &report.frontend {
        Some(f) => push_all(&mut deps, &f.visualization),
        None => {},
    }
    assert(string_views(deps@) =~= deps0 + wrap_up_labels(&old_r));
    report.frameworks = sort_dedup(&report.frameworks);
    report.deps = sort_dedup(&deps);
}

} // verus!
