//! Technologies named by a JavaScript manifest: its declared dependencies and scripts.
use vstd::prelude::*;

use crate::classify::string_views;
use crate::project_tree::{lemma_lex_total, lex_less, lex_lt};
use crate::report::{lemma_sorted_insert, opt_view, strictly_sorted};
use crate::techstack::{build_js_dependency_graph, ComponentRef, DeclaredDep, TechGraph};
use crate::text::{chars_of, contains, contains_str, eq_chars};

verus! {

/// A detected technology. The confidence is a percentage.
pub struct TechComponent {
    pub id: String,
    pub name: String,
    pub category: String,
    pub version: Option<String>,
    pub confidence_percent: u32,
    pub evidence: Vec<String>,
}

/// A detection rule: the component it yields, the dependency names that reveal it (the
/// version comes from the first of them that is declared), and a word whose presence in
/// a script reveals it too.
pub struct JsRule {
    pub id: &'static str,
    pub name: &'static str,
    pub category: &'static str,
    pub key1: &'static str,
    pub key2: Option<&'static str>,
    pub script: Option<&'static str>,
    pub confidence_percent: u32,
    pub evidence: &'static str,
}

pub struct RuleView {
    pub id: Seq<char>,
    pub name: Seq<char>,
    pub category: Seq<char>,
    pub key1: Seq<char>,
    pub key2: Option<Seq<char>>,
    pub script: Option<Seq<char>>,
    pub confidence_percent: u32,
    pub evidence: Seq<char>,
}

pub open spec fn opt_str(o: Option<&'static str>) -> Option<Seq<char>> {
    match o {
        Some(s) => Some(s@),
        None => None,
    }
}

pub open spec fn rule_view(r: JsRule) -> RuleView {
    RuleView {
        id: r.id@,
        name: r.name@,
        category: r.category@,
        key1: r.key1@,
        key2: opt_str(r.key2),
        script: opt_str(r.script),
        confidence_percent: r.confidence_percent,
        evidence: r.evidence@,
    }
}

pub open spec fn dep_views(d: Seq<DeclaredDep>) -> Seq<(Seq<char>, Seq<char>)> {
    d.map_values(|x: DeclaredDep| (x.name@, x.version@))
}

/// The version declared for `name`, if it is declared.
pub open spec fn declared(d: Seq<(Seq<char>, Seq<char>)>, name: Seq<char>) -> Option<Seq<char>>
    decreases d.len(),
{
    if d.len() == 0 {
        None
    } else if d[0].0 == name {
        Some(d[0].1)
    } else {
        declared(d.drop_first(), name)
    }
}

/// Some script contains `word`.
pub open spec fn script_mentions(scripts: Seq<Seq<char>>, word: Seq<char>) -> bool {
    exists|i: int| 0 <= i < scripts.len() && contains(#[trigger] scripts[i], word)
}

pub open spec fn rule_applies(r: RuleView, d: Seq<(Seq<char>, Seq<char>)>, scripts: Seq<Seq<char>>) -> bool {
    declared(d, r.key1).is_some() || (r.key2.is_some() && declared(d, r.key2.unwrap()).is_some()) || (
    r.script.is_some() && script_mentions(scripts, r.script.unwrap()))
}

pub open spec fn rule_version(r: RuleView, d: Seq<(Seq<char>, Seq<char>)>) -> Option<Seq<char>> {
    if declared(d, r.key1).is_some() {
        declared(d, r.key1)
    } else if r.key2.is_some() {
        declared(d, r.key2.unwrap())
    } else {
        None
    }
}

pub open spec fn component_view(c: TechComponent) -> (Seq<char>, Seq<char>, Seq<char>, Option<Seq<char>>, u32, Seq<Seq<char>>) {
    (c.id@, c.name@, c.category@, opt_view(c.version), c.confidence_percent, string_views(c.evidence@))
}

pub open spec fn component_of(r: RuleView, d: Seq<(Seq<char>, Seq<char>)>) -> (Seq<char>, Seq<char>, Seq<char>, Option<Seq<char>>, u32, Seq<Seq<char>>) {
    (r.id, r.name, r.category, rule_version(r, d), r.confidence_percent, seq![r.evidence])
}

/// The components the rules give, in rule order.
pub open spec fn detected_by(rules: Seq<RuleView>, d: Seq<(Seq<char>, Seq<char>)>, scripts: Seq<Seq<char>>) -> Seq<(Seq<char>, Seq<char>, Seq<char>, Option<Seq<char>>, u32, Seq<Seq<char>>)> {
    rules.filter(|r: RuleView| rule_applies(r, d, scripts)).map_values(|r: RuleView| component_of(r, d))
}

/// A rule as values.
pub open spec fn rv(
    id: Seq<char>,
    name: Seq<char>,
    category: Seq<char>,
    key1: Seq<char>,
    key2: Option<Seq<char>>,
    script: Option<Seq<char>>,
    confidence_percent: u32,
    evidence: Seq<char>,
) -> RuleView {
    RuleView { id, name, category, key1, key2, script, confidence_percent, evidence }
}

/// The detection rules, in the order their components are listed.
pub open spec fn js_rule_table() -> Seq<RuleView> {
    seq![
        rv("react"@, "React"@, "frontend"@, "react"@, None, None, 98, "package.json: dependencies.react"@),
        rv("next"@, "Next.js"@, "frontend"@, "next"@, None, None, 95, "package.json: dependencies.next"@),
        rv("vue"@, "Vue"@, "frontend"@, "vue"@, None, None, 98, "package.json: dependencies.vue"@),
        rv("nuxt"@, "Nuxt"@, "frontend"@, "nuxt"@, Some("nuxt3"@), None, 92, "package.json: dependencies.nuxt"@),
        rv("angular"@, "Angular"@, "frontend"@, "@angular/core"@, None, None, 98, "package.json: dependencies.@angular/core"@),
        rv("svelte"@, "Svelte"@, "frontend"@, "svelte"@, None, None, 97, "package.json: dependencies.svelte"@),
        rv("vite"@, "Vite"@, "build"@, "vite"@, None, Some("vite"@), 90, "package.json: vite"@),
        rv("webpack"@, "Webpack"@, "build"@, "webpack"@, Some("webpack-cli"@), Some("webpack"@), 88, "package.json: webpack"@),
        rv("rollup"@, "Rollup"@, "build"@, "rollup"@, None, Some("rollup"@), 85, "package.json: rollup"@),
        rv("vitest"@, "Vitest"@, "test"@, "vitest"@, None, Some("vitest"@), 90, "package.json: vitest"@),
        rv("jest"@, "Jest"@, "test"@, "jest"@, None, Some("jest"@), 90, "package.json: jest"@),
        rv("cypress"@, "Cypress"@, "test"@, "cypress"@, None, None, 90, "package.json: cypress"@),
        rv("playwright"@, "Playwright"@, "test"@, "@playwright/test"@, Some("playwright"@), None, 88, "package.json: playwright"@),
        rv("express"@, "Express"@, "backend"@, "express"@, None, None, 90, "package.json: express"@),
        rv("nestjs"@, "NestJS"@, "backend"@, "@nestjs/core"@, None, None, 90, "package.json: @nestjs/core"@),
        rv("koa"@, "Koa"@, "backend"@, "koa"@, None, None, 85, "package.json: koa"@),
        rv("fastify"@, "Fastify"@, "backend"@, "fastify"@, None, None, 88, "package.json: fastify"@),
        rv("prisma"@, "Prisma"@, "database"@, "prisma"@, None, None, 85, "package.json: prisma"@),
        rv("mongoose"@, "MongoDB (Mongoose)"@, "database"@, "mongoose"@, None, None, 85, "package.json: mongoose"@),
        rv("postgres"@, "PostgreSQL"@, "database"@, "pg"@, None, None, 75, "package.json: pg"@),
        rv("mysql"@, "MySQL"@, "database"@, "mysql2"@, Some("mysql"@), None, 70, "package.json: mysql/mysql2"@),
        rv("redis"@, "Redis"@, "database"@, "redis"@, Some("ioredis"@), None, 70, "package.json: redis/ioredis"@),
    ]
}

fn rule(
    id: &'static str,
    name: &'static str,
    category: &'static str,
    key1: &'static str,
    key2: Option<&'static str>,
    script: Option<&'static str>,
    confidence_percent: u32,
    evidence: &'static str,
) -> (r: JsRule)
    ensures
        rule_view(r) == (RuleView {
            id: id@,
            name: name@,
            category: category@,
            key1: key1@,
            key2: opt_str(key2),
            script: opt_str(script),
            confidence_percent,
            evidence: evidence@,
        }),
{
    JsRule { id, name, category, key1, key2, script, confidence_percent, evidence }
}

/// The rules, in the order their components are listed: UI frameworks, build tools,
/// test tools, server frameworks, data stores.
pub fn js_rules() -> (r: Vec<JsRule>)
    ensures
        rule_views(r@) == js_rule_table(),
{
    let mut v: Vec<JsRule> = Vec::new();
    v.push(rule("react", "React", "frontend", "react", None, None, 98, "package.json: dependencies.react"));
    v.push(rule("next", "Next.js", "frontend", "next", None, None, 95, "package.json: dependencies.next"));
    v.push(rule("vue", "Vue", "frontend", "vue", None, None, 98, "package.json: dependencies.vue"));
    v.push(rule("nuxt", "Nuxt", "frontend", "nuxt", Some("nuxt3"), None, 92, "package.json: dependencies.nuxt"));
    v.push(rule("angular", "Angular", "frontend", "@angular/core", None, None, 98, "package.json: dependencies.@angular/core"));
    v.push(rule("svelte", "Svelte", "frontend", "svelte", None, None, 97, "package.json: dependencies.svelte"));
    v.push(rule("vite", "Vite", "build", "vite", None, Some("vite"), 90, "package.json: vite"));
    v.push(rule("webpack", "Webpack", "build", "webpack", Some("webpack-cli"), Some("webpack"), 88, "package.json: webpack"));
    v.push(rule("rollup", "Rollup", "build", "rollup", None, Some("rollup"), 85, "package.json: rollup"));
    v.push(rule("vitest", "Vitest", "test", "vitest", None, Some("vitest"), 90, "package.json: vitest"));
    v.push(rule("jest", "Jest", "test", "jest", None, Some("jest"), 90, "package.json: jest"));
    v.push(rule("cypress", "Cypress", "test", "cypress", None, None, 90, "package.json: cypress"));
    v.push(rule("playwright", "Playwright", "test", "@playwright/test", Some("playwright"), None, 88, "package.json: playwright"));
    v.push(rule("express", "Express", "backend", "express", None, None, 90, "package.json: express"));
    v.push(rule("nestjs", "NestJS", "backend", "@nestjs/core", None, None, 90, "package.json: @nestjs/core"));
    v.push(rule("koa", "Koa", "backend", "koa", None, None, 85, "package.json: koa"));
    v.push(rule("fastify", "Fastify", "backend", "fastify", None, None, 88, "package.json: fastify"));
    v.push(rule("prisma", "Prisma", "database", "prisma", None, None, 85, "package.json: prisma"));
    v.push(rule("mongoose", "MongoDB (Mongoose)", "database", "mongoose", None, None, 85, "package.json: mongoose"));
    v.push(rule("postgres", "PostgreSQL", "database", "pg", None, None, 75, "package.json: pg"));
    v.push(rule("mysql", "MySQL", "database", "mysql2", Some("mysql"), None, 70, "package.json: mysql/mysql2"));
    v.push(rule("redis", "Redis", "database", "redis", Some("ioredis"), None, 70, "package.json: redis/ioredis"));
    assert(rule_views(v@) =~= js_rule_table());
    v
}

fn declared_exec(deps: &Vec<DeclaredDep>, name: &str) -> (r: Option<String>)
    ensures
        opt_view(r) == declared(dep_views(deps@), name@),
{
    let ghost d = dep_views(deps@);
    let n = chars_of(name);
    let mut i: usize = 0;
    assert(d.skip(0) =~= d);
    while i < deps.len()
        invariant
            i <= deps@.len(),
            d == dep_views(deps@),
            n@ == name@,
            declared(d, name@) == declared(d.skip(i as int), name@),
        decreases deps@.len() - i,
    {
        assert(d.skip(i as int)[0] == d[i as int]);
        assert(d.skip(i as int).drop_first() =~= d.skip(i + 1));
        if eq_chars(&chars_of(deps[i].name.as_str()), &n) {
            return Some(deps[i].version.clone());
        }
        i += 1;
    }
    None
}

fn script_mentions_exec(scripts: &Vec<String>, word: &str) -> (r: bool)
    ensures
        r == script_mentions(string_views(scripts@), word@),
{
    let ghost sv = string_views(scripts@);
    let mut i: usize = 0;
    while i < scripts.len()
        invariant
            i <= scripts@.len(),
            sv == string_views(scripts@),
            forall|j: int| 0 <= j < i ==> !contains(#[trigger] sv[j], word@),
        decreases scripts@.len() - i,
    {
        if contains_str(&chars_of(scripts[i].as_str()), word) {
            assert(contains(sv[i as int], word@));
            return true;
        }
        i += 1;
    }
    false
}

fn apply_rule(r: &JsRule, deps: &Vec<DeclaredDep>, scripts: &Vec<String>) -> (c: Option<TechComponent>)
    ensures
        match c {
            Some(x) => rule_applies(rule_view(*r), dep_views(deps@), string_views(scripts@)) && component_view(x)
                == component_of(rule_view(*r), dep_views(deps@)),
            None => !rule_applies(rule_view(*r), dep_views(deps@), string_views(scripts@)),
        },
{
    let v1 = declared_exec(deps, r.key1);
    let v2 = match r.key2 {
        Some(k) => declared_exec(deps, k),
        None => None,
    };
    let by_script = match r.script {
        Some(w) => script_mentions_exec(scripts, w),
        None => false,
    };
    if v1.is_none() && v2.is_none() && !by_script {
        return None;
    }
    let version = if v1.is_some() {
        v1
    } else {
        v2
    };
    let mut evidence: Vec<String> = Vec::new();
    evidence.push(String::from_str(r.evidence));
    assert(string_views(evidence@) =~= seq![r.evidence@]);
    Some(TechComponent {
        id: String::from_str(r.id),
        name: String::from_str(r.name),
        category: String::from_str(r.category),
        version,
        confidence_percent: r.confidence_percent,
        evidence,
    })
}

pub open spec fn component_views(v: Seq<TechComponent>) -> Seq<(Seq<char>, Seq<char>, Seq<char>, Option<Seq<char>>, u32, Seq<Seq<char>>)> {
    v.map_values(|c: TechComponent| component_view(c))
}

pub open spec fn rule_views(v: Seq<JsRule>) -> Seq<RuleView> {
    v.map_values(|r: JsRule| rule_view(r))
}

/// The components that the rules find in the declared dependencies and the scripts, in
/// rule order.
pub fn detect_js_components(rules: &Vec<JsRule>, deps: &Vec<DeclaredDep>, scripts: &Vec<String>) -> (r: Vec<TechComponent>)
    ensures
        component_views(r@) == detected_by(rule_views(rules@), dep_views(deps@), string_views(scripts@)),
{
    let ghost rv = rule_views(rules@);
    let ghost d = dep_views(deps@);
    let ghost s = string_views(scripts@);
    let mut out: Vec<TechComponent> = Vec::new();
    let mut i: usize = 0;
    while i < rules.len()
        invariant
            i <= rules@.len(),
            rv == rule_views(rules@),
            d == dep_views(deps@),
            s == string_views(scripts@),
            component_views(out@) == detected_by(rv.subrange(0, i as int), d, s),
        decreases rules@.len() - i,
    {
        let ghost pre = rv.subrange(0, i as int);
        proof {
            pre.lemma_filter_push(rv[i as int], |r: RuleView| rule_applies(r, d, s));
            assert(pre.push(rv[i as int]) =~= rv.subrange(0, i + 1));
        }
        match apply_rule(&rules[i], deps, scripts) {
            Some(c) => {
                let ghost before = out@;
                out.push(c);
                proof {
                    let f = pre.filter(|r: RuleView| rule_applies(r, d, s));
                    assert(f.push(rv[i as int]).map_values(|r: RuleView| component_of(r, d)) =~= f.map_values(
                        |r: RuleView| component_of(r, d),
                    ).push(component_of(rv[i as int], d)));
                    assert(component_views(out@) =~= component_views(before).push(component_view(c)));
                }
            },
            None => {},
        }
        i += 1;
    }
    assert(rv.subrange(0, rv.len() as int) =~= rv);
    out
}

} // verus!

verus! {

pub proof fn lemma_declared_push(p: Seq<(Seq<char>, Seq<char>)>, x: (Seq<char>, Seq<char>), n: Seq<char>)
    ensures
        declared(p.push(x), n) == if declared(p, n).is_some() {
            declared(p, n)
        } else if x.0 == n {
            Some(x.1)
        } else {
            None
        },
    decreases p.len(),
{
    if p.len() > 0 {
        assert(p.push(x)[0] == p[0]);
        assert(p.push(x).drop_first() =~= p.drop_first().push(x));
        lemma_declared_push(p.drop_first(), x, n);
    } else {
        assert(p.push(x)[0] == x);
        assert(p.push(x).drop_first() =~= Seq::<(Seq<char>, Seq<char>)>::empty());
        assert(declared(p.push(x).drop_first(), n).is_none());
        assert(declared(p, n).is_none());
    }
}

pub proof fn lemma_declared_some(p: Seq<(Seq<char>, Seq<char>)>, n: Seq<char>)
    ensures
        declared(p, n).is_some() <==> exists|j: int| 0 <= j < p.len() && (#[trigger] p[j]).0 == n,
    decreases p.len(),
{
    if p.len() > 0 {
        lemma_declared_some(p.drop_first(), n);
        if declared(p.drop_first(), n).is_some() {
            let j = choose|j: int| 0 <= j < p.drop_first().len() && (#[trigger] p.drop_first()[j]).0 == n;
            assert(p[j + 1].0 == n);
        }
        if exists|j: int| 0 <= j < p.len() && (#[trigger] p[j]).0 == n {
            let j = choose|j: int| 0 <= j < p.len() && (#[trigger] p[j]).0 == n;
            if j > 0 {
                assert(p.drop_first()[j - 1].0 == n);
            }
        }
    }
}

pub open spec fn dep_names(v: Seq<DeclaredDep>) -> Seq<Seq<char>> {
    v.map_values(|d: DeclaredDep| d.name@)
}

/// The declared dependencies of all sections (in section order), each name once with the
/// version of its first declaration, ordered by name.
pub fn merge_dependency_objects(sections: &Vec<DeclaredDep>) -> (r: Vec<DeclaredDep>)
    ensures
        strictly_sorted(dep_names(r@)),
        forall|k: int| 0 <= k < r@.len() ==> declared(dep_views(sections@), (#[trigger] r@[k]).name@) == Some(r@[k].version@),
        forall|n: Seq<char>| dep_names(r@).contains(n) <==> declared(dep_views(sections@), n).is_some(),
{
    let ghost d = dep_views(sections@);
    let mut out: Vec<DeclaredDep> = Vec::new();
    let mut i: usize = 0;
    while i < sections.len()
        invariant
            i <= sections@.len(),
            d == dep_views(sections@),
            strictly_sorted(dep_names(out@)),
            forall|k: int| 0 <= k < out@.len() ==> declared(d.subrange(0, i as int), (#[trigger] out@[k]).name@) == Some(out@[k].version@),
            forall|n: Seq<char>| dep_names(out@).contains(n) <==> declared(d.subrange(0, i as int), n).is_some(),
        decreases sections@.len() - i,
    {
        let ghost pre = d.subrange(0, i as int);
        let ghost x = d[i as int];
        proof {
            assert(d.subrange(0, i + 1) =~= pre.push(x));
            assert forall|n: Seq<char>| #[trigger] declared(d.subrange(0, i + 1), n) == if declared(pre, n).is_some() {
                declared(pre, n)
            } else if x.0 == n {
                Some(x.1)
            } else {
                None
            } by {
                lemma_declared_push(pre, x, n);
            }
        }
        let name = chars_of(sections[i].name.as_str());
        let ghost ov = dep_names(out@);
        let mut p: usize = 0;
        let mut stop = false;
        let mut dup = false;
        while p < out.len() && !stop
            invariant
                p <= out@.len(),
                ov == dep_names(out@),
                name@ == x.0,
                forall|k: int| 0 <= k < p ==> lex_lt(ov[k], name@),
                stop ==> p < out@.len(),
                stop && !dup ==> lex_lt(name@, ov[p as int]),
                dup ==> stop && ov[p as int] == name@,
            decreases out@.len() - p, if stop { 0int } else { 1int },
        {
            let y = chars_of(out[p].name.as_str());
            if lex_less(&name, &y) {
                stop = true;
            } else if eq_chars(&name, &y) {
                stop = true;
                dup = true;
            } else {
                proof {
                    lemma_lex_total(ov[p as int], name@);
                }
                p += 1;
            }
        }
        if dup {
            assert(ov.contains(name@));
        } else {
            proof {
                assert(!ov.contains(name@)) by {
                    if ov.contains(name@) {
                        let k = choose|k: int| 0 <= k < ov.len() && ov[k] == name@;
                        if k < p {
                            lemma_lex_total(ov[k], name@);
                        } else {
                            if k > p {
                                assert(lex_lt(ov[p as int], ov[k]));
                                crate::project_tree::lemma_lex_trans(name@, ov[p as int], ov[k]);
                            }
                            lemma_lex_total(name@, name@);
                        }
                    }
                }
                assert(declared(pre, name@).is_none());
            }
            let ghost olds = out@;
            let item = DeclaredDep { name: sections[i].name.clone(), version: sections[i].version.clone() };
            let ghost it = item;
            out.insert(p, item);
            proof {
                assert(dep_names(out@) =~= ov.insert(p as int, name@));
                lemma_sorted_insert(ov, p as int, name@);
                olds.insert_ensures(p as int, it);
                assert forall|k: int| 0 <= k < out@.len() implies declared(d.subrange(0, i + 1), (#[trigger] out@[k]).name@)
                    == Some(out@[k].version@) by {
                    if k < p {
                        assert(out@[k] == olds[k]);
                    } else if k > p {
                        assert(out@[k] == olds[k - 1]);
                    }
                }
            }
        }
        proof {
            if dup {
                assert forall|k: int| 0 <= k < out@.len() implies declared(d.subrange(0, i + 1), (#[trigger] out@[k]).name@)
                    == Some(out@[k].version@) by {
                    assert(declared(pre, out@[k].name@).is_some());
                }
                assert forall|n: Seq<char>| dep_names(out@).contains(n) <==> declared(d.subrange(0, i + 1), n).is_some() by {
                    assert(declared(d.subrange(0, i + 1), n) == if declared(pre, n).is_some() {
                        declared(pre, n)
                    } else if x.0 == n {
                        Some(x.1)
                    } else {
                        None
                    });
                }
            } else {
                assert forall|n: Seq<char>| dep_names(out@).contains(n) <==> declared(d.subrange(0, i + 1), n).is_some() by {
                    assert(declared(d.subrange(0, i + 1), n) == if declared(pre, n).is_some() {
                        declared(pre, n)
                    } else if x.0 == n {
                        Some(x.1)
                    } else {
                        None
                    });
                    assert(dep_names(out@).contains(n) <==> (ov.contains(n) || n == name@));
                }
            }
        }
        i += 1;
    }
    assert(d.subrange(0, d.len() as int) =~= d);
    out
}

proof fn lemma_declared_at(p: Seq<(Seq<char>, Seq<char>)>, n: Seq<char>, k: int)
    requires
        0 <= k < p.len(),
        p[k].0 == n,
        forall|j: int| 0 <= j < k ==> p[j].0 != n,
    ensures
        declared(p, n) == Some(p[k].1),
    decreases k,
{
    if k > 0 {
        assert forall|j: int| 0 <= j < k - 1 implies p.drop_first()[j].0 != n by {
            assert(p.drop_first()[j] == p[j + 1]);
        }
        lemma_declared_at(p.drop_first(), n, k - 1);
    }
}

proof fn lemma_merged_declared(sections: Seq<DeclaredDep>, merged: Seq<DeclaredDep>, n: Seq<char>)
    requires
        strictly_sorted(dep_names(merged)),
        forall|k: int| 0 <= k < merged.len() ==> declared(dep_views(sections), (#[trigger] merged[k]).name@) == Some(merged[k].version@),
        forall|m: Seq<char>| dep_names(merged).contains(m) <==> declared(dep_views(sections), m).is_some(),
    ensures
        declared(dep_views(merged), n) == declared(dep_views(sections), n),
{
    let mv = dep_views(merged);
    if dep_names(merged).contains(n) {
        let k = choose|k: int| 0 <= k < dep_names(merged).len() && dep_names(merged)[k] == n;
        assert forall|j: int| 0 <= j < k implies mv[j].0 != n by {
            assert(lex_lt(dep_names(merged)[j], dep_names(merged)[k]));
            lemma_lex_total(n, n);
        }
        assert(mv[k].0 == n);
        lemma_declared_at(mv, n, k);
    } else {
        lemma_declared_some(mv, n);
        if declared(mv, n).is_some() {
            let j = choose|j: int| 0 <= j < mv.len() && (#[trigger] mv[j]).0 == n;
            assert(dep_names(merged)[j] == n);
        }
    }
}

proof fn lemma_detected_same(
    rules: Seq<RuleView>,
    d1: Seq<(Seq<char>, Seq<char>)>,
    d2: Seq<(Seq<char>, Seq<char>)>,
    s: Seq<Seq<char>>,
)
    requires
        forall|n: Seq<char>| #[trigger] declared(d1, n) == declared(d2, n),
    ensures
        detected_by(rules, d1, s) == detected_by(rules, d2, s),
    decreases rules.len(),
{
    if rules.len() > 0 {
        let pre = rules.drop_last();
        let r = rules.last();
        lemma_detected_same(pre, d1, d2, s);
        assert(pre.push(r) =~= rules);
        pre.lemma_filter_push(r, |x: RuleView| rule_applies(x, d1, s));
        pre.lemma_filter_push(r, |x: RuleView| rule_applies(x, d2, s));
        assert(rule_applies(r, d1, s) == rule_applies(r, d2, s));
        assert(component_of(r, d1) == component_of(r, d2));
        let f1 = pre.filter(|x: RuleView| rule_applies(x, d1, s));
        let f2 = pre.filter(|x: RuleView| rule_applies(x, d2, s));
        if rule_applies(r, d1, s) {
            assert(f1.push(r).map_values(|x: RuleView| component_of(x, d1)) =~= f1.map_values(
                |x: RuleView| component_of(x, d1),
            ).push(component_of(r, d1)));
            assert(f2.push(r).map_values(|x: RuleView| component_of(x, d2)) =~= f2.map_values(
                |x: RuleView| component_of(x, d2),
            ).push(component_of(r, d2)));
        }
    } else {
        reveal(Seq::filter);
        assert(detected_by(rules, d1, s) =~= detected_by(rules, d2, s));
    }
}

/// The component standing for the Node.js runtime declared under `engines.node`.
pub open spec fn node_component(v: Seq<char>) -> (Seq<char>, Seq<char>, Seq<char>, Option<Seq<char>>, u32, Seq<Seq<char>>) {
    ("node"@, "Node.js"@, "runtime"@, Some(v), 80, seq!["package.json: engines.node"@])
}

pub open spec fn ref_view(c: ComponentRef) -> (Seq<char>, Seq<char>, Seq<char>, Option<Seq<char>>) {
    (c.id@, c.name@, c.category@, opt_view(c.version))
}

fn component_ref(c: &TechComponent) -> (r: ComponentRef)
    ensures
        r.id@ == c.id@,
        ref_view(r) == (c.id@, c.name@, c.category@, opt_view(c.version)),
{
    ComponentRef {
        id: c.id.clone(),
        name: c.name.clone(),
        category: c.category.clone(),
        version: match &c.version {
            Some(v) => Some(v.clone()),
            None => None,
        },
    }
}

/// Reads a manifest: the runtime from `engines.node` (if given), then the components the
/// rules find, and the graph linking the manifest to every declared dependency that is a
/// detected component.
pub fn analyze_package_json(
    sections: &Vec<DeclaredDep>,
    scripts: &Vec<String>,
    node_engine: &Option<String>,
) -> (r: (Vec<TechComponent>, TechGraph))
    ensures
        ({
            component_views(r.0@) == (match node_engine {
                Some(v) => seq![node_component(v@)],
                None => Seq::empty(),
            }) + detected_by(js_rule_table(), dep_views(sections@), string_views(scripts@))
        }),
        forall|k: int| 0 <= k < r.0@.len() ==> crate::techstack::node_ids(r.1.nodes@).contains((#[trigger] r.0@[k]).id@),
        forall|k: int| 0 <= k < r.1.edges@.len() ==> crate::techstack::node_ids(r.1.nodes@).contains(
            (#[trigger] r.1.edges@[k]).to@,
        ) && (r.1.edges@[k]).from@ == "package"@,        exists|merged: Seq<DeclaredDep>|
            #[trigger] strictly_sorted(dep_names(merged)) && (forall|k: int|
                0 <= k < merged.len() ==> declared(dep_views(sections@), (#[trigger] merged[k]).name@) == Some(
                    merged[k].version@,
                )) && (forall|n: Seq<char>| dep_names(merged).contains(n) <==> declared(dep_views(sections@), n).is_some())
                && r.1.edges@.map_values(|e: crate::techstack::TechGraphEdge| crate::techstack::edge_view(e))
                == merged.filter(
                |d: DeclaredDep| crate::techstack::dep_in_graph(d, crate::techstack::node_ids(r.1.nodes@)),
            ).map_values(|d: DeclaredDep| ("package"@, d.name@, d.version@)),
{
    let deps = merge_dependency_objects(sections);
    let mut comps: Vec<TechComponent> = Vec::new();
    match node_engine {
        Some(v) => {
            let mut evidence: Vec<String> = Vec::new();
            evidence.push(String::from_str("package.json: engines.node"));
            assert(string_views(evidence@) =~= seq!["package.json: engines.node"@]);
            comps.push(TechComponent {
                id: String::from_str("node"),
                name: String::from_str("Node.js"),
                category: String::from_str("runtime"),
                version: Some(v.clone()),
                confidence_percent: 80,
                evidence,
            });
        },
        None => {},
    }
    let ghost c0 = component_views(comps@);
    let rules = js_rules();
    let mut found = detect_js_components(&rules, &deps, scripts);
    proof {
        assert forall|n: Seq<char>| #[trigger] declared(dep_views(deps@), n) == declared(dep_views(sections@), n) by {
            lemma_merged_declared(sections@, deps@, n);
        }
        lemma_detected_same(js_rule_table(), dep_views(deps@), dep_views(sections@), string_views(scripts@));
    }
    let ghost fv = component_views(found@);
    comps.append(&mut found);
    assert(component_views(comps@) =~= c0 + fv);
    let mut refs: Vec<ComponentRef> = Vec::new();
    let mut k: usize = 0;
    while k < comps.len()
        invariant
            k <= comps@.len(),
            refs@.len() == k,
            forall|j: int| 0 <= j < k ==> (#[trigger] refs@[j]).id@ == comps@[j].id@,
        decreases comps@.len() - k,
    {
        refs.push(component_ref(&comps[k]));
        k += 1;
    }
    let graph = build_js_dependency_graph(&deps, &refs);
    assert(strictly_sorted(dep_names(deps@)));
    assert forall|k: int| 0 <= k < comps@.len() implies crate::techstack::node_ids(graph.nodes@).contains(
        (#[trigger] comps@[k]).id@,
    ) by {
        assert(refs@[k].id@ == comps@[k].id@);
    }
    assert forall|k: int| 0 <= k < graph.edges@.len() implies crate::techstack::node_ids(graph.nodes@).contains(
        (#[trigger] graph.edges@[k]).to@,
    ) && (graph.edges@[k]).from@ == "package"@ by {
        assert(crate::techstack::node_ids(graph.nodes@).contains(graph.edges@[k].to@));
    }
    (comps, graph)
}

} // verus!
