//! Detectors of a module's user-interface side: Vite, the declared dependencies of
//! `package.json`, and charting libraries.
use vstd::prelude::*;

use crate::classify::string_views;
use crate::js::{declared, dep_views};
use crate::python::{opt_label, same_shape};
use crate::report::{push_label, FrontendStack, ModuleReport};
use crate::techstack::DeclaredDep;
use crate::text::{chars_of, contains, contains_str, starts_with, starts_with_str, trim, trim_chars};
use crate::topology::ModuleKind;
use crate::detect::ModuleFacts;

verus! {

/// A frontend as values: builder, Vue major version, store, UI kit, charting libraries.
pub struct FrontendView {
    pub builder: Seq<char>,
    pub vue: Option<u8>,
    pub store: Seq<char>,
    pub ui: Seq<char>,
    pub visualization: Seq<Seq<char>>,
}

pub open spec fn frontend_view(f: FrontendStack) -> FrontendView {
    FrontendView {
        builder: f.builder@,
        vue: f.vue,
        store: f.store@,
        ui: f.ui@,
        visualization: string_views(f.visualization@),
    }
}

pub open spec fn unknown_frontend() -> FrontendView {
    FrontendView { builder: "Unknown"@, vue: None, store: "None"@, ui: "None"@, visualization: Seq::empty() }
}

pub open spec fn current_frontend(r: &ModuleReport) -> FrontendView {
    match r.frontend {
        Some(f) => frontend_view(f),
        None => unknown_frontend(),
    }
}

pub fn frontend_or_unknown(r: &ModuleReport) -> (f: FrontendStack)
    ensures
        frontend_view(f) == current_frontend(r),
{
    match &r.frontend {
        Some(f) => FrontendStack {
            builder: f.builder.clone(),
            vue: f.vue,
            store: f.store.clone(),
            ui: f.ui.clone(),
            visualization: crate::report::clone_strings(&f.visualization),
        },
        None => {
            let f = FrontendStack {
                builder: String::from_str("Unknown"),
                vue: None,
                store: String::from_str("None"),
                ui: String::from_str("None"),
                visualization: Vec::new(),
            };
            assert(string_views(f.visualization@) =~= Seq::<Seq<char>>::empty());
            f
        },
    }
}

/// What `detect_vite` guarantees, from the report before (`o`) to the report after (`n`).
pub open spec fn vite_post(facts: &ModuleFacts, o: ModuleReport, n: ModuleReport) -> bool {
    &&& (same_shape(&n, &o))
    &&& (n.backend == o.backend)
    &&& (n.deps == o.deps)
    &&& (facts.kind == ModuleKind::Frontend && facts.vite_config ==> {
            &&& n.frontend.is_some()
            &&& frontend_view(n.frontend.unwrap()) == (FrontendView {
                builder: "Vite"@,
                ..current_frontend(&o)
            })
            &&& string_views(n.frameworks@) == string_views(o.frameworks@).push("Vite"@)
            &&& string_views(n.warnings@) == string_views(o.warnings@) + match facts.vite_config_error {
                Some(e) => seq!["vite.config: "@ + e@],
                None => Seq::empty(),
            }
        })
    &&& (!(facts.kind == ModuleKind::Frontend && facts.vite_config) ==> n == o)
}

/// A frontend module with a Vite configuration is built with Vite.
pub fn detect_vite(facts: &ModuleFacts, report: &mut ModuleReport)
    ensures
        vite_post(facts, *old(report), *final(report)),
{
    if facts.kind != ModuleKind::Frontend || !facts.vite_config {
        return;
    }
    let ghost w0 = string_views(report.warnings@);
    match &facts.vite_config_error {
        Some(e) => {
            let mut msg = String::from_str("vite.config: ");
            msg.append(e.as_str());
            report.warnings.push(msg);
            assert(string_views(report.warnings@) =~= w0 + seq!["vite.config: "@ + e@]);
        },
        None => {
            assert(string_views(report.warnings@) =~= w0 + Seq::<Seq<char>>::empty());
        },
    }
    push_label(&mut report.frameworks, "Vite");
    let mut f = frontend_or_unknown(report);
    f.builder = String::from_str("Vite");
    report.frontend = Some(f);
}

pub open spec fn has(d: Seq<(Seq<char>, Seq<char>)>, name: Seq<char>) -> bool {
    declared(d, name).is_some()
}

/// A Vue version constraint of the third major version.
pub open spec fn is_vue3(v: Seq<char>) -> bool {
    starts_with(trim(v), "^3"@) || starts_with(trim(v), "3"@) || contains(v, "3."@)
}

pub open spec fn vue3(d: Seq<(Seq<char>, Seq<char>)>) -> bool {
    has(d, "vue"@) && is_vue3(declared(d, "vue"@).unwrap())
}

/// The store named by the dependencies: Pinia first; Redux, Zustand, Recoil only when no
/// store is known yet.
pub open spec fn store_after(store: Seq<char>, d: Seq<(Seq<char>, Seq<char>)>) -> Seq<char> {
    let s1 = if has(d, "pinia"@) { "Pinia"@ } else { store };
    if s1 == "None"@ {
        if has(d, "@reduxjs/toolkit"@) || has(d, "redux"@) {
            "Redux"@
        } else if has(d, "zustand"@) {
            "Zustand"@
        } else if has(d, "recoil"@) {
            "Recoil"@
        } else {
            s1
        }
    } else {
        s1
    }
}

pub open spec fn store_labels(store: Seq<char>, d: Seq<(Seq<char>, Seq<char>)>) -> Seq<Seq<char>> {
    let s1 = if has(d, "pinia"@) { "Pinia"@ } else { store };
    opt_label(has(d, "pinia"@), "Pinia"@) + if s1 == "None"@ && store_after(store, d) != "None"@ {
        seq![store_after(store, d)]
    } else {
        Seq::empty()
    }
}

/// The UI kit named by the dependencies: a Vue kit first; MUI, Ant Design or Tailwind
/// CSS only when no kit is known.
pub open spec fn ui_first(ui: Seq<char>, d: Seq<(Seq<char>, Seq<char>)>) -> Seq<char> {
    if has(d, "element-plus"@) {
        "ElementPlus"@
    } else if has(d, "antd-vue"@) {
        "AntdVue"@
    } else if has(d, "vuetify"@) {
        "Vuetify"@
    } else {
        ui
    }
}

pub open spec fn ui_after(ui: Seq<char>, d: Seq<(Seq<char>, Seq<char>)>) -> Seq<char> {
    let u1 = ui_first(ui, d);
    if u1 == "None"@ {
        if has(d, "@mui/material"@) {
            "MUI"@
        } else if has(d, "antd"@) {
            "Ant Design"@
        } else if has(d, "tailwindcss"@) {
            "Tailwind CSS"@
        } else {
            u1
        }
    } else {
        u1
    }
}

pub open spec fn ui_labels(ui: Seq<char>, d: Seq<(Seq<char>, Seq<char>)>) -> Seq<Seq<char>> {
    let u1 = ui_first(ui, d);
    let first = if has(d, "element-plus"@) || has(d, "antd-vue"@) || has(d, "vuetify"@) {
        seq![u1]
    } else {
        Seq::empty()
    };
    first + if u1 == "None"@ {
        if ui_after(ui, d) != "None"@ { seq![ui_after(ui, d)] } else { Seq::empty() }
    } else {
        opt_label(has(d, "tailwindcss"@), "Tailwind CSS"@)
    }
}

pub open spec fn package_frontend(f: FrontendView, d: Seq<(Seq<char>, Seq<char>)>) -> FrontendView {
    FrontendView {
        vue: if vue3(d) { Some(3u8) } else { f.vue },
        store: store_after(f.store, d),
        ui: ui_after(f.ui, d),
        ..f
    }
}

pub open spec fn package_frameworks(d: Seq<(Seq<char>, Seq<char>)>) -> Seq<Seq<char>> {
    opt_label(vue3(d), "Vue3"@) + opt_label(has(d, "react"@) && has(d, "react-dom"@), "React"@) + opt_label(
        has(d, "next"@),
        "Next.js"@,
    ) + opt_label(has(d, "svelte"@), "Svelte"@)
}

pub open spec fn package_deps_labels(f: FrontendView, d: Seq<(Seq<char>, Seq<char>)>) -> Seq<Seq<char>> {
    store_labels(f.store, d) + ui_labels(f.ui, d) + opt_label(has(d, "lucide-react"@), "Lucide Icons"@)
}

fn has_exec(deps: &Vec<DeclaredDep>, name: &str) -> (r: bool)
    ensures
        r == has(dep_views(deps@), name@),
{
    let ghost d = dep_views(deps@);
    let n = chars_of(name);
    let mut i: usize = 0;
    assert(d.skip(0) =~= d);
    while i < deps.len()
        invariant
            i <= deps@.len(),
            d == dep_views(deps@),
            n@ == name@,
            declared(d, name@) == declared(d.skip(i as int), name@),
        decreases deps@.len() - i,
    {
        assert(d.skip(i as int)[0] == d[i as int]);
        assert(d.skip(i as int).drop_first() =~= d.skip(i + 1));
        if crate::text::eq_chars(&chars_of(deps[i].name.as_str()), &n) {
            return true;
        }
        i += 1;
    }
    false
}

fn vue3_exec(deps: &Vec<DeclaredDep>) -> (r: bool)
    ensures
        r == vue3(dep_views(deps@)),
{
    let ghost d = dep_views(deps@);
    let n = chars_of("vue");
    let mut i: usize = 0;
    assert(d.skip(0) =~= d);
    while i < deps.len()
        invariant
            i <= deps@.len(),
            d == dep_views(deps@),
            n@ == "vue"@,
            declared(d, "vue"@) == declared(d.skip(i as int), "vue"@),
        decreases deps@.len() - i,
    {
        assert(d.skip(i as int)[0] == d[i as int]);
        assert(d.skip(i as int).drop_first() =~= d.skip(i + 1));
        if crate::text::eq_chars(&chars_of(deps[i].name.as_str()), &n) {
            let v = chars_of(deps[i].version.as_str());
            let t = trim_chars(&v);
            return starts_with_str(&t, "^3") || starts_with_str(&t, "3") || contains_str(&v, "3.");
        }
        i += 1;
    }
    false
}

fn reveal_labels()
    ensures
        "None"@ != "Pinia"@ && "None"@ != "Redux"@ && "None"@ != "Zustand"@ && "None"@ != "Recoil"@,
        "None"@ != "MUI"@ && "None"@ != "Ant Design"@ && "None"@ != "Tailwind CSS"@,
        "None"@ != "ElementPlus"@ && "None"@ != "AntdVue"@ && "None"@ != "Vuetify"@,
{
    proof {
        reveal_strlit("None");
        reveal_strlit("Pinia");
        reveal_strlit("Redux");
        reveal_strlit("Zustand");
        reveal_strlit("Recoil");
        reveal_strlit("MUI");
        reveal_strlit("Ant Design");
        reveal_strlit("Tailwind CSS");
        reveal_strlit("ElementPlus");
        reveal_strlit("AntdVue");
        reveal_strlit("Vuetify");
        assert("None"@.len() == 4);
        assert("Pinia"@.len() == 5 && "Redux"@.len() == 5 && "Zustand"@.len() == 7 && "Recoil"@.len() == 6);
        assert("MUI"@.len() == 3 && "Ant Design"@.len() == 10 && "Tailwind CSS"@.len() == 12);
        assert("ElementPlus"@.len() == 11 && "AntdVue"@.len() == 7 && "Vuetify"@.len() == 7);
    }
}

fn apply_store(deps: &Vec<DeclaredDep>, f: &mut FrontendStack, labels: &mut Vec<String>)
    ensures
        final(f).store@ == store_after(old(f).store@, dep_views(deps@)),
        final(f).builder == old(f).builder && final(f).vue == old(f).vue && final(f).ui == old(f).ui,
        final(f).visualization == old(f).visualization,
        string_views(final(labels)@) == string_views(old(labels)@) + store_labels(old(f).store@, dep_views(deps@)),
{
    reveal_labels();
    let ghost d = dep_views(deps@);
    let ghost l0 = string_views(labels@);
    let ghost s0 = f.store@;
    let pinia = has_exec(deps, "pinia");
    if pinia {
        f.store = String::from_str("Pinia");
        push_label(labels, "Pinia");
    }
    assert(string_views(labels@) =~= l0 + opt_label(pinia, "Pinia"@));
    let ghost l1 = string_views(labels@);
    if crate::text::eq_str(&chars_of(f.store.as_str()), "None") {
        if has_exec(deps, "@reduxjs/toolkit") || has_exec(deps, "redux") {
            f.store = String::from_str("Redux");
            push_label(labels, "Redux");
        } else if has_exec(deps, "zustand") {
            f.store = String::from_str("Zustand");
            push_label(labels, "Zustand");
        } else if has_exec(deps, "recoil") {
            f.store = String::from_str("Recoil");
            push_label(labels, "Recoil");
        } else {
            assert(string_views(labels@) =~= l1 + Seq::<Seq<char>>::empty());
        }
    } else {
        assert(string_views(labels@) =~= l1 + Seq::<Seq<char>>::empty());
    }
    assert(string_views(labels@) =~= l0 + store_labels(s0, d));
}

fn apply_ui(deps: &Vec<DeclaredDep>, f: &mut FrontendStack, labels: &mut Vec<String>)
    ensures
        final(f).ui@ == ui_after(old(f).ui@, dep_views(deps@)),
        final(f).builder == old(f).builder && final(f).vue == old(f).vue && final(f).store == old(f).store,
        final(f).visualization == old(f).visualization,
        string_views(final(labels)@) == string_views(old(labels)@) + ui_labels(old(f).ui@, dep_views(deps@)),
{
    reveal_labels();
    let ghost d = dep_views(deps@);
    let ghost l0 = string_views(labels@);
    let ghost u0 = f.ui@;
    if has_exec(deps, "element-plus") {
        f.ui = String::from_str("ElementPlus");
        push_label(labels, "ElementPlus");
    } else if has_exec(deps, "antd-vue") {
        f.ui = String::from_str("AntdVue");
        push_label(labels, "AntdVue");
    } else if has_exec(deps, "vuetify") {
        f.ui = String::from_str("Vuetify");
        push_label(labels, "Vuetify");
    } else {
        assert(string_views(labels@) =~= l0 + Seq::<Seq<char>>::empty());
    }
    let ghost l1 = string_views(labels@);
    assert(f.ui@ == ui_first(u0, d));
    if crate::text::eq_str(&chars_of(f.ui.as_str()), "None") {
        if has_exec(deps, "@mui/material") {
            f.ui = String::from_str("MUI");
            push_label(labels, "MUI");
        } else if has_exec(deps, "antd") {
            f.ui = String::from_str("Ant Design");
            push_label(labels, "Ant Design");
        } else if has_exec(deps, "tailwindcss") {
            f.ui = String::from_str("Tailwind CSS");
            push_label(labels, "Tailwind CSS");
        } else {
            assert(string_views(labels@) =~= l1 + Seq::<Seq<char>>::empty());
        }
    } else if has_exec(deps, "tailwindcss") {
        push_label(labels, "Tailwind CSS");
    } else {
        assert(string_views(labels@) =~= l1 + Seq::<Seq<char>>::empty());
    }
    assert(string_views(labels@) =~= l0 + ui_labels(u0, d));
}

fn apply_frameworks(deps: &Vec<DeclaredDep>, f: &mut FrontendStack, frameworks: &mut Vec<String>)
    ensures
        final(f).vue == (if vue3(dep_views(deps@)) { Some(3u8) } else { old(f).vue }),
        final(f).builder == old(f).builder && final(f).store == old(f).store && final(f).ui == old(f).ui,
        final(f).visualization == old(f).visualization,
        string_views(final(frameworks)@) == string_views(old(frameworks)@) + package_frameworks(dep_views(deps@)),
{
    let ghost fw0 = string_views(frameworks@);
    let v3 = vue3_exec(deps);
    if v3 {
        f.vue = Some(3);
        push_label(frameworks, "Vue3");
    }
    let react = has_exec(deps, "react") && has_exec(deps, "react-dom");
    if react {
        push_label(frameworks, "React");
    }
    let next = has_exec(deps, "next");
    if next {
        push_label(frameworks, "Next.js");
    }
    let svelte = has_exec(deps, "svelte");
    if svelte {
        push_label(frameworks, "Svelte");
    }
    assert(string_views(frameworks@) =~= fw0 + package_frameworks(dep_views(deps@)));
}

/// What `detect_package_json` guarantees, from the report before (`o`) to the report after (`n`).
pub open spec fn package_json_post(facts: &ModuleFacts, o: ModuleReport, n: ModuleReport) -> bool {
    &&& (same_shape(&n, &o))
    &&& (n.backend == o.backend)
    &&& (facts.kind != ModuleKind::Frontend ==> n == o)
    &&& (facts.kind == ModuleKind::Frontend ==> match facts.package_deps {
            Err(m) => n.frontend == o.frontend && n.frameworks == o.frameworks && n.deps == o.deps && string_views(n.warnings@)
                == string_views(o.warnings@).push(m@),
            Ok(None) => n == o,
            Ok(Some(deps)) => {
                let d = dep_views(deps@);
                let f0 = current_frontend(&o);
                &&& n.warnings == o.warnings
                &&& n.frontend.is_some()
                &&& frontend_view(n.frontend.unwrap()) == package_frontend(f0, d)
                &&& string_views(n.frameworks@) == string_views(o.frameworks@)
                    + package_frameworks(d)
                &&& string_views(n.deps@) == string_views(o.deps@) + package_deps_labels(f0, d)
            },
        })
}

/// The frameworks, store, UI kit and icon set named by the `dependencies` of a frontend
/// module's `package.json`.
pub fn detect_package_json(facts: &ModuleFacts, report: &mut ModuleReport)
    ensures
        package_json_post(facts, *old(report), *final(report)),
{
    if facts.kind != ModuleKind::Frontend {
        return;
    }
    let deps = match &facts.package_deps {
        Err(m) => {
            let ghost w0 = string_views(report.warnings@);
            report.warnings.push(m.clone());
            assert(string_views(report.warnings@) =~= w0.push(m@));
            return;
        },
        Ok(None) => return,
        Ok(Some(d)) => d,
    };
    let ghost d = dep_views(deps@);
    let ghost deps0 = string_views(report.deps@);
    let mut f = frontend_or_unknown(report);
    let ghost f0 = frontend_view(f);
    apply_frameworks(deps, &mut f, &mut report.frameworks);
    apply_store(deps, &mut f, &mut report.deps);
    let ghost after_store = string_views(report.deps@);
    apply_ui(deps, &mut f, &mut report.deps);
    let ghost after_ui = string_views(report.deps@);
    if has_exec(deps, "lucide-react") {
        push_label(&mut report.deps, "Lucide Icons");
    }
    assert(string_views(report.deps@) =~= after_ui + opt_label(has(d, "lucide-react"@), "Lucide Icons"@));
    assert(string_views(report.deps@) =~= deps0 + package_deps_labels(f0, d));
    assert(frontend_view(f) =~= package_frontend(f0, d));
    report.frontend = Some(f);
}

/// The charting libraries and their labels, in the order they are looked for.
pub open spec fn chart_table() -> Seq<(Seq<char>, Seq<char>)> {
    seq![
        ("echarts"@, "ECharts"@),
        ("vue-echarts"@, "vue-echarts"@),
        ("chart.js"@, "Chart.js"@),
        ("d3"@, "D3"@),
        ("highcharts"@, "Highcharts"@),
    ]
}

/// The charting labels present in the dependencies, in table order.
pub open spec fn charts_in(d: Seq<(Seq<char>, Seq<char>)>) -> Seq<Seq<char>> {
    chart_table().filter(|e: (Seq<char>, Seq<char>)| has(d, e.0)).map_values(|e: (Seq<char>, Seq<char>)| e.1)
}

/// `v` with each of `labels` appended that it does not hold yet.
pub open spec fn add_missing(v: Seq<Seq<char>>, labels: Seq<Seq<char>>) -> Seq<Seq<char>>
    decreases labels.len(),
{
    if labels.len() == 0 {
        v
    } else {
        let w = add_missing(v, labels.drop_last());
        if w.contains(labels.last()) {
            w
        } else {
            w.push(labels.last())
        }
    }
}

fn add_chart(f: &mut FrontendStack, report: &mut ModuleReport, label: &str)
    ensures
        string_views(final(f).visualization@) == (if string_views(old(f).visualization@).contains(label@) {
            string_views(old(f).visualization@)
        } else {
            string_views(old(f).visualization@).push(label@)
        }),
        string_views(final(report).deps@) == string_views(old(report).deps@).push(label@),
        final(f).builder == old(f).builder,
        final(f).vue == old(f).vue,
        final(f).store == old(f).store,
        final(f).ui == old(f).ui,
        same_shape(&*final(report), &*old(report)),
        final(report).backend == old(report).backend,
        final(report).frontend == old(report).frontend,
        final(report).frameworks == old(report).frameworks,
        final(report).warnings == old(report).warnings,
{
    let ghost v0 = string_views(f.visualization@);
    let mut present = false;
    let mut k: usize = 0;
    while k < f.visualization.len()
        invariant
            k <= f.visualization@.len(),
            v0 == string_views(f.visualization@),
            !present ==> forall|j: int| 0 <= j < k ==> v0[j] != label@,
            present ==> v0.contains(label@),
        decreases f.visualization@.len() - k,
    {
        if crate::text::eq_str(&chars_of(f.visualization[k].as_str()), label) {
            present = true;
            assert(v0[k as int] == label@);
        }
        k += 1;
    }
    assert(present == v0.contains(label@));
    if !present {
        push_label(&mut f.visualization, label);
    }
    push_label(&mut report.deps, label);
}

/// What `detect_frontend_vis` guarantees, from the report before (`o`) to the report after (`n`).
pub open spec fn frontend_vis_post(facts: &ModuleFacts, o: ModuleReport, n: ModuleReport) -> bool {
    &&& (same_shape(&n, &o))
    &&& (n.backend == o.backend)
    &&& (n.frameworks == o.frameworks)
    &&& (facts.kind != ModuleKind::Frontend ==> n == o)
    &&& (facts.kind == ModuleKind::Frontend ==> match facts.package_deps {
            Err(m) => n.frontend == o.frontend && n.deps == o.deps
                && string_views(n.warnings@) == string_views(o.warnings@).push(m@),
            Ok(None) => n == o,
            Ok(Some(deps)) => {
                let c = charts_in(dep_views(deps@));
                let f0 = current_frontend(&o);
                &&& n.warnings == o.warnings
                &&& n.frontend.is_some()
                &&& frontend_view(n.frontend.unwrap()) == (FrontendView {
                    visualization: add_missing(f0.visualization, c),
                    ..f0
                })
                &&& string_views(n.deps@) == string_views(o.deps@) + c
            },
        })
}

/// Charting libraries among the `dependencies` of a frontend module's `package.json`.
pub fn detect_frontend_vis(facts: &ModuleFacts, report: &mut ModuleReport)
    ensures
        frontend_vis_post(facts, *old(report), *final(report)),
{
    if facts.kind != ModuleKind::Frontend {
        return;
    }
    let deps = match &facts.package_deps {
        Err(m) => {
            let ghost w0 = string_views(report.warnings@);
            report.warnings.push(m.clone());
            assert(string_views(report.warnings@) =~= w0.push(m@));
            return;
        },
        Ok(None) => return,
        Ok(Some(d)) => d,
    };
    let ghost d = dep_views(deps@);
    let ghost deps0 = string_views(report.deps@);
    let mut f = frontend_or_unknown(report);
    let ghost f0 = frontend_view(f);
    let names = ["echarts", "vue-echarts", "chart.js", "d3", "highcharts"];
    let labels = ["ECharts", "vue-echarts", "Chart.js", "D3", "Highcharts"];
    let ghost table = chart_table();
    let mut i: usize = 0;
    while i < 5
        invariant
            i <= 5,
            table == chart_table(),
            d == dep_views(deps@),
            forall|j: int| 0 <= j < 5 ==> names@[j]@ == (#[trigger] table[j]).0 && labels@[j]@ == table[j].1,
            report.backend == old(report).backend,
            report.frameworks == old(report).frameworks,
            report.warnings == old(report).warnings,
            report.frontend == old(report).frontend,
            same_shape(&*report, &*old(report)),
            f.builder@ == f0.builder && f.vue == f0.vue && f.store@ == f0.store && f.ui@ == f0.ui,
            ({
                let c = table.subrange(0, i as int).filter(|e: (Seq<char>, Seq<char>)| has(d, e.0)).map_values(
                    |e: (Seq<char>, Seq<char>)| e.1,
                );
                &&& string_views(f.visualization@) == add_missing(f0.visualization, c)
                &&& string_views(report.deps@) == deps0 + c
            }),
        decreases 5 - i,
    {
        let ghost pre = table.subrange(0, i as int);
        let ghost cpre = pre.filter(|e: (Seq<char>, Seq<char>)| has(d, e.0));
        proof {
            pre.lemma_filter_push(table[i as int], |e: (Seq<char>, Seq<char>)| has(d, e.0));
            assert(pre.push(table[i as int]) =~= table.subrange(0, i + 1));
        }
        let ghost c_old = cpre.map_values(|e: (Seq<char>, Seq<char>)| e.1);
        if !has_exec(deps, names[i]) {
            assert(table.subrange(0, i + 1).filter(|e: (Seq<char>, Seq<char>)| has(d, e.0)) == cpre);
        } else {
            add_chart(&mut f, report, labels[i]);
            proof {
                let c_new = cpre.push(table[i as int]).map_values(|e: (Seq<char>, Seq<char>)| e.1);
                assert(c_new =~= c_old.push(table[i as int].1));
                assert(c_new.drop_last() =~= c_old);
                assert(add_missing(f0.visualization, c_new) == {
                    let w = add_missing(f0.visualization, c_old);
                    if w.contains(table[i as int].1) { w } else { w.push(table[i as int].1) }
                });
                assert(deps0 + c_new =~= (deps0 + c_old).push(table[i as int].1));
                assert(table.subrange(0, i + 1).filter(|e: (Seq<char>, Seq<char>)| has(d, e.0)) == cpre.push(table[i as int]));
            }
        }
        i += 1;
    }
    proof {
        assert(table.subrange(0, 5) =~= table);
    }
    report.frontend = Some(f);
}

} // verus!
