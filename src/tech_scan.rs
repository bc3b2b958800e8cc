//! Putting a technology-stack scan together: submodules, the final lists and the report.
use vstd::prelude::*;

use crate::classify::string_views;
use crate::components::{detect_build_tools, detect_test_frameworks, names_in_category, normalize_components};
use crate::js::{component_view, component_views, TechComponent};
use crate::report::{opt_view, sort_dedup, strictly_sorted};
use crate::techstack::{edge_view, node_view, node_views, GitSubmodule, TechGraph, TechGraphEdge, TechGraphNode};

verus! {

pub type ComponentValues = (Seq<char>, Seq<char>, Seq<char>, Option<Seq<char>>, u32, Seq<Seq<char>>);

/// Evidence found in a submodule, marked with the submodule's path.
pub open spec fn submodule_evidence(path: Seq<char>, e: Seq<char>) -> Seq<char> {
    "submodule "@ + path + ": "@ + e
}

/// A submodule's component as the parent lists it.
pub open spec fn prefixed_component(path: Seq<char>, c: ComponentValues) -> ComponentValues {
    (c.0, c.1, c.2, c.3, c.4, c.5.map_values(|e: Seq<char>| submodule_evidence(path, e)))
}

/// A node or edge end of a submodule's graph as the parent's graph names it.
pub open spec fn prefixed_id(path: Seq<char>, id: Seq<char>) -> Seq<char> {
    path + "::"@ + id
}

fn prefixed(path: &String, sep: &str, s: &String) -> (r: String)
    ensures
        r@ == path@ + sep@ + s@,
{
    let mut out = path.clone();
    out.append(sep);
    out.append(s.as_str());
    out
}

fn prefix_component(path: &String, c: &TechComponent) -> (r: TechComponent)
    ensures
        component_view(r) == prefixed_component(path@, component_view(*c)),
{
    let mut evidence: Vec<String> = Vec::new();
    let mut i: usize = 0;
    while i < c.evidence.len()
        invariant
            i <= c.evidence@.len(),
            string_views(evidence@) == string_views(c.evidence@).subrange(0, i as int).map_values(
                |e: Seq<char>| submodule_evidence(path@, e),
            ),
        decreases c.evidence@.len() - i,
    {
        let mut e = String::from_str("submodule ");
        e.append(path.as_str());
        e.append(": ");
        e.append(c.evidence[i].as_str());
        let ghost before = string_views(evidence@);
        let ghost ev = e@;
        assert(ev == submodule_evidence(path@, c.evidence@[i as int]@));
        evidence.push(e);
        assert(string_views(evidence@) =~= before.push(ev));
        assert(string_views(c.evidence@).subrange(0, i + 1) =~= string_views(c.evidence@).subrange(0, i as int).push(
            c.evidence@[i as int]@,
        ));
        i += 1;
        assert(string_views(evidence@) =~= string_views(c.evidence@).subrange(0, i as int).map_values(
            |e: Seq<char>| submodule_evidence(path@, e),
        ));
    }
    assert(string_views(c.evidence@).subrange(0, i as int) =~= string_views(c.evidence@));
    TechComponent {
        id: c.id.clone(),
        name: c.name.clone(),
        category: c.category.clone(),
        version: match &c.version {
            Some(v) => Some(v.clone()),
            None => None,
        },
        confidence_percent: c.confidence_percent,
        evidence,
    }
}

pub open spec fn prefixed_node(path: Seq<char>, n: (Seq<char>, Seq<char>, Seq<char>, Option<Seq<char>>)) -> (Seq<char>, Seq<char>, Seq<char>, Option<Seq<char>>) {
    (prefixed_id(path, n.0), n.1, n.2, n.3)
}

pub open spec fn prefixed_edge(path: Seq<char>, e: (Seq<char>, Seq<char>, Seq<char>)) -> (Seq<char>, Seq<char>, Seq<char>) {
    (prefixed_id(path, e.0), prefixed_id(path, e.1), e.2)
}

pub open spec fn edge_views(v: Seq<TechGraphEdge>) -> Seq<(Seq<char>, Seq<char>, Seq<char>)> {
    v.map_values(|e: TechGraphEdge| edge_view(e))
}

/// Adds what was found in the submodule at `path` to the parent's findings: each
/// component with its evidence marked `submodule <path>: `, each node and edge end of its
/// graph named `<path>::<id>`.
pub fn merge_submodule(
    path: &String,
    sub_components: &Vec<TechComponent>,
    sub_graph: &TechGraph,
    detected: &mut Vec<TechComponent>,
    graph: &mut TechGraph,
)
    ensures
        component_views(final(detected)@) == component_views(old(detected)@) + component_views(sub_components@).map_values(
            |c: ComponentValues| prefixed_component(path@, c),
        ),
        node_views(final(graph).nodes@) == node_views(old(graph).nodes@) + node_views(sub_graph.nodes@).map_values(
            |n: (Seq<char>, Seq<char>, Seq<char>, Option<Seq<char>>)| prefixed_node(path@, n),
        ),
        edge_views(final(graph).edges@) == edge_views(old(graph).edges@) + edge_views(sub_graph.edges@).map_values(
            |e: (Seq<char>, Seq<char>, Seq<char>)| prefixed_edge(path@, e),
        ),
{
    let ghost d0 = component_views(detected@);
    let ghost sc = component_views(sub_components@);
    let mut i: usize = 0;
    while i < sub_components.len()
        invariant
            i <= sub_components@.len(),
            sc == component_views(sub_components@),
            graph == old(graph),
            component_views(detected@) == d0 + sc.subrange(0, i as int).map_values(
                |c: ComponentValues| prefixed_component(path@, c),
            ),
        decreases sub_components@.len() - i,
    {
        let c = prefix_component(path, &sub_components[i]);
        let ghost before = component_views(detected@);
        detected.push(c);
        assert(component_views(detected@) =~= before.push(component_view(c)));
        i += 1;
        assert(sc.subrange(0, i as int).map_values(|c: ComponentValues| prefixed_component(path@, c)) =~= sc.subrange(
            0,
            i - 1,
        ).map_values(|c: ComponentValues| prefixed_component(path@, c)).push(prefixed_component(path@, sc[i - 1])));
    }
    assert(sc.subrange(0, i as int) =~= sc);
    let ghost n0 = node_views(graph.nodes@);
    let ghost sn = node_views(sub_graph.nodes@);
    let mut j: usize = 0;
    while j < sub_graph.nodes.len()
        invariant
            j <= sub_graph.nodes@.len(),
            sn == node_views(sub_graph.nodes@),
            graph.edges == old(graph).edges,
            node_views(graph.nodes@) == n0 + sn.subrange(0, j as int).map_values(
                |n: (Seq<char>, Seq<char>, Seq<char>, Option<Seq<char>>)| prefixed_node(path@, n),
            ),
        decreases sub_graph.nodes@.len() - j,
    {
        let n = &sub_graph.nodes[j];
        let node = TechGraphNode {
            id: prefixed(path, "::", &n.id),
            label: n.label.clone(),
            category: n.category.clone(),
            version: match &n.version {
                Some(v) => Some(v.clone()),
                None => None,
            },
        };
        let ghost before = node_views(graph.nodes@);
        graph.nodes.push(node);
        assert(node_views(graph.nodes@) =~= before.push(node_view(node)));
        j += 1;
        assert(sn.subrange(0, j as int).map_values(
            |n: (Seq<char>, Seq<char>, Seq<char>, Option<Seq<char>>)| prefixed_node(path@, n),
        ) =~= sn.subrange(0, j - 1).map_values(
            |n: (Seq<char>, Seq<char>, Seq<char>, Option<Seq<char>>)| prefixed_node(path@, n),
        ).push(prefixed_node(path@, sn[j - 1])));
    }
    assert(sn.subrange(0, j as int) =~= sn);
    let ghost e0 = edge_views(graph.edges@);
    let ghost se = edge_views(sub_graph.edges@);
    let ghost nodes_done = node_views(graph.nodes@);
    let mut k: usize = 0;
    while k < sub_graph.edges.len()
        invariant
            k <= sub_graph.edges@.len(),
            se == edge_views(sub_graph.edges@),
            node_views(graph.nodes@) == nodes_done,
            edge_views(graph.edges@) == e0 + se.subrange(0, k as int).map_values(
                |e: (Seq<char>, Seq<char>, Seq<char>)| prefixed_edge(path@, e),
            ),
        decreases sub_graph.edges@.len() - k,
    {
        let e = &sub_graph.edges[k];
        let edge = TechGraphEdge {
            from: prefixed(path, "::", &e.from),
            to: prefixed(path, "::", &e.to),
            label: e.label.clone(),
        };
        let ghost before = edge_views(graph.edges@);
        graph.edges.push(edge);
        assert(edge_views(graph.edges@) =~= before.push(edge_view(edge)));
        k += 1;
        assert(se.subrange(0, k as int).map_values(|e: (Seq<char>, Seq<char>, Seq<char>)| prefixed_edge(path@, e))
            =~= se.subrange(0, k - 1).map_values(|e: (Seq<char>, Seq<char>, Seq<char>)| prefixed_edge(path@, e)).push(
            prefixed_edge(path@, se[k - 1]),
        ));
    }
    assert(se.subrange(0, k as int) =~= se);
}

/// The pieces joined with `sep`.
pub open spec fn join_with(parts: Seq<Seq<char>>, sep: Seq<char>) -> Seq<char>
    decreases parts.len(),
{
    if parts.len() == 0 {
        Seq::empty()
    } else if parts.len() == 1 {
        parts[0]
    } else {
        join_with(parts.drop_last(), sep) + sep + parts.last()
    }
}

fn join_strings(parts: &Vec<String>, sep: &str) -> (r: String)
    ensures
        r@ == join_with(string_views(parts@), sep@),
{
    let ghost sv = string_views(parts@);
    let mut out = String::new();
    let mut i: usize = 0;
    while i < parts.len()
        invariant
            i <= parts@.len(),
            sv == string_views(parts@),
            out@ == join_with(sv.subrange(0, i as int), sep@),
        decreases parts@.len() - i,
    {
        assert(sv.subrange(0, i + 1).drop_last() =~= sv.subrange(0, i as int));
        if i > 0 {
            out.append(sep);
        } else {
            assert(out@ =~= Seq::<char>::empty());
        }
        out.append(parts[i].as_str());
        i += 1;
    }
    assert(sv.subrange(0, sv.len() as int) =~= sv);
    out
}

/// Records how a submodule's scan went: not scanned, with a warning, when its directory
/// is missing; otherwise scanned, with its warnings joined by `; ` when there are any.
pub fn mark_submodule(m: &mut GitSubmodule, present: bool, sub_warnings: &Vec<String>)
    ensures
        final(m).name == old(m).name,
        final(m).path == old(m).path,
        final(m).url == old(m).url,
        final(m).scanned == present,
        !present ==> opt_view(final(m).scan_warning) == Some("submodule directory is missing or not accessible"@),
        present && sub_warnings@.len() > 0 ==> opt_view(final(m).scan_warning) == Some(
            join_with(string_views(sub_warnings@), "; "@),
        ),
        present && sub_warnings@.len() == 0 ==> final(m).scan_warning == old(m).scan_warning,
{
    if !present {
        m.scanned = false;
        m.scan_warning = Some(String::from_str("submodule directory is missing or not accessible"));
        return;
    }
    m.scanned = true;
    if sub_warnings.len() > 0 {
        m.scan_warning = Some(join_strings(sub_warnings, "; "));
    }
}

/// A finished technology-stack report.
pub struct TechStackReport {
    pub input_kind: String,
    pub input_value: String,
    pub root_display: String,
    pub elapsed_ms: u64,
    pub detected: Vec<TechComponent>,
    pub languages: Vec<crate::language_stats::TechLanguageStat>,
    pub package_managers: Vec<String>,
    pub build_tools: Vec<String>,
    pub test_frameworks: Vec<String>,
    pub submodules: Vec<GitSubmodule>,
    pub graph: TechGraph,
    pub warnings: Vec<String>,
}

/// The warning of a scan whose language statistics were cut short by a limit.
pub open spec fn sampled_warning() -> Seq<char> {
    "project is large: language statistics were sampled and may miss a few files"@
}

/// Finishes a technology-stack report: package managers, build tools and test frameworks
/// sorted without repeats, the sampling warning when the walk stopped early, the repeated
/// detections merged, and the language breakdown.
pub fn finish_tech_report(
    input_kind: String,
    input_value: String,
    root_display: String,
    elapsed_ms: u64,
    detected: &Vec<TechComponent>,
    stats: &crate::language_stats::LanguageStatsCollector,
    package_managers: &Vec<String>,
    submodules: Vec<GitSubmodule>,
    graph: TechGraph,
    warnings: &Vec<String>,
) -> (r: TechStackReport)
    requires
        crate::language_stats::collector_wf(*stats),
    ensures
        r.input_kind == input_kind && r.input_value == input_value && r.root_display == root_display,
        r.elapsed_ms == elapsed_ms,
        r.submodules == submodules,
        r.graph == graph,
        strictly_sorted(string_views(r.package_managers@)),
        forall|s: Seq<char>| string_views(r.package_managers@).contains(s) <==> string_views(package_managers@).contains(s),
        strictly_sorted(string_views(r.build_tools@)),
        forall|s: Seq<char>| string_views(r.build_tools@).contains(s) <==> names_in_category(detected@, "build"@).contains(s),
        strictly_sorted(string_views(r.test_frameworks@)),
        forall|s: Seq<char>| string_views(r.test_frameworks@).contains(s) <==> names_in_category(detected@, "test"@).contains(s),
        string_views(r.warnings@) == string_views(warnings@) + if stats.stopped_early {
            seq![sampled_warning()]
        } else {
            Seq::empty()
        },
        forall|k: int| 0 <= k < r.detected@.len() ==> crate::components::merged_from(#[trigger] r.detected@[k], detected@),
        crate::components::listed_sorted(r.detected@),
        forall|j: int| 0 <= j < detected@.len() ==> crate::components::comp_keys(r.detected@).contains(
            crate::components::comp_key(#[trigger] detected@[j]),
        ),
        crate::aggregate::total_bytes(stats.bytes@) == 0 ==> r.languages@.len() == 0,
        crate::aggregate::total_bytes(stats.bytes@) > 0 ==> exists|order: Seq<usize>|
            crate::aggregate::is_breakdown_order(order, stats.bytes@, stats.files@) && order.len() == r.languages@.len()
                && #[trigger] crate::aggregate::sum_at(order, stats.bytes@) == crate::aggregate::total_bytes(stats.bytes@)
                && forall|k: int| 0 <= k < r.languages@.len() ==> #[trigger] crate::language_stats::tech_stat_view(r.languages@[k]) == (
                    crate::language_stats::tech_language_at(order[k] as nat), stats.bytes@[order[k] as int], stats.files@[order[k] as int],
                ),
{
    let managers = sort_dedup(package_managers);
    let build_tools = sort_dedup(&detect_build_tools(detected));
    let test_frameworks = sort_dedup(&detect_test_frameworks(detected));
    let mut all_warnings = crate::report::clone_strings(warnings);
    let ghost w0 = string_views(all_warnings@);
    if stats.stopped_early {
        crate::report::push_label(&mut all_warnings, "project is large: language statistics were sampled and may miss a few files");
    } else {
        assert(string_views(all_warnings@) =~= w0 + Seq::<Seq<char>>::empty());
    }
    TechStackReport {
        input_kind,
        input_value,
        root_display,
        elapsed_ms,
        detected: normalize_components(detected),
        languages: crate::language_stats::tech_language_breakdown(stats),
        package_managers: managers,
        build_tools,
        test_frameworks,
        submodules,
        graph,
        warnings: all_warnings,
    }
}

} // verus!
