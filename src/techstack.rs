//! Technology-stack scan: options, progress records, package managers, the dependency
//! graph, and git submodules.
use vstd::prelude::*;

use crate::classify::string_views;
use crate::project_tree::{lemma_lex_total, lex_less, lex_lt};
use crate::report::{lemma_sorted_insert, opt_view, strictly_sorted};
use crate::text::{chars_of, eq_chars, eq_str};

verus! {

/// Limits of a technology-stack scan.
pub struct TechStackScanOptions {
    pub max_files: usize,
    pub max_total_bytes: u64,
}

impl Default for TechStackScanOptions {
    /// At most 6000 files and 40 MiB.
    fn default() -> (r: TechStackScanOptions)
        ensures
            r.max_files == 6000,
            r.max_total_bytes == 40 * 1024 * 1024,
    {
        TechStackScanOptions { max_files: 6000, max_total_bytes: 40 * 1024 * 1024 }
    }
}

/// A progress notice: the stage, a detail line, files handled so far and, when known, how
/// many there are.
pub struct TechStackProgress {
    pub stage: String,
    pub detail: String,
    pub processed_files: usize,
    pub total_files_hint: Option<usize>,
}

/// Directory names a technology-stack walk does not enter.
pub open spec fn skipped_dir(name: Seq<char>) -> bool {
    name == ".git"@ || name == "node_modules"@ || name == "dist"@ || name == "build"@ || name == "out"@
        || name == "target"@ || name == "vendor"@ || name == ".idea"@ || name == ".vscode"@ || name
        == ".next"@ || name == ".nuxt"@ || name == ".cache"@ || name == ".turbo"@ || name
        == ".pytest_cache"@ || name == "__pycache__"@
}

pub fn should_skip_dir(name: &str) -> (r: bool)
    ensures
        r == skipped_dir(name@),
{
    let n = chars_of(name);
    eq_str(&n, ".git") || eq_str(&n, "node_modules") || eq_str(&n, "dist") || eq_str(&n, "build")
        || eq_str(&n, "out") || eq_str(&n, "target") || eq_str(&n, "vendor") || eq_str(&n, ".idea")
        || eq_str(&n, ".vscode") || eq_str(&n, ".next") || eq_str(&n, ".nuxt") || eq_str(&n, ".cache")
        || eq_str(&n, ".turbo") || eq_str(&n, ".pytest_cache") || eq_str(&n, "__pycache__")
}

/// Which lock and manifest files exist at the root.
pub struct RootManifests {
    pub pnpm_lock: bool,
    pub yarn_lock: bool,
    pub npm_lock: bool,
    pub bun_lockb: bool,
    pub bun_lock: bool,
    pub poetry_lock: bool,
    pub pipfile_lock: bool,
    pub pipfile: bool,
    pub gemfile_lock: bool,
    pub gemfile: bool,
}

pub open spec fn flag(cond: bool, s: Seq<char>) -> Seq<Seq<char>> {
    if cond {
        seq![s]
    } else {
        Seq::empty()
    }
}

/// The package managers, in a fixed order, whose files are present.
pub open spec fn package_managers_of(m: RootManifests) -> Seq<Seq<char>> {
    flag(m.pnpm_lock, "pnpm"@) + flag(m.yarn_lock, "yarn"@) + flag(m.npm_lock, "npm"@) + flag(
        m.bun_lockb || m.bun_lock,
        "bun"@,
    ) + flag(m.poetry_lock, "poetry"@) + flag(m.pipfile_lock || m.pipfile, "pipenv"@) + flag(
        m.gemfile_lock || m.gemfile,
        "bundler"@,
    )
}

fn push_if(v: &mut Vec<String>, cond: bool, s: &str)
    ensures
        string_views(final(v)@) == string_views(old(v)@) + flag(cond, s@),
{
    let ghost v0 = string_views(v@);
    if cond {
        v.push(String::from_str(s));
    }
    assert(string_views(v@) =~= v0 + flag(cond, s@));
}

pub fn detect_package_managers(m: &RootManifests) -> (r: Vec<String>)
    ensures
        string_views(r@) == package_managers_of(*m),
{
    let mut out: Vec<String> = Vec::new();
    assert(string_views(out@) =~= Seq::<Seq<char>>::empty());
    push_if(&mut out, m.pnpm_lock, "pnpm");
    push_if(&mut out, m.yarn_lock, "yarn");
    push_if(&mut out, m.npm_lock, "npm");
    push_if(&mut out, m.bun_lockb || m.bun_lock, "bun");
    push_if(&mut out, m.poetry_lock, "poetry");
    push_if(&mut out, m.pipfile_lock || m.pipfile, "pipenv");
    push_if(&mut out, m.gemfile_lock || m.gemfile, "bundler");
    assert(string_views(out@) =~= package_managers_of(*m));
    out
}

} // verus!

verus! {

pub struct TechGraphNode {
    pub id: String,
    pub label: String,
    pub category: String,
    pub version: Option<String>,
}

pub struct TechGraphEdge {
    pub from: String,
    pub to: String,
    pub label: String,
}

/// Components and the declared dependencies between them.
pub struct TechGraph {
    pub nodes: Vec<TechGraphNode>,
    pub edges: Vec<TechGraphEdge>,
}

/// What the graph reads of a detected component.
pub struct ComponentRef {
    pub id: String,
    pub name: String,
    pub category: String,
    pub version: Option<String>,
}

/// A dependency declared in a manifest, with its version constraint.
pub struct DeclaredDep {
    pub name: String,
    pub version: String,
}

pub open spec fn node_view(n: TechGraphNode) -> (Seq<char>, Seq<char>, Seq<char>, Option<Seq<char>>) {
    (n.id@, n.label@, n.category@, opt_view(n.version))
}

pub open spec fn comp_view(c: ComponentRef) -> (Seq<char>, Seq<char>, Seq<char>, Option<Seq<char>>) {
    (c.id@, c.name@, c.category@, opt_view(c.version))
}

pub open spec fn node_views(v: Seq<TechGraphNode>) -> Seq<(Seq<char>, Seq<char>, Seq<char>, Option<Seq<char>>)> {
    v.map_values(|m: TechGraphNode| node_view(m))
}

pub open spec fn node_ids(v: Seq<TechGraphNode>) -> Seq<Seq<char>> {
    v.map_values(|n: TechGraphNode| n.id@)
}

pub open spec fn edge_view(e: TechGraphEdge) -> (Seq<char>, Seq<char>, Seq<char>) {
    (e.from@, e.to@, e.label@)
}

/// Index of the first component with this id at or after `i`, or -1.
pub open spec fn first_with_id(cs: Seq<ComponentRef>, id: Seq<char>, i: int) -> int
    decreases cs.len() - i,
{
    if i < 0 || i >= cs.len() {
        -1
    } else if cs[i].id@ == id {
        i
    } else {
        first_with_id(cs, id, i + 1)
    }
}

proof fn lemma_first_with_id(cs: Seq<ComponentRef>, id: Seq<char>, i: int, j: int)
    requires
        0 <= i <= j < cs.len(),
        cs[j].id@ == id,
        forall|m: int| i <= m < j ==> cs[m].id@ != id,
    ensures
        first_with_id(cs, id, i) == j,
    decreases j - i,
{
    if i < j {
        lemma_first_with_id(cs, id, i + 1, j);
    }
}

/// The root node standing for the manifest.
pub open spec fn manifest_node() -> (Seq<char>, Seq<char>, Seq<char>, Option<Seq<char>>) {
    ("package"@, "package.json"@, "meta"@, None)
}

/// Each node is the first component with its id, or the manifest root when no component
/// has the id `package`.
pub open spec fn node_from_components(n: (Seq<char>, Seq<char>, Seq<char>, Option<Seq<char>>), cs: Seq<ComponentRef>) -> bool {
    let f = first_with_id(cs, n.0, 0);
    (f >= 0 && n == comp_view(cs[f])) || (f == -1 && n == manifest_node())
}

fn find_node(nodes: &Vec<TechGraphNode>, id: &Vec<char>) -> (r: bool)
    ensures
        r == node_ids(nodes@).contains(id@),
{
    let mut k: usize = 0;
    while k < nodes.len()
        invariant
            k <= nodes@.len(),
            forall|j: int| 0 <= j < k ==> node_ids(nodes@)[j] != id@,
        decreases nodes@.len() - k,
    {
        if eq_chars(&chars_of(nodes[k].id.as_str()), id) {
            assert(node_ids(nodes@)[k as int] == id@);
            return true;
        }
        k += 1;
    }
    false
}

fn insert_node(nodes: &mut Vec<TechGraphNode>, n: TechGraphNode)
    requires
        strictly_sorted(node_ids(old(nodes)@)),
        !node_ids(old(nodes)@).contains(n.id@),
    ensures
        strictly_sorted(node_ids(final(nodes)@)),
        forall|x: (Seq<char>, Seq<char>, Seq<char>, Option<Seq<char>>)|
            #[trigger] node_views(final(nodes)@).contains(x) <==> (node_views(old(nodes)@).contains(x) || x == node_view(n)),
        forall|s: Seq<char>| node_ids(final(nodes)@).contains(s) <==> (node_ids(old(nodes)@).contains(s) || s == n.id@),
{
    let x = chars_of(n.id.as_str());
    let ghost ov = node_ids(nodes@);
    let ghost olds = nodes@;
    let mut p: usize = 0;
    let mut stop = false;
    while p < nodes.len() && !stop
        invariant
            p <= nodes@.len(),
            nodes@ == olds,
            ov == node_ids(nodes@),
            x@ == n.id@,
            !ov.contains(x@),
            forall|k: int| 0 <= k < p ==> lex_lt(ov[k], x@),
            stop ==> p < nodes@.len() && lex_lt(x@, ov[p as int]),
        decreases nodes@.len() - p, if stop { 0int } else { 1int },
    {
        let y = chars_of(nodes[p].id.as_str());
        if lex_less(&x, &y) {
            stop = true;
        } else {
            proof {
                assert(ov[p as int] != x@);
                lemma_lex_total(ov[p as int], x@);
            }
            p += 1;
        }
    }
    let ghost nn = n;
    nodes.insert(p, n);
    proof {
        assert(node_ids(nodes@) =~= ov.insert(p as int, x@));
        lemma_sorted_insert(ov, p as int, x@);
        olds.insert_ensures(p as int, nn);
        let vo = node_views(olds);
        let vn = node_views(nodes@);
        assert(vn =~= vo.insert(p as int, node_view(nn)));
        vo.insert_ensures(p as int, node_view(nn));
        assert forall|y: (Seq<char>, Seq<char>, Seq<char>, Option<Seq<char>>)| vn.contains(y) <==> (vo.contains(y)
            || y == node_view(nn)) by {
            if vn.contains(y) {
                let k = choose|k: int| 0 <= k < vn.len() && #[trigger] vn[k] == y;
                if k < p {
                    assert(vo[k] == y);
                } else if k > p {
                    assert(vo[k - 1] == y);
                }
            }
            if vo.contains(y) {
                let m = choose|m: int| 0 <= m < vo.len() && #[trigger] vo[m] == y;
                if m < p {
                    assert(vn[m] == y);
                } else {
                    assert(vn[m + 1] == y);
                }
            }
            if y == node_view(nn) {
                assert(vn[p as int] == y);
            }
        }
    }
}

fn clone_opt_string(o: &Option<String>) -> (r: Option<String>)
    ensures
        opt_view(r) == opt_view(*o),
{
    match o {
        Some(s) => Some(s.clone()),
        None => None,
    }
}

/// Whether a declared dependency leads to a node.
pub open spec fn dep_in_graph(d: DeclaredDep, ids: Seq<Seq<char>>) -> bool {
    ids.contains(d.name@)
}

/// The graph of a manifest: one node per component id (the first component with that id),
/// a `package` root node for the manifest unless a component has that id, nodes ordered
/// by id; an edge from the root to every declared dependency that is a node, labelled
/// with its version constraint, in declaration order.
pub fn build_js_dependency_graph(deps: &Vec<DeclaredDep>, components: &Vec<ComponentRef>) -> (g: TechGraph)
    ensures
        strictly_sorted(node_ids(g.nodes@)),
        forall|k: int| 0 <= k < g.nodes@.len() ==> node_from_components(node_view(#[trigger] g.nodes@[k]), components@),
        forall|j: int| 0 <= j < components@.len() ==> node_ids(g.nodes@).contains(#[trigger] components@[j].id@),
        node_ids(g.nodes@).contains("package"@),
        g.edges@.map_values(|e: TechGraphEdge| edge_view(e)) == deps@.filter(
            |d: DeclaredDep| dep_in_graph(d, node_ids(g.nodes@)),
        ).map_values(|d: DeclaredDep| ("package"@, d.name@, d.version@)),
        forall|k: int| 0 <= k < g.edges@.len() ==> node_ids(g.nodes@).contains(#[trigger] g.edges@[k].to@)
            && node_ids(g.nodes@).contains(g.edges@[k].from@) && g.edges@[k].from@ == "package"@,
{
    let ghost cs = components@;
    let mut nodes: Vec<TechGraphNode> = Vec::new();
    let mut i: usize = 0;
    while i < components.len()
        invariant
            i <= cs.len(),
            cs == components@,
            strictly_sorted(node_ids(nodes@)),
            forall|k: int| 0 <= k < nodes@.len() ==> {
                let f = first_with_id(cs, #[trigger] nodes@[k].id@, 0);
                0 <= f < i && node_view(nodes@[k]) == comp_view(cs[f])
            },
            forall|j: int| 0 <= j < i ==> node_ids(nodes@).contains(#[trigger] cs[j].id@),
            forall|s: Seq<char>| node_ids(nodes@).contains(s) ==> exists|j: int| 0 <= j < i && #[trigger] cs[j].id@ == s,
        decreases cs.len() - i,
    {
        let c = &components[i];
        let id = chars_of(c.id.as_str());
        if !find_node(&nodes, &id) {
            let ghost before = nodes@;
            let n = TechGraphNode {
                id: c.id.clone(),
                label: c.name.clone(),
                category: c.category.clone(),
                version: clone_opt_string(&c.version),
            };
            proof {
                assert forall|m: int| 0 <= m < i implies cs[m].id@ != c.id@ by {
                    assert(node_ids(before).contains(cs[m].id@));
                }
                lemma_first_with_id(cs, c.id@, 0, i as int);
            }
            insert_node(&mut nodes, n);
            proof {
                let vo = node_views(before);
                let vn = node_views(nodes@);
                assert forall|k: int| 0 <= k < nodes@.len() implies {
                    let f = first_with_id(cs, #[trigger] nodes@[k].id@, 0);
                    0 <= f < i + 1 && node_view(nodes@[k]) == comp_view(cs[f])
                } by {
                    assert(vn[k] == node_view(nodes@[k]));
                    assert(vn.contains(node_view(nodes@[k])));
                    if node_view(nodes@[k]) != node_view(n) {
                        let m = choose|m: int| 0 <= m < vo.len() && #[trigger] vo[m] == node_view(nodes@[k]);
                        assert(node_view(before[m]) == node_view(nodes@[k]));
                    }
                }
                assert forall|s: Seq<char>| node_ids(nodes@).contains(s) implies exists|j: int| 0 <= j < i + 1 && #[trigger] cs[j].id@ == s by {
                    if s == c.id@ {
                        assert(cs[i as int].id@ == s);
                    }
                }
            }
        } else {
            proof {
                let s = c.id@;
                let j = choose|j: int| 0 <= j < i && #[trigger] cs[j].id@ == s;
            }
        }
        i += 1;
    }
    let root = chars_of("package");
    let ghost before_root = nodes@;
    if !find_node(&nodes, &root) {
        proof {
            assert forall|m: int| 0 <= m < cs.len() implies cs[m].id@ != "package"@ by {
                assert(node_ids(nodes@).contains(cs[m].id@));
            }
            assert(first_with_id(cs, "package"@, 0) == -1) by {
                lemma_no_id(cs, "package"@, 0);
            }
        }
        let n = TechGraphNode {
            id: String::from_str("package"),
            label: String::from_str("package.json"),
            category: String::from_str("meta"),
            version: None,
        };
        insert_node(&mut nodes, n);
        proof {
            let vo = node_views(before_root);
            let vn = node_views(nodes@);
            assert forall|k: int| 0 <= k < nodes@.len() implies node_from_components(
                node_view(#[trigger] nodes@[k]),
                cs,
            ) by {
                assert(vn[k] == node_view(nodes@[k]));
                assert(vn.contains(node_view(nodes@[k])));
                if node_view(nodes@[k]) != node_view(n) {
                    let m = choose|m: int| 0 <= m < vo.len() && #[trigger] vo[m] == node_view(nodes@[k]);
                    assert(node_view(before_root[m]) == node_view(nodes@[k]));
                }
            }
        }
    }
    let ghost ids = node_ids(nodes@);
    let mut edges: Vec<TechGraphEdge> = Vec::new();
    let mut j: usize = 0;
    while j < deps.len()
        invariant
            j <= deps@.len(),
            ids == node_ids(nodes@),
            ids.contains("package"@),
            edges@.map_values(|e: TechGraphEdge| edge_view(e)) == deps@.subrange(0, j as int).filter(
                |d: DeclaredDep| dep_in_graph(d, ids),
            ).map_values(|d: DeclaredDep| ("package"@, d.name@, d.version@)),
            forall|k: int| 0 <= k < edges@.len() ==> ids.contains((#[trigger] edges@[k]).to@) && edges@[k].from@
                == "package"@,
        decreases deps@.len() - j,
    {
        let ghost pre = deps@.subrange(0, j as int);
        proof {
            pre.lemma_filter_push(deps@[j as int], |d: DeclaredDep| dep_in_graph(d, ids));
            assert(pre.push(deps@[j as int]) =~= deps@.subrange(0, j + 1));
        }
        let name = chars_of(deps[j].name.as_str());
        if find_node(&nodes, &name) {
            let ghost before = edges@;
            edges.push(TechGraphEdge {
                from: String::from_str("package"),
                to: deps[j].name.clone(),
                label: deps[j].version.clone(),
            });
            proof {
                assert forall|k: int| 0 <= k < edges@.len() implies ids.contains((#[trigger] edges@[k]).to@)
                    && edges@[k].from@ == "package"@ by {
                    if k < before.len() {
                        assert(edges@[k] == before[k]);
                    } else {
                        assert(edges@[k].to@ == name@);
                    }
                }
                let f = pre.filter(|d: DeclaredDep| dep_in_graph(d, ids));
                assert(f.push(deps@[j as int]).map_values(|d: DeclaredDep| ("package"@, d.name@, d.version@))
                    =~= f.map_values(|d: DeclaredDep| ("package"@, d.name@, d.version@)).push(
                    ("package"@, deps@[j as int].name@, deps@[j as int].version@),
                ));
                assert(edges@.map_values(|e: TechGraphEdge| edge_view(e)) =~= before.map_values(
                    |e: TechGraphEdge| edge_view(e),
                ).push(("package"@, deps@[j as int].name@, deps@[j as int].version@)));
            }
        }
        j += 1;
    }
    assert(deps@.subrange(0, deps@.len() as int) =~= deps@);
    assert forall|k: int| 0 <= k < edges@.len() implies node_ids(nodes@).contains(#[trigger] edges@[k].to@)
        && node_ids(nodes@).contains(edges@[k].from@) by {
        let e = edges@[k];
        assert(e.from@ == "package"@);
    }
    TechGraph { nodes, edges }
}

proof fn lemma_no_id(cs: Seq<ComponentRef>, id: Seq<char>, i: int)
    requires
        0 <= i,
        forall|m: int| 0 <= m < cs.len() ==> cs[m].id@ != id,
    ensures
        first_with_id(cs, id, i) == -1,
    decreases cs.len() - i,
{
    if i < cs.len() {
        lemma_no_id(cs, id, i + 1);
    }
}

} // verus!

verus! {

use crate::text::{
    ends_with, ends_with_str, find, find_str, slice_chars, split, split_chars, starts_with,
    starts_with_str, strip_prefixes, strip_prefixes_exec, strip_suffixes, strip_suffixes_exec,
    string_of, trim, trim_chars, views,
};

/// A submodule declared in `.gitmodules`.
pub struct GitSubmodule {
    pub name: String,
    pub path: String,
    pub url: Option<String>,
    pub scanned: bool,
    pub scan_warning: Option<String>,
}

/// Reading `.gitmodules`: the submodules found so far (name, path, url) and the fields
/// of the section being read.
pub struct GitmodulesState {
    pub found: Seq<(Seq<char>, Seq<char>, Option<Seq<char>>)>,
    pub name: Option<Seq<char>>,
    pub path: Option<Seq<char>>,
    pub url: Option<Seq<char>>,
}

/// Every leading and trailing double quote removed.
pub open spec fn trim_quotes(s: Seq<char>) -> Seq<char> {
    strip_suffixes(strip_prefixes(s, "\""@), "\""@)
}

/// A section ends: it is kept when it has a name and a path.
pub open spec fn flush(st: GitmodulesState) -> GitmodulesState {
    GitmodulesState {
        found: if st.name.is_some() && st.path.is_some() {
            st.found.push((st.name.unwrap(), st.path.unwrap(), st.url))
        } else {
            st.found
        },
        name: None,
        path: None,
        url: None,
    }
}

pub open spec fn gitmodules_step(st: GitmodulesState, line: Seq<char>) -> GitmodulesState {
    let t = trim(line);
    if t.len() == 0 || starts_with(t, "#"@) || starts_with(t, ";"@) {
        st
    } else if starts_with(t, "["@) && ends_with(t, "]"@) {
        let f = flush(st);
        let inner = t.subrange(1, t.len() - 1);
        if starts_with(inner, "submodule "@) {
            GitmodulesState {
                name: Some(trim_quotes(trim(inner.subrange("submodule "@.len() as int, inner.len() as int)))),
                ..f
            }
        } else {
            f
        }
    } else {
        let k = find(t, "="@);
        if k >= 0 {
            let key = trim(t.subrange(0, k));
            let value = trim_quotes(trim(t.subrange(k + 1, t.len() as int)));
            if key == "path"@ {
                GitmodulesState { path: Some(value), ..st }
            } else if key == "url"@ {
                GitmodulesState { url: Some(value), ..st }
            } else {
                st
            }
        } else {
            st
        }
    }
}

pub open spec fn gitmodules_run(lines: Seq<Seq<char>>) -> GitmodulesState
    decreases lines.len(),
{
    if lines.len() == 0 {
        GitmodulesState { found: Seq::empty(), name: None, path: None, url: None }
    } else {
        gitmodules_step(gitmodules_run(lines.drop_last()), lines.last())
    }
}

/// The submodules of a `.gitmodules` text, in order, without those whose path is blank.
pub open spec fn gitmodules_of(text: Seq<char>) -> Seq<(Seq<char>, Seq<char>, Option<Seq<char>>)> {
    flush(gitmodules_run(split(text, '\n'))).found.filter(
        |m: (Seq<char>, Seq<char>, Option<Seq<char>>)| trim(m.1).len() > 0,
    )
}

fn trim_quotes_exec(s: &Vec<char>) -> (r: Vec<char>)
    ensures
        r@ == trim_quotes(s@),
{
    let q = chars_of("\"");
    strip_suffixes_exec(&strip_prefixes_exec(s, &q), &q)
}

pub open spec fn submodule_view(m: GitSubmodule) -> (Seq<char>, Seq<char>, Option<Seq<char>>) {
    (m.name@, m.path@, opt_view(m.url))
}

pub open spec fn opt_chars(o: Option<Vec<char>>) -> Option<Seq<char>> {
    match o {
        Some(v) => Some(v@),
        None => None,
    }
}

fn opt_string(o: &Option<Vec<char>>) -> (r: Option<String>)
    ensures
        opt_view(r) == opt_chars(*o),
{
    match o {
        Some(v) => Some(string_of(v)),
        None => None,
    }
}

/// Reads the submodules declared in a `.gitmodules` text.
pub fn parse_git_submodules(text: &str) -> (r: Vec<GitSubmodule>)
    ensures
        r@.map_values(|m: GitSubmodule| submodule_view(m)) == gitmodules_of(text@),
        forall|k: int| 0 <= k < r@.len() ==> !(#[trigger] r@[k]).scanned && r@[k].scan_warning.is_none(),
{
    let lines = split_chars(&chars_of(text), '\n');
    let ghost lv = views(lines@);
    let mut found: Vec<GitSubmodule> = Vec::new();
    let mut name: Option<Vec<char>> = None;
    let mut path: Option<Vec<char>> = None;
    let mut url: Option<Vec<char>> = None;
    let mut i: usize = 0;
    while i < lines.len()
        invariant
            i <= lines@.len(),
            lv == views(lines@),
            lv == split(text@, '\n'),
            ({
                let st = gitmodules_run(lv.subrange(0, i as int));
                &&& found@.map_values(|m: GitSubmodule| submodule_view(m)) == st.found
                &&& opt_chars(name) == st.name
                &&& opt_chars(path) == st.path
                &&& opt_chars(url) == st.url
            }),
            forall|k: int| 0 <= k < found@.len() ==> !(#[trigger] found@[k]).scanned && found@[k].scan_warning.is_none(),
        decreases lines@.len() - i,
    {
        assert(lv.subrange(0, i + 1).drop_last() =~= lv.subrange(0, i as int));
        assert(lv.subrange(0, i + 1).last() == lines@[i as int]@);
        let t = trim_chars(&lines[i]);
        if t.len() == 0 || starts_with_str(&t, "#") || starts_with_str(&t, ";") {
        } else if starts_with_str(&t, "[") && ends_with_str(&t, "]") {
            let ghost before = found@;
            if name.is_some() && path.is_some() {
                let m = GitSubmodule {
                    name: string_of(name.as_ref().unwrap()),
                    path: string_of(path.as_ref().unwrap()),
                    url: opt_string(&url),
                    scanned: false,
                    scan_warning: None,
                };
                found.push(m);
                assert(found@.map_values(|m: GitSubmodule| submodule_view(m)) =~= before.map_values(
                    |m: GitSubmodule| submodule_view(m),
                ).push(submodule_view(m)));
            }
            name = None;
            path = None;
            url = None;
            proof {
                reveal_strlit("[");
                reveal_strlit("]");
                assert("["@.len() == 1 && "["@[0] == '[');
                assert("]"@.len() == 1 && "]"@[0] == ']');
                assert(t@.subrange(0, 1) == "["@);
                assert(t@.subrange(0, 1)[0] == t@[0]);
                assert(t@.subrange(t@.len() - 1, t@.len() as int) == "]"@);
                assert(t@.subrange(t@.len() - 1, t@.len() as int)[0] == t@[t@.len() - 1]);
            }
            let inner = slice_chars(&t, 1, t.len() - 1);
            if starts_with_str(&inner, "submodule ") {
                let k = chars_of("submodule ").len();
                name = Some(trim_quotes_exec(&trim_chars(&slice_chars(&inner, k, inner.len()))));
            }
        } else {
            proof {
                reveal_strlit("=");
            }
            match find_str(&t, "=") {
                Some(k) => {
                    let key = trim_chars(&slice_chars(&t, 0, k));
                    let value = trim_quotes_exec(&trim_chars(&slice_chars(&t, k + 1, t.len())));
                    if crate::text::eq_str(&key, "path") {
                        path = Some(value);
                    } else if crate::text::eq_str(&key, "url") {
                        url = Some(value);
                    }
                },
                None => {},
            }
        }
        i += 1;
    }
    assert(lv.subrange(0, lv.len() as int) =~= lv);
    let ghost before = found@;
    if name.is_some() && path.is_some() {
        let m = GitSubmodule {
            name: string_of(name.as_ref().unwrap()),
            path: string_of(path.as_ref().unwrap()),
            url: opt_string(&url),
            scanned: false,
            scan_warning: None,
        };
        found.push(m);
        assert(found@.map_values(|m: GitSubmodule| submodule_view(m)) =~= before.map_values(
            |m: GitSubmodule| submodule_view(m),
        ).push(submodule_view(m)));
    }
    let ghost all = found@.map_values(|m: GitSubmodule| submodule_view(m));
    let mut out: Vec<GitSubmodule> = Vec::new();
    let mut j: usize = 0;
    let mut items = found;
    let ghost src = items@;
    let n = items.len();
    while j < n
        invariant
            n == src.len(),
            j <= src.len(),
            items@.len() == src.len() - j,
            forall|k: int| 0 <= k < items@.len() ==> items@[k] == src[k + j],
            all == src.map_values(|m: GitSubmodule| submodule_view(m)),
            out@.map_values(|m: GitSubmodule| submodule_view(m)) == all.subrange(0, j as int).filter(
                |m: (Seq<char>, Seq<char>, Option<Seq<char>>)| trim(m.1).len() > 0,
            ),
            forall|k: int| 0 <= k < src.len() ==> !(#[trigger] src[k]).scanned && src[k].scan_warning.is_none(),
            forall|k: int| 0 <= k < out@.len() ==> !(#[trigger] out@[k]).scanned && out@[k].scan_warning.is_none(),
        decreases src.len() - j,
    {
        let ghost pre = all.subrange(0, j as int);
        proof {
            pre.lemma_filter_push(all[j as int], |m: (Seq<char>, Seq<char>, Option<Seq<char>>)| trim(m.1).len() > 0);
            assert(pre.push(all[j as int]) =~= all.subrange(0, j + 1));
        }
        let m = items.remove(0);
        assert(m == src[j as int]);
        let keep = trim_chars(&chars_of(m.path.as_str())).len() > 0;
        if keep {
            let ghost before_out = out@;
            out.push(m);
            assert(out@.map_values(|m: GitSubmodule| submodule_view(m)) =~= before_out.map_values(
                |m: GitSubmodule| submodule_view(m),
            ).push(all[j as int]));
        }
        j += 1;
    }
    assert(all.subrange(0, all.len() as int) =~= all);
    out
}

} // verus!
