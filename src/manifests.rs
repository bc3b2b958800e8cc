//! Reading dependency manifests: `package.json` through serde_json, TOML manifests through
//! toml, `Pipfile` sections, and the walk over `requirements.txt` includes.
use vstd::prelude::*;

use crate::classify::string_views;
use crate::report::opt_view;
use crate::techstack::DeclaredDep;
use crate::text::{ascii_lower, chars_of, lower_chars, string_of};

verus! {

/// Name/value pairs of a JSON object; a value is kept when it is a string.
pub type PairsView = Option<Seq<(Seq<char>, Option<Seq<char>>)>>;

/// The fields of `package.json` this library reads: `dependencies`, `devDependencies`,
/// `peerDependencies`, `optionalDependencies`, `scripts` (each when it is an object) and
/// `engines.node` (when it is a string).
pub type PackageView = (PairsView, PairsView, PairsView, PairsView, PairsView, Option<Seq<char>>);

/// The fields of a `package.json` text, or the parser's message.
pub uninterp spec fn package_json_fields(text: Seq<char>) -> Result<PackageView, Seq<char>>;

pub struct PackageFields {
    pub dependencies: Option<Vec<(String, Option<String>)>>,
    pub dev_dependencies: Option<Vec<(String, Option<String>)>>,
    pub peer_dependencies: Option<Vec<(String, Option<String>)>>,
    pub optional_dependencies: Option<Vec<(String, Option<String>)>>,
    pub scripts: Option<Vec<(String, Option<String>)>>,
    pub node: Option<String>,
}

pub open spec fn pair_view(p: (String, Option<String>)) -> (Seq<char>, Option<Seq<char>>) {
    (p.0@, opt_view(p.1))
}

pub open spec fn pairs_view(p: Option<Vec<(String, Option<String>)>>) -> PairsView {
    match p {
        Some(v) => Some(v@.map_values(|x: (String, Option<String>)| pair_view(x))),
        None => None,
    }
}

pub open spec fn fields_view(f: PackageFields) -> PackageView {
    (
        pairs_view(f.dependencies),
        pairs_view(f.dev_dependencies),
        pairs_view(f.peer_dependencies),
        pairs_view(f.optional_dependencies),
        pairs_view(f.scripts),
        opt_view(f.node),
    )
}

/// Relies on `serde_json::from_str` into a `Value`: the object's entries and string values
/// (in the map's key order) and the parse error's message depend on the text alone.
#[verifier::external_body]
fn read_package_json(text: &str) -> (r: Result<PackageFields, String>)
    ensures
        match (r, package_json_fields(text@)) {
            (Ok(f), Ok(v)) => fields_view(f) == v,
            (Err(e), Err(m)) => e@ == m,
            _ => false,
        },
{
    let v: serde_json::Value = serde_json::from_str(text).map_err(|e| e.to_string())?;
    let pairs = |k: &str| {
        v.get(k).and_then(|d| d.as_object()).map(|o| o.iter().map(|(n, x)| (n.clone(), x.as_str().map(String::from))).collect())
    };
    let node = v.get("engines").and_then(|e| e.get("node")).and_then(|n| n.as_str()).map(String::from);
    Ok(PackageFields {
        dependencies: pairs("dependencies"),
        dev_dependencies: pairs("devDependencies"),
        peer_dependencies: pairs("peerDependencies"),
        optional_dependencies: pairs("optionalDependencies"),
        scripts: pairs("scripts"),
        node,
    })
}

/// Every entry, a value that is not a string read as empty.
pub open spec fn all_entries(p: Seq<(Seq<char>, Option<Seq<char>>)>) -> Seq<(Seq<char>, Seq<char>)> {
    p.map_values(|x: (Seq<char>, Option<Seq<char>>)| (x.0, match x.1 { Some(v) => v, None => Seq::empty() }))
}

/// The entries whose value is a string.
pub open spec fn string_entries(p: PairsView) -> Seq<(Seq<char>, Seq<char>)>
    decreases (match p { Some(s) => s.len(), None => 0 }),
{
    match p {
        None => Seq::empty(),
        Some(s) => if s.len() == 0 {
            Seq::empty()
        } else {
            let rest = string_entries(Some(s.drop_last()));
            match s.last().1 {
                Some(v) => rest.push((s.last().0, v)),
                None => rest,
            }
        },
    }
}

pub open spec fn decl_views(v: Seq<DeclaredDep>) -> Seq<(Seq<char>, Seq<char>)> {
    v.map_values(|d: DeclaredDep| (d.name@, d.version@))
}

/// The `dependencies` of a `package.json` text (a value that is not a string read as
/// empty); `None` when there is no such object; the parse error as a warning.
pub fn package_dependencies(text: &str) -> (r: Result<Option<Vec<DeclaredDep>>, String>)
    ensures
        match (r, package_json_fields(text@)) {
            (Err(e), Err(m)) => e@ == "package.json parse failed: "@ + m,
            (Ok(None), Ok(v)) => v.0.is_none(),
            (Ok(Some(d)), Ok(v)) => v.0.is_some() && decl_views(d@) == all_entries(v.0.unwrap()),
            _ => false,
        },
{
    match read_package_json(text) {
        Err(m) => {
            let mut e = String::from_str("package.json parse failed: ");
            e.append(m.as_str());
            Err(e)
        },
        Ok(f) => match &f.dependencies {
            None => Ok(None),
            Some(pairs) => {
                let ghost pv = pairs@.map_values(|x: (String, Option<String>)| pair_view(x));
                let mut out: Vec<DeclaredDep> = Vec::new();
                let mut i: usize = 0;
                while i < pairs.len()
                    invariant
                        i <= pairs@.len(),
                        pv == pairs@.map_values(|x: (String, Option<String>)| pair_view(x)),
                        decl_views(out@) == all_entries(pv.subrange(0, i as int)),
                    decreases pairs@.len() - i,
                {
                    let version = match &pairs[i].1 {
                        Some(v) => v.clone(),
                        None => String::new(),
                    };
                    let d = DeclaredDep { name: pairs[i].0.clone(), version };
                    let ghost before = decl_views(out@);
                    out.push(d);
                    assert(decl_views(out@) =~= before.push((d.name@, d.version@)));
                    i += 1;
                    assert(all_entries(pv.subrange(0, i as int)) =~= all_entries(pv.subrange(0, i - 1)).push(
                        (d.name@, d.version@),
                    ));
                }
                assert(pv.subrange(0, pv.len() as int) =~= pv);
                Ok(Some(out))
            },
        },
    }
}

fn push_string_entries(out: &mut Vec<DeclaredDep>, p: &Option<Vec<(String, Option<String>)>>)
    ensures
        decl_views(final(out)@) == decl_views(old(out)@) + string_entries(pairs_view(*p)),
{
    match p {
        None => {
            assert(decl_views(out@) =~= decl_views(out@) + Seq::<(Seq<char>, Seq<char>)>::empty());
        },
        Some(pairs) => {
            let ghost pv = pairs@.map_values(|x: (String, Option<String>)| pair_view(x));
            let ghost o0 = decl_views(out@);
            let mut i: usize = 0;
            assert(pv.subrange(0, 0) =~= Seq::<(Seq<char>, Option<Seq<char>>)>::empty());
            while i < pairs.len()
                invariant
                    i <= pairs@.len(),
                    pv == pairs@.map_values(|x: (String, Option<String>)| pair_view(x)),
                    decl_views(out@) == o0 + string_entries(Some(pv.subrange(0, i as int))),
                decreases pairs@.len() - i,
            {
                assert(pv.subrange(0, i + 1).drop_last() =~= pv.subrange(0, i as int));
                assert(pv.subrange(0, i + 1).last() == pair_view(pairs@[i as int]));
                match &pairs[i].1 {
                    Some(v) => {
                        let d = DeclaredDep { name: pairs[i].0.clone(), version: v.clone() };
                        let ghost before = decl_views(out@);
                        out.push(d);
                        assert(decl_views(out@) =~= before.push((d.name@, d.version@)));
                    },
                    None => {},
                }
                i += 1;
            }
            assert(pv.subrange(0, pv.len() as int) =~= pv);
        },
    }
}

/// What a technology-stack scan reads of `package.json`.
pub struct PackageManifest {
    /// The entries with a string version of `dependencies`, `devDependencies`,
    /// `peerDependencies` and `optionalDependencies`, in that order.
    pub sections: Vec<DeclaredDep>,
    /// The scripts that are strings.
    pub scripts: Vec<String>,
    /// `engines.node`, when it is a string.
    pub node: Option<String>,
}

/// Reads a `package.json` text for a technology-stack scan; the parse error as a warning.
pub fn package_manifest(text: &str) -> (r: Result<PackageManifest, String>)
    ensures
        match (r, package_json_fields(text@)) {
            (Err(e), Err(m)) => e@ == "package.json parse failed: "@ + m,
            (Ok(p), Ok(v)) => {
                &&& decl_views(p.sections@) == string_entries(v.0) + string_entries(v.1) + string_entries(v.2)
                    + string_entries(v.3)
                &&& string_views(p.scripts@) == string_entries(v.4).map_values(|x: (Seq<char>, Seq<char>)| x.1)
                &&& opt_view(p.node) == v.5
            },
            _ => false,
        },
{
    match read_package_json(text) {
        Err(m) => {
            let mut e = String::from_str("package.json parse failed: ");
            e.append(m.as_str());
            Err(e)
        },
        Ok(f) => {
            let mut sections: Vec<DeclaredDep> = Vec::new();
            assert(decl_views(sections@) =~= Seq::<(Seq<char>, Seq<char>)>::empty());
            push_string_entries(&mut sections, &f.dependencies);
            push_string_entries(&mut sections, &f.dev_dependencies);
            push_string_entries(&mut sections, &f.peer_dependencies);
            push_string_entries(&mut sections, &f.optional_dependencies);
            let mut s: Vec<DeclaredDep> = Vec::new();
            push_string_entries(&mut s, &f.scripts);
            let mut scripts: Vec<String> = Vec::new();
            let mut i: usize = 0;
            while i < s.len()
                invariant
                    i <= s@.len(),
                    string_views(scripts@) == decl_views(s@).subrange(0, i as int).map_values(
                        |x: (Seq<char>, Seq<char>)| x.1,
                    ),
                decreases s@.len() - i,
            {
                let ghost before = string_views(scripts@);
                scripts.push(s[i].version.clone());
                assert(string_views(scripts@) =~= before.push(s@[i as int].version@));
                i += 1;
                assert(decl_views(s@).subrange(0, i as int).map_values(|x: (Seq<char>, Seq<char>)| x.1)
                    =~= decl_views(s@).subrange(0, i - 1).map_values(|x: (Seq<char>, Seq<char>)| x.1).push(
                    s@[i - 1].version@,
                ));
            }
            assert(decl_views(s@).subrange(0, s@.len() as int) =~= decl_views(s@));
            assert(decl_views(s@) =~= Seq::<(Seq<char>, Seq<char>)>::empty() + string_entries(fields_view(f).4));
            let node = match &f.node {
                Some(n) => Some(n.clone()),
                None => None,
            };
            Ok(PackageManifest { sections, scripts, node })
        },
    }
}

/// The keys of the table at `path` in a TOML text (`None` when there is no table there),
/// or the parser's message.
pub uninterp spec fn toml_keys_of(text: Seq<char>, path: Seq<Seq<char>>) -> Result<Option<Seq<Seq<char>>>, Seq<char>>;

/// Relies on `str::parse::<toml::Value>`: the keys of a table (in the map's key order) and
/// the parse error's message depend on the text alone.
#[verifier::external_body]
fn toml_table_keys(text: &str, path: &Vec<String>) -> (r: Result<Option<Vec<String>>, String>)
    ensures
        match (r, toml_keys_of(text@, string_views(path@))) {
            (Ok(Some(k)), Ok(Some(v))) => string_views(k@) == v,
            (Ok(None), Ok(None)) => true,
            (Err(e), Err(m)) => e@ == m,
            _ => false,
        },
{
    let v: toml::Value = text.parse().map_err(|e: toml::de::Error| e.to_string())?;
    let found = path.iter().try_fold(&v, |cur, k| cur.get(k.as_str()));
    Ok(found.and_then(|t| t.as_table()).map(|t| t.keys().cloned().collect()))
}

pub open spec fn lowered(v: Seq<Seq<char>>) -> Seq<Seq<char>> {
    v.map_values(|k: Seq<char>| ascii_lower(k))
}

fn lower_all(v: &Vec<String>) -> (r: Vec<String>)
    ensures
        string_views(r@) == lowered(string_views(v@)),
{
    let mut out: Vec<String> = Vec::new();
    let mut i: usize = 0;
    while i < v.len()
        invariant
            i <= v@.len(),
            string_views(out@) == lowered(string_views(v@).subrange(0, i as int)),
        decreases v@.len() - i,
    {
        let l = string_of(&lower_chars(&chars_of(v[i].as_str())));
        let ghost before = string_views(out@);
        out.push(l);
        assert(string_views(out@) =~= before.push(ascii_lower(v@[i as int]@)));
        i += 1;
        assert(lowered(string_views(v@).subrange(0, i as int)) =~= lowered(string_views(v@).subrange(0, i - 1)).push(
            ascii_lower(v@[i - 1]@),
        ));
    }
    assert(string_views(v@).subrange(0, v@.len() as int) =~= string_views(v@));
    out
}

fn path_of(parts: &[&str]) -> (r: Vec<String>)
    ensures
        r@.len() == parts@.len(),
        forall|i: int| 0 <= i < parts@.len() ==> r@[i]@ == (#[trigger] parts@[i])@,
{
    let mut out: Vec<String> = Vec::new();
    let mut i: usize = 0;
    while i < parts.len()
        invariant
            i <= parts@.len(),
            out@.len() == i,
            forall|j: int| 0 <= j < i ==> out@[j]@ == (#[trigger] parts@[j])@,
        decreases parts@.len() - i,
    {
        out.push(String::from_str(parts[i]));
        i += 1;
    }
    out
}

pub open spec fn keys_or_empty(r: Option<Seq<Seq<char>>>) -> Seq<Seq<char>> {
    match r {
        Some(k) => k,
        None => Seq::empty(),
    }
}

fn keys_lowered(text: &str, path: &Vec<String>, label: &str) -> (r: Result<Vec<String>, String>)
    ensures
        match (r, toml_keys_of(text@, string_views(path@))) {
            (Ok(k), Ok(v)) => string_views(k@) == lowered(keys_or_empty(v)),
            (Err(e), Err(m)) => e@ == label@ + m,
            _ => false,
        },
{
    match toml_table_keys(text, path) {
        Err(m) => {
            let mut e = String::from_str(label);
            e.append(m.as_str());
            Err(e)
        },
        Ok(None) => {
            let v: Vec<String> = Vec::new();
            assert(string_views(v@) =~= lowered(Seq::<Seq<char>>::empty()));
            Ok(v)
        },
        Ok(Some(keys)) => Ok(lower_all(&keys)),
    }
}

/// The dependency names of a `Cargo.toml` text in lower case: the keys of its
/// `[dependencies]` table.
pub fn cargo_dependency_names(text: &str) -> (r: Result<Vec<String>, String>)
    ensures
        match (r, toml_keys_of(text@, seq!["dependencies"@])) {
            (Ok(k), Ok(v)) => string_views(k@) == lowered(keys_or_empty(v)),
            (Err(e), Err(m)) => e@ == "Cargo.toml parse failed: "@ + m,
            _ => false,
        },
{
    let path = path_of(&["dependencies"]);
    assert(string_views(path@) =~= seq!["dependencies"@]);
    keys_lowered(text, &path, "Cargo.toml parse failed: ")
}

/// The dependency names of a `pyproject.toml` text in lower case: the keys of
/// `tool.poetry.dependencies`, then of `tool.poetry.group.dev.dependencies`.
pub fn pyproject_dependency_names(text: &str) -> (r: Result<Vec<String>, String>)
    ensures
        match (
            r,
            toml_keys_of(text@, seq!["tool"@, "poetry"@, "dependencies"@]),
            toml_keys_of(text@, seq!["tool"@, "poetry"@, "group"@, "dev"@, "dependencies"@]),
        ) {
            (Ok(k), Ok(a), Ok(b)) => string_views(k@) == lowered(keys_or_empty(a)) + lowered(keys_or_empty(b)),
            (Err(e), Err(m), _) => e@ == "pyproject.toml parse failed: "@ + m,
            (Err(e), Ok(_), Err(m)) => e@ == "pyproject.toml parse failed: "@ + m,
            _ => false,
        },
{
    let main = path_of(&["tool", "poetry", "dependencies"]);
    let dev = path_of(&["tool", "poetry", "group", "dev", "dependencies"]);
    assert(string_views(main@) =~= seq!["tool"@, "poetry"@, "dependencies"@]);
    assert(string_views(dev@) =~= seq!["tool"@, "poetry"@, "group"@, "dev"@, "dependencies"@]);
    let mut a = match keys_lowered(text, &main, "pyproject.toml parse failed: ") {
        Ok(a) => a,
        Err(e) => return Err(e),
    };
    let mut b = match keys_lowered(text, &dev, "pyproject.toml parse failed: ") {
        Ok(b) => b,
        Err(e) => return Err(e),
    };
    let ghost av = string_views(a@);
    let ghost bv = string_views(b@);
    a.append(&mut b);
    assert(string_views(a@) =~= av + bv);
    Ok(a)
}

/// Reading a `Pipfile`: the section being read and the package names so far.
pub open spec fn pipfile_step(st: (Seq<char>, Seq<Seq<char>>), line: Seq<char>) -> (Seq<char>, Seq<Seq<char>>) {
    let t = crate::text::trim(line);
    if t.len() == 0 || crate::text::starts_with(t, "#"@) {
        st
    } else if crate::text::starts_with(t, "["@) && crate::text::ends_with(t, "]"@) {
        (t.subrange(1, t.len() - 1), st.1)
    } else if st.0 != "packages"@ && st.0 != "dev-packages"@ {
        st
    } else {
        let k = crate::text::find(t, "="@);
        let name = crate::flutter::trim_matching(
            crate::flutter::trim_matching(crate::text::trim(t.subrange(0, k)), "\""@),
            "'"@,
        );
        if k >= 0 && name.len() > 0 {
            (st.0, st.1.push(ascii_lower(name)))
        } else {
            st
        }
    }
}

pub open spec fn pipfile_run(lines: Seq<Seq<char>>) -> (Seq<char>, Seq<Seq<char>>)
    decreases lines.len(),
{
    if lines.len() == 0 {
        (Seq::empty(), Seq::empty())
    } else {
        pipfile_step(pipfile_run(lines.drop_last()), lines.last())
    }
}

/// The package names (lower case, in order) of the `[packages]` and `[dev-packages]`
/// sections of a `Pipfile` text.
pub fn pipfile_dependency_names(text: &str) -> (r: Vec<String>)
    ensures
        string_views(r@) == pipfile_run(crate::text::split(text@, '\n')).1,
{
    let lines = crate::text::split_chars(&chars_of(text), '\n');
    let ghost lv = crate::text::views(lines@);
    let mut section: Vec<char> = Vec::new();
    let mut names: Vec<String> = Vec::new();
    let mut i: usize = 0;
    while i < lines.len()
        invariant
            i <= lines@.len(),
            lv == crate::text::views(lines@),
            lv == crate::text::split(text@, '\n'),
            (section@, string_views(names@)) == pipfile_run(lv.subrange(0, i as int)),
        decreases lines@.len() - i,
    {
        assert(lv.subrange(0, i + 1).drop_last() =~= lv.subrange(0, i as int));
        assert(lv.subrange(0, i + 1).last() == lines@[i as int]@);
        let t = crate::text::trim_chars(&lines[i]);
        if t.len() == 0 || crate::text::starts_with_str(&t, "#") {
        } else if crate::text::starts_with_str(&t, "[") && crate::text::ends_with_str(&t, "]") {
            proof {
                reveal_strlit("[");
                reveal_strlit("]");
                assert(t@.subrange(0, 1) == "["@);
                assert(t@.subrange(0, 1)[0] == t@[0]);
                assert(t@.subrange(t@.len() - 1, t@.len() as int) == "]"@);
                assert(t@.subrange(t@.len() - 1, t@.len() as int)[0] == t@[t@.len() - 1]);
            }
            section = crate::text::slice_chars(&t, 1, t.len() - 1);
        } else if !crate::text::eq_str(&section, "packages") && !crate::text::eq_str(&section, "dev-packages") {
        } else {
            match crate::text::find_str(&t, "=") {
                Some(k) => {
                    let name = crate::flutter::trim_matching_exec(
                        &crate::flutter::trim_matching_exec(&crate::text::trim_chars(&crate::text::slice_chars(&t, 0, k)), "\""),
                        "'",
                    );
                    if name.len() > 0 {
                        let ghost before = string_views(names@);
                        names.push(string_of(&lower_chars(&name)));
                        assert(string_views(names@) =~= before.push(ascii_lower(name@)));
                    }
                },
                None => {},
            }
        }
        i += 1;
    }
    assert(lv.subrange(0, lv.len() as int) =~= lv);
    names
}

/// The walk over `requirements.txt` files and the files they include: how deep it may
/// go, and the files already read.
pub struct RequirementsWalk {
    pub max_depth: usize,
    pub visited: Vec<String>,
}

impl RequirementsWalk {
    pub fn new(max_depth: usize) -> (r: RequirementsWalk)
        ensures
            r.max_depth == max_depth,
            r.visited@.len() == 0,
    {
        RequirementsWalk { max_depth, visited: Vec::new() }
    }

    /// Whether the file (by its resolved path) at this include depth is read: only within
    /// the depth limit and only once; a file to read is recorded as visited.
    pub fn enter(&mut self, depth: usize, file: &String) -> (r: bool)
        ensures
            r == (depth <= old(self).max_depth && !string_views(old(self).visited@).contains(file@)),
            final(self).max_depth == old(self).max_depth,
            r ==> string_views(final(self).visited@) == string_views(old(self).visited@).push(file@),
            !r ==> final(self).visited == old(self).visited,
    {
        if depth > self.max_depth {
            return false;
        }
        let ghost sv = string_views(self.visited@);
        let f = chars_of(file.as_str());
        let mut i: usize = 0;
        while i < self.visited.len()
            invariant
                i <= self.visited@.len(),
                sv == string_views(self.visited@),
                f@ == file@,
                forall|j: int| 0 <= j < i ==> sv[j] != file@,
            decreases self.visited@.len() - i,
        {
            if crate::text::eq_chars(&chars_of(self.visited[i].as_str()), &f) {
                assert(sv[i as int] == file@);
                return false;
            }
            i += 1;
        }
        let ghost before = self.visited@;
        self.visited.push(file.clone());
        assert(string_views(self.visited@) =~= string_views(before).push(file@));
        true
    }
}

} // verus!
