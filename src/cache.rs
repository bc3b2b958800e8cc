//! The result cache: stored reports keyed by input kind and fingerprint.
use vstd::prelude::*;

use crate::classify::string_views;
use crate::report::opt_view;

verus! {

/// A manifest file reduced to what the fingerprint reads: path, modification time in
/// seconds, size.
pub struct ManifestStat {
    pub path: String,
    pub mtime: u64,
    pub size: u64,
}

pub open spec fn stat_views(v: Seq<ManifestStat>) -> Seq<(Seq<char>, u64, u64)> {
    v.map_values(|m: ManifestStat| (m.path@, m.mtime, m.size))
}

/// The JSON text of the fingerprint parts (kind, identity, revision, manifest stats).
pub uninterp spec fn fingerprint_json(
    kind: Seq<char>,
    value: Seq<char>,
    revision: Option<Seq<char>>,
    files: Seq<(Seq<char>, u64, u64)>,
) -> Seq<char>;

/// Relies on `serde_json::to_string`: the JSON text of a tuple of strings, an optional
/// string and a list of (string, integer, integer) depends on those values alone.
#[verifier::external_body]
fn fingerprint_text(kind: &str, value: &str, revision: &Option<String>, files: &Vec<ManifestStat>) -> (r: String)
    ensures
        r@ == fingerprint_json(kind@, value@, opt_view(*revision), stat_views(files@)),
{
    let list: Vec<(&str, u64, u64)> = files.iter().map(|m| (m.path.as_str(), m.mtime, m.size)).collect();
    serde_json::to_string(&(kind, value, revision, list)).unwrap_or_default()
}

/// The manifest files whose path, size and modification time make up the fingerprint.
pub open spec fn manifest_paths() -> Seq<Seq<char>> {
    seq![
        "package.json"@, "pnpm-lock.yaml"@, "yarn.lock"@, "package-lock.json"@, "bun.lockb"@, "bun.lock"@,
        "requirements.txt"@, "pyproject.toml"@, "Pipfile"@, "Pipfile.lock"@, "poetry.lock"@, "pom.xml"@,
        "build.gradle"@, "build.gradle.kts"@, "go.mod"@, "Gemfile"@, "Gemfile.lock"@, "Dockerfile"@,
        "docker-compose.yml"@, "docker-compose.yaml"@, ".gitmodules"@, "prisma/schema.prisma"@,
    ]
}

/// The manifest files whose path, size and modification time make up the fingerprint.
pub fn fingerprint_manifests() -> (r: Vec<&'static str>)
    ensures
        r@.map_values(|p: &'static str| p@) == manifest_paths(),
{
    let mut v: Vec<&'static str> = Vec::new();
    v.push("package.json");
    v.push("pnpm-lock.yaml");
    v.push("yarn.lock");
    v.push("package-lock.json");
    v.push("bun.lockb");
    v.push("bun.lock");
    v.push("requirements.txt");
    v.push("pyproject.toml");
    v.push("Pipfile");
    v.push("Pipfile.lock");
    v.push("poetry.lock");
    v.push("pom.xml");
    v.push("build.gradle");
    v.push("build.gradle.kts");
    v.push("go.mod");
    v.push("Gemfile");
    v.push("Gemfile.lock");
    v.push("Dockerfile");
    v.push("docker-compose.yml");
    v.push("docker-compose.yaml");
    v.push(".gitmodules");
    v.push("prisma/schema.prisma");
    assert(v@.map_values(|p: &'static str| p@) =~= manifest_paths());
    v
}

/// The fingerprint of an input: its kind and identity, the revision it is at (if under
/// version control) and the stats of the manifest files present; no file content.
pub fn build_scan_fingerprint(
    input_kind: &str,
    input_value: &str,
    revision: &Option<String>,
    files: &Vec<ManifestStat>,
) -> (r: String)
    ensures
        r@ == fingerprint_json(input_kind@, input_value@, opt_view(*revision), stat_views(files@)),
{
    fingerprint_text(input_kind, input_value, revision, files)
}

/// A stored scan: the report as serialized text and how long the scan took.
pub struct CacheEntry {
    pub input_kind: String,
    pub fingerprint: String,
    pub report: String,
    pub elapsed_ms: u64,
}

pub open spec fn key_of(e: CacheEntry) -> (Seq<char>, Seq<char>) {
    (e.input_kind@, e.fingerprint@)
}

/// Index of the first entry with this key at or after `i`, or -1.
pub open spec fn find_key_from(s: Seq<CacheEntry>, k: (Seq<char>, Seq<char>), i: int) -> int
    decreases s.len() - i,
{
    if i < 0 || i >= s.len() {
        -1
    } else if key_of(s[i]) == k {
        i
    } else {
        find_key_from(s, k, i + 1)
    }
}

/// What the cache holds under a key: the report text and the scan time.
pub open spec fn cached(s: Seq<CacheEntry>, k: (Seq<char>, Seq<char>)) -> Option<(Seq<char>, u64)> {
    let i = find_key_from(s, k, 0);
    if i >= 0 {
        Some((s[i].report@, s[i].elapsed_ms))
    } else {
        None
    }
}

/// An in-memory key-value store of scans.
pub struct ResultCache {
    pub entries: Vec<CacheEntry>,
}

proof fn lemma_find_key_bounds(s: Seq<CacheEntry>, k: (Seq<char>, Seq<char>), i: int)
    requires
        0 <= i,
    ensures
        find_key_from(s, k, i) == -1 || (i <= find_key_from(s, k, i) < s.len() && key_of(s[find_key_from(s, k, i)]) == k),
        find_key_from(s, k, i) == -1 ==> forall|j: int| i <= j < s.len() ==> key_of(s[j]) != k,
        find_key_from(s, k, i) >= 0 ==> forall|j: int| i <= j < find_key_from(s, k, i) ==> key_of(s[j]) != k,
    decreases s.len() - i,
{
    if i < s.len() && key_of(s[i]) != k {
        lemma_find_key_bounds(s, k, i + 1);
    }
}

proof fn lemma_find_key_first(s: Seq<CacheEntry>, k: (Seq<char>, Seq<char>), i: int, j: int)
    requires
        0 <= i <= j < s.len(),
        key_of(s[j]) == k,
        forall|m: int| i <= m < j ==> key_of(s[m]) != k,
    ensures
        find_key_from(s, k, i) == j,
    decreases j - i,
{
    if i < j {
        lemma_find_key_first(s, k, i + 1, j);
    }
}

impl ResultCache {
    pub fn new() -> (r: ResultCache)
        ensures
            r.entries@.len() == 0,
    {
        ResultCache { entries: Vec::new() }
    }

    fn find(&self, kind: &str, fingerprint: &str) -> (r: Option<usize>)
        ensures
            match r {
                Some(i) => i == find_key_from(self.entries@, (kind@, fingerprint@), 0),
                None => find_key_from(self.entries@, (kind@, fingerprint@), 0) == -1,
            },
    {
        let ghost k = (kind@, fingerprint@);
        let kc = crate::text::chars_of(kind);
        let fc = crate::text::chars_of(fingerprint);
        let mut i: usize = 0;
        while i < self.entries.len()
            invariant
                i <= self.entries@.len(),
                kc@ == kind@,
                fc@ == fingerprint@,
                k == (kind@, fingerprint@),
                forall|j: int| 0 <= j < i ==> key_of(self.entries@[j]) != k,
            decreases self.entries@.len() - i,
        {
            let e = &self.entries[i];
            let same_kind = crate::text::eq_chars(&crate::text::chars_of(e.input_kind.as_str()), &kc);
            let same_fp = crate::text::eq_chars(&crate::text::chars_of(e.fingerprint.as_str()), &fc);
            assert(key_of(self.entries@[i as int]) == (e.input_kind@, e.fingerprint@));
            if same_kind && same_fp {
                proof {
                    assert(key_of(self.entries@[i as int]) == k);
                    lemma_find_key_first(self.entries@, k, 0, i as int);
                }
                return Some(i);
            }
            assert(key_of(self.entries@[i as int]) != k);
            i += 1;
        }
        proof {
            lemma_find_key_bounds(self.entries@, k, 0);
            if find_key_from(self.entries@, k, 0) >= 0 {
                let f = find_key_from(self.entries@, k, 0);
                assert(key_of(self.entries@[f]) == k);
            }
        }
        None
    }

    /// The stored report text and scan time for this kind and fingerprint, if any.
    pub fn get(&self, input_kind: &str, fingerprint: &str) -> (r: Option<(String, u64)>)
        ensures
            match (r, cached(self.entries@, (input_kind@, fingerprint@))) {
                (Some(a), Some(b)) => a.0@ == b.0 && a.1 == b.1,
                (None, None) => true,
                _ => false,
            },
    {
        proof {
            lemma_find_key_bounds(self.entries@, (input_kind@, fingerprint@), 0);
        }
        match self.find(input_kind, fingerprint) {
            Some(i) => Some((self.entries[i].report.clone(), self.entries[i].elapsed_ms)),
            None => None,
        }
    }

    /// Stores a report under this kind and fingerprint, replacing what was there.
    pub fn put(&mut self, input_kind: &str, fingerprint: &str, report: String, elapsed_ms: u64)
        ensures
            forall|k: (Seq<char>, Seq<char>)| k != (input_kind@, fingerprint@) ==> cached(final(self).entries@, k)
                == cached(old(self).entries@, k),
            cached(final(self).entries@, (input_kind@, fingerprint@)) == Some((report@, elapsed_ms)),
    {
        let ghost k0 = (input_kind@, fingerprint@);
        let ghost old_s = self.entries@;
        proof {
            lemma_find_key_bounds(old_s, k0, 0);
        }
        let entry = CacheEntry {
            input_kind: String::from_str(input_kind),
            fingerprint: String::from_str(fingerprint),
            report,
            elapsed_ms,
        };
        let ghost e = entry;
        match self.find(input_kind, fingerprint) {
            Some(i) => {
                self.entries.set(i, entry);
                proof {
                    let s = self.entries@;
                    lemma_find_key_first(s, k0, 0, i as int);
                    assert forall|k: (Seq<char>, Seq<char>)| k != k0 implies cached(s, k) == cached(old_s, k) by {
                        lemma_find_key_bounds(old_s, k, 0);
                        lemma_find_key_bounds(s, k, 0);
                        let a = find_key_from(old_s, k, 0);
                        let b = find_key_from(s, k, 0);
                        if a >= 0 {
                            assert(a != i);
                            assert(key_of(s[a]) == k);
                            lemma_find_key_first(s, k, 0, a);
                        } else if b >= 0 {
                            assert(b != i);
                            assert(key_of(old_s[b]) == k);
                        }
                    }
                }
            },
            None => {
                self.entries.push(entry);
                proof {
                    let s = self.entries@;
                    lemma_find_key_first(s, k0, 0, old_s.len() as int);
                    assert forall|k: (Seq<char>, Seq<char>)| k != k0 implies cached(s, k) == cached(old_s, k) by {
                        lemma_find_key_bounds(old_s, k, 0);
                        lemma_find_key_bounds(s, k, 0);
                        let a = find_key_from(old_s, k, 0);
                        let b = find_key_from(s, k, 0);
                        if a >= 0 {
                            assert(key_of(s[a]) == k);
                            lemma_find_key_first(s, k, 0, a);
                        } else if b >= 0 {
                            assert(b < old_s.len());
                            assert(key_of(old_s[b]) == k);
                        }
                    }
                }
            },
        }
    }
}

/// A scan's report as handed back: the serialized report, how long the scan took, and
/// whether it came from the cache rather than from a fresh scan.
pub struct ScanOutcome {
    pub report: String,
    pub elapsed_ms: u64,
    pub cache_hit: bool,
}

impl ResultCache {
    /// The first step of a scan: the stored report for this kind and fingerprint, marked as
    /// a cache hit, or `None` when a fresh scan is needed.
    pub fn lookup(&self, input_kind: &str, fingerprint: &str) -> (r: Option<ScanOutcome>)
        ensures
            match (r, cached(self.entries@, (input_kind@, fingerprint@))) {
                (Some(o), Some(c)) => o.cache_hit && o.report@ == c.0 && o.elapsed_ms == c.1,
                (None, None) => true,
                _ => false,
            },
    {
        match self.get(input_kind, fingerprint) {
            Some((report, elapsed_ms)) => Some(ScanOutcome { report, elapsed_ms, cache_hit: true }),
            None => None,
        }
    }

    /// The last step of a fresh scan: stores its report under this kind and fingerprint,
    /// replacing any earlier one, and hands it back unmarked.
    pub fn store(&mut self, input_kind: &str, fingerprint: &str, report: String, elapsed_ms: u64) -> (r: ScanOutcome)
        ensures
            !r.cache_hit,
            r.report@ == report@,
            r.elapsed_ms == elapsed_ms,
            cached(final(self).entries@, (input_kind@, fingerprint@)) == Some((report@, elapsed_ms)),
            forall|k: (Seq<char>, Seq<char>)| k != (input_kind@, fingerprint@) ==> cached(final(self).entries@, k)
                == cached(old(self).entries@, k),
    {
        let kept = report.clone();
        self.put(input_kind, fingerprint, report, elapsed_ms);
        ScanOutcome { report: kept, elapsed_ms, cache_hit: false }
    }
}

} // verus!
