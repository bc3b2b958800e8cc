//! File classification: every file is ignored, generated, an asset, or code in one language.
use vstd::prelude::*;

use crate::text::{
    ascii_lower, chars_of, ends_with, ends_with_str, eq_str, has_piece, last_index_exec,
    last_index_of, lemma_last_index_bounds, lower_chars, slice_chars, split, split_chars, views,
};

verus! {

/// Why a file is left out of the statistics.
#[derive(Clone, Copy, Debug, PartialEq, Eq, Structural)]
pub enum IgnoreReason {
    Dir,
    Minified,
    Extension,
}

pub open spec fn reason_label(r: IgnoreReason) -> Seq<char> {
    match r {
        IgnoreReason::Dir => "ignoredDir"@,
        IgnoreReason::Minified => "ignoredMinified"@,
        IgnoreReason::Extension => "ignoredExtension"@,
    }
}

impl IgnoreReason {
    /// The reason as reports spell it.
    pub fn label(&self) -> (r: String)
        ensures
            r@ == reason_label(*self),
    {
        match self {
            IgnoreReason::Dir => String::from_str("ignoredDir"),
            IgnoreReason::Minified => String::from_str("ignoredMinified"),
            IgnoreReason::Extension => String::from_str("ignoredExtension"),
        }
    }
}

/// The languages of the extension table, `Other` for anything it does not list.
#[derive(Clone, Copy, Debug, PartialEq, Eq, Structural)]
pub enum Language {
    TypeScript,
    JavaScript,
    Vue,
    Dart,
    Python,
    Rust,
    Go,
    Java,
    Kotlin,
    Swift,
    ObjectiveC,
    Css,
    Html,
    Config,
    Markdown,
    Other,
}

/// Number of languages in the table.
pub const LANGUAGE_COUNT: usize = 16;

pub open spec fn language_index(l: Language) -> nat {
    match l {
        Language::TypeScript => 0,
        Language::JavaScript => 1,
        Language::Vue => 2,
        Language::Dart => 3,
        Language::Python => 4,
        Language::Rust => 5,
        Language::Go => 6,
        Language::Java => 7,
        Language::Kotlin => 8,
        Language::Swift => 9,
        Language::ObjectiveC => 10,
        Language::Css => 11,
        Language::Html => 12,
        Language::Config => 13,
        Language::Markdown => 14,
        Language::Other => 15,
    }
}

pub open spec fn language_at(i: nat) -> Language {
    if i == 0 {
        Language::TypeScript
    } else if i == 1 {
        Language::JavaScript
    } else if i == 2 {
        Language::Vue
    } else if i == 3 {
        Language::Dart
    } else if i == 4 {
        Language::Python
    } else if i == 5 {
        Language::Rust
    } else if i == 6 {
        Language::Go
    } else if i == 7 {
        Language::Java
    } else if i == 8 {
        Language::Kotlin
    } else if i == 9 {
        Language::Swift
    } else if i == 10 {
        Language::ObjectiveC
    } else if i == 11 {
        Language::Css
    } else if i == 12 {
        Language::Html
    } else if i == 13 {
        Language::Config
    } else if i == 14 {
        Language::Markdown
    } else {
        Language::Other
    }
}

pub open spec fn language_name(l: Language) -> Seq<char> {
    match l {
        Language::TypeScript => "TypeScript"@,
        Language::JavaScript => "JavaScript"@,
        Language::Vue => "Vue"@,
        Language::Dart => "Dart"@,
        Language::Python => "Python"@,
        Language::Rust => "Rust"@,
        Language::Go => "Go"@,
        Language::Java => "Java"@,
        Language::Kotlin => "Kotlin"@,
        Language::Swift => "Swift"@,
        Language::ObjectiveC => "Objective-C"@,
        Language::Css => "CSS"@,
        Language::Html => "HTML"@,
        Language::Config => "Config"@,
        Language::Markdown => "Markdown"@,
        Language::Other => "Other"@,
    }
}

impl Language {
    pub fn index(&self) -> (r: usize)
        ensures
            r == language_index(*self),
            r < LANGUAGE_COUNT,
            language_at(r as nat) == *self,
    {
        match self {
            Language::TypeScript => 0,
            Language::JavaScript => 1,
            Language::Vue => 2,
            Language::Dart => 3,
            Language::Python => 4,
            Language::Rust => 5,
            Language::Go => 6,
            Language::Java => 7,
            Language::Kotlin => 8,
            Language::Swift => 9,
            Language::ObjectiveC => 10,
            Language::Css => 11,
            Language::Html => 12,
            Language::Config => 13,
            Language::Markdown => 14,
            Language::Other => 15,
        }
    }

    pub fn from_index(i: usize) -> (r: Language)
        requires
            i < LANGUAGE_COUNT,
        ensures
            r == language_at(i as nat),
            language_index(r) == i,
    {
        if i == 0 {
            Language::TypeScript
        } else if i == 1 {
            Language::JavaScript
        } else if i == 2 {
            Language::Vue
        } else if i == 3 {
            Language::Dart
        } else if i == 4 {
            Language::Python
        } else if i == 5 {
            Language::Rust
        } else if i == 6 {
            Language::Go
        } else if i == 7 {
            Language::Java
        } else if i == 8 {
            Language::Kotlin
        } else if i == 9 {
            Language::Swift
        } else if i == 10 {
            Language::ObjectiveC
        } else if i == 11 {
            Language::Css
        } else if i == 12 {
            Language::Html
        } else if i == 13 {
            Language::Config
        } else if i == 14 {
            Language::Markdown
        } else {
            Language::Other
        }
    }

    /// The language's display name.
    pub fn name(&self) -> (r: String)
        ensures
            r@ == language_name(*self),
    {
        match self {
            Language::TypeScript => String::from_str("TypeScript"),
            Language::JavaScript => String::from_str("JavaScript"),
            Language::Vue => String::from_str("Vue"),
            Language::Dart => String::from_str("Dart"),
            Language::Python => String::from_str("Python"),
            Language::Rust => String::from_str("Rust"),
            Language::Go => String::from_str("Go"),
            Language::Java => String::from_str("Java"),
            Language::Kotlin => String::from_str("Kotlin"),
            Language::Swift => String::from_str("Swift"),
            Language::ObjectiveC => String::from_str("Objective-C"),
            Language::Css => String::from_str("CSS"),
            Language::Html => String::from_str("HTML"),
            Language::Config => String::from_str("Config"),
            Language::Markdown => String::from_str("Markdown"),
            Language::Other => String::from_str("Other"),
        }
    }
}

/// The language of a lower-case extension.
pub open spec fn language_of_ext(e: Seq<char>) -> Language {
    if e == "ts"@ || e == "tsx"@ {
        Language::TypeScript
    } else if e == "js"@ || e == "jsx"@ || e == "cjs"@ || e == "mjs"@ {
        Language::JavaScript
    } else if e == "vue"@ {
        Language::Vue
    } else if e == "dart"@ {
        Language::Dart
    } else if e == "py"@ {
        Language::Python
    } else if e == "rs"@ {
        Language::Rust
    } else if e == "go"@ {
        Language::Go
    } else if e == "java"@ {
        Language::Java
    } else if e == "kt"@ || e == "kts"@ {
        Language::Kotlin
    } else if e == "swift"@ {
        Language::Swift
    } else if e == "m"@ || e == "mm"@ {
        Language::ObjectiveC
    } else if e == "css"@ || e == "scss"@ || e == "sass"@ || e == "less"@ {
        Language::Css
    } else if e == "html"@ || e == "htm"@ {
        Language::Html
    } else if e == "json"@ || e == "yaml"@ || e == "yml"@ || e == "toml"@ || e == "xml"@
        || e == "ini"@ || e == "plist"@ {
        Language::Config
    } else if e == "md"@ {
        Language::Markdown
    } else {
        Language::Other
    }
}

/// The last segment of a slash-separated path.
pub open spec fn file_name(p: Seq<char>) -> Seq<char> {
    p.subrange(last_index_of(p, '/') + 1, p.len() as int)
}

/// What follows the last dot of the file name, when that dot is not its first character.
pub open spec fn extension(p: Seq<char>) -> Option<Seq<char>> {
    let n = file_name(p);
    let k = last_index_of(n, '.');
    if k <= 0 {
        None
    } else {
        Some(n.subrange(k + 1, n.len() as int))
    }
}

pub open spec fn language_of_path(p: Seq<char>) -> Language {
    match extension(p) {
        Some(e) => language_of_ext(e),
        None => Language::Other,
    }
}

/// A Python file directly inside a directory named `migrations`.
pub open spec fn is_generated_migration(p: Seq<char>) -> bool {
    let k = last_index_of(p, '/');
    ends_with(p, ".py"@) && k >= 0 && file_name(p.subrange(0, k)) == "migrations"@
}

/// Backslashes read as slashes, then ASCII lower case.
pub open spec fn normalize_path(p: Seq<char>) -> Seq<char> {
    ascii_lower(p.map_values(|c: char| if c == '\\' { '/' } else { c }))
}

pub open spec fn string_views(v: Seq<String>) -> Seq<Seq<char>> {
    v.map_values(|s: String| s@)
}

/// Some segment of the normalized path equals, ignoring ASCII case, one of `dirs`.
pub open spec fn in_ignored_dir(lower: Seq<char>, dirs: Seq<Seq<char>>) -> bool {
    exists|k: int| 0 <= k < dirs.len() && split(lower, '/').contains(ascii_lower(#[trigger] dirs[k]))
}

/// The normalized path ends in one of `exts`, compared in lower case.
pub open spec fn has_ignored_extension(lower: Seq<char>, exts: Seq<Seq<char>>) -> bool {
    exists|k: int| 0 <= k < exts.len() && ends_with(lower, ascii_lower(#[trigger] exts[k]))
}

/// What a file is, by path and size.
#[derive(Clone, Copy, Debug, PartialEq, Eq, Structural)]
pub enum Classification {
    Ignored { reason: IgnoreReason },
    Generated,
    Asset,
    Code { language: Language },
}

/// Scan settings.
pub struct SemanticScanConfig {
    pub ignore_extensions: Vec<String>,
    pub ignore_dirs: Vec<String>,
    pub max_config_bytes: u64,
    pub asset_threshold_bytes: u64,
    pub ignored_files_limit: usize,
    pub follow_requirements_depth: usize,
}

/// The first rule that applies, in this order: ignored directory, minified script,
/// ignored extension, size above the asset threshold, generated migration, code.
pub open spec fn classify_spec(
    path: Seq<char>,
    size: u64,
    dirs: Seq<Seq<char>>,
    exts: Seq<Seq<char>>,
    threshold: u64,
) -> Classification {
    let lower = normalize_path(path);
    if in_ignored_dir(lower, dirs) {
        Classification::Ignored { reason: IgnoreReason::Dir }
    } else if ends_with(lower, ".min.js"@) {
        Classification::Ignored { reason: IgnoreReason::Minified }
    } else if has_ignored_extension(lower, exts) {
        Classification::Ignored { reason: IgnoreReason::Extension }
    } else if size > threshold {
        Classification::Asset
    } else if is_generated_migration(lower) {
        Classification::Generated
    } else {
        Classification::Code { language: language_of_path(lower) }
    }
}

pub open spec fn classify_with(path: Seq<char>, size: u64, cfg: &SemanticScanConfig) -> Classification {
    classify_spec(
        path,
        size,
        string_views(cfg.ignore_dirs@),
        string_views(cfg.ignore_extensions@),
        cfg.asset_threshold_bytes,
    )
}

} // verus!

verus! {

/// The language of a lower-case extension.
pub fn language_of_extension(e: &Vec<char>) -> (r: Language)
    ensures
        r == language_of_ext(e@),
{
    if eq_str(e, "ts") || eq_str(e, "tsx") {
        Language::TypeScript
    } else if eq_str(e, "js") || eq_str(e, "jsx") || eq_str(e, "cjs") || eq_str(e, "mjs") {
        Language::JavaScript
    } else if eq_str(e, "vue") {
        Language::Vue
    } else if eq_str(e, "dart") {
        Language::Dart
    } else if eq_str(e, "py") {
        Language::Python
    } else if eq_str(e, "rs") {
        Language::Rust
    } else if eq_str(e, "go") {
        Language::Go
    } else if eq_str(e, "java") {
        Language::Java
    } else if eq_str(e, "kt") || eq_str(e, "kts") {
        Language::Kotlin
    } else if eq_str(e, "swift") {
        Language::Swift
    } else if eq_str(e, "m") || eq_str(e, "mm") {
        Language::ObjectiveC
    } else if eq_str(e, "css") || eq_str(e, "scss") || eq_str(e, "sass") || eq_str(e, "less") {
        Language::Css
    } else if eq_str(e, "html") || eq_str(e, "htm") {
        Language::Html
    } else if eq_str(e, "json") || eq_str(e, "yaml") || eq_str(e, "yml") || eq_str(e, "toml")
        || eq_str(e, "xml") || eq_str(e, "ini") || eq_str(e, "plist") {
        Language::Config
    } else if eq_str(e, "md") {
        Language::Markdown
    } else {
        Language::Other
    }
}

/// The last segment of a slash-separated path.
pub fn file_name_exec(p: &Vec<char>) -> (r: Vec<char>)
    ensures
        r@ == file_name(p@),
{
    let n = p.len();
    proof {
        lemma_last_index_bounds(p@, '/');
    }
    let start: usize = match last_index_exec(p, '/') {
        None => 0,
        Some(k) => k + 1,
    };
    slice_chars(p, start, n)
}

/// The extension of a path's file name.
pub fn extension_exec(p: &Vec<char>) -> (r: Option<Vec<char>>)
    ensures
        match r {
            None => extension(p@).is_none(),
            Some(e) => extension(p@) == Some(e@),
        },
{
    let name = file_name_exec(p);
    let n = name.len();
    proof {
        lemma_last_index_bounds(name@, '.');
    }
    match last_index_exec(&name, '.') {
        None => None,
        Some(k) => {
            if k == 0 {
                None
            } else {
                Some(slice_chars(&name, k + 1, n))
            }
        },
    }
}

/// The language of a lower-case path, by its extension.
pub fn language_from_extension(lower_path: &str) -> (r: Language)
    ensures
        r == language_of_path(lower_path@),
{
    let p = chars_of(lower_path);
    match extension_exec(&p) {
        None => Language::Other,
        Some(e) => language_of_extension(&e),
    }
}

/// Whether a lower-case path is a Python file directly inside a `migrations` directory.
pub fn is_generated_migration_exec(p: &Vec<char>) -> (r: bool)
    ensures
        r == is_generated_migration(p@),
{
    if !ends_with_str(p, ".py") {
        return false;
    }
    proof {
        lemma_last_index_bounds(p@, '/');
    }
    match last_index_exec(p, '/') {
        None => false,
        Some(k) => {
            let parent = slice_chars(p, 0, k);
            let name = file_name_exec(&parent);
            eq_str(&name, "migrations")
        },
    }
}

/// Backslashes read as slashes, then ASCII lower case.
pub fn normalize_path_exec(p: &str) -> (r: Vec<char>)
    ensures
        r@ == normalize_path(p@),
{
    let cs = chars_of(p);
    let mut out: Vec<char> = Vec::new();
    let mut i: usize = 0;
    while i < cs.len()
        invariant
            cs@ == p@,
            i <= cs@.len(),
            out@ == cs@.subrange(0, i as int).map_values(|c: char| if c == '\\' { '/' } else { c }),
        decreases cs@.len() - i,
    {
        let c = cs[i];
        if c == '\\' {
            out.push('/');
        } else {
            out.push(c);
        }
        i += 1;
        assert(out@ =~= cs@.subrange(0, i as int).map_values(|c: char| if c == '\\' { '/' } else { c }));
    }
    assert(cs@.subrange(0, cs@.len() as int) =~= cs@);
    lower_chars(&out)
}

/// Whether some segment of `lower` equals one of `dirs` in lower case.
fn in_ignored_dir_exec(lower: &Vec<char>, dirs: &Vec<String>) -> (r: bool)
    ensures
        r == in_ignored_dir(lower@, string_views(dirs@)),
{
    let segments = split_chars(lower, '/');
    let ghost dv = string_views(dirs@);
    let mut k: usize = 0;
    while k < dirs.len()
        invariant
            k <= dirs@.len(),
            dv == string_views(dirs@),
            views(segments@) == split(lower@, '/'),
            forall|j: int| 0 <= j < k ==> !split(lower@, '/').contains(ascii_lower(#[trigger] dv[j])),
        decreases dirs@.len() - k,
    {
        let d = lower_chars(&chars_of(dirs[k].as_str()));
        if has_piece(&segments, &d) {
            assert(ascii_lower(dv[k as int]) == d@);
            return true;
        }
        k += 1;
    }
    false
}

/// Whether `lower` ends in one of `exts` in lower case.
fn has_ignored_extension_exec(lower: &Vec<char>, exts: &Vec<String>) -> (r: bool)
    ensures
        r == has_ignored_extension(lower@, string_views(exts@)),
{
    let ghost ev = string_views(exts@);
    let mut k: usize = 0;
    while k < exts.len()
        invariant
            k <= exts@.len(),
            ev == string_views(exts@),
            forall|j: int| 0 <= j < k ==> !ends_with(lower@, ascii_lower(#[trigger] ev[j])),
        decreases exts@.len() - k,
    {
        let e = lower_chars(&chars_of(exts[k].as_str()));
        if crate::text::ends_with_exec(lower, &e) {
            assert(ascii_lower(ev[k as int]) == e@);
            return true;
        }
        k += 1;
    }
    false
}

/// Classifies a file by its repository-relative path and its size.
pub fn classify_file(rel_path: &str, size: u64, cfg: &SemanticScanConfig) -> (r: Classification)
    ensures
        r == classify_with(rel_path@, size, cfg),
        in_ignored_dir(normalize_path(rel_path@), string_views(cfg.ignore_dirs@)) ==> r
            == (Classification::Ignored { reason: IgnoreReason::Dir }),
{
    let lower = normalize_path_exec(rel_path);
    if in_ignored_dir_exec(&lower, &cfg.ignore_dirs) {
        return Classification::Ignored { reason: IgnoreReason::Dir };
    }
    if ends_with_str(&lower, ".min.js") {
        return Classification::Ignored { reason: IgnoreReason::Minified };
    }
    if has_ignored_extension_exec(&lower, &cfg.ignore_extensions) {
        return Classification::Ignored { reason: IgnoreReason::Extension };
    }
    if size > cfg.asset_threshold_bytes {
        return Classification::Asset;
    }
    if is_generated_migration_exec(&lower) {
        return Classification::Generated;
    }
    let language = match extension_exec(&lower) {
        None => Language::Other,
        Some(e) => language_of_extension(&e),
    };
    Classification::Code { language }
}

/// A size strictly above the asset threshold makes the file an asset, unless one of the
/// ignore rules, which come first, already applies.
pub proof fn lemma_large_file_is_asset(path: Seq<char>, size: u64, cfg: &SemanticScanConfig)
    requires
        size > cfg.asset_threshold_bytes,
        !in_ignored_dir(normalize_path(path), string_views(cfg.ignore_dirs@)),
        !ends_with(normalize_path(path), ".min.js"@),
        !has_ignored_extension(normalize_path(path), string_views(cfg.ignore_extensions@)),
    ensures
        classify_with(path, size, cfg) == Classification::Asset,
{
}

/// A file with a path segment equal, ignoring case, to an ignored directory name is
/// ignored for that reason, whatever its extension or size.
pub proof fn lemma_ignored_dir_wins(path: Seq<char>, size: u64, cfg: &SemanticScanConfig, k: int)
    requires
        0 <= k < cfg.ignore_dirs@.len(),
        split(normalize_path(path), '/').contains(ascii_lower(cfg.ignore_dirs@[k]@)),
    ensures
        classify_with(path, size, cfg) == (Classification::Ignored { reason: IgnoreReason::Dir }),
{
    assert(string_views(cfg.ignore_dirs@)[k] == cfg.ignore_dirs@[k]@);
}

} // verus!

verus! {

fn push_str(v: &mut Vec<String>, s: &str)
    ensures
        final(v)@ == old(v)@.push(final(v)@.last()),
        final(v)@.last()@ == s@,
{
    v.push(String::from_str(s));
}

impl Default for SemanticScanConfig {
    /// Ignores lock, map, log, temporary and backup files, SQL dumps, dependency and build
    /// directories; files above 5 MiB are assets.
    fn default() -> (r: SemanticScanConfig)
        ensures
            string_views(r.ignore_extensions@) == seq![
                ".sql"@, ".lock"@, ".map"@, ".log"@, ".tmp"@, ".bak"@,
            ],
            string_views(r.ignore_dirs@) == seq![
                "node_modules"@, ".git"@, "__pycache__"@, "dist"@, "build"@, ".venv"@, "venv"@,
            ],
            r.max_config_bytes == 1_048_576,
            r.asset_threshold_bytes == 5 * 1024 * 1024,
            r.ignored_files_limit == 200,
            r.follow_requirements_depth == 3,
    {
        let mut exts: Vec<String> = Vec::new();
        push_str(&mut exts, ".sql");
        push_str(&mut exts, ".lock");
        push_str(&mut exts, ".map");
        push_str(&mut exts, ".log");
        push_str(&mut exts, ".tmp");
        push_str(&mut exts, ".bak");
        let mut dirs: Vec<String> = Vec::new();
        push_str(&mut dirs, "node_modules");
        push_str(&mut dirs, ".git");
        push_str(&mut dirs, "__pycache__");
        push_str(&mut dirs, "dist");
        push_str(&mut dirs, "build");
        push_str(&mut dirs, ".venv");
        push_str(&mut dirs, "venv");
        assert(string_views(exts@) =~= seq![".sql"@, ".lock"@, ".map"@, ".log"@, ".tmp"@, ".bak"@]);
        assert(string_views(dirs@) =~= seq![
            "node_modules"@, ".git"@, "__pycache__"@, "dist"@, "build"@, ".venv"@, "venv"@,
        ]);
        SemanticScanConfig {
            ignore_extensions: exts,
            ignore_dirs: dirs,
            max_config_bytes: 1_048_576,
            asset_threshold_bytes: 5 * 1024 * 1024,
            ignored_files_limit: 200,
            follow_requirements_depth: 3,
        }
    }
}

} // verus!
