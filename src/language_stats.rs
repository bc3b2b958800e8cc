//! Language statistics of a technology-stack scan: the extension table, and the walk
//! limits that stop a scan early.
use vstd::prelude::*;

use crate::aggregate::{
    breakdown_order, bytes_total, counts_wf, is_breakdown_order, sat, sum_at, total_bytes,
};
use crate::text::{eq_str, lower_chars};

verus! {

/// The languages of the technology-stack extension table.
#[derive(Clone, Copy, Debug, PartialEq, Eq, Structural)]
pub enum TechLanguage {
    TypeScript,
    JavaScript,
    Python,
    Java,
    Kotlin,
    Go,
    Rust,
    Ruby,
    Php,
    CSharp,
    CFamily,
    Swift,
    Html,
    Css,
    Markdown,
    Config,
    Other,
}

/// Number of languages in the table.
pub const TECH_LANGUAGE_COUNT: usize = 17;

pub open spec fn tech_language_index(l: TechLanguage) -> nat {
    match l {
        TechLanguage::TypeScript => 0,
        TechLanguage::JavaScript => 1,
        TechLanguage::Python => 2,
        TechLanguage::Java => 3,
        TechLanguage::Kotlin => 4,
        TechLanguage::Go => 5,
        TechLanguage::Rust => 6,
        TechLanguage::Ruby => 7,
        TechLanguage::Php => 8,
        TechLanguage::CSharp => 9,
        TechLanguage::CFamily => 10,
        TechLanguage::Swift => 11,
        TechLanguage::Html => 12,
        TechLanguage::Css => 13,
        TechLanguage::Markdown => 14,
        TechLanguage::Config => 15,
        TechLanguage::Other => 16,
    }
}

pub open spec fn tech_language_name(l: TechLanguage) -> Seq<char> {
    match l {
        TechLanguage::TypeScript => "TypeScript"@,
        TechLanguage::JavaScript => "JavaScript"@,
        TechLanguage::Python => "Python"@,
        TechLanguage::Java => "Java"@,
        TechLanguage::Kotlin => "Kotlin"@,
        TechLanguage::Go => "Go"@,
        TechLanguage::Rust => "Rust"@,
        TechLanguage::Ruby => "Ruby"@,
        TechLanguage::Php => "PHP"@,
        TechLanguage::CSharp => "C#"@,
        TechLanguage::CFamily => "C/C++"@,
        TechLanguage::Swift => "Swift"@,
        TechLanguage::Html => "HTML"@,
        TechLanguage::Css => "CSS"@,
        TechLanguage::Markdown => "Markdown"@,
        TechLanguage::Config => "Config"@,
        TechLanguage::Other => "Other"@,
    }
}

/// The language of a lower-case extension.
pub open spec fn tech_language_of_ext(e: Seq<char>) -> TechLanguage {
    if e == "ts"@ || e == "tsx"@ {
        TechLanguage::TypeScript
    } else if e == "js"@ || e == "jsx"@ || e == "cjs"@ || e == "mjs"@ {
        TechLanguage::JavaScript
    } else if e == "py"@ {
        TechLanguage::Python
    } else if e == "java"@ {
        TechLanguage::Java
    } else if e == "kt"@ || e == "kts"@ {
        TechLanguage::Kotlin
    } else if e == "go"@ {
        TechLanguage::Go
    } else if e == "rs"@ {
        TechLanguage::Rust
    } else if e == "rb"@ {
        TechLanguage::Ruby
    } else if e == "php"@ {
        TechLanguage::Php
    } else if e == "cs"@ {
        TechLanguage::CSharp
    } else if e == "cpp"@ || e == "cc"@ || e == "cxx"@ || e == "c"@ || e == "h"@ || e == "hpp"@ {
        TechLanguage::CFamily
    } else if e == "swift"@ {
        TechLanguage::Swift
    } else if e == "html"@ || e == "htm"@ {
        TechLanguage::Html
    } else if e == "css"@ || e == "scss"@ || e == "sass"@ || e == "less"@ {
        TechLanguage::Css
    } else if e == "md"@ {
        TechLanguage::Markdown
    } else if e == "json"@ || e == "yaml"@ || e == "yml"@ || e == "toml"@ || e == "xml"@ {
        TechLanguage::Config
    } else {
        TechLanguage::Other
    }
}

pub open spec fn tech_language_at(i: nat) -> TechLanguage {
    if i == 0 {
        TechLanguage::TypeScript
    } else if i == 1 {
        TechLanguage::JavaScript
    } else if i == 2 {
        TechLanguage::Python
    } else if i == 3 {
        TechLanguage::Java
    } else if i == 4 {
        TechLanguage::Kotlin
    } else if i == 5 {
        TechLanguage::Go
    } else if i == 6 {
        TechLanguage::Rust
    } else if i == 7 {
        TechLanguage::Ruby
    } else if i == 8 {
        TechLanguage::Php
    } else if i == 9 {
        TechLanguage::CSharp
    } else if i == 10 {
        TechLanguage::CFamily
    } else if i == 11 {
        TechLanguage::Swift
    } else if i == 12 {
        TechLanguage::Html
    } else if i == 13 {
        TechLanguage::Css
    } else if i == 14 {
        TechLanguage::Markdown
    } else if i == 15 {
        TechLanguage::Config
    } else {
        TechLanguage::Other
    }
}

impl TechLanguage {
    pub fn from_index(i: usize) -> (r: TechLanguage)
        requires
            i < TECH_LANGUAGE_COUNT,
        ensures
            r == tech_language_at(i as nat),
    {
        if i == 0 {
            TechLanguage::TypeScript
        } else if i == 1 {
            TechLanguage::JavaScript
        } else if i == 2 {
            TechLanguage::Python
        } else if i == 3 {
            TechLanguage::Java
        } else if i == 4 {
            TechLanguage::Kotlin
        } else if i == 5 {
            TechLanguage::Go
        } else if i == 6 {
            TechLanguage::Rust
        } else if i == 7 {
            TechLanguage::Ruby
        } else if i == 8 {
            TechLanguage::Php
        } else if i == 9 {
            TechLanguage::CSharp
        } else if i == 10 {
            TechLanguage::CFamily
        } else if i == 11 {
            TechLanguage::Swift
        } else if i == 12 {
            TechLanguage::Html
        } else if i == 13 {
            TechLanguage::Css
        } else if i == 14 {
            TechLanguage::Markdown
        } else if i == 15 {
            TechLanguage::Config
        } else {
            TechLanguage::Other
        }
    }

    pub fn index(&self) -> (r: usize)
        ensures
            r == tech_language_index(*self),
            r < TECH_LANGUAGE_COUNT,
    {
        match self {
            TechLanguage::TypeScript => 0,
            TechLanguage::JavaScript => 1,
            TechLanguage::Python => 2,
            TechLanguage::Java => 3,
            TechLanguage::Kotlin => 4,
            TechLanguage::Go => 5,
            TechLanguage::Rust => 6,
            TechLanguage::Ruby => 7,
            TechLanguage::Php => 8,
            TechLanguage::CSharp => 9,
            TechLanguage::CFamily => 10,
            TechLanguage::Swift => 11,
            TechLanguage::Html => 12,
            TechLanguage::Css => 13,
            TechLanguage::Markdown => 14,
            TechLanguage::Config => 15,
            TechLanguage::Other => 16,
        }
    }

    /// The language's display name.
    pub fn name(&self) -> (r: &'static str)
        ensures
            r@ == tech_language_name(*self),
    {
        match self {
            TechLanguage::TypeScript => "TypeScript",
            TechLanguage::JavaScript => "JavaScript",
            TechLanguage::Python => "Python",
            TechLanguage::Java => "Java",
            TechLanguage::Kotlin => "Kotlin",
            TechLanguage::Go => "Go",
            TechLanguage::Rust => "Rust",
            TechLanguage::Ruby => "Ruby",
            TechLanguage::Php => "PHP",
            TechLanguage::CSharp => "C#",
            TechLanguage::CFamily => "C/C++",
            TechLanguage::Swift => "Swift",
            TechLanguage::Html => "HTML",
            TechLanguage::Css => "CSS",
            TechLanguage::Markdown => "Markdown",
            TechLanguage::Config => "Config",
            TechLanguage::Other => "Other",
        }
    }
}

fn language_of_lower_ext(e: &Vec<char>) -> (r: TechLanguage)
    ensures
        r == tech_language_of_ext(e@),
{
    if eq_str(e, "ts") || eq_str(e, "tsx") {
        TechLanguage::TypeScript
    } else if eq_str(e, "js") || eq_str(e, "jsx") || eq_str(e, "cjs") || eq_str(e, "mjs") {
        TechLanguage::JavaScript
    } else if eq_str(e, "py") {
        TechLanguage::Python
    } else if eq_str(e, "java") {
        TechLanguage::Java
    } else if eq_str(e, "kt") || eq_str(e, "kts") {
        TechLanguage::Kotlin
    } else if eq_str(e, "go") {
        TechLanguage::Go
    } else if eq_str(e, "rs") {
        TechLanguage::Rust
    } else if eq_str(e, "rb") {
        TechLanguage::Ruby
    } else if eq_str(e, "php") {
        TechLanguage::Php
    } else if eq_str(e, "cs") {
        TechLanguage::CSharp
    } else if eq_str(e, "cpp") || eq_str(e, "cc") || eq_str(e, "cxx") || eq_str(e, "c") || eq_str(e, "h") || eq_str(e, "hpp") {
        TechLanguage::CFamily
    } else if eq_str(e, "swift") {
        TechLanguage::Swift
    } else if eq_str(e, "html") || eq_str(e, "htm") {
        TechLanguage::Html
    } else if eq_str(e, "css") || eq_str(e, "scss") || eq_str(e, "sass") || eq_str(e, "less") {
        TechLanguage::Css
    } else if eq_str(e, "md") {
        TechLanguage::Markdown
    } else if eq_str(e, "json") || eq_str(e, "yaml") || eq_str(e, "yml") || eq_str(e, "toml") || eq_str(e, "xml") {
        TechLanguage::Config
    } else {
        TechLanguage::Other
    }
}

/// The language of a file, by the extension of its name (compared in ASCII lower case);
/// `Other` without an extension.
pub fn tech_language_from_extension(path: &str) -> (r: TechLanguage)
    ensures
        r == match crate::classify::extension(path@) {
            Some(e) => tech_language_of_ext(crate::text::ascii_lower(e)),
            None => TechLanguage::Other,
        },
{
    let p = crate::text::chars_of(path);
    match crate::classify::extension_exec(&p) {
        None => TechLanguage::Other,
        Some(e) => language_of_lower_ext(&lower_chars(&e)),
    }
}

/// Files larger than this are left out of the language statistics: 5 MiB.
pub const LARGE_FILE_BYTES: u64 = 5242880;

/// What to do with the next file of a walk.
#[derive(Clone, Copy, Debug, PartialEq, Eq, Structural)]
pub enum FileStep {
    /// Count the file.
    Count,
    /// Leave the file out: it is too large.
    Skip,
    /// Stop the walk: a limit is reached.
    Stop,
}

/// Language totals of a walk in progress, against the scan's limits.
pub struct LanguageStatsCollector {
    pub max_files: usize,
    pub max_total_bytes: u64,
    pub processed_files: usize,
    pub total_bytes: u64,
    pub stopped_early: bool,
    /// Bytes per language, indexed by language.
    pub bytes: Vec<u64>,
    /// Files per language, indexed by language.
    pub files: Vec<u64>,
}

pub open spec fn collector_wf(c: LanguageStatsCollector) -> bool {
    c.bytes@.len() == TECH_LANGUAGE_COUNT && c.files@.len() == TECH_LANGUAGE_COUNT && counts_wf(c.bytes@, c.files@)
}

impl LanguageStatsCollector {
    pub fn new(options: &crate::techstack::TechStackScanOptions) -> (r: LanguageStatsCollector)
        ensures
            collector_wf(r),
            r.max_files == options.max_files,
            r.max_total_bytes == options.max_total_bytes,
            r.processed_files == 0,
            r.total_bytes == 0,
            !r.stopped_early,
            forall|i: int| 0 <= i < TECH_LANGUAGE_COUNT ==> r.bytes@[i] == 0 && r.files@[i] == 0,
    {
        let mut bytes: Vec<u64> = Vec::new();
        let mut files: Vec<u64> = Vec::new();
        let mut i: usize = 0;
        while i < TECH_LANGUAGE_COUNT
            invariant
                i <= TECH_LANGUAGE_COUNT,
                bytes@.len() == i,
                files@.len() == i,
                forall|j: int| 0 <= j < i ==> bytes@[j] == 0 && files@[j] == 0,
            decreases TECH_LANGUAGE_COUNT - i,
        {
            bytes.push(0);
            files.push(0);
            i += 1;
        }
        LanguageStatsCollector {
            max_files: options.max_files,
            max_total_bytes: options.max_total_bytes,
            processed_files: 0,
            total_bytes: 0,
            stopped_early: false,
            bytes,
            files,
        }
    }

    /// Takes the next file of the walk: past the file limit the walk stops; a file above
    /// 5 MiB is left out; past the byte limit the walk stops; otherwise the file counts for
    /// its language.
    pub fn on_file(&mut self, size: u64, lang: TechLanguage) -> (r: FileStep)
        requires
            collector_wf(*old(self)),
            !old(self).stopped_early,
            old(self).processed_files < usize::MAX,
        ensures
            collector_wf(*final(self)),
            final(self).max_files == old(self).max_files,
            final(self).max_total_bytes == old(self).max_total_bytes,
            final(self).processed_files == old(self).processed_files + 1,
            ({
                let n = old(self).processed_files + 1;
                let t = sat(old(self).total_bytes, size);
                let k = tech_language_index(lang) as int;
                if n > old(self).max_files {
                    &&& r == FileStep::Stop
                    &&& final(self).stopped_early
                    &&& final(self).total_bytes == old(self).total_bytes
                    &&& final(self).bytes == old(self).bytes && final(self).files == old(self).files
                } else if size > LARGE_FILE_BYTES {
                    &&& r == FileStep::Skip
                    &&& !final(self).stopped_early
                    &&& final(self).total_bytes == old(self).total_bytes
                    &&& final(self).bytes == old(self).bytes && final(self).files == old(self).files
                } else if t > old(self).max_total_bytes {
                    &&& r == FileStep::Stop
                    &&& final(self).stopped_early
                    &&& final(self).total_bytes == t
                    &&& final(self).bytes == old(self).bytes && final(self).files == old(self).files
                } else {
                    &&& r == FileStep::Count
                    &&& !final(self).stopped_early
                    &&& final(self).total_bytes == t
                    &&& final(self).bytes@ == old(self).bytes@.update(k, sat(old(self).bytes@[k], size))
                    &&& final(self).files@ == old(self).files@.update(k, sat(old(self).files@[k], 1))
                }
            }),
    {
        self.processed_files = self.processed_files + 1;
        if self.processed_files > self.max_files {
            self.stopped_early = true;
            return FileStep::Stop;
        }
        if size > LARGE_FILE_BYTES {
            return FileStep::Skip;
        }
        self.total_bytes = self.total_bytes.saturating_add(size);
        if self.total_bytes > self.max_total_bytes {
            self.stopped_early = true;
            return FileStep::Stop;
        }
        let k = lang.index();
        let b = self.bytes[k].saturating_add(size);
        self.bytes.set(k, b);
        let f = self.files[k].saturating_add(1);
        self.files.set(k, f);
        FileStep::Count
    }
}

/// Bytes and files of one language in a technology-stack scan.
pub struct TechLanguageStat {
    pub language: TechLanguage,
    pub bytes: u64,
    pub files: u64,
}

pub open spec fn tech_stat_view(s: TechLanguageStat) -> (TechLanguage, u64, u64) {
    (s.language, s.bytes, s.files)
}

/// The languages of a walk with at least one file, largest byte count first; nothing when
/// no byte was counted.
pub fn tech_language_breakdown(c: &LanguageStatsCollector) -> (r: Vec<TechLanguageStat>)
    requires
        collector_wf(*c),
    ensures
        total_bytes(c.bytes@) == 0 ==> r@.len() == 0,
        total_bytes(c.bytes@) > 0 ==> exists|order: Seq<usize>|
            is_breakdown_order(order, c.bytes@, c.files@) && order.len() == r@.len()
                && #[trigger] sum_at(order, c.bytes@) == total_bytes(c.bytes@)
                && forall|k: int| 0 <= k < r@.len() ==> #[trigger] tech_stat_view(r@[k]) == (
                    tech_language_at(order[k] as nat), c.bytes@[order[k] as int], c.files@[order[k] as int],
                ),
{
    let mut out: Vec<TechLanguageStat> = Vec::new();
    if bytes_total(&c.bytes) == 0 {
        return out;
    }
    let order = breakdown_order(&c.bytes, &c.files);
    let mut k: usize = 0;
    while k < order.len()
        invariant
            collector_wf(*c),
            is_breakdown_order(order@, c.bytes@, c.files@),
            k <= order@.len(),
            out@.len() == k,
            forall|m: int| 0 <= m < k ==> #[trigger] tech_stat_view(out@[m]) == (
                tech_language_at(order@[m] as nat), c.bytes@[order@[m] as int], c.files@[order@[m] as int],
            ),
        decreases order@.len() - k,
    {
        let l = order[k];
        out.push(TechLanguageStat { language: TechLanguage::from_index(l), bytes: c.bytes[l], files: c.files[l] });
        k += 1;
    }
    out
}

impl LanguageStatsCollector {
    /// Adds another walk's totals (a submodule's) to this one.
    pub fn absorb(&mut self, other: &LanguageStatsCollector)
        requires
            collector_wf(*old(self)),
            collector_wf(*other),
        ensures
            collector_wf(*final(self)),
            final(self).stopped_early == (old(self).stopped_early || other.stopped_early),
            final(self).processed_files == old(self).processed_files,
            final(self).total_bytes == old(self).total_bytes,
            forall|i: int| 0 <= i < TECH_LANGUAGE_COUNT ==> final(self).bytes@[i] == sat(old(self).bytes@[i], other.bytes@[i])
                && final(self).files@[i] == sat(old(self).files@[i], other.files@[i]),
    {
        let mut i: usize = 0;
        while i < TECH_LANGUAGE_COUNT
            invariant
                i <= TECH_LANGUAGE_COUNT,
                collector_wf(*other),
                self.bytes@.len() == TECH_LANGUAGE_COUNT && self.files@.len() == TECH_LANGUAGE_COUNT,
                self.stopped_early == old(self).stopped_early,
                self.processed_files == old(self).processed_files,
                self.total_bytes == old(self).total_bytes,
                forall|j: int| 0 <= j < i ==> self.bytes@[j] == sat(old(self).bytes@[j], other.bytes@[j])
                    && self.files@[j] == sat(old(self).files@[j], other.files@[j]),
                forall|j: int| i <= j < TECH_LANGUAGE_COUNT ==> self.bytes@[j] == old(self).bytes@[j]
                    && self.files@[j] == old(self).files@[j],
                forall|j: int| 0 <= j < TECH_LANGUAGE_COUNT ==> (old(self).files@[j] == 0 ==> old(self).bytes@[j] == 0),
            decreases TECH_LANGUAGE_COUNT - i,
        {
            let b = self.bytes[i].saturating_add(other.bytes[i]);
            self.bytes.set(i, b);
            let f = self.files[i].saturating_add(other.files[i]);
            self.files.set(i, f);
            i += 1;
        }
        self.stopped_early = self.stopped_early || other.stopped_early;
    }
}

} // verus!
