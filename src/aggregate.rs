//! Per-module statistics: an accumulator over classified files, its merge, and the
//! language breakdown.
use vstd::prelude::*;

use crate::classify::{language_at, language_index, Language, LANGUAGE_COUNT};

verus! {

/// Bytes and files of one language in a module.
pub struct LanguageStat {
    pub language: Language,
    pub bytes: u64,
    pub files: u64,
}

/// Sum of `bytes` over the languages listed in `order`.
pub open spec fn sum_at(order: Seq<usize>, bytes: Seq<u64>) -> int
    decreases order.len(),
{
    if order.len() == 0 {
        0
    } else {
        sum_at(order.drop_last(), bytes) + bytes[order.last() as int]
    }
}

/// Sum of the first `i` entries of `bytes`.
pub open spec fn total_upto(bytes: Seq<u64>, i: int) -> int
    decreases i,
{
    if i <= 0 {
        0
    } else {
        total_upto(bytes, i - 1) + bytes[i - 1]
    }
}

/// Sum of all entries of `bytes`.
pub open spec fn total_bytes(bytes: Seq<u64>) -> int {
    total_upto(bytes, bytes.len() as int)
}

proof fn lemma_sum_concat(a: Seq<usize>, b: Seq<usize>, bytes: Seq<u64>)
    ensures
        sum_at(a + b, bytes) == sum_at(a, bytes) + sum_at(b, bytes),
    decreases b.len(),
{
    if b.len() == 0 {
        assert(a + b =~= a);
    } else {
        lemma_sum_concat(a, b.drop_last(), bytes);
        assert((a + b).drop_last() =~= a + b.drop_last());
    }
}

proof fn lemma_sum_insert(s: Seq<usize>, p: int, x: usize, bytes: Seq<u64>)
    requires
        0 <= p <= s.len(),
    ensures
        sum_at(s.insert(p, x), bytes) == sum_at(s, bytes) + bytes[x as int],
{
    let a = s.subrange(0, p);
    let b = s.subrange(p, s.len() as int);
    lemma_sum_concat(a.push(x), b, bytes);
    lemma_sum_concat(a, b, bytes);
    assert(a.push(x).drop_last() =~= a);
    assert(a + b =~= s);
}

proof fn lemma_total_upto_nonneg(bytes: Seq<u64>, i: int)
    requires
        i >= 0,
    ensures
        total_upto(bytes, i) >= 0,
        total_upto(bytes, i) <= i * 0x1_0000_0000_0000_0000,
    decreases i,
{
    if i > 0 {
        lemma_total_upto_nonneg(bytes, i - 1);
    }
}

/// The language indices in the order a breakdown lists them: every language with at least
/// one file, once, largest byte count first.
pub open spec fn is_breakdown_order(order: Seq<usize>, bytes: Seq<u64>, files: Seq<u64>) -> bool {
    &&& forall|k: int| 0 <= k < order.len() ==> order[k] < bytes.len() && files[order[k] as int] > 0
    &&& forall|a: int, b: int| 0 <= a < b < order.len() ==> order[a] != order[b]
    &&& forall|j: usize| j < bytes.len() && files[j as int] > 0 ==> order.contains(j)
    &&& forall|a: int, b: int| 0 <= a < b < order.len() ==> bytes[order[a] as int] >= bytes[order[b] as int]
}

/// Per-language totals of equal length, where a byte count is only recorded for a
/// language that has a file.
pub open spec fn counts_wf(bytes: Seq<u64>, files: Seq<u64>) -> bool {
    &&& bytes.len() == files.len()
    &&& bytes.len() <= 64
    &&& forall|j: int| 0 <= j < bytes.len() && files[j] == 0 ==> bytes[j] == 0
}

/// The per-language totals of the language table.
pub open spec fn table_wf(bytes: Seq<u64>, files: Seq<u64>) -> bool {
    &&& counts_wf(bytes, files)
    &&& bytes.len() == LANGUAGE_COUNT
}

/// The language indices, largest byte count first, of every language with a file.
pub fn breakdown_order(bytes: &Vec<u64>, files: &Vec<u64>) -> (order: Vec<usize>)
    requires
        counts_wf(bytes@, files@),
    ensures
        is_breakdown_order(order@, bytes@, files@),
        sum_at(order@, bytes@) == total_bytes(bytes@),
{
    let mut order: Vec<usize> = Vec::new();
    let mut i: usize = 0;
    let n = bytes.len();
    while i < n
        invariant
            counts_wf(bytes@, files@),
            n == bytes@.len(),
            i <= n,
            forall|k: int| 0 <= k < order@.len() ==> order@[k] < i && files@[order@[k] as int] > 0,
            forall|a: int, b: int| 0 <= a < b < order@.len() ==> order@[a] != order@[b],
            forall|j: usize| j < i && files@[j as int] > 0 ==> order@.contains(j),
            forall|a: int, b: int|
                0 <= a < b < order@.len() ==> bytes@[order@[a] as int] >= bytes@[order@[b] as int],
            sum_at(order@, bytes@) == total_upto(bytes@, i as int),
        decreases n - i,
    {
        if files[i] > 0 {
            let b = bytes[i];
            let mut p: usize = 0;
            while p < order.len() && bytes[order[p]] >= b
                invariant
                    counts_wf(bytes@, files@),
                    p <= order@.len(),
                    n == bytes@.len(),
                    i < n,
                    b == bytes@[i as int],
                    forall|k: int| 0 <= k < order@.len() ==> order@[k] < i,
                    forall|k: int| 0 <= k < p ==> bytes@[order@[k] as int] >= b,
                decreases order@.len() - p,
            {
                p += 1;
            }
            let ghost old_order = order@;
            proof {
                lemma_sum_insert(old_order, p as int, i, bytes@);
                old_order.insert_ensures(p as int, i);
            }
            order.insert(p, i);
            assert forall|j: usize| j <= i && files@[j as int] > 0 implies order@.contains(j) by {
                if j == i {
                    assert(order@[p as int] == i);
                } else {
                    assert(old_order.contains(j));
                    let k = choose|k: int| 0 <= k < old_order.len() && old_order[k] == j;
                    if k < p {
                        assert(order@[k] == j);
                    } else {
                        assert(order@[k + 1] == j);
                    }
                }
            }
            assert forall|a: int, c: int| 0 <= a < c < order@.len() implies bytes@[order@[a] as int]
                >= bytes@[order@[c] as int] by {
                if c < p {
                } else if c == p {
                } else if a < p {
                    assert(order@[c] == old_order[c - 1]);
                } else if a == p {
                    assert(order@[c] == old_order[c - 1]);
                    assert(p < old_order.len());
                    assert(bytes@[old_order[p as int] as int] < b);
                    assert(p <= c - 1);
                    if p < c - 1 {
                        assert(bytes@[old_order[p as int] as int] >= bytes@[old_order[c - 1] as int]);
                    }
                } else {
                    assert(order@[a] == old_order[a - 1]);
                    assert(order@[c] == old_order[c - 1]);
                }
            }
            assert forall|a: int, c: int| 0 <= a < c < order@.len() implies order@[a] != order@[c] by {
                if a < p && c > p {
                    assert(order@[c] == old_order[c - 1]);
                } else if a > p {
                    assert(order@[a] == old_order[a - 1]);
                    assert(order@[c] == old_order[c - 1]);
                }
            }
        } else {
            assert(bytes@[i as int] == 0);
            assert forall|j: usize| j <= i && files@[j as int] > 0 implies order@.contains(j) by {
                assert(j < i);
            }
        }
        i += 1;
    }
    order
}

pub open spec fn stat_view(s: LanguageStat) -> (Language, u64, u64) {
    (s.language, s.bytes, s.files)
}

/// The language breakdown of a module from its per-language byte and file totals (indexed
/// by language). Languages without files are left out; nothing is listed when the total of
/// bytes is zero.
pub fn language_breakdown(bytes: &Vec<u64>, files: &Vec<u64>) -> (r: Vec<LanguageStat>)
    requires
        table_wf(bytes@, files@),
    ensures
        total_bytes(bytes@) == 0 ==> r@.len() == 0,
        total_bytes(bytes@) > 0 ==> exists|order: Seq<usize>|
            is_breakdown_order(order, bytes@, files@) && order.len() == r@.len()
                && #[trigger] sum_at(order, bytes@) == total_bytes(bytes@)
                && forall|k: int| 0 <= k < r@.len() ==> #[trigger] stat_view(r@[k]) == (
                    language_at(order[k] as nat), bytes@[order[k] as int], files@[order[k] as int],
                ),
{
    let order = breakdown_order(bytes, files);
    let mut out: Vec<LanguageStat> = Vec::new();
    let mut total: u128 = 0;
    let mut j: usize = 0;
    while j < LANGUAGE_COUNT
        invariant
            table_wf(bytes@, files@),
            j <= LANGUAGE_COUNT,
            total == total_upto(bytes@, j as int),
        decreases LANGUAGE_COUNT - j,
    {
        proof {
            lemma_total_upto_nonneg(bytes@, j as int);
        }
        total = total + bytes[j] as u128;
        j += 1;
    }
    if total == 0 {
        return out;
    }
    let mut k: usize = 0;
    while k < order.len()
        invariant
            table_wf(bytes@, files@),
            is_breakdown_order(order@, bytes@, files@),
            k <= order@.len(),
            out@.len() == k,
            forall|m: int| 0 <= m < k ==> #[trigger] stat_view(out@[m]) == (
                language_at(order@[m] as nat), bytes@[order@[m] as int], files@[order@[m] as int],
            ),
        decreases order@.len() - k,
    {
        let l = order[k];
        out.push(LanguageStat { language: Language::from_index(l), bytes: bytes[l], files: files[l] });
        k += 1;
    }
    assert(sum_at(order@, bytes@) == total_bytes(bytes@));
    out
}

/// Over the listed languages the byte counts add up to the module's total, so the
/// percentages, each `100 * bytes / total`, add up to 100.
pub proof fn lemma_breakdown_sums_to_total(order: Seq<usize>, bytes: Seq<u64>, files: Seq<u64>)
    requires
        table_wf(bytes, files),
        is_breakdown_order(order, bytes, files),
        sum_at(order, bytes) == total_bytes(bytes),
        total_bytes(bytes) > 0,
    ensures
        sum_at(order, bytes) * 100 / total_bytes(bytes) == 100,
{
    assert(sum_at(order, bytes) * 100 / total_bytes(bytes) == 100) by (nonlinear_arith)
        requires
            sum_at(order, bytes) == total_bytes(bytes),
            total_bytes(bytes) > 0,
    ;
}

} // verus!

verus! {

/// A file left out of the statistics, and why.
pub struct IgnoredFile {
    pub path: String,
    pub size: u64,
    pub reason: crate::classify::IgnoreReason,
}

pub open spec fn ignored_view(f: IgnoredFile) -> (Seq<char>, u64, crate::classify::IgnoreReason) {
    (f.path@, f.size, f.reason)
}

pub open spec fn ignored_views(v: Seq<IgnoredFile>) -> Seq<(Seq<char>, u64, crate::classify::IgnoreReason)> {
    v.map_values(|f: IgnoredFile| ignored_view(f))
}

impl IgnoredFile {
    pub fn duplicate(&self) -> (r: IgnoredFile)
        ensures
            ignored_view(r) == ignored_view(*self),
    {
        IgnoredFile { path: self.path.clone(), size: self.size, reason: self.reason }
    }
}

/// What the statistics of a module are made of, as values.
pub struct AggModel {
    pub ignored_size: u64,
    pub assets_size: u64,
    pub assets_files: u64,
    pub generated_files: u64,
    pub effective_files: u64,
    pub bytes: Seq<u64>,
    pub files: Seq<u64>,
    pub ignored: Seq<(Seq<char>, u64, crate::classify::IgnoreReason)>,
    pub generated: Seq<Seq<char>>,
}

/// Running totals over the classified files of a module.
pub struct LocalAgg {
    pub ignored_size: u64,
    pub assets_size: u64,
    pub assets_files: u64,
    pub generated_files: u64,
    pub effective_files: u64,
    /// Bytes of code per language, indexed by language.
    pub language_bytes: Vec<u64>,
    /// Files of code per language, indexed by language.
    pub language_files: Vec<u64>,
    /// The first ignored files, up to the configured limit.
    pub ignored_files: Vec<IgnoredFile>,
    /// Paths of the generated files.
    pub generated_paths: Vec<String>,
}

impl View for LocalAgg {
    type V = AggModel;

    open spec fn view(&self) -> AggModel {
        AggModel {
            ignored_size: self.ignored_size,
            assets_size: self.assets_size,
            assets_files: self.assets_files,
            generated_files: self.generated_files,
            effective_files: self.effective_files,
            bytes: self.language_bytes@,
            files: self.language_files@,
            ignored: ignored_views(self.ignored_files@),
            generated: crate::classify::string_views(self.generated_paths@),
        }
    }
}

/// Addition that stops at the largest `u64`.
pub open spec fn sat(a: u64, b: u64) -> u64 {
    if a + b > u64::MAX {
        u64::MAX
    } else {
        (a + b) as u64
    }
}

pub open spec fn sat_table(a: Seq<u64>, b: Seq<u64>) -> Seq<u64> {
    Seq::new(a.len(), |i: int| sat(a[i], b[i]))
}

/// `a` followed by as much of `b` as fits under `limit` items.
pub open spec fn capped_concat<T>(a: Seq<T>, b: Seq<T>, limit: nat) -> Seq<T> {
    if a.len() >= limit {
        a
    } else if a.len() + b.len() <= limit {
        a + b
    } else {
        (a + b).take(limit as int)
    }
}

pub open spec fn model_wf(m: AggModel, limit: nat) -> bool {
    table_wf(m.bytes, m.files) && m.ignored.len() <= limit
}

pub open spec fn empty_model() -> AggModel {
    AggModel {
        ignored_size: 0,
        assets_size: 0,
        assets_files: 0,
        generated_files: 0,
        effective_files: 0,
        bytes: Seq::new(LANGUAGE_COUNT as nat, |i: int| 0u64),
        files: Seq::new(LANGUAGE_COUNT as nat, |i: int| 0u64),
        ignored: Seq::empty(),
        generated: Seq::empty(),
    }
}

/// Merging two accumulators: counters and per-language totals add up (stopping at the
/// largest `u64`), ignored files are kept up to `limit`, generated paths are joined.
pub open spec fn merge_model(a: AggModel, b: AggModel, limit: nat) -> AggModel {
    AggModel {
        ignored_size: sat(a.ignored_size, b.ignored_size),
        assets_size: sat(a.assets_size, b.assets_size),
        assets_files: sat(a.assets_files, b.assets_files),
        generated_files: sat(a.generated_files, b.generated_files),
        effective_files: sat(a.effective_files, b.effective_files),
        bytes: sat_table(a.bytes, b.bytes),
        files: sat_table(a.files, b.files),
        ignored: capped_concat(a.ignored, b.ignored, limit),
        generated: a.generated + b.generated,
    }
}

/// The accumulator of a single classified file.
pub open spec fn single_model(
    path: Seq<char>,
    size: u64,
    c: crate::classify::Classification,
    limit: nat,
) -> AggModel {
    let e = empty_model();
    match c {
        crate::classify::Classification::Ignored { reason } => AggModel {
            ignored_size: size,
            ignored: if limit > 0 { seq![(path, size, reason)] } else { Seq::empty() },
            ..e
        },
        crate::classify::Classification::Asset => AggModel { assets_size: size, assets_files: 1, ..e },
        crate::classify::Classification::Generated => AggModel {
            generated_files: 1,
            generated: seq![path],
            ..e
        },
        crate::classify::Classification::Code { language } => AggModel {
            effective_files: 1,
            bytes: e.bytes.update(language_index(language) as int, size),
            files: e.files.update(language_index(language) as int, 1),
            ..e
        },
    }
}

/// The totals of the counters and tables, without the lists.
pub open spec fn counts_of(m: AggModel) -> (u64, u64, u64, u64, u64, Seq<u64>, Seq<u64>) {
    (m.ignored_size, m.assets_size, m.assets_files, m.generated_files, m.effective_files, m.bytes, m.files)
}

/// Merging is associative: however a module's files are split among workers, pairwise
/// merging gives one result.
pub proof fn lemma_merge_assoc(a: AggModel, b: AggModel, c: AggModel, limit: nat)
    requires
        model_wf(a, limit),
        model_wf(b, limit),
        model_wf(c, limit),
    ensures
        merge_model(merge_model(a, b, limit), c, limit) == merge_model(a, merge_model(b, c, limit), limit),
{
    let l = merge_model(merge_model(a, b, limit), c, limit);
    let r = merge_model(a, merge_model(b, c, limit), limit);
    assert(l.bytes =~= r.bytes);
    assert(l.files =~= r.files);
    assert(l.generated =~= r.generated);
    assert(l.ignored =~= r.ignored);
}

/// Merging is commutative on every counter and per-language total: the order in which
/// partial results meet does not change the statistics.
pub proof fn lemma_merge_comm(a: AggModel, b: AggModel, limit: nat)
    requires
        model_wf(a, limit),
        model_wf(b, limit),
    ensures
        counts_of(merge_model(a, b, limit)) == counts_of(merge_model(b, a, limit)),
        merge_model(a, b, limit).generated.to_multiset() == merge_model(b, a, limit).generated.to_multiset(),
{
    assert(sat_table(a.bytes, b.bytes) =~= sat_table(b.bytes, a.bytes));
    assert(sat_table(a.files, b.files) =~= sat_table(b.files, a.files));
    vstd::seq_lib::lemma_multiset_commutative(a.generated, b.generated);
    vstd::seq_lib::lemma_multiset_commutative(b.generated, a.generated);
}

/// The empty accumulator is neutral.
pub proof fn lemma_merge_empty(a: AggModel, limit: nat)
    requires
        model_wf(a, limit),
    ensures
        merge_model(a, empty_model(), limit) == a,
        merge_model(empty_model(), a, limit) == a,
{
    assert(merge_model(a, empty_model(), limit).bytes =~= a.bytes);
    assert(merge_model(a, empty_model(), limit).files =~= a.files);
    assert(merge_model(a, empty_model(), limit).generated =~= a.generated);
    assert(merge_model(a, empty_model(), limit).ignored =~= a.ignored);
    assert(merge_model(empty_model(), a, limit).bytes =~= a.bytes);
    assert(merge_model(empty_model(), a, limit).files =~= a.files);
    assert(merge_model(empty_model(), a, limit).generated =~= a.generated);
    assert(merge_model(empty_model(), a, limit).ignored =~= a.ignored);
}

} // verus!

verus! {

/// A file found under a module: its path relative to the repository root, and its size.
pub struct FileEntry {
    pub rel_path: String,
    pub size: u64,
}

pub open spec fn entry_views(v: Seq<FileEntry>) -> Seq<(Seq<char>, u64)> {
    v.map_values(|f: FileEntry| (f.rel_path@, f.size))
}

/// The accumulator of a list of files, each classified under `cfg`, taken in order.
pub open spec fn fold_files(files: Seq<(Seq<char>, u64)>, cfg: &crate::classify::SemanticScanConfig) -> AggModel
    decreases files.len(),
{
    if files.len() == 0 {
        empty_model()
    } else {
        let f = files.last();
        merge_model(
            fold_files(files.drop_last(), cfg),
            single_model(f.0, f.1, crate::classify::classify_with(f.0, f.1, cfg), cfg.ignored_files_limit as nat),
            cfg.ignored_files_limit as nat,
        )
    }
}

pub proof fn lemma_empty_wf(limit: nat)
    ensures
        model_wf(empty_model(), limit),
{
}

pub proof fn lemma_single_wf(path: Seq<char>, size: u64, c: crate::classify::Classification, limit: nat)
    ensures
        model_wf(single_model(path, size, c, limit), limit),
{
}

pub proof fn lemma_merge_wf(a: AggModel, b: AggModel, limit: nat)
    requires
        model_wf(a, limit),
        model_wf(b, limit),
    ensures
        model_wf(merge_model(a, b, limit), limit),
{
}

pub proof fn lemma_fold_wf(files: Seq<(Seq<char>, u64)>, cfg: &crate::classify::SemanticScanConfig)
    ensures
        model_wf(fold_files(files, cfg), cfg.ignored_files_limit as nat),
    decreases files.len(),
{
    let limit = cfg.ignored_files_limit as nat;
    if files.len() == 0 {
        lemma_empty_wf(limit);
    } else {
        let f = files.last();
        lemma_fold_wf(files.drop_last(), cfg);
        lemma_single_wf(f.0, f.1, crate::classify::classify_with(f.0, f.1, cfg), limit);
        lemma_merge_wf(
            fold_files(files.drop_last(), cfg),
            single_model(f.0, f.1, crate::classify::classify_with(f.0, f.1, cfg), limit),
            limit,
        );
    }
}

/// Splitting the files of a module into two parts, accumulating each part and merging the
/// two results gives what accumulating all of them gives.
pub proof fn lemma_fold_split(
    xs: Seq<(Seq<char>, u64)>,
    ys: Seq<(Seq<char>, u64)>,
    cfg: &crate::classify::SemanticScanConfig,
)
    ensures
        fold_files(xs + ys, cfg) == merge_model(
            fold_files(xs, cfg),
            fold_files(ys, cfg),
            cfg.ignored_files_limit as nat,
        ),
    decreases ys.len(),
{
    let limit = cfg.ignored_files_limit as nat;
    lemma_fold_wf(xs, cfg);
    if ys.len() == 0 {
        assert(xs + ys =~= xs);
        lemma_merge_empty(fold_files(xs, cfg), limit);
    } else {
        let f = ys.last();
        let s = single_model(f.0, f.1, crate::classify::classify_with(f.0, f.1, cfg), limit);
        assert((xs + ys).drop_last() =~= xs + ys.drop_last());
        assert((xs + ys).last() == f);
        lemma_fold_split(xs, ys.drop_last(), cfg);
        lemma_fold_wf(ys.drop_last(), cfg);
        lemma_single_wf(f.0, f.1, crate::classify::classify_with(f.0, f.1, cfg), limit);
        lemma_merge_assoc(fold_files(xs, cfg), fold_files(ys.drop_last(), cfg), s, limit);
    }
}

impl LocalAgg {
    pub fn new() -> (r: LocalAgg)
        ensures
            r@ == empty_model(),
    {
        let mut bytes: Vec<u64> = Vec::new();
        let mut files: Vec<u64> = Vec::new();
        let mut i: usize = 0;
        while i < LANGUAGE_COUNT
            invariant
                i <= LANGUAGE_COUNT,
                bytes@ == Seq::new(i as nat, |j: int| 0u64),
                files@ == Seq::new(i as nat, |j: int| 0u64),
            decreases LANGUAGE_COUNT - i,
        {
            bytes.push(0);
            files.push(0);
            i += 1;
            assert(bytes@ =~= Seq::new(i as nat, |j: int| 0u64));
            assert(files@ =~= Seq::new(i as nat, |j: int| 0u64));
        }
        let r = LocalAgg {
            ignored_size: 0,
            assets_size: 0,
            assets_files: 0,
            generated_files: 0,
            effective_files: 0,
            language_bytes: bytes,
            language_files: files,
            ignored_files: Vec::new(),
            generated_paths: Vec::new(),
        };
        assert(r@.ignored =~= Seq::<(Seq<char>, u64, crate::classify::IgnoreReason)>::empty());
        assert(r@.generated =~= Seq::<Seq<char>>::empty());
        r
    }

    /// Counts one classified file.
    pub fn add_file(&mut self, path: &String, size: u64, c: crate::classify::Classification, limit: usize)
        requires
            model_wf(old(self)@, limit as nat),
        ensures
            final(self)@ == merge_model(old(self)@, single_model(path@, size, c, limit as nat), limit as nat),
    {
        let ghost a = self@;
        let ghost s = single_model(path@, size, c, limit as nat);
        match c {
            crate::classify::Classification::Ignored { reason } => {
                self.ignored_size = self.ignored_size.saturating_add(size);
                if self.ignored_files.len() < limit {
                    self.ignored_files.push(IgnoredFile { path: path.clone(), size, reason });
                }
                assert(self@.ignored =~= capped_concat(a.ignored, s.ignored, limit as nat));
            },
            crate::classify::Classification::Asset => {
                self.assets_size = self.assets_size.saturating_add(size);
                self.assets_files = self.assets_files.saturating_add(1);
            },
            crate::classify::Classification::Generated => {
                self.generated_files = self.generated_files.saturating_add(1);
                self.generated_paths.push(path.clone());
                assert(self@.generated =~= a.generated + s.generated);
            },
            crate::classify::Classification::Code { language } => {
                self.effective_files = self.effective_files.saturating_add(1);
                let k = language.index();
                let b = self.language_bytes[k].saturating_add(size);
                self.language_bytes.set(k, b);
                let f = self.language_files[k].saturating_add(1);
                self.language_files.set(k, f);
            },
        }
        assert(self@.bytes =~= sat_table(a.bytes, s.bytes));
        assert(self@.files =~= sat_table(a.files, s.files));
        assert(self@.ignored =~= capped_concat(a.ignored, s.ignored, limit as nat));
        assert(self@.generated =~= a.generated + s.generated);
    }

    /// Merges another accumulator into this one.
    pub fn merge(self, other: LocalAgg, limit: usize) -> (r: LocalAgg)
        requires
            model_wf(self@, limit as nat),
            model_wf(other@, limit as nat),
        ensures
            r@ == merge_model(self@, other@, limit as nat),
    {
        let ghost a = self@;
        let ghost b = other@;
        let ghost old_ignored = self.ignored_files@;
        let ghost old_generated = self.generated_paths@;
        let mut out = self;
        let mut other = other;
        out.ignored_size = out.ignored_size.saturating_add(other.ignored_size);
        out.assets_size = out.assets_size.saturating_add(other.assets_size);
        out.assets_files = out.assets_files.saturating_add(other.assets_files);
        out.generated_files = out.generated_files.saturating_add(other.generated_files);
        out.effective_files = out.effective_files.saturating_add(other.effective_files);
        let mut i: usize = 0;
        while i < LANGUAGE_COUNT
            invariant
                i <= LANGUAGE_COUNT,
                table_wf(a.bytes, a.files),
                table_wf(b.bytes, b.files),
                other.language_bytes@ == b.bytes,
                other.language_files@ == b.files,
                out.ignored_files@ == old_ignored,
                out.generated_paths@ == old_generated,
                out.ignored_size == sat(a.ignored_size, b.ignored_size),
                out.assets_size == sat(a.assets_size, b.assets_size),
                out.assets_files == sat(a.assets_files, b.assets_files),
                out.generated_files == sat(a.generated_files, b.generated_files),
                out.effective_files == sat(a.effective_files, b.effective_files),
                out.language_bytes@.len() == LANGUAGE_COUNT,
                out.language_files@.len() == LANGUAGE_COUNT,
                forall|j: int| 0 <= j < i ==> out.language_bytes@[j] == sat(a.bytes[j], b.bytes[j]),
                forall|j: int| 0 <= j < i ==> out.language_files@[j] == sat(a.files[j], b.files[j]),
                forall|j: int| i <= j < LANGUAGE_COUNT ==> out.language_bytes@[j] == a.bytes[j],
                forall|j: int| i <= j < LANGUAGE_COUNT ==> out.language_files@[j] == a.files[j],
            decreases LANGUAGE_COUNT - i,
        {
            let nb = out.language_bytes[i].saturating_add(other.language_bytes[i]);
            out.language_bytes.set(i, nb);
            let nf = out.language_files[i].saturating_add(other.language_files[i]);
            out.language_files.set(i, nf);
            i += 1;
        }
        assert(out.language_bytes@ =~= sat_table(a.bytes, b.bytes));
        assert(out.language_files@ =~= sat_table(a.files, b.files));
        let mut k: usize = 0;
        assert(out.ignored_files@ == old_ignored);
        assert(b.ignored.take(0) =~= Seq::<(Seq<char>, u64, crate::classify::IgnoreReason)>::empty());
        assert(ignored_views(out.ignored_files@) =~= a.ignored + b.ignored.take(0));
        while k < other.ignored_files.len() && out.ignored_files.len() < limit
            invariant
                a.ignored.len() <= limit,
                ignored_views(other.ignored_files@) == b.ignored,
                k <= b.ignored.len(),
                a.ignored.len() >= limit ==> k == 0,
                a.ignored.len() < limit ==> out.ignored_files@.len() <= limit,
                out.generated_paths@ == old_generated,
                crate::classify::string_views(old_generated) == a.generated,
                crate::classify::string_views(other.generated_paths@) == b.generated,
                out.language_bytes@ == sat_table(a.bytes, b.bytes),
                out.language_files@ == sat_table(a.files, b.files),
                out.ignored_size == sat(a.ignored_size, b.ignored_size),
                out.assets_size == sat(a.assets_size, b.assets_size),
                out.assets_files == sat(a.assets_files, b.assets_files),
                out.generated_files == sat(a.generated_files, b.generated_files),
                out.effective_files == sat(a.effective_files, b.effective_files),
                out.ignored_files@.len() == a.ignored.len() + k,
                ignored_views(out.ignored_files@) == a.ignored + b.ignored.take(k as int),
            decreases b.ignored.len() - k,
        {
            let item = other.ignored_files[k].duplicate();
            let ghost before = out.ignored_files@;
            out.ignored_files.push(item);
            assert(ignored_views(out.ignored_files@) =~= ignored_views(before).push(ignored_view(item)));
            assert(b.ignored.take(k + 1) =~= b.ignored.take(k as int).push(b.ignored[k as int]));
            k += 1;
            assert(ignored_views(out.ignored_files@) =~= a.ignored + b.ignored.take(k as int));
        }
        proof {
            if a.ignored.len() >= limit as nat {
                assert(k == 0);
                assert(b.ignored.take(0) =~= Seq::<(Seq<char>, u64, crate::classify::IgnoreReason)>::empty());
                assert(ignored_views(out.ignored_files@) =~= a.ignored);
            } else if k as nat == b.ignored.len() {
                assert(b.ignored.take(k as int) =~= b.ignored);
                assert(ignored_views(out.ignored_files@) =~= a.ignored + b.ignored);
                if a.ignored.len() + b.ignored.len() > limit as nat {
                    assert(ignored_views(out.ignored_files@) =~= (a.ignored + b.ignored).take(limit as int));
                }
            } else {
                assert(ignored_views(out.ignored_files@) =~= (a.ignored + b.ignored).take(limit as int));
            }
        }
        assert(ignored_views(out.ignored_files@) =~= capped_concat(a.ignored, b.ignored, limit as nat));
        let ghost g0 = out.generated_paths@;
        out.generated_paths.append(&mut other.generated_paths);
        assert(crate::classify::string_views(out.generated_paths@) =~= a.generated + b.generated);
        out
    }
}

/// Classifies and counts the files of a module, in order.
pub fn aggregate_files(files: &Vec<FileEntry>, cfg: &crate::classify::SemanticScanConfig) -> (r: LocalAgg)
    ensures
        r@ == fold_files(entry_views(files@), cfg),
        model_wf(r@, cfg.ignored_files_limit as nat),
{
    let mut agg = LocalAgg::new();
    let ghost fv = entry_views(files@);
    let mut i: usize = 0;
    while i < files.len()
        invariant
            i <= files@.len(),
            fv == entry_views(files@),
            agg@ == fold_files(fv.subrange(0, i as int), cfg),
        decreases files@.len() - i,
    {
        proof {
            lemma_fold_wf(fv.subrange(0, i as int), cfg);
            assert(fv.subrange(0, i + 1).drop_last() =~= fv.subrange(0, i as int));
        }
        let f = &files[i];
        let c = crate::classify::classify_file(f.rel_path.as_str(), f.size, cfg);
        agg.add_file(&f.rel_path, f.size, c, cfg.ignored_files_limit);
        i += 1;
    }
    proof {
        assert(fv.subrange(0, fv.len() as int) =~= fv);
        lemma_fold_wf(fv, cfg);
    }
    agg
}

/// The sum of the byte counts.
pub fn bytes_total(bytes: &Vec<u64>) -> (t: u128)
    requires
        bytes@.len() <= 64,
    ensures
        t == total_bytes(bytes@),
{
    let mut total: u128 = 0;
    let mut j: usize = 0;
    while j < bytes.len()
        invariant
            bytes@.len() <= 64,
            j <= bytes@.len(),
            total == total_upto(bytes@, j as int),
        decreases bytes@.len() - j,
    {
        proof {
            lemma_total_upto_nonneg(bytes@, j as int);
        }
        total = total + bytes[j] as u128;
        j += 1;
    }
    total
}

} // verus!
