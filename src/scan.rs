//! Putting a scan together: module statistics, detectors, wrap-up and the summary.
use vstd::prelude::*;

use crate::aggregate::{
    aggregate_files, entry_views, fold_files, is_breakdown_order, language_breakdown, model_wf,
    sat, stat_view, sum_at, table_wf, total_bytes, FileEntry, IgnoredFile, LocalAgg,
};
use crate::aggregate::AggModel;
use crate::classify::language_at;
use crate::classify::{string_views, SemanticScanConfig};
use crate::detect::{build_detectors, detector_order, detector_step, detectors_ran, run_detector, ModuleFacts};
use crate::report::{finalize_module_report, finalize_post, AssetSummary, GeneratedSummary, ModuleReport};
use crate::topology::ModuleSpec;

verus! {

/// Totals over all modules.
pub struct SemanticSummary {
    pub total_size: u64,
    pub ignored_size: u64,
    pub assets_size: u64,
    pub generated_files: u64,
    pub generated_lines: u64,
    pub effective_files: u64,
    pub warnings: Vec<String>,
}

/// Sum of the sizes, stopping at the largest `u64`.
pub open spec fn size_total(files: Seq<(Seq<char>, u64)>) -> u64
    decreases files.len(),
{
    if files.len() == 0 {
        0
    } else {
        sat(size_total(files.drop_last()), files.last().1)
    }
}

pub fn sum_sizes(files: &Vec<FileEntry>) -> (r: u64)
    ensures
        r == size_total(entry_views(files@)),
{
    let ghost fv = entry_views(files@);
    let mut total: u64 = 0;
    let mut i: usize = 0;
    while i < files.len()
        invariant
            i <= files@.len(),
            fv == entry_views(files@),
            total == size_total(fv.subrange(0, i as int)),
        decreases files@.len() - i,
    {
        assert(fv.subrange(0, i + 1).drop_last() =~= fv.subrange(0, i as int));
        total = total.saturating_add(files[i].size);
        i += 1;
    }
    assert(fv.subrange(0, fv.len() as int) =~= fv);
    total
}

/// Lines of generated code counted under a byte budget, file by file.
pub struct GeneratedBudget {
    pub budget: u64,
    pub asset_threshold: u64,
    pub bytes: u64,
    pub lines: u64,
}

/// What to do with the next generated file.
#[derive(Clone, Copy, Debug, PartialEq, Eq, Structural)]
pub enum BudgetStep {
    /// Stop counting: the budget is spent or the file would overrun it.
    Stop,
    /// Leave this file out: it is larger than an asset.
    Skip,
    /// Read the file and record its lines.
    Read,
}

/// The byte budget for counting generated lines: 16 MiB.
pub const GENERATED_BYTE_BUDGET: u64 = 16777216;

impl GeneratedBudget {
    pub fn new(asset_threshold: u64) -> (r: GeneratedBudget)
        ensures
            r.budget == GENERATED_BYTE_BUDGET,
            r.asset_threshold == asset_threshold,
            r.bytes == 0,
            r.lines == 0,
    {
        GeneratedBudget { budget: GENERATED_BYTE_BUDGET, asset_threshold, bytes: 0, lines: 0 }
    }

    /// The step for a file of `size` bytes.
    pub fn next_step(&self, size: u64) -> (r: BudgetStep)
        ensures
            r == (if self.bytes >= self.budget {
                BudgetStep::Stop
            } else if size > self.asset_threshold {
                BudgetStep::Skip
            } else if self.bytes + size > self.budget {
                BudgetStep::Stop
            } else {
                BudgetStep::Read
            }),
    {
        if self.bytes >= self.budget {
            BudgetStep::Stop
        } else if size > self.asset_threshold {
            BudgetStep::Skip
        } else if size > self.budget - self.bytes {
            BudgetStep::Stop
        } else {
            BudgetStep::Read
        }
    }

    /// Records a file that was read: its size and its number of lines.
    pub fn record(&mut self, size: u64, lines: u64)
        ensures
            final(self).budget == old(self).budget,
            final(self).asset_threshold == old(self).asset_threshold,
            final(self).bytes == sat(old(self).bytes, size),
            final(self).lines == sat(old(self).lines, lines),
    {
        self.bytes = self.bytes.saturating_add(size);
        self.lines = self.lines.saturating_add(lines);
    }
}

/// A fresh report for `module`: its name and path, nothing else.
pub open spec fn fresh_report(s: ModuleReport, module: ModuleSpec) -> bool {
    &&& s.name == module.name && s.path == module.rel_path
    &&& s.languages@.len() == 0 && s.frameworks@.len() == 0 && s.deps@.len() == 0
    &&& s.backend.is_none() && s.frontend.is_none() && s.generated.is_none() && s.assets.is_none()
    &&& s.warnings@.len() == 0
}

/// `pre` holds what the detectors left in `last`.
pub open spec fn detector_fields_match(pre: ModuleReport, last: ModuleReport) -> bool {
    &&& pre.name == last.name && pre.path == last.path
    &&& pre.backend == last.backend && pre.frontend == last.frontend
    &&& pre.frameworks == last.frameworks && pre.deps == last.deps && pre.warnings == last.warnings
}

/// The report of a module: name and path; statistics from the accumulator `m`; and what
/// the detectors, run in registry order from a fresh report, left, wrapped up.
pub open spec fn report_of_module(
    r: ModuleReport,
    module: ModuleSpec,
    facts: &ModuleFacts,
    m: AggModel,
    generated_lines: u64,
) -> bool {
    &&& r.name == module.name
    &&& r.path == module.rel_path
    &&& m.generated_files > 0 ==> r.generated == Some((GeneratedSummary { files: m.generated_files, lines: generated_lines }))
    &&& m.generated_files == 0 ==> r.generated.is_none()
    &&& m.assets_files > 0 ==> r.assets == Some((AssetSummary { files: m.assets_files, bytes: m.assets_size }))
    &&& m.assets_files == 0 ==> r.assets.is_none()
    &&& total_bytes(m.bytes) == 0 ==> r.languages@.len() == 0
    &&& total_bytes(m.bytes) > 0 ==> exists|order: Seq<usize>|
        is_breakdown_order(order, m.bytes, m.files) && order.len() == r.languages@.len()
            && #[trigger] sum_at(order, m.bytes) == total_bytes(m.bytes) && forall|k: int|
            0 <= k < r.languages@.len() ==> #[trigger] stat_view(r.languages@[k]) == (
                language_at(order[k] as nat),
                m.bytes[order[k] as int],
                m.files[order[k] as int],
            )
    &&& exists|steps: Seq<ModuleReport>|
        #[trigger] detectors_ran(detector_order(), facts, steps) && fresh_report(steps[0], module) && exists|
            pre: ModuleReport,
        | #[trigger] finalize_post(pre, r) && detector_fields_match(pre, steps.last())
}

/// One module was added to the scan: the earlier reports stay, the new report is
/// `report_of_module`, the totals grow by the module's, ignored files stay within the
/// limit.
pub open spec fn module_added(
    o: ScanState,
    n: ScanState,
    module: ModuleSpec,
    facts: &ModuleFacts,
    m: AggModel,
    total_size: u64,
    generated_lines: u64,
    limit: nat,
) -> bool {
    &&& n.modules@.len() == o.modules@.len() + 1
    &&& n.modules@.subrange(0, o.modules@.len() as int) == o.modules@
    &&& report_of_module(n.modules@.last(), module, facts, m, generated_lines)
    &&& n.ignored_files@.len() <= limit
    &&& n.summary.total_size == sat(o.summary.total_size, total_size)
    &&& n.summary.ignored_size == sat(o.summary.ignored_size, m.ignored_size)
    &&& n.summary.assets_size == sat(o.summary.assets_size, m.assets_size)
    &&& n.summary.generated_files == sat(o.summary.generated_files, m.generated_files)
    &&& n.summary.generated_lines == sat(o.summary.generated_lines, generated_lines)
    &&& n.summary.effective_files == sat(o.summary.effective_files, m.effective_files)
    &&& n.summary.warnings == o.summary.warnings
}

/// A scan in progress: the module reports so far, the summary and the ignored files kept.
pub struct ScanState {
    pub modules: Vec<ModuleReport>,
    pub summary: SemanticSummary,
    pub ignored_files: Vec<IgnoredFile>,
}

impl ScanState {
    pub fn new() -> (r: ScanState)
        ensures
            r.modules@.len() == 0,
            r.ignored_files@.len() == 0,
            r.summary.total_size == 0,
            r.summary.ignored_size == 0,
            r.summary.assets_size == 0,
            r.summary.generated_files == 0,
            r.summary.generated_lines == 0,
            r.summary.effective_files == 0,
            r.summary.warnings@.len() == 0,
    {
        ScanState {
            modules: Vec::new(),
            summary: SemanticSummary {
                total_size: 0,
                ignored_size: 0,
                assets_size: 0,
                generated_files: 0,
                generated_lines: 0,
                effective_files: 0,
                warnings: Vec::new(),
            },
            ignored_files: Vec::new(),
        }
    }

    /// Adds one module from its already merged accumulator `agg` and the total size of its
    /// files: the detectors run in registry order on its facts, the statistics are
    /// attached, the summary grows, ignored files are kept up to the limit, and the report
    /// is wrapped up.
    pub fn add_aggregated(
        &mut self,
        module: &ModuleSpec,
        facts: &ModuleFacts,
        agg: &LocalAgg,
        total_size: u64,
        generated_lines: u64,
        cfg: &SemanticScanConfig,
    )
        requires
            old(self).ignored_files@.len() <= cfg.ignored_files_limit,
            model_wf(agg@, cfg.ignored_files_limit as nat),
        ensures
            module_added(*old(self), *final(self), *module, facts, agg@, total_size, generated_lines, cfg.ignored_files_limit as nat),
    {
        let mut report = ModuleReport::new(&module.name, &module.rel_path);
        let ghost fresh = report;
        let detectors = build_detectors();
        let ghost steps: Seq<ModuleReport> = seq![report];
        let mut k: usize = 0;
        while k < detectors.len()
            invariant
                k <= detectors@.len(),
                detectors@ == detector_order(),
                report.name == module.name,
                report.path == module.rel_path,
                report.generated.is_none(),
                report.assets.is_none(),
                report.languages@.len() == 0,
                steps.len() == k + 1,
                steps[0] == fresh,
                steps.last() == report,
                forall|i: int| 0 <= i < k ==> #[trigger] detector_step(detector_order()[i], facts, steps[i], steps[i + 1]),
            decreases detectors@.len() - k,
        {
            let ghost before = report;
            run_detector(detectors[k], facts, &mut report);
            proof {
                let old_steps = steps;
                steps = steps.push(report);
                assert forall|i: int| 0 <= i < k + 1 implies #[trigger] detector_step(detector_order()[i], facts, steps[i], steps[i + 1]) by {
                    if i < k {
                        assert(steps[i] == old_steps[i]);
                        assert(steps[i + 1] == old_steps[i + 1]);
                    } else {
                        assert(steps[i] == before);
                    }
                }
            }
            k += 1;
        }
        let ghost last = report;
        report.languages = language_breakdown(&agg.language_bytes, &agg.language_files);
        if agg.generated_files > 0 {
            report.generated = Some(GeneratedSummary { files: agg.generated_files, lines: generated_lines });
        }
        if agg.assets_files > 0 {
            report.assets = Some(AssetSummary { files: agg.assets_files, bytes: agg.assets_size });
        }
        let ghost pre = report;
        let mut j: usize = 0;
        while j < agg.ignored_files.len() && self.ignored_files.len() < cfg.ignored_files_limit
            invariant
                j <= agg.ignored_files@.len(),
                self.ignored_files@.len() <= cfg.ignored_files_limit,
                self.modules == old(self).modules,
                self.summary == old(self).summary,
            decreases agg.ignored_files@.len() - j,
        {
            self.ignored_files.push(agg.ignored_files[j].duplicate());
            j += 1;
        }
        self.summary.total_size = self.summary.total_size.saturating_add(total_size);
        self.summary.ignored_size = self.summary.ignored_size.saturating_add(agg.ignored_size);
        self.summary.assets_size = self.summary.assets_size.saturating_add(agg.assets_size);
        self.summary.generated_files = self.summary.generated_files.saturating_add(agg.generated_files);
        self.summary.generated_lines = self.summary.generated_lines.saturating_add(generated_lines);
        self.summary.effective_files = self.summary.effective_files.saturating_add(agg.effective_files);
        finalize_module_report(&mut report);
        let ghost done = report;
        self.modules.push(report);
        proof {
            assert(detectors_ran(detector_order(), facts, steps));
            assert(detector_fields_match(pre, steps.last()));
            assert(finalize_post(pre, done));
            assert(report_of_module(done, *module, facts, agg@, generated_lines));
            assert(self.modules@.subrange(0, old(self).modules@.len() as int) =~= old(self).modules@);
        }
    }

    /// Adds one module: its files are classified and counted in order, then as
    /// `add_aggregated`.
    pub fn add_module(
        &mut self,
        module: &ModuleSpec,
        facts: &ModuleFacts,
        files: &Vec<FileEntry>,
        generated_lines: u64,
        cfg: &SemanticScanConfig,
    )
        requires
            old(self).ignored_files@.len() <= cfg.ignored_files_limit,
        ensures
            module_added(
                *old(self),
                *final(self),
                *module,
                facts,
                fold_files(entry_views(files@), cfg),
                size_total(entry_views(files@)),
                generated_lines,
                cfg.ignored_files_limit as nat,
            ),
    {
        let agg = aggregate_files(files, cfg);
        let total = sum_sizes(files);
        self.add_aggregated(module, facts, &agg, total, generated_lines, cfg);
    }
}

} // verus!


