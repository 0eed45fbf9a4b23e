//! Scan reports: findings per workload and their ordering.
//!
//! Scores are fixed-point numbers in hundredths: a score of `980` reads 9.80.

use vstd::prelude::*;

use crate::advisory::{Cve, OrderedScore, Severity};
use crate::layer::copy_strings;
use crate::manifest::WorkloadKind;
use crate::sort::{key_order, lemma_sorted_by_map, sorted_by, stable_sort, SortKey};
use crate::text::{
    chars_of, decimal, decimal_string, digit_char, digit_of, lemma_seq_less_irreflexive,
    lemma_seq_less_transitive, seq_less, str_less, string_of, trim_end, trim_end_chars,
};

verus! {

/// The identity of a workload in a report.
#[derive(Debug, Clone, PartialEq, Eq)]
pub struct WorkloadRef {
    pub kind: WorkloadKind,
    pub name: String,
    pub namespace: Option<String>,
}

/// The model of a [`WorkloadRef`].
pub struct WorkloadRefModel {
    pub kind: WorkloadKind,
    pub name: Seq<char>,
    pub namespace: Option<Seq<char>>,
}

impl View for WorkloadRef {
    type V = WorkloadRefModel;

    open spec fn view(&self) -> WorkloadRefModel {
        WorkloadRefModel { kind: self.kind, name: self.name@, namespace: self.namespace.deep_view() }
    }
}

impl DeepView for WorkloadRef {
    type V = WorkloadRefModel;

    open spec fn deep_view(&self) -> WorkloadRefModel {
        self@
    }
}

/// `namespace/name`, or the name alone where there is no namespace.
pub open spec fn display_name_model(name: Seq<char>, namespace: Option<Seq<char>>) -> Seq<char> {
    match namespace {
        Some(ns) => ns + "/"@ + name,
        None => name,
    }
}

impl WorkloadRef {
    /// The name under which reports show the workload (see [`display_name_model`]).
    pub fn display_name(&self) -> (r: String)
        ensures
            r@ == display_name_model(self.name@, self.namespace.deep_view()),
    {
        match &self.namespace {
            Some(namespace) => {
                let mut out = namespace.clone();
                out.append("/");
                out.append(self.name.as_str());
                out
            },
            None => self.name.clone(),
        }
    }
}

/// The package of a finding.
#[derive(Debug, Clone, PartialEq, Eq)]
pub struct PackageFinding {
    pub name: String,
    pub version: String,
    pub ecosystem: String,
    pub source_path: String,
    pub layer_depth: usize,
}

/// The model of a [`PackageFinding`].
pub struct PackageFindingModel {
    pub name: Seq<char>,
    pub version: Seq<char>,
    pub ecosystem: Seq<char>,
    pub source_path: Seq<char>,
    pub layer_depth: usize,
}

impl View for PackageFinding {
    type V = PackageFindingModel;

    open spec fn view(&self) -> PackageFindingModel {
        PackageFindingModel {
            name: self.name@,
            version: self.version@,
            ecosystem: self.ecosystem@,
            source_path: self.source_path@,
            layer_depth: self.layer_depth,
        }
    }
}

/// The advisory of a finding.
#[derive(Debug, Clone, PartialEq, Eq)]
pub struct CveFinding {
    pub id: String,
    pub aliases: Vec<String>,
    pub summary: Option<String>,
    pub cvss_score: Option<OrderedScore>,
}

/// The model of a [`CveFinding`].
pub struct CveFindingModel {
    pub id: Seq<char>,
    pub aliases: Seq<Seq<char>>,
    pub summary: Option<Seq<char>>,
    pub cvss_score: Option<u64>,
}

impl View for CveFinding {
    type V = CveFindingModel;

    open spec fn view(&self) -> CveFindingModel {
        CveFindingModel {
            id: self.id@,
            aliases: self.aliases.deep_view(),
            summary: self.summary.deep_view(),
            cvss_score: match self.cvss_score {
                Some(OrderedScore(b)) => Some(b),
                None => None,
            },
        }
    }
}

impl Cve {
    /// How a finding names this advisory: its identifier, aliases, summary
    /// and CVSS score.
    pub fn report_ref(&self) -> (r: CveFinding)
        ensures
            r@ == (CveFindingModel {
                id: self@.id,
                aliases: self@.aliases,
                summary: self@.summary,
                cvss_score: self@.cvss_score,
            }),
    {
        CveFinding {
            id: self.id.clone(),
            aliases: copy_strings(&self.aliases),
            summary: match &self.summary {
                Some(text) => Some(text.clone()),
                None => None,
            },
            cvss_score: self.cvss_score,
        }
    }
}

/// One vulnerable package in one container of a workload.
#[derive(Debug, Clone, PartialEq, Eq)]
pub struct Finding {
    pub workload: String,
    pub container: String,
    pub package: PackageFinding,
    pub cve: CveFinding,
    pub severity: Severity,
    pub contributing_factors: Vec<String>,
    /// The score in hundredths.
    pub score: u64,
}

/// The model of a [`Finding`].
pub struct FindingModel {
    pub workload: Seq<char>,
    pub container: Seq<char>,
    pub package: PackageFindingModel,
    pub cve: CveFindingModel,
    pub severity: Severity,
    pub contributing_factors: Seq<Seq<char>>,
    pub score: u64,
}

impl View for Finding {
    type V = FindingModel;

    open spec fn view(&self) -> FindingModel {
        FindingModel {
            workload: self.workload@,
            container: self.container@,
            package: self.package@,
            cve: self.cve@,
            severity: self.severity,
            contributing_factors: self.contributing_factors.deep_view(),
            score: self.score,
        }
    }
}

impl DeepView for Finding {
    type V = FindingModel;

    open spec fn deep_view(&self) -> FindingModel {
        self@
    }
}

/// The findings of one workload and its Component Importance Index.
#[derive(Debug, Clone, PartialEq, Eq)]
pub struct WorkloadReport {
    pub workload_ref: WorkloadRef,
    pub findings: Vec<Finding>,
    /// The Component Importance Index in hundredths.
    pub cii_total: u128,
}

/// The model of a [`WorkloadReport`].
pub struct WorkloadReportModel {
    pub workload_ref: WorkloadRefModel,
    pub findings: Seq<FindingModel>,
    pub cii_total: u128,
}

impl View for WorkloadReport {
    type V = WorkloadReportModel;

    open spec fn view(&self) -> WorkloadReportModel {
        WorkloadReportModel {
            workload_ref: self.workload_ref@,
            findings: self.findings.deep_view(),
            cii_total: self.cii_total,
        }
    }
}

impl DeepView for WorkloadReport {
    type V = WorkloadReportModel;

    open spec fn deep_view(&self) -> WorkloadReportModel {
        self@
    }
}

/// A scan report: one entry per workload.
#[derive(Debug, Clone, PartialEq, Eq)]
pub struct Report {
    pub workloads: Vec<WorkloadReport>,
}

impl View for Report {
    type V = Seq<WorkloadReportModel>;

    open spec fn view(&self) -> Seq<WorkloadReportModel> {
        self.workloads.deep_view()
    }
}

/// The report order: higher index first, then by workload name.
pub open spec fn report_order() -> spec_fn(WorkloadReportModel, WorkloadReportModel) -> bool {
    |a: WorkloadReportModel, b: WorkloadReportModel|
        a.cii_total > b.cii_total || (a.cii_total == b.cii_total && seq_less(
            a.workload_ref.name,
            b.workload_ref.name,
        ))
}

impl SortKey for WorkloadReport {
    open spec fn precedes(self, other: Self) -> bool {
        report_order()(self@, other@)
    }

    proof fn precedes_irreflexive(a: Self) {
        lemma_seq_less_irreflexive(a.workload_ref.name@);
    }

    proof fn precedes_transitive(a: Self, b: Self, c: Self) {
        if a.cii_total == b.cii_total && b.cii_total == c.cii_total {
            lemma_seq_less_transitive(a.workload_ref.name@, b.workload_ref.name@, c.workload_ref.name@);
        }
    }

    fn goes_before(&self, other: &Self) -> (r: bool) {
        self.cii_total > other.cii_total || (self.cii_total == other.cii_total && str_less(
            self.workload_ref.name.as_str(),
            other.workload_ref.name.as_str(),
        ))
    }
}

impl Report {
    /// A report without workloads.
    pub fn empty() -> (r: Self)
        ensures
            r@ == Seq::<WorkloadReportModel>::empty(),
    {
        let r = Report { workloads: Vec::new() };
        assert(r@ =~= Seq::<WorkloadReportModel>::empty());
        r
    }

    /// The report of these workloads, ordered by descending index and then
    /// by name; workloads that tie keep their order.
    pub fn new(workloads: Vec<WorkloadReport>) -> (r: Self)
        ensures
            r@ == sorted_by(workloads.deep_view(), report_order()),
    {
        let ghost input = workloads@;
        let sorted = stable_sort(workloads);
        proof {
            let m = |w: WorkloadReport| w@;
            assert forall|p: WorkloadReport, q: WorkloadReport| #[trigger]
                key_order::<WorkloadReport>()(p, q) == report_order()(m(p), m(q)) by {}
            lemma_sorted_by_map(input, key_order::<WorkloadReport>(), report_order(), m);
            assert(input.map_values(m) =~= workloads.deep_view());
            assert(sorted.deep_view() =~= sorted_by(input, key_order::<WorkloadReport>()).map_values(
                m,
            ));
        }
        Report { workloads: sorted }
    }
}

/// A fixed-point number in hundredths with two decimals (`{:.2}`): 980
/// reads `9.80`.
pub open spec fn hundredths_text(n: nat) -> Seq<char> {
    decimal(n / 100) + seq!['.', digit_char((n % 100) / 10), digit_char(n % 10)]
}

/// The name of a workload kind as reports print it.
pub open spec fn kind_name(kind: WorkloadKind) -> Seq<char> {
    match kind {
        WorkloadKind::Pod => "Pod"@,
        WorkloadKind::Deployment => "Deployment"@,
        WorkloadKind::StatefulSet => "StatefulSet"@,
        WorkloadKind::DaemonSet => "DaemonSet"@,
        WorkloadKind::Job => "Job"@,
        WorkloadKind::CronJob => "CronJob"@,
    }
}

/// The line of one finding in a text report.
pub open spec fn finding_line(f: FindingModel) -> Seq<char> {
    "- "@ + f.package.name + " "@ + f.package.version + " in "@ + f.container + ": "@ + f.cve.id
        + " ("@ + hundredths_text(f.score as nat) + ")\n"@
}

/// The lines of findings, in order.
pub open spec fn findings_text(findings: Seq<FindingModel>) -> Seq<char>
    decreases findings.len(),
{
    if findings.len() == 0 {
        Seq::empty()
    } else {
        findings_text(findings.drop_last()) + finding_line(findings.last())
    }
}

/// The section of one workload in a text report.
pub open spec fn workload_text(w: WorkloadReportModel) -> Seq<char> {
    "\n"@ + display_name_model(w.workload_ref.name, w.workload_ref.namespace) + " ("@ + kind_name(
        w.workload_ref.kind,
    ) + ")\nCII: "@ + hundredths_text(w.cii_total as nat) + "\nFindings: "@ + decimal(
        w.findings.len(),
    ) + "\n"@ + findings_text(w.findings)
}

/// The sections of workloads, in order.
pub open spec fn workloads_text(workloads: Seq<WorkloadReportModel>) -> Seq<char>
    decreases workloads.len(),
{
    if workloads.len() == 0 {
        Seq::empty()
    } else {
        workloads_text(workloads.drop_last()) + workload_text(workloads.last())
    }
}

/// The text report: a heading, the number of workloads and a section per
/// workload, without trailing whitespace.
pub open spec fn report_text(workloads: Seq<WorkloadReportModel>) -> Seq<char> {
    trim_end(
        "ManifestVault report\nWorkloads: "@ + decimal(workloads.len()) + "\n"@ + workloads_text(
            workloads,
        ),
    )
}

/// A fixed-point number in hundredths with two decimals (see [`hundredths_text`]).
pub fn hundredths_string(n: u128) -> (s: String)
    ensures
        s@ == hundredths_text(n as nat),
{
    let mut s = decimal_string(n / 100);
    let fraction = n % 100;
    let tens = digit_of(fraction / 10);
    let units = digit_of(n % 10);
    crate::text::push_char(&mut s, '.');
    crate::text::push_char(&mut s, tens);
    crate::text::push_char(&mut s, units);
    s
}

/// The name of a workload kind (see [`kind_name`]).
pub fn kind_label(kind: WorkloadKind) -> (r: &'static str)
    ensures
        r@ == kind_name(kind),
{
    match kind {
        WorkloadKind::Pod => "Pod",
        WorkloadKind::Deployment => "Deployment",
        WorkloadKind::StatefulSet => "StatefulSet",
        WorkloadKind::DaemonSet => "DaemonSet",
        WorkloadKind::Job => "Job",
        WorkloadKind::CronJob => "CronJob",
    }
}

fn append_finding_line(out: &mut String, f: &Finding)
    ensures
        final(out)@ == old(out)@ + finding_line(f@),
{
    out.append("- ");
    out.append(f.package.name.as_str());
    out.append(" ");
    out.append(f.package.version.as_str());
    out.append(" in ");
    out.append(f.container.as_str());
    out.append(": ");
    out.append(f.cve.id.as_str());
    out.append(" (");
    let score = hundredths_string(f.score as u128);
    out.append(score.as_str());
    out.append(")\n");
}

fn append_workload_text(out: &mut String, w: &WorkloadReport)
    ensures
        final(out)@ == old(out)@ + workload_text(w@),
{
    let ghost start = out@;
    out.append("\n");
    let name = w.workload_ref.display_name();
    out.append(name.as_str());
    out.append(" (");
    out.append(kind_label(w.workload_ref.kind));
    out.append(")\nCII: ");
    let cii = hundredths_string(w.cii_total);
    out.append(cii.as_str());
    out.append("\nFindings: ");
    let count = decimal_string(w.findings.len() as u128);
    out.append(count.as_str());
    out.append("\n");
    let ghost head = out@;
    let mut i: usize = 0;
    while i < w.findings.len()
        invariant
            i <= w.findings.len(),
            out@ == head + findings_text(w@.findings.take(i as int)),
        decreases w.findings.len() - i,
    {
        append_finding_line(out, &w.findings[i]);
        let ghost prefix = w@.findings.take(i + 1);
        assert(prefix.drop_last() =~= w@.findings.take(i as int));
        assert(prefix.last() == w.findings@[i as int]@);
        i = i + 1;
    }
    assert(w@.findings.take(w.findings.len() as int) =~= w@.findings);
}

/// Renders a report as text (see [`report_text`]).
pub fn render_text(report: &Report) -> (r: String)
    ensures
        r@ == report_text(report@),
{
    let mut out = String::new();
    out.append("ManifestVault report\nWorkloads: ");
    let count = decimal_string(report.workloads.len() as u128);
    out.append(count.as_str());
    out.append("\n");
    let ghost head = out@;
    let mut i: usize = 0;
    while i < report.workloads.len()
        invariant
            i <= report.workloads.len(),
            out@ == head + workloads_text(report@.take(i as int)),
        decreases report.workloads.len() - i,
    {
        append_workload_text(&mut out, &report.workloads[i]);
        let ghost prefix = report@.take(i + 1);
        assert(prefix.drop_last() =~= report@.take(i as int));
        assert(prefix.last() == report.workloads@[i as int]@);
        i = i + 1;
    }
    assert(report@.take(report.workloads.len() as int) =~= report@);
    let chars = chars_of(out.as_str());
    let trimmed = trim_end_chars(&chars);
    string_of(trimmed.as_slice())
}

} // verus!
