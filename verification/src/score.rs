//! Component Importance Index scoring.
//!
//! The score of a finding is `severity weight × privilege multiplier ×
//! depth multiplier`, rounded to hundredths; the index of a workload is the
//! sum of its finding scores.  Multipliers are kept in tenths: 20 reads 2.0.

use vstd::prelude::*;

use crate::advisory::{
    affecting, cve_affects, normalize_ecosystem, normalize_name, package_name_model,
    ecosystem_model, severity_label, severity_weight, Cve, CveDatabase, CveModel, OrderedScore,
    Severity,
};
use crate::layer::{copy_strings, LayerModel, LayerSbom, Package, PackageModel, Sbom, ContainerSbomModel};
use crate::manifest::{ContainerModel, ContainerRef, Workload, WorkloadModel};
use crate::report::{
    display_name_model, CveFinding, CveFindingModel, Finding, FindingModel, PackageFinding,
    PackageFindingModel, WorkloadRef, WorkloadRefModel, WorkloadReport, WorkloadReportModel,
};
use crate::text::{
    lemma_seq_less_irreflexive, lemma_seq_less_transitive, seq_less, str_less,
    chars_eq, chars_of, lower_chars, lower_seq, slice_chars, spells, trim, trim_bounds,
    trimmed_chars, upper_chars, upper_seq,
};

verus! {

/// Multiplier of a privileged container, or one that adds `SYS_ADMIN`.
pub const PRIVILEGED_MULTIPLIER: u64 = 20;

/// Multiplier of a container that may run as root.
pub const ROOT_MULTIPLIER: u64 = 15;

/// Multiplier of a workload that shares the host network or PID namespace.
pub const HOST_NAMESPACE_MULTIPLIER: u64 = 15;

/// Multiplier of a package that is the container entrypoint binary.
pub const ENTRYPOINT_MULTIPLIER: u64 = 20;

/// Multiplier where a privilege factor does not apply.
pub const NEUTRAL_MULTIPLIER: u64 = 10;

/// Depth multiplier of the base layer.
pub const BASE_LAYER_MULTIPLIER: u64 = 7;

/// Depth multiplier of a layer between the base and the top.
pub const INTERMEDIATE_LAYER_MULTIPLIER: u64 = 10;

/// Depth multiplier of the top layer.
pub const TOP_LAYER_MULTIPLIER: u64 = 13;

/// Whether a capability, trimmed and in upper case, is `SYS_ADMIN` or `CAP_SYS_ADMIN`.
pub open spec fn grants_sys_admin(capability: Seq<char>) -> bool {
    let c = upper_seq(trim(capability));
    c == "SYS_ADMIN"@ || c == "CAP_SYS_ADMIN"@
}

/// A container is privileged when its security context says so or adds the
/// `SYS_ADMIN` capability.
pub open spec fn privileged_model(c: ContainerModel) -> bool {
    match c.security_context {
        Some(ctx) => ctx.privileged == Some(true) || exists|i: int|
            0 <= i < ctx.add_capabilities.len() && grants_sys_admin(ctx.add_capabilities[i]),
        None => false,
    }
}

/// A container runs as root when it runs as UID 0, or when it neither sets
/// `runAsNonRoot: true` nor names a user; without a security context it
/// does.
pub open spec fn root_model(c: ContainerModel) -> bool {
    match c.security_context {
        None => true,
        Some(ctx) => ctx.run_as_user == Some(0i64) || (ctx.run_as_non_root != Some(true)
            && ctx.run_as_user is None),
    }
}

/// The part of a path after its last `/` or `\`.
pub open spec fn after_last_separator(s: Seq<char>) -> Seq<char>
    decreases s.len(),
{
    if s.len() == 0 {
        s
    } else if s.last() == '/' || s.last() == '\\' {
        Seq::empty()
    } else {
        after_last_separator(s.drop_last()).push(s.last())
    }
}

/// The file name of a binary path: trimmed and in lower case.
pub open spec fn binary_name_model(path: Seq<char>) -> Seq<char> {
    lower_seq(trim(after_last_separator(path)))
}

/// A candidate names the expected binary when their non-empty file names agree.
pub open spec fn binary_matches_model(candidate: Seq<char>, expected: Seq<char>) -> bool {
    binary_name_model(candidate).len() > 0 && binary_name_model(candidate) == binary_name_model(
        expected,
    )
}

/// The first command word and the first argument of a container, where present.
pub open spec fn entrypoint_candidates(c: ContainerModel) -> Seq<Seq<char>> {
    (if c.command.len() > 0 {
        seq![c.command[0]]
    } else {
        Seq::empty()
    }) + (if c.args.len() > 0 {
        seq![c.args[0]]
    } else {
        Seq::empty()
    })
}

/// Whether the container entrypoint runs the package: a candidate names
/// the package itself or one of its binaries.
pub open spec fn entrypoint_model(c: ContainerModel, p: PackageModel) -> bool {
    exists|i: int|
        0 <= i < entrypoint_candidates(c).len() && (binary_matches_model(
            entrypoint_candidates(c)[i],
            p.name,
        ) || exists|j: int|
            0 <= j < p.binaries.len() && binary_matches_model(
                entrypoint_candidates(c)[i],
                p.binaries[j],
            ))
}

/// Whether the workload shares a host namespace.
pub open spec fn host_namespace_model(w: WorkloadModel) -> bool {
    w.host_network || w.host_pid
}

/// The privilege multiplier in ten-thousandths: the product of the four
/// factor multipliers in tenths, each neutral where it does not apply.
pub open spec fn privilege_multiplier_model(w: WorkloadModel, c: ContainerModel, p: PackageModel) -> u64 {
    ((if privileged_model(c) {
        PRIVILEGED_MULTIPLIER
    } else {
        NEUTRAL_MULTIPLIER
    }) * (if root_model(c) {
        ROOT_MULTIPLIER
    } else {
        NEUTRAL_MULTIPLIER
    }) * (if host_namespace_model(w) {
        HOST_NAMESPACE_MULTIPLIER
    } else {
        NEUTRAL_MULTIPLIER
    }) * (if entrypoint_model(c, p) {
        ENTRYPOINT_MULTIPLIER
    } else {
        NEUTRAL_MULTIPLIER
    })) as u64
}

/// The labels of the privilege factors that apply, in the order privileged,
/// root user, host namespace, entrypoint binary; `standard_privilege` where
/// none applies.
pub open spec fn privilege_factors_model(w: WorkloadModel, c: ContainerModel, p: PackageModel) -> Seq<
    Seq<char>,
> {
    let applied = (if privileged_model(c) {
        seq!["privileged"@]
    } else {
        Seq::empty()
    }) + (if root_model(c) {
        seq!["root_user"@]
    } else {
        Seq::empty()
    }) + (if host_namespace_model(w) {
        seq!["host_namespace"@]
    } else {
        Seq::empty()
    }) + (if entrypoint_model(c, p) {
        seq!["entrypoint_binary"@]
    } else {
        Seq::empty()
    });
    if applied.len() == 0 {
        seq!["standard_privilege"@]
    } else {
        applied
    }
}

/// The depth multiplier in tenths and its label: depth 0 is the base layer,
/// the deepest layer of the container is the top layer, others are
/// intermediate.
pub open spec fn depth_multiplier_model(depth: usize, max_depth: usize) -> (u64, Seq<char>) {
    if depth == 0 {
        (BASE_LAYER_MULTIPLIER, "base_layer"@)
    } else if depth == max_depth {
        (TOP_LAYER_MULTIPLIER, "top_layer"@)
    } else {
        (INTERMEDIATE_LAYER_MULTIPLIER, "intermediate_layer"@)
    }
}

/// A finding score in hundredths: weight × privilege multiplier × depth
/// multiplier, rounded to the nearest hundredth, halves upwards.
pub open spec fn finding_score_model(weight: u64, privilege: u64, depth: u64) -> u64 {
    ((weight * privilege * depth + 500) / 1000) as u64
}

/// Whether a container is privileged (see [`privileged_model`]).
pub fn container_is_privileged(container: &ContainerRef) -> (r: bool)
    ensures
        r == privileged_model(container@),
{
    match &container.security_context {
        None => false,
        Some(ctx) => {
            if let Some(true) = ctx.privileged {
                return true;
            }
            let mut i: usize = 0;
            while i < ctx.add_capabilities.len()
                invariant
                    i <= ctx.add_capabilities.len(),
                    container.security_context == Some(*ctx),
                    forall|k: int|
                        0 <= k < i ==> !grants_sys_admin(ctx@.add_capabilities[k]),
                decreases ctx.add_capabilities.len() - i,
            {
                let capability = upper_chars(&trimmed_chars(ctx.add_capabilities[i].as_str()));
                assert(ctx@.add_capabilities[i as int] == ctx.add_capabilities@[i as int]@);
                if spells(&capability, "SYS_ADMIN") || spells(&capability, "CAP_SYS_ADMIN") {
                    assert(grants_sys_admin(ctx@.add_capabilities[i as int]));
                    return true;
                }
                i = i + 1;
            }
            false
        },
    }
}

/// Whether a container may run as root (see [`root_model`]).
pub fn runs_as_root(container: &ContainerRef) -> (r: bool)
    ensures
        r == root_model(container@),
{
    match &container.security_context {
        None => true,
        Some(ctx) => match ctx.run_as_user {
            Some(user) => user == 0,
            None => !matches!(ctx.run_as_non_root, Some(true)),
        },
    }
}

proof fn lemma_after_last_separator(s: Seq<char>, k: int)
    requires
        0 <= k <= s.len(),
        forall|i: int| k <= i < s.len() ==> s[i] != '/' && s[i] != '\\',
        k == 0 || s[k - 1] == '/' || s[k - 1] == '\\',
    ensures
        after_last_separator(s) == s.subrange(k, s.len() as int),
    decreases s.len(),
{
    if s.len() == 0 {
    } else if k == s.len() {
        assert(s.subrange(k, s.len() as int) =~= Seq::<char>::empty());
    } else {
        lemma_after_last_separator(s.drop_last(), k);
        assert(s.drop_last().subrange(k, s.len() - 1).push(s.last()) =~= s.subrange(
            k,
            s.len() as int,
        ));
    }
}

/// The file name of a binary path, as characters (see [`binary_name_model`]).
fn binary_name_chars(path: &str) -> (r: Vec<char>)
    ensures
        r@ == binary_name_model(path@),
{
    let chars = chars_of(path);
    let mut k = chars.len();
    while k > 0 && chars[k - 1] != '/' && chars[k - 1] != '\\'
        invariant
            k <= chars.len(),
            forall|i: int| k <= i < chars@.len() ==> chars@[i] != '/' && chars@[i] != '\\',
        decreases k,
    {
        k = k - 1;
    }
    proof {
        lemma_after_last_separator(chars@, k as int);
    }
    let name = slice_chars(&chars, k, chars.len());
    let (lo, hi) = trim_bounds(&name);
    lower_chars(&slice_chars(&name, lo, hi))
}

/// The file name of a binary path (see [`binary_name_model`]).
pub fn binary_name(value: &str) -> (r: String)
    ensures
        r@ == binary_name_model(value@),
{
    let name = binary_name_chars(value);
    crate::text::string_of(name.as_slice())
}

/// Whether `candidate` names the binary `expected` (see [`binary_matches_model`]).
pub fn binary_matches(candidate: &str, expected: &str) -> (r: bool)
    ensures
        r == binary_matches_model(candidate@, expected@),
{
    let c = binary_name_chars(candidate);
    let e = binary_name_chars(expected);
    c.len() > 0 && chars_eq(&c, &e)
}

/// Whether one entrypoint candidate runs the package.
fn candidate_runs_package(candidate: &str, package: &Package) -> (r: bool)
    ensures
        r == (binary_matches_model(candidate@, package@.name) || exists|j: int|
            0 <= j < package@.binaries.len() && binary_matches_model(
                candidate@,
                package@.binaries[j],
            )),
{
    if binary_matches(candidate, package.name.as_str()) {
        return true;
    }
    let mut j: usize = 0;
    while j < package.binaries.len()
        invariant
            j <= package.binaries.len(),
            forall|k: int| 0 <= k < j ==> !binary_matches_model(candidate@, package@.binaries[k]),
        decreases package.binaries.len() - j,
    {
        assert(package@.binaries[j as int] == package.binaries@[j as int]@);
        if binary_matches(candidate, package.binaries[j].as_str()) {
            return true;
        }
        j = j + 1;
    }
    false
}

/// Whether the container entrypoint runs the package (see [`entrypoint_model`]).
pub fn entrypoint_matches_package(container: &ContainerRef, package: &Package) -> (r: bool)
    ensures
        r == entrypoint_model(container@, package@),
{
    let ghost cands = entrypoint_candidates(container@);
    let mut found = false;
    if container.command.len() > 0 {
        assert(cands[0] == container.command@[0]@);
        found = candidate_runs_package(container.command[0].as_str(), package);
    }
    if !found && container.args.len() > 0 {
        let k: usize = if container.command.len() > 0 { 1 } else { 0 };
        assert(cands[k as int] == container.args@[0]@);
        found = candidate_runs_package(container.args[0].as_str(), package);
    }
    found
}

/// The privilege multiplier in ten-thousandths and the labels of the
/// factors that apply (see [`privilege_multiplier_model`] and
/// [`privilege_factors_model`]).
pub fn privilege_multiplier(workload: &Workload, container: &ContainerRef, package: &Package) -> (r:
    (u64, Vec<String>))
    ensures
        r.0 == privilege_multiplier_model(workload@, container@, package@),
        r.1.deep_view() == privilege_factors_model(workload@, container@, package@),
{
    let mut multiplier: u64 = 1;
    let mut factors: Vec<String> = Vec::new();
    let privileged = container_is_privileged(container);
    let root = runs_as_root(container);
    let host = workload.host_network || workload.host_pid;
    let entrypoint = entrypoint_matches_package(container, package);
    if privileged {
        factors.push(String::from_str("privileged"));
    }
    if root {
        factors.push(String::from_str("root_user"));
    }
    if host {
        factors.push(String::from_str("host_namespace"));
    }
    if entrypoint {
        factors.push(String::from_str("entrypoint_binary"));
    }
    let ghost applied = privilege_factors_model(workload@, container@, package@);
    assert(factors.deep_view() =~= (if privileged {
        seq!["privileged"@]
    } else {
        Seq::empty()
    }) + (if root {
        seq!["root_user"@]
    } else {
        Seq::empty()
    }) + (if host {
        seq!["host_namespace"@]
    } else {
        Seq::empty()
    }) + (if entrypoint {
        seq!["entrypoint_binary"@]
    } else {
        Seq::empty()
    }));
    if factors.len() == 0 {
        factors.push(String::from_str("standard_privilege"));
        assert(factors.deep_view() =~= seq!["standard_privilege"@]);
    }
    multiplier = (if privileged { PRIVILEGED_MULTIPLIER } else { NEUTRAL_MULTIPLIER }) * (if root {
        ROOT_MULTIPLIER
    } else {
        NEUTRAL_MULTIPLIER
    }) * (if host { HOST_NAMESPACE_MULTIPLIER } else { NEUTRAL_MULTIPLIER }) * (if entrypoint {
        ENTRYPOINT_MULTIPLIER
    } else {
        NEUTRAL_MULTIPLIER
    });
    (multiplier, factors)
}

/// The depth multiplier in tenths and its label (see [`depth_multiplier_model`]).
pub fn depth_multiplier(depth: usize, max_depth: usize) -> (r: (u64, &'static str))
    ensures
        r.0 == depth_multiplier_model(depth, max_depth).0,
        r.1@ == depth_multiplier_model(depth, max_depth).1,
{
    if depth == 0 {
        (BASE_LAYER_MULTIPLIER, "base_layer")
    } else if depth == max_depth {
        (TOP_LAYER_MULTIPLIER, "top_layer")
    } else {
        (INTERMEDIATE_LAYER_MULTIPLIER, "intermediate_layer")
    }
}


/// One match of an advisory against a package of a container layer, before
/// duplicates are dropped.  `container` indexes the workload's containers.
pub struct Candidate {
    pub container: usize,
    pub depth: usize,
    pub max_depth: usize,
    pub package: Package,
    pub cve: Cve,
}

/// The model of a [`Candidate`].
pub struct CandidateModel {
    pub container: usize,
    pub depth: usize,
    pub max_depth: usize,
    pub package: PackageModel,
    pub cve: CveModel,
}

impl View for Candidate {
    type V = CandidateModel;

    open spec fn view(&self) -> CandidateModel {
        CandidateModel {
            container: self.container,
            depth: self.depth,
            max_depth: self.max_depth,
            package: self.package@,
            cve: self.cve@,
        }
    }
}

impl DeepView for Candidate {
    type V = CandidateModel;

    open spec fn deep_view(&self) -> CandidateModel {
        self@
    }
}

/// A container bill of materials belongs to a container with the same name,
/// or with the same image where both name one.
pub open spec fn sbom_belongs_to(s: ContainerSbomModel, c: ContainerModel) -> bool {
    s.container == c.name || (s.image is Some && c.image is Some && s.image.unwrap()
        == c.image.unwrap())
}

/// The index of the first container bill of materials that belongs to `c`.
pub open spec fn first_sbom(sbom: Seq<ContainerSbomModel>, c: ContainerModel) -> Option<int>
    decreases sbom.len(),
{
    if sbom.len() == 0 {
        None
    } else if sbom_belongs_to(sbom[0], c) {
        Some(0)
    } else {
        match first_sbom(sbom.drop_first(), c) {
            Some(k) => Some(k + 1),
            None => None,
        }
    }
}

/// The greatest layer depth, or 0 without layers.
pub open spec fn max_depth_model(layers: Seq<LayerModel>) -> usize
    decreases layers.len(),
{
    if layers.len() == 0 {
        0
    } else if max_depth_model(layers.drop_last()) >= layers.last().depth {
        max_depth_model(layers.drop_last())
    } else {
        layers.last().depth
    }
}

/// Layers go from the top down: deeper layers first.
pub open spec fn layer_order() -> spec_fn(LayerModel, LayerModel) -> bool {
    |a: LayerModel, b: LayerModel| a.depth > b.depth
}

/// The candidates of one package: one per advisory that affects it.
pub open spec fn advisory_candidates(
    container: usize,
    depth: usize,
    max_depth: usize,
    package: PackageModel,
    cves: Seq<CveModel>,
) -> Seq<CandidateModel> {
    Seq::new(
        cves.len(),
        |i: int|
            CandidateModel { container, depth, max_depth, package, cve: cves[i] },
    )
}

/// The candidates of the packages of one layer, in package order.
pub open spec fn package_candidates(
    container: usize,
    depth: usize,
    max_depth: usize,
    packages: Seq<PackageModel>,
    db: Seq<CveModel>,
) -> Seq<CandidateModel>
    decreases packages.len(),
{
    if packages.len() == 0 {
        Seq::empty()
    } else {
        package_candidates(container, depth, max_depth, packages.drop_last(), db)
            + advisory_candidates(
            container,
            depth,
            max_depth,
            packages.last(),
            affecting(db, packages.last()),
        )
    }
}

/// The candidates of a sequence of layers, in that order.
pub open spec fn layer_candidates(
    container: usize,
    layers: Seq<LayerModel>,
    max_depth: usize,
    db: Seq<CveModel>,
) -> Seq<CandidateModel>
    decreases layers.len(),
{
    if layers.len() == 0 {
        Seq::empty()
    } else {
        layer_candidates(container, layers.drop_last(), max_depth, db) + package_candidates(
            container,
            layers.last().depth,
            max_depth,
            layers.last().packages,
            db,
        )
    }
}

/// The candidates of one container: those of the layers of its bill of
/// materials, from the top layer down; none without a bill of materials.
pub open spec fn container_candidates(
    container: usize,
    c: ContainerModel,
    sbom: Seq<ContainerSbomModel>,
    db: Seq<CveModel>,
) -> Seq<CandidateModel> {
    match first_sbom(sbom, c) {
        Some(j) => layer_candidates(
            container,
            crate::sort::sorted_by(sbom[j].layers, layer_order()),
            max_depth_model(sbom[j].layers),
            db,
        ),
        None => Seq::empty(),
    }
}

/// The candidates of the first `n` containers, in container order.
pub open spec fn workload_candidates(
    containers: Seq<ContainerModel>,
    n: int,
    sbom: Seq<ContainerSbomModel>,
    db: Seq<CveModel>,
) -> Seq<CandidateModel>
    decreases n,
{
    if n <= 0 {
        Seq::empty()
    } else {
        workload_candidates(containers, n - 1, sbom, db) + container_candidates(
            (n - 1) as usize,
            containers[n - 1],
            sbom,
            db,
        )
    }
}

impl<'a> crate::sort::SortKey for &'a LayerSbom {
    open spec fn precedes(self, other: Self) -> bool {
        self.depth > other.depth
    }

    proof fn precedes_irreflexive(a: Self) {
    }

    proof fn precedes_transitive(a: Self, b: Self, c: Self) {
    }

    fn goes_before(&self, other: &Self) -> (r: bool) {
        self.depth > other.depth
    }
}

/// The layers of a container bill of materials from the top down; layers of
/// equal depth keep their order.
fn layers_top_down<'a>(layers: &'a Vec<LayerSbom>) -> (r: Vec<&'a LayerSbom>)
    ensures
        r@.map_values(|l: &LayerSbom| l@) == crate::sort::sorted_by(
            layers.deep_view(),
            layer_order(),
        ),
{
    let mut refs: Vec<&'a LayerSbom> = Vec::new();
    let mut i: usize = 0;
    while i < layers.len()
        invariant
            i <= layers.len(),
            refs@.len() == i,
            forall|k: int| 0 <= k < i ==> *(#[trigger] refs@[k]) == layers@[k],
        decreases layers.len() - i,
    {
        refs.push(&layers[i]);
        i = i + 1;
    }
    let ghost input = refs@;
    let sorted = crate::sort::stable_sort(refs);
    proof {
        let m = |l: &LayerSbom| l@;
        assert forall|p: &LayerSbom, q: &LayerSbom| #[trigger]
            crate::sort::key_order::<&LayerSbom>()(p, q) == layer_order()(m(p), m(q)) by {}
        crate::sort::lemma_sorted_by_map(input, crate::sort::key_order::<&LayerSbom>(), layer_order(), m);
        assert(input.map_values(m) =~= layers.deep_view());
    }
    sorted
}

/// The greatest layer depth (see [`max_depth_model`]).
fn max_layer_depth(layers: &Vec<LayerSbom>) -> (r: usize)
    ensures
        r == max_depth_model(layers.deep_view()),
{
    let mut best: usize = 0;
    let mut i: usize = 0;
    while i < layers.len()
        invariant
            i <= layers.len(),
            best == max_depth_model(layers.deep_view().take(i as int)),
        decreases layers.len() - i,
    {
        let ghost prefix = layers.deep_view().take(i + 1);
        assert(prefix.drop_last() =~= layers.deep_view().take(i as int));
        assert(prefix.last() == layers@[i as int]@);
        if layers[i].depth > best {
            best = layers[i].depth;
        }
        i = i + 1;
    }
    assert(layers.deep_view().take(layers.len() as int) =~= layers.deep_view());
    best
}

/// The index of the first container bill of materials that belongs to the
/// container (see [`first_sbom`]).
fn find_container_sbom(sbom: &Sbom, container: &ContainerRef) -> (r: Option<usize>)
    ensures
        r matches Some(j) ==> first_sbom(sbom@, container@) == Some(j as int) && j < sbom@.len(),
        r is None ==> first_sbom(sbom@, container@) is None,
{
    let mut j: usize = 0;
    assert(sbom@.skip(0) =~= sbom@);
    while j < sbom.containers.len()
        invariant
            j <= sbom.containers.len(),
            first_sbom(sbom@, container@) == (match first_sbom(sbom@.skip(j as int), container@) {
                Some(k) => Some(k + j),
                None => None,
            }),
        decreases sbom.containers.len() - j,
    {
        let candidate = &sbom.containers[j];
        let ghost rest = sbom@.skip(j as int);
        assert(rest[0] == candidate@);
        assert(rest.drop_first() =~= sbom@.skip(j + 1));
        let same_image = match (&candidate.image, &container.image) {
            (Some(left), Some(right)) => *left == *right,
            _ => false,
        };
        if candidate.container == container.name || same_image {
            return Some(j);
        }
        j = j + 1;
    }
    None
}

/// Appends the candidates of one layer.
fn push_layer_candidates(
    out: &mut Vec<Candidate>,
    container: usize,
    layer: &LayerSbom,
    max_depth: usize,
    db: &CveDatabase,
)
    ensures
        final(out).deep_view() == old(out).deep_view() + package_candidates(
            container,
            layer.depth,
            max_depth,
            layer@.packages,
            db@,
        ),
{
    let ghost base = out.deep_view();
    let mut p: usize = 0;
    while p < layer.packages.len()
        invariant
            p <= layer.packages.len(),
            out.deep_view() == base + package_candidates(
                container,
                layer.depth,
                max_depth,
                layer@.packages.take(p as int),
                db@,
            ),
        decreases layer.packages.len() - p,
    {
        let package = &layer.packages[p];
        let found = db.find(package);
        let ghost mid = out.deep_view();
        let mut c: usize = 0;
        while c < found.len()
            invariant
                c <= found.len(),
                out.deep_view() == mid + advisory_candidates(
                    container,
                    layer.depth,
                    max_depth,
                    package@,
                    found.deep_view().take(c as int),
                ),
            decreases found.len() - c,
        {
            let candidate = Candidate {
                container,
                depth: layer.depth,
                max_depth,
                package: package.duplicate(),
                cve: found[c].duplicate(),
            };
            let ghost before = out.deep_view();
            out.push(candidate);
            assert(out.deep_view() =~= before.push(candidate@));
            c = c + 1;
            assert(out.deep_view() =~= mid + advisory_candidates(
                container,
                layer.depth,
                max_depth,
                package@,
                found.deep_view().take(c as int),
            ));
        }
        assert(found.deep_view().take(found.len() as int) =~= found.deep_view());
        let ghost prefix = layer@.packages.take(p + 1);
        assert(prefix.drop_last() =~= layer@.packages.take(p as int));
        assert(prefix.last() == package@);
        p = p + 1;
        assert(out.deep_view() =~= base + package_candidates(
            container,
            layer.depth,
            max_depth,
            layer@.packages.take(p as int),
            db@,
        ));
    }
    assert(layer@.packages.take(layer.packages.len() as int) =~= layer@.packages);
}

/// The candidates of all containers of a workload (see [`workload_candidates`]).
pub fn collect_candidates(workload: &Workload, sbom: &Sbom, db: &CveDatabase) -> (r: Vec<Candidate>)
    ensures
        r.deep_view() == workload_candidates(
            workload@.containers,
            workload@.containers.len() as int,
            sbom@,
            db@,
        ),
        forall|i: int| 0 <= i < r@.len() ==> (#[trigger] r@[i]).container < workload@.containers.len(),
{
    let mut out: Vec<Candidate> = Vec::new();
    let mut c: usize = 0;
    while c < workload.containers.len()
        invariant
            c <= workload.containers.len(),
            out.deep_view() == workload_candidates(workload@.containers, c as int, sbom@, db@),
        decreases workload.containers.len() - c,
    {
        let container = &workload.containers[c];
        assert(workload@.containers[c as int] == container@);
        let ghost base = out.deep_view();
        match find_container_sbom(sbom, container) {
            None => {},
            Some(j) => {
                let container_sbom = &sbom.containers[j];
                assert(sbom@[j as int] == container_sbom@);
                let top_down = layers_top_down(&container_sbom.layers);
                let max_depth = max_layer_depth(&container_sbom.layers);
                let ghost ordered = top_down@.map_values(|l: &LayerSbom| l@);
                let mut l: usize = 0;
                while l < top_down.len()
                    invariant
                        l <= top_down.len(),
                        ordered == top_down@.map_values(|l: &LayerSbom| l@),
                        out.deep_view() == base + layer_candidates(
                            c,
                            ordered.take(l as int),
                            max_depth,
                            db@,
                        ),
                    decreases top_down.len() - l,
                {
                    let layer = top_down[l];
                    push_layer_candidates(&mut out, c, layer, max_depth, db);
                    let ghost prefix = ordered.take(l + 1);
                    assert(prefix.drop_last() =~= ordered.take(l as int));
                    assert(prefix.last() == layer@);
                    l = l + 1;
                }
                assert(ordered.take(top_down.len() as int) =~= ordered);
            },
        }
        c = c + 1;
    }
    proof {
        lemma_workload_candidates_container(
            workload@.containers,
            workload@.containers.len() as int,
            sbom@,
            db@,
        );
        assert forall|i: int| 0 <= i < out@.len() implies (#[trigger] out@[i]).container
            < workload@.containers.len() by {
            assert(out.deep_view()[i] == out@[i]@);
        }
    }
    out
}

pub proof fn lemma_package_candidates_container(
    container: usize,
    depth: usize,
    max_depth: usize,
    packages: Seq<PackageModel>,
    db: Seq<CveModel>,
)
    ensures
        forall|i: int|
            0 <= i < package_candidates(container, depth, max_depth, packages, db).len() ==> (
            #[trigger] package_candidates(container, depth, max_depth, packages, db)[i]).container
                == container,
    decreases packages.len(),
{
    if packages.len() > 0 {
        lemma_package_candidates_container(container, depth, max_depth, packages.drop_last(), db);
    }
}

pub proof fn lemma_layer_candidates_container(
    container: usize,
    layers: Seq<LayerModel>,
    max_depth: usize,
    db: Seq<CveModel>,
)
    ensures
        forall|i: int|
            0 <= i < layer_candidates(container, layers, max_depth, db).len() ==> (
            #[trigger] layer_candidates(container, layers, max_depth, db)[i]).container
                == container,
    decreases layers.len(),
{
    if layers.len() > 0 {
        lemma_layer_candidates_container(container, layers.drop_last(), max_depth, db);
        lemma_package_candidates_container(
            container,
            layers.last().depth,
            max_depth,
            layers.last().packages,
            db,
        );
    }
}

/// Every candidate of the first `n` containers names one of them.
pub proof fn lemma_workload_candidates_container(
    containers: Seq<ContainerModel>,
    n: int,
    sbom: Seq<ContainerSbomModel>,
    db: Seq<CveModel>,
)
    requires
        0 <= n <= usize::MAX + 1,
    ensures
        forall|i: int|
            0 <= i < workload_candidates(containers, n, sbom, db).len() ==> (
            #[trigger] workload_candidates(containers, n, sbom, db)[i]).container < n,
    decreases n,
{
    if n > 0 {
        lemma_workload_candidates_container(containers, n - 1, sbom, db);
        let c = containers[n - 1];
        match first_sbom(sbom, c) {
            Some(j) => lemma_layer_candidates_container(
                (n - 1) as usize,
                crate::sort::sorted_by(sbom[j].layers, layer_order()),
                max_depth_model(sbom[j].layers),
                db,
            ),
            None => {},
        }
    }
}


/// The key by which findings are de-duplicated: container name, canonical
/// package name, advisory identifier.
pub open spec fn candidate_key(containers: Seq<ContainerModel>, c: CandidateModel) -> (
    Seq<char>,
    Seq<char>,
    Seq<char>,
) {
    (containers[c.container as int].name, package_name_model(c.package.name), c.cve.id)
}

/// The candidates whose key no earlier candidate has, in order.
pub open spec fn first_occurrences(
    containers: Seq<ContainerModel>,
    cands: Seq<CandidateModel>,
) -> Seq<CandidateModel>
    decreases cands.len(),
{
    if cands.len() == 0 {
        cands
    } else {
        let prev = first_occurrences(containers, cands.drop_last());
        if exists|i: int|
            0 <= i < cands.len() - 1 && candidate_key(containers, cands[i]) == candidate_key(
                containers,
                cands.last(),
            ) {
            prev
        } else {
            prev.push(cands.last())
        }
    }
}

/// A de-duplication key.
struct FindingKey {
    container: String,
    package: String,
    cve: String,
}

/// Whether some earlier candidate has the key `key`.
pub open spec fn key_seen(
    containers: Seq<ContainerModel>,
    cands: Seq<CandidateModel>,
    n: int,
    key: (Seq<char>, Seq<char>, Seq<char>),
) -> bool {
    exists|i: int| 0 <= i < n && #[trigger] candidate_key(containers, cands[i]) == key
}

/// Drops every candidate whose key an earlier candidate has (see [`first_occurrences`]).
pub fn keep_first_occurrences(workload: &Workload, cands: Vec<Candidate>) -> (r: Vec<Candidate>)
    requires
        forall|i: int| 0 <= i < cands@.len() ==> (#[trigger] cands@[i]).container < workload@.containers.len(),
    ensures
        r.deep_view() == first_occurrences(workload@.containers, cands.deep_view()),
        forall|i: int| 0 <= i < r@.len() ==> (#[trigger] r@[i]).container < workload@.containers.len(),
{
    let ghost cs = workload@.containers;
    let ghost all = cands.deep_view();
    let mut seen: Vec<FindingKey> = Vec::new();
    let mut kept: Vec<Candidate> = Vec::new();
    let mut rest = cands;
    let mut i: usize = 0;
    assert(all.skip(0) =~= all);
    let n = rest.len();
    assert(all.len() == n);
    while rest.len() > 0
        invariant
            i <= all.len() <= usize::MAX,
            cs == workload@.containers,
            rest.deep_view() == all.skip(i as int),
            forall|k: int| 0 <= k < all.len() ==> (#[trigger] all[k]).container < cs.len(),
            kept.deep_view() == first_occurrences(cs, all.take(i as int)),
            forall|k: int| 0 <= k < kept@.len() ==> (#[trigger] kept@[k]).container < cs.len(),
            forall|k: int|
                0 <= k < seen@.len() ==> key_seen(
                    cs,
                    all,
                    i as int,
                    (seen@[k].container@, seen@[k].package@, seen@[k].cve@),
                ),
            forall|k: int|
                0 <= k < i ==> exists|j: int|
                    0 <= j < seen@.len() && (seen@[j].container@, seen@[j].package@, seen@[j].cve@)
                        == #[trigger] candidate_key(cs, all[k]),
        decreases rest.len(),
    {
        let ghost old_rest = rest@;
        assert(rest.deep_view().len() == rest@.len());
        assert(all.skip(i as int)[0] == all[i as int]);
        assert(rest.deep_view()[0] == rest@[0]@);
        let candidate = rest.remove(0);
        assert(rest@ == old_rest.remove(0));
        assert(rest.deep_view() =~= all.skip(i + 1)) by {
            assert forall|k: int| 0 <= k < rest@.len() implies rest.deep_view()[k] == all.skip(
                i + 1,
            )[k] by {
                assert(rest@[k] == old_rest[k + 1]);
                assert(all.skip(i as int)[k + 1] == all.skip(i + 1)[k]);
            }
        }
        assert(candidate@ == all[i as int]);
        let key = FindingKey {
            container: workload.containers[candidate.container].name.clone(),
            package: normalize_name(candidate.package.name.as_str()),
            cve: candidate.cve.id.clone(),
        };
        assert((key.container@, key.package@, key.cve@) == candidate_key(cs, all[i as int]));
        let mut j: usize = 0;
        let mut duplicate = false;
        while j < seen.len() && !duplicate
            invariant
                j <= seen.len(),
                duplicate ==> exists|k: int|
                    0 <= k < seen@.len() && (seen@[k].container@, seen@[k].package@, seen@[k].cve@)
                        == (key.container@, key.package@, key.cve@),
                !duplicate ==> forall|k: int|
                    0 <= k < j ==> (seen@[k].container@, seen@[k].package@, seen@[k].cve@) != (
                        key.container@,
                        key.package@,
                        key.cve@,
                    ),
            decreases seen.len() - j,
        {
            if seen[j].container == key.container && seen[j].package == key.package && seen[j].cve
                == key.cve {
                duplicate = true;
            }
            j = j + 1;
        }
        let ghost prefix = all.take(i + 1);
        assert(prefix.drop_last() =~= all.take(i as int));
        assert(prefix.last() == all[i as int]);
        proof {
            if duplicate {
                let k = choose|k: int|
                    0 <= k < i && #[trigger] candidate_key(cs, all[k]) == (
                        key.container@,
                        key.package@,
                        key.cve@,
                    );
                assert(prefix[k] == all[k]);
            } else {
                assert forall|k: int| 0 <= k < prefix.len() - 1 implies candidate_key(
                    cs,
                    prefix[k],
                ) != candidate_key(cs, prefix.last()) by {
                    assert(prefix[k] == all[k]);
                }
            }
        }
        let ghost old_seen = seen@;
        let ghost new_key = (key.container@, key.package@, key.cve@);
        if !duplicate {
            seen.push(key);
            let ghost before = kept.deep_view();
            kept.push(candidate);
            assert(kept.deep_view() =~= before.push(candidate@));
        }
        proof {
            assert forall|k: int| 0 <= k < i + 1 implies exists|j: int|
                0 <= j < seen@.len() && (seen@[j].container@, seen@[j].package@, seen@[j].cve@)
                    == #[trigger] candidate_key(cs, all[k]) by {
                if k < i {
                    let j = choose|j: int|
                        0 <= j < old_seen.len() && (
                            old_seen[j].container@,
                            old_seen[j].package@,
                            old_seen[j].cve@,
                        ) == #[trigger] candidate_key(cs, all[k]);
                    assert(seen@[j] == old_seen[j]);
                } else if duplicate {
                    let j = choose|j: int|
                        0 <= j < old_seen.len() && (
                            old_seen[j].container@,
                            old_seen[j].package@,
                            old_seen[j].cve@,
                        ) == new_key;
                    assert(seen@[j] == old_seen[j]);
                } else {
                    let j = old_seen.len() as int;
                    assert((seen@[j].container@, seen@[j].package@, seen@[j].cve@) == new_key);
                }
            }
            assert forall|k: int| 0 <= k < seen@.len() implies key_seen(
                cs,
                all,
                i + 1,
                (seen@[k].container@, seen@[k].package@, seen@[k].cve@),
            ) by {
                if k < old_seen.len() {
                    assert(seen@[k] == old_seen[k]);
                    let w = choose|w: int|
                        0 <= w < i && #[trigger] candidate_key(cs, all[w]) == (
                            old_seen[k].container@,
                            old_seen[k].package@,
                            old_seen[k].cve@,
                        );
                    assert(0 <= w < i + 1 && candidate_key(cs, all[w]) == (
                        seen@[k].container@,
                        seen@[k].package@,
                        seen@[k].cve@,
                    ));
                } else {
                    assert(candidate_key(cs, all[i as int]) == new_key);
                }
            }
        }
        i = i + 1;
    }
    assert(all.take(all.len() as int) =~= all);
    kept
}



/// The finding that a candidate becomes.
pub open spec fn finding_model(w: WorkloadModel, workload_name: Seq<char>, cand: CandidateModel) -> FindingModel {
    let c = w.containers[cand.container as int];
    let depth = depth_multiplier_model(cand.depth, cand.max_depth);
    FindingModel {
        workload: workload_name,
        container: c.name,
        package: PackageFindingModel {
            name: cand.package.name,
            version: cand.package.version,
            ecosystem: ecosystem_model(cand.package.ecosystem),
            source_path: cand.package.source_path,
            layer_depth: cand.depth,
        },
        cve: CveFindingModel {
            id: cand.cve.id,
            aliases: cand.cve.aliases,
            summary: cand.cve.summary,
            cvss_score: cand.cve.cvss_score,
        },
        severity: cand.cve.severity,
        contributing_factors: privilege_factors_model(w, c, cand.package) + seq![
            "severity:"@ + severity_label(cand.cve.severity),
            depth.1,
        ],
        score: finding_score_model(
            severity_weight(cand.cve.severity),
            privilege_multiplier_model(w, c, cand.package),
            depth.0,
        ),
    }
}

/// The finding order: higher score first, then by container name, package
/// name and advisory identifier.
pub open spec fn finding_order() -> spec_fn(FindingModel, FindingModel) -> bool {
    |a: FindingModel, b: FindingModel|
        a.score > b.score || (a.score == b.score && (seq_less(a.container, b.container) || (
        a.container == b.container && (seq_less(a.package.name, b.package.name) || (a.package.name
            == b.package.name && seq_less(a.cve.id, b.cve.id))))))
}

impl crate::sort::SortKey for Finding {
    open spec fn precedes(self, other: Self) -> bool {
        finding_order()(self@, other@)
    }

    proof fn precedes_irreflexive(a: Self) {
        lemma_seq_less_irreflexive(a.container@);
        lemma_seq_less_irreflexive(a.package.name@);
        lemma_seq_less_irreflexive(a.cve.id@);
    }

    proof fn precedes_transitive(a: Self, b: Self, c: Self) {
        if seq_less(a.container@, b.container@) && seq_less(b.container@, c.container@) {
            lemma_seq_less_transitive(a.container@, b.container@, c.container@);
        }
        if seq_less(a.package.name@, b.package.name@) && seq_less(
            b.package.name@,
            c.package.name@,
        ) {
            lemma_seq_less_transitive(a.package.name@, b.package.name@, c.package.name@);
        }
        if seq_less(a.cve.id@, b.cve.id@) && seq_less(b.cve.id@, c.cve.id@) {
            lemma_seq_less_transitive(a.cve.id@, b.cve.id@, c.cve.id@);
        }
    }

    fn goes_before(&self, other: &Self) -> (r: bool) {
        if self.score != other.score {
            return self.score > other.score;
        }
        if self.container != other.container {
            return str_less(self.container.as_str(), other.container.as_str());
        }
        proof {
            lemma_seq_less_irreflexive(self.container@);
            lemma_seq_less_irreflexive(self.package.name@);
        }
        if self.package.name != other.package.name {
            return str_less(self.package.name.as_str(), other.package.name.as_str());
        }
        str_less(self.cve.id.as_str(), other.cve.id.as_str())
    }
}

/// The sum of the scores of findings.
pub open spec fn total_score(findings: Seq<FindingModel>) -> nat
    decreases findings.len(),
{
    if findings.len() == 0 {
        0
    } else {
        total_score(findings.drop_last()) + findings.last().score as nat
    }
}

/// The report of a workload: its candidates, without duplicates, become
/// findings in finding order; the index is the sum of their scores.
pub open spec fn workload_report_model(
    w: WorkloadModel,
    sbom: Seq<ContainerSbomModel>,
    db: Seq<CveModel>,
) -> WorkloadReportModel {
    let name = display_name_model(w.name, w.namespace);
    let unique = first_occurrences(
        w.containers,
        workload_candidates(w.containers, w.containers.len() as int, sbom, db),
    );
    let findings = crate::sort::sorted_by(
        Seq::new(unique.len(), |i: int| finding_model(w, name, unique[i])),
        finding_order(),
    );
    WorkloadReportModel {
        workload_ref: WorkloadRefModel { kind: w.kind, name: w.name, namespace: w.namespace },
        findings,
        cii_total: total_score(findings) as u128,
    }
}

/// The privilege multiplier is at most 9.0.
proof fn lemma_privilege_multiplier_bound(w: WorkloadModel, c: ContainerModel, p: PackageModel)
    ensures
        privilege_multiplier_model(w, c, p) <= 90000,
{
    let a: int = if privileged_model(c) { 20 } else { 10 };
    let b: int = if root_model(c) { 15 } else { 10 };
    let d: int = if host_namespace_model(w) { 15 } else { 10 };
    let e: int = if entrypoint_model(c, p) { 20 } else { 10 };
    assert(a * b * d * e <= 90000 && a * b * d * e >= 0) by (nonlinear_arith)
        requires
            10 <= a <= 20,
            10 <= b <= 15,
            10 <= d <= 15,
            10 <= e <= 20,
    ;
}

/// The finding that a candidate becomes (see [`finding_model`]).
fn make_finding(workload: &Workload, workload_name: &String, cand: &Candidate) -> (r: Finding)
    requires
        cand.container < workload@.containers.len(),
    ensures
        r@ == finding_model(workload@, workload_name@, cand@),
{
    let container = &workload.containers[cand.container];
    assert(workload@.containers[cand.container as int] == container@);
    let (privilege, mut factors) = privilege_multiplier(workload, container, &cand.package);
    let (depth, depth_label) = depth_multiplier(cand.depth, cand.max_depth);
    let mut severity_factor = String::from_str("severity:");
    severity_factor.append(cand.cve.severity.as_str());
    let ghost base = factors.deep_view();
    factors.push(severity_factor);
    factors.push(String::from_str(depth_label));
    assert(factors.deep_view() =~= base + seq![
        "severity:"@ + severity_label(cand.cve.severity),
        depth_multiplier_model(cand.depth, cand.max_depth).1,
    ]);
    let weight = cand.cve.severity.weight();
    proof {
        lemma_privilege_multiplier_bound(workload@, container@, cand.package@);
    }
    assert(weight * privilege * depth <= 10 * 90000 * 13) by (nonlinear_arith)
        requires
            weight <= 10,
            privilege <= 90000,
            depth <= 13,
    ;
    let score = (weight * privilege * depth + 500) / 1000;
    Finding {
        workload: workload_name.clone(),
        container: container.name.clone(),
        package: PackageFinding {
            name: cand.package.name.clone(),
            version: cand.package.version.clone(),
            ecosystem: normalize_ecosystem(cand.package.ecosystem.as_str()),
            source_path: cand.package.source_path.clone(),
            layer_depth: cand.depth,
        },
        cve: cand.cve.report_ref(),
        severity: cand.cve.severity,
        contributing_factors: factors,
        score,
    }
}

/// Scores one workload against its bills of materials and an advisory
/// database (see [`workload_report_model`]).
pub fn score(workload: &Workload, sbom: &Sbom, cves: &CveDatabase) -> (r: WorkloadReport)
    ensures
        r@ == workload_report_model(workload@, sbom@, cves@),
{
    let workload_ref = WorkloadRef {
        kind: workload.kind,
        name: workload.name.clone(),
        namespace: match &workload.namespace {
            Some(ns) => Some(ns.clone()),
            None => None,
        },
    };
    let workload_name = workload_ref.display_name();
    let candidates = collect_candidates(workload, sbom, cves);
    let unique = keep_first_occurrences(workload, candidates);
    let ghost models = Seq::new(
        unique@.len(),
        |i: int| finding_model(workload@, workload_name@, unique.deep_view()[i]),
    );
    let mut findings: Vec<Finding> = Vec::new();
    let mut i: usize = 0;
    while i < unique.len()
        invariant
            i <= unique.len(),
            forall|k: int| 0 <= k < unique@.len() ==> (#[trigger] unique@[k]).container < workload@.containers.len(),
            models == Seq::new(
                unique@.len(),
                |i: int| finding_model(workload@, workload_name@, unique.deep_view()[i]),
            ),
            findings.deep_view() == models.take(i as int),
        decreases unique.len() - i,
    {
        let f = make_finding(workload, &workload_name, &unique[i]);
        let ghost before = findings.deep_view();
        findings.push(f);
        assert(findings.deep_view() =~= before.push(f@));
        i = i + 1;
        assert(findings.deep_view() =~= models.take(i as int));
    }
    assert(models.take(unique.len() as int) =~= models);
    let ghost input = findings@;
    let sorted = crate::sort::stable_sort(findings);
    proof {
        let m = |f: Finding| f@;
        assert forall|p: Finding, q: Finding| #[trigger]
            crate::sort::key_order::<Finding>()(p, q) == finding_order()(m(p), m(q)) by {}
        crate::sort::lemma_sorted_by_map(input, crate::sort::key_order::<Finding>(), finding_order(), m);
        assert(input.map_values(m) =~= models);
        assert(sorted.deep_view() =~= crate::sort::sorted_by(input, crate::sort::key_order::<Finding>()).map_values(m));
    }
    let mut total: u128 = 0;
    let mut j: usize = 0;
    while j < sorted.len()
        invariant
            j <= sorted.len(),
            total == total_score(sorted.deep_view().take(j as int)),
            total <= j * 0xffff_ffff_ffff_ffff,
        decreases sorted.len() - j,
    {
        let ghost prefix = sorted.deep_view().take(j + 1);
        assert(prefix.drop_last() =~= sorted.deep_view().take(j as int));
        assert(prefix.last() == sorted@[j as int]@);
        assert(j * 0xffff_ffff_ffff_ffff + 0xffff_ffff_ffff_ffff <= 0xffff_ffff_ffff_ffff_ffff_ffff_ffff_ffff) by (nonlinear_arith)
            requires
                j <= 0xffff_ffff_ffff_ffff,
        ;
        total = total + sorted[j].score as u128;
        j = j + 1;
    }
    assert(sorted.deep_view().take(sorted.len() as int) =~= sorted.deep_view());
    WorkloadReport { workload_ref, findings: sorted, cii_total: total }
}

/// A way of scoring a workload against its bills of materials and an
/// advisory database.
pub trait Scorer {
    fn score(&self, workload: &Workload, sbom: &Sbom, cves: &CveDatabase) -> WorkloadReport;
}

/// The Component Importance Index scorer.
#[derive(Debug, Clone, Copy, Default)]
pub struct CiiScorer;

impl Scorer for CiiScorer {
    /// Scores by the Component Importance Index (see [`workload_report_model`]).
    fn score(&self, workload: &Workload, sbom: &Sbom, cves: &CveDatabase) -> (r: WorkloadReport)
        ensures
            r@ == workload_report_model(workload@, sbom@, cves@),
    {
        score(workload, sbom, cves)
    }
}

/// A container without a security context runs as root: the root factor
/// applies, and with every other factor neutral the privilege multiplier is
/// 1.5 (15000 ten-thousandths) and `root_user` is among the factors.
pub proof fn no_security_context_runs_as_root(w: WorkloadModel, c: ContainerModel, p: PackageModel)
    requires
        c.security_context is None,
    ensures
        root_model(c),
        !privileged_model(c),
        privilege_factors_model(w, c, p).contains("root_user"@),
        !host_namespace_model(w) && !entrypoint_model(c, p) ==> privilege_multiplier_model(w, c, p)
            == 15000,
{
    let f = privilege_factors_model(w, c, p);
    let applied = seq!["root_user"@] + (if host_namespace_model(w) {
        seq!["host_namespace"@]
    } else {
        Seq::empty()
    }) + (if entrypoint_model(c, p) {
        seq!["entrypoint_binary"@]
    } else {
        Seq::empty()
    });
    assert(applied[0] == "root_user"@);
    assert(Seq::<Seq<char>>::empty() + applied =~= applied);
}

} // verus!
