//! What holds of every workload report: its findings come in order, each
//! de-duplication key once, the topmost layer wins, and the index is the sum
//! of the finding scores.

use vstd::prelude::*;

use crate::advisory::{package_name_model, CveModel};
use crate::layer::ContainerSbomModel;
use crate::manifest::{ContainerModel, WorkloadModel};
use crate::report::{report_order, FindingModel, WorkloadReportModel};
use crate::layer::LayerModel;
use crate::score::{
    advisory_candidates, container_candidates, first_sbom, layer_candidates, layer_order,
    lemma_layer_candidates_container, lemma_workload_candidates_container, max_depth_model,
    package_candidates, candidate_key, finding_model, finding_order, first_occurrences, total_score,
    workload_candidates, workload_report_model, CandidateModel,
};
use crate::sort::{is_sorted_by, is_strict_order, lemma_sorted_by_permutes, lemma_sorted_by_sorted, sorted_by};
use crate::text::{lemma_seq_less_irreflexive, lemma_seq_less_transitive, seq_less};

verus! {

broadcast use vstd::seq_lib::group_seq_properties;

/// The key by which a finding was de-duplicated: container name, canonical
/// package name, advisory identifier.
pub open spec fn finding_key(f: FindingModel) -> (Seq<char>, Seq<char>, Seq<char>) {
    (f.container, package_name_model(f.package.name), f.cve.id)
}

/// No two elements of `s` share a key.
pub open spec fn keys_distinct<A, K>(s: Seq<A>, key: spec_fn(A) -> K) -> bool {
    forall|i: int, j: int| 0 <= i < j < s.len() ==> key(#[trigger] s[i]) != key(#[trigger] s[j])
}

proof fn lemma_finding_order_strict()
    ensures
        is_strict_order(finding_order()),
{
    assert forall|a: FindingModel| !(#[trigger] finding_order()(a, a)) by {
        lemma_seq_less_irreflexive(a.container);
        lemma_seq_less_irreflexive(a.package.name);
        lemma_seq_less_irreflexive(a.cve.id);
    }
    assert forall|a: FindingModel, b: FindingModel, c: FindingModel| #[trigger]
        finding_order()(a, b) && #[trigger] finding_order()(b, c) implies finding_order()(a, c) by {
        if seq_less(a.container, b.container) && seq_less(b.container, c.container) {
            lemma_seq_less_transitive(a.container, b.container, c.container);
        }
        if seq_less(a.package.name, b.package.name) && seq_less(b.package.name, c.package.name) {
            lemma_seq_less_transitive(a.package.name, b.package.name, c.package.name);
        }
        if seq_less(a.cve.id, b.cve.id) && seq_less(b.cve.id, c.cve.id) {
            lemma_seq_less_transitive(a.cve.id, b.cve.id, c.cve.id);
        }
    }
}

/// The findings of every workload report come in finding order: higher
/// score first, then by container, package and advisory.
pub proof fn findings_in_finding_order(
    w: WorkloadModel,
    sbom: Seq<ContainerSbomModel>,
    db: Seq<CveModel>,
)
    ensures
        is_sorted_by(workload_report_model(w, sbom, db).findings, finding_order()),
{
    lemma_finding_order_strict();
    let name = crate::report::display_name_model(w.name, w.namespace);
    let unique = first_occurrences(
        w.containers,
        workload_candidates(w.containers, w.containers.len() as int, sbom, db),
    );
    lemma_sorted_by_sorted(
        Seq::new(unique.len(), |i: int| finding_model(w, name, unique[i])),
        finding_order(),
    );
}

proof fn lemma_total_score_bound(findings: Seq<FindingModel>)
    ensures
        total_score(findings) <= findings.len() * 0xffff_ffff_ffff_ffff,
    decreases findings.len(),
{
    if findings.len() > 0 {
        lemma_total_score_bound(findings.drop_last());
    }
}

/// The index of every workload report is the sum of its finding scores
/// (for as many findings as a vector can hold).
pub proof fn index_is_sum_of_scores(
    w: WorkloadModel,
    sbom: Seq<ContainerSbomModel>,
    db: Seq<CveModel>,
)
    requires
        workload_report_model(w, sbom, db).findings.len() <= usize::MAX,
    ensures
        workload_report_model(w, sbom, db).cii_total == total_score(
            workload_report_model(w, sbom, db).findings,
        ),
{
    let findings = workload_report_model(w, sbom, db).findings;
    lemma_total_score_bound(findings);
    assert(findings.len() * 0xffff_ffff_ffff_ffff <= 0xffff_ffff_ffff_ffff_ffff_ffff_ffff_ffff) by (nonlinear_arith)
        requires
            findings.len() <= 0xffff_ffff_ffff_ffff,
    ;
}

/// Every element of the stable sort of `s` is an element of `s`, and back.
proof fn lemma_sorted_by_same_elements<A>(s: Seq<A>, before: spec_fn(A, A) -> bool)
    ensures
        forall|x: A| #[trigger] sorted_by(s, before).contains(x) <==> s.contains(x),
{
    lemma_sorted_by_permutes(s, before);
    s.to_multiset_ensures();
    sorted_by(s, before).to_multiset_ensures();
    assert forall|x: A| #[trigger] sorted_by(s, before).contains(x) <==> s.contains(x) by {
        assert(sorted_by(s, before).to_multiset().count(x) == s.to_multiset().count(x));
    }
}

/// The stable sort keeps keys distinct.
proof fn lemma_sorted_by_distinct<A, K>(s: Seq<A>, before: spec_fn(A, A) -> bool, key: spec_fn(A) -> K)
    requires
        keys_distinct(s, key),
    ensures
        keys_distinct(sorted_by(s, before), key),
    decreases s.len(),
{
    if s.len() > 0 {
        let rest = s.drop_last();
        let x = s.last();
        assert(keys_distinct(rest, key)) by {
            assert forall|i: int, j: int| 0 <= i < j < rest.len() implies key(#[trigger] rest[i])
                != key(#[trigger] rest[j]) by {
                assert(rest[i] == s[i] && rest[j] == s[j]);
            }
        }
        lemma_sorted_by_distinct(rest, before, key);
        lemma_sorted_by_same_elements(rest, before);
        let prev = sorted_by(rest, before);
        crate::sort::lemma_sorted_by_permutes(rest, before);
        let k = crate::sort::insert_position(prev, x, before);
        lemma_insert_position_bound(prev, x, before);
        let ins = prev.insert(k, x);
        assert forall|i: int| 0 <= i < prev.len() implies key(#[trigger] prev[i]) != key(x) by {
            assert(prev.contains(prev[i]));
            let j = choose|j: int| 0 <= j < rest.len() && rest[j] == prev[i];
            assert(s[j] == rest[j]);
            assert(s[s.len() - 1] == x);
        }
        assert forall|i: int, j: int| 0 <= i < j < ins.len() implies key(#[trigger] ins[i]) != key(
            #[trigger] ins[j],
        ) by {
            if j < k {
                assert(ins[i] == prev[i] && ins[j] == prev[j]);
            } else if j == k {
                assert(ins[i] == prev[i]);
            } else if i == k {
                assert(ins[j] == prev[j - 1]);
            } else if i < k {
                assert(ins[i] == prev[i] && ins[j] == prev[j - 1]);
            } else {
                assert(ins[i] == prev[i - 1] && ins[j] == prev[j - 1]);
            }
        }
    }
}

proof fn lemma_insert_position_bound<A>(s: Seq<A>, x: A, before: spec_fn(A, A) -> bool)
    ensures
        0 <= crate::sort::insert_position(s, x, before) <= s.len(),
    decreases s.len(),
{
    if s.len() > 0 && !before(x, s[0]) {
        lemma_insert_position_bound(s.drop_first(), x, before);
    }
}

/// Where each kept candidate came from: the first candidate with its key.
proof fn lemma_first_occurrences_origin(cs: Seq<ContainerModel>, cands: Seq<CandidateModel>)
    ensures
        forall|k: int|
            0 <= k < first_occurrences(cs, cands).len() ==> exists|p: int|
                0 <= p < cands.len() && cands[p] == #[trigger] first_occurrences(cs, cands)[k]
                    && forall|i: int|
                    0 <= i < p ==> candidate_key(cs, #[trigger] cands[i]) != candidate_key(
                        cs,
                        cands[p],
                    ),
    decreases cands.len(),
{
    if cands.len() > 0 {
        let rest = cands.drop_last();
        let x = cands.last();
        let prev = first_occurrences(cs, rest);
        let res = first_occurrences(cs, cands);
        lemma_first_occurrences_origin(cs, rest);
        assert forall|k: int| 0 <= k < res.len() implies exists|p: int|
            0 <= p < cands.len() && cands[p] == #[trigger] res[k] && forall|i: int|
                0 <= i < p ==> candidate_key(cs, #[trigger] cands[i]) != candidate_key(cs, cands[p]) by {
            if k < prev.len() {
                assert(res[k] == prev[k]);
                let p = choose|p: int|
                    0 <= p < rest.len() && rest[p] == prev[k] && forall|i: int|
                        0 <= i < p ==> candidate_key(cs, #[trigger] rest[i]) != candidate_key(
                            cs,
                            rest[p],
                        );
                assert(cands[p] == rest[p]);
                assert forall|i: int| 0 <= i < p implies candidate_key(cs, #[trigger] cands[i])
                    != candidate_key(cs, cands[p]) by {
                    assert(cands[i] == rest[i]);
                }
            } else {
                let p = cands.len() - 1;
                assert(cands[p] == x);
                assert forall|i: int| 0 <= i < p implies candidate_key(cs, #[trigger] cands[i])
                    != candidate_key(cs, cands[p]) by {}
            }
        }
    }
}

/// The kept candidates have distinct keys.
proof fn lemma_first_occurrences_distinct(cs: Seq<ContainerModel>, cands: Seq<CandidateModel>)
    ensures
        keys_distinct(first_occurrences(cs, cands), |c: CandidateModel| candidate_key(cs, c)),
    decreases cands.len(),
{
    if cands.len() > 0 {
        let rest = cands.drop_last();
        let x = cands.last();
        let prev = first_occurrences(cs, rest);
        let res = first_occurrences(cs, cands);
        let key = |c: CandidateModel| candidate_key(cs, c);
        lemma_first_occurrences_distinct(cs, rest);
        lemma_first_occurrences_origin(cs, rest);
        assert forall|i: int, j: int| 0 <= i < j < res.len() implies key(#[trigger] res[i]) != key(
            #[trigger] res[j],
        ) by {
            if j < prev.len() {
                assert(res[i] == prev[i] && res[j] == prev[j]);
            } else {
                assert(res[j] == x && res[i] == prev[i]);
                let p = choose|p: int|
                    0 <= p < rest.len() && rest[p] == prev[i] && forall|m: int|
                        0 <= m < p ==> candidate_key(cs, #[trigger] rest[m]) != candidate_key(
                            cs,
                            rest[p],
                        );
                assert(cands[p] == rest[p]);
            }
        }
    }
}

/// Every key among the candidates is kept.
proof fn lemma_first_occurrences_complete(cs: Seq<ContainerModel>, cands: Seq<CandidateModel>)
    ensures
        forall|q: int|
            0 <= q < cands.len() ==> exists|k: int|
                0 <= k < first_occurrences(cs, cands).len() && candidate_key(
                    cs,
                    #[trigger] first_occurrences(cs, cands)[k],
                ) == candidate_key(cs, #[trigger] cands[q]),
    decreases cands.len(),
{
    if cands.len() > 0 {
        let rest = cands.drop_last();
        let x = cands.last();
        let prev = first_occurrences(cs, rest);
        let res = first_occurrences(cs, cands);
        lemma_first_occurrences_complete(cs, rest);
        assert forall|q: int| 0 <= q < cands.len() implies exists|k: int|
            0 <= k < res.len() && candidate_key(cs, #[trigger] res[k]) == candidate_key(
                cs,
                #[trigger] cands[q],
            ) by {
            if q < rest.len() {
                assert(cands[q] == rest[q]);
                let k = choose|k: int|
                    0 <= k < prev.len() && candidate_key(cs, #[trigger] prev[k]) == candidate_key(
                        cs,
                        #[trigger] rest[q],
                    );
                assert(res[k] == prev[k]);
            } else if exists|i: int|
                0 <= i < cands.len() - 1 && candidate_key(cs, cands[i]) == candidate_key(cs, x) {
                let i = choose|i: int|
                    0 <= i < cands.len() - 1 && candidate_key(cs, cands[i]) == candidate_key(cs, x);
                assert(cands[i] == rest[i]);
                let k = choose|k: int|
                    0 <= k < prev.len() && candidate_key(cs, #[trigger] prev[k]) == candidate_key(
                        cs,
                        #[trigger] rest[i],
                    );
                assert(res[k] == prev[k]);
            } else {
                assert(res[prev.len() as int] == x);
            }
        }
    }
}

/// Each de-duplication key occurs once among the findings of a report, and
/// every key among the matched packages has its finding: a package seen in
/// several layers is counted once.
pub proof fn each_key_counted_once(w: WorkloadModel, sbom: Seq<ContainerSbomModel>, db: Seq<CveModel>)
    ensures
        keys_distinct(workload_report_model(w, sbom, db).findings, |f: FindingModel| finding_key(f)),
        forall|q: int|
            0 <= q < workload_candidates(w.containers, w.containers.len() as int, sbom, db).len()
                ==> exists|i: int|
                0 <= i < workload_report_model(w, sbom, db).findings.len() && finding_key(
                    #[trigger] workload_report_model(w, sbom, db).findings[i],
                ) == candidate_key(
                    w.containers,
                    #[trigger] workload_candidates(w.containers, w.containers.len() as int, sbom, db)[q],
                ),
{
    let cs = w.containers;
    let cands = workload_candidates(cs, cs.len() as int, sbom, db);
    let name = crate::report::display_name_model(w.name, w.namespace);
    let unique = first_occurrences(cs, cands);
    let mapped = Seq::new(unique.len(), |i: int| finding_model(w, name, unique[i]));
    let findings = sorted_by(mapped, finding_order());
    assert(findings == workload_report_model(w, sbom, db).findings);
    let ck = |c: CandidateModel| candidate_key(cs, c);
    let fk = |f: FindingModel| finding_key(f);
    lemma_first_occurrences_distinct(cs, cands);
    lemma_first_occurrences_complete(cs, cands);
    assert forall|i: int| 0 <= i < mapped.len() implies fk(#[trigger] mapped[i]) == ck(unique[i]) by {}
    assert(keys_distinct(mapped, fk)) by {
        assert forall|i: int, j: int| 0 <= i < j < mapped.len() implies fk(#[trigger] mapped[i])
            != fk(#[trigger] mapped[j]) by {
            assert(fk(mapped[i]) == ck(unique[i]));
            assert(fk(mapped[j]) == ck(unique[j]));
        }
    }
    lemma_sorted_by_distinct(mapped, finding_order(), fk);
    lemma_sorted_by_same_elements(mapped, finding_order());
    assert forall|q: int| 0 <= q < cands.len() implies exists|i: int|
        0 <= i < findings.len() && finding_key(#[trigger] findings[i]) == candidate_key(
            cs,
            #[trigger] cands[q],
        ) by {
        let k = choose|k: int|
            0 <= k < unique.len() && candidate_key(cs, #[trigger] unique[k]) == candidate_key(
                cs,
                #[trigger] cands[q],
            );
        assert(fk(mapped[k]) == ck(unique[k]));
        assert(mapped.contains(mapped[k]));
        assert(findings.contains(mapped[k]));
        let i = choose|i: int| 0 <= i < findings.len() && findings[i] == mapped[k];
        assert(finding_key(findings[i]) == candidate_key(cs, cands[q]));
    }
}

proof fn lemma_layer_order_strict()
    ensures
        is_strict_order(layer_order()),
{
}

proof fn lemma_package_candidates_depth(
    container: usize,
    depth: usize,
    max_depth: usize,
    packages: Seq<crate::layer::PackageModel>,
    db: Seq<CveModel>,
)
    ensures
        forall|i: int|
            0 <= i < package_candidates(container, depth, max_depth, packages, db).len() ==> (
            #[trigger] package_candidates(container, depth, max_depth, packages, db)[i]).depth
                == depth,
    decreases packages.len(),
{
    if packages.len() > 0 {
        lemma_package_candidates_depth(container, depth, max_depth, packages.drop_last(), db);
    }
}

/// Over layers from the top down, candidate depths never increase, and none
/// is below the depth of the last layer.
proof fn lemma_layer_candidates_depth(
    container: usize,
    layers: Seq<LayerModel>,
    max_depth: usize,
    db: Seq<CveModel>,
)
    requires
        is_sorted_by(layers, layer_order()),
    ensures
        forall|p: int, q: int|
            0 <= p <= q < layer_candidates(container, layers, max_depth, db).len() ==> (
            #[trigger] layer_candidates(container, layers, max_depth, db)[p]).depth >= (
            #[trigger] layer_candidates(container, layers, max_depth, db)[q]).depth,
        layers.len() > 0 ==> forall|p: int|
            0 <= p < layer_candidates(container, layers, max_depth, db).len() ==> (
            #[trigger] layer_candidates(container, layers, max_depth, db)[p]).depth
                >= layers.last().depth,
    decreases layers.len(),
{
    if layers.len() > 0 {
        let rest = layers.drop_last();
        let last = layers.last();
        assert(is_sorted_by(rest, layer_order())) by {
            assert forall|i: int, j: int| 0 <= i < j < rest.len() implies !layer_order()(
                #[trigger] rest[j],
                #[trigger] rest[i],
            ) by {
                assert(rest[i] == layers[i] && rest[j] == layers[j]);
            }
        }
        lemma_layer_candidates_depth(container, rest, max_depth, db);
        lemma_package_candidates_depth(container, last.depth, max_depth, last.packages, db);
        let front = layer_candidates(container, rest, max_depth, db);
        let back = package_candidates(container, last.depth, max_depth, last.packages, db);
        let all = layer_candidates(container, layers, max_depth, db);
        assert(all == front + back);
        if rest.len() > 0 {
            assert(layers[rest.len() - 1] == rest.last());
            assert(!layer_order()(layers[layers.len() - 1], layers[rest.len() - 1]));
        }
        assert forall|p: int| 0 <= p < all.len() implies (#[trigger] all[p]).depth >= last.depth by {
            if p >= front.len() {
                assert(all[p] == back[p - front.len()]);
            } else {
                assert(all[p] == front[p]);
            }
        }
        assert forall|p: int, q: int| 0 <= p <= q < all.len() implies (#[trigger] all[p]).depth >= (
        #[trigger] all[q]).depth by {
            if q < front.len() {
                assert(all[p] == front[p] && all[q] == front[q]);
            } else if p >= front.len() {
                assert(all[p] == back[p - front.len()] && all[q] == back[q - front.len()]);
            } else {
                assert(all[p] == front[p] && all[q] == back[q - front.len()]);
            }
        }
    }
}

/// Within one container, earlier candidates come from layers no lower than
/// later ones.
proof fn lemma_workload_candidates_depth(
    cs: Seq<ContainerModel>,
    n: int,
    sbom: Seq<ContainerSbomModel>,
    db: Seq<CveModel>,
)
    requires
        0 <= n <= usize::MAX + 1,
    ensures
        forall|p: int, q: int|
            0 <= p <= q < workload_candidates(cs, n, sbom, db).len() && (
            #[trigger] workload_candidates(cs, n, sbom, db)[p]).container == (
            #[trigger] workload_candidates(cs, n, sbom, db)[q]).container ==> workload_candidates(
                cs,
                n,
                sbom,
                db,
            )[p].depth >= workload_candidates(cs, n, sbom, db)[q].depth,
    decreases n,
{
    if n > 0 {
        lemma_workload_candidates_depth(cs, n - 1, sbom, db);
        lemma_workload_candidates_container(cs, n - 1, sbom, db);
        let front = workload_candidates(cs, n - 1, sbom, db);
        let back = container_candidates((n - 1) as usize, cs[n - 1], sbom, db);
        let all = workload_candidates(cs, n, sbom, db);
        assert(all == front + back);
        match first_sbom(sbom, cs[n - 1]) {
            Some(j) => {
                let layers = sorted_by(sbom[j].layers, layer_order());
                lemma_layer_order_strict();
                lemma_sorted_by_sorted(sbom[j].layers, layer_order());
                lemma_layer_candidates_depth((n - 1) as usize, layers, max_depth_model(sbom[j].layers), db);
                lemma_layer_candidates_container((n - 1) as usize, layers, max_depth_model(sbom[j].layers), db);
            },
            None => {},
        }
        assert forall|p: int, q: int|
            0 <= p <= q < all.len() && (#[trigger] all[p]).container == (#[trigger] all[q]).container
            implies all[p].depth >= all[q].depth by {
            if q < front.len() {
                assert(all[p] == front[p] && all[q] == front[q]);
            } else if p >= front.len() {
                assert(all[p] == back[p - front.len()] && all[q] == back[q - front.len()]);
            } else {
                assert(all[p] == front[p] && all[q] == back[q - front.len()]);
                assert(front[p].container < n - 1);
            }
        }
    }
}

/// Container names are unique within a workload, as Kubernetes demands of a
/// pod.
pub open spec fn container_names_unique(cs: Seq<ContainerModel>) -> bool {
    forall|a: int, b: int| 0 <= a < b < cs.len() ==> (#[trigger] cs[a]).name != (#[trigger] cs[b]).name
}

/// When a key is matched in several layers of a container, its finding
/// comes from the topmost of them: no match with the key of a finding lies
/// in a higher layer than the finding's.
pub proof fn topmost_layer_wins(
    w: WorkloadModel,
    sbom: Seq<ContainerSbomModel>,
    db: Seq<CveModel>,
    i: int,
    q: int,
)
    requires
        container_names_unique(w.containers),
        w.containers.len() <= usize::MAX,
        0 <= i < workload_report_model(w, sbom, db).findings.len(),
        0 <= q < workload_candidates(w.containers, w.containers.len() as int, sbom, db).len(),
        finding_key(workload_report_model(w, sbom, db).findings[i]) == candidate_key(
            w.containers,
            workload_candidates(w.containers, w.containers.len() as int, sbom, db)[q],
        ),
    ensures
        workload_report_model(w, sbom, db).findings[i].package.layer_depth
            >= workload_candidates(w.containers, w.containers.len() as int, sbom, db)[q].depth,
{
    let cs = w.containers;
    let cands = workload_candidates(cs, cs.len() as int, sbom, db);
    let name = crate::report::display_name_model(w.name, w.namespace);
    let unique = first_occurrences(cs, cands);
    let mapped = Seq::new(unique.len(), |k: int| finding_model(w, name, unique[k]));
    let findings = sorted_by(mapped, finding_order());
    assert(findings == workload_report_model(w, sbom, db).findings);
    lemma_sorted_by_same_elements(mapped, finding_order());
    assert(findings.contains(findings[i]));
    let k = choose|k: int| 0 <= k < mapped.len() && mapped[k] == findings[i];
    lemma_first_occurrences_origin(cs, cands);
    let p = choose|p: int|
        0 <= p < cands.len() && cands[p] == unique[k] && forall|m: int|
            0 <= m < p ==> candidate_key(cs, #[trigger] cands[m]) != candidate_key(cs, cands[p]);
    assert(finding_key(mapped[k]) == candidate_key(cs, unique[k]));
    assert(candidate_key(cs, cands[p]) == candidate_key(cs, cands[q]));
    assert(p <= q);
    lemma_workload_candidates_container(cs, cs.len() as int, sbom, db);
    assert(cands[p].container == cands[q].container) by {
        let a = cands[p].container as int;
        let b = cands[q].container as int;
        assert(cs[a].name == cs[b].name);
        if a < b {
            assert(cs[a].name != cs[b].name);
        } else if b < a {
            assert(cs[b].name != cs[a].name);
        }
    }
    lemma_workload_candidates_depth(cs, cs.len() as int, sbom, db);
    assert(cands[p].depth >= cands[q].depth);
}

proof fn lemma_report_order_strict()
    ensures
        is_strict_order(report_order()),
{
    assert forall|a: WorkloadReportModel| !(#[trigger] report_order()(a, a)) by {
        lemma_seq_less_irreflexive(a.workload_ref.name);
    }
    assert forall|a: WorkloadReportModel, b: WorkloadReportModel, c: WorkloadReportModel| #[trigger]
        report_order()(a, b) && #[trigger] report_order()(b, c) implies report_order()(a, c) by {
        if a.cii_total == b.cii_total && b.cii_total == c.cii_total {
            lemma_seq_less_transitive(a.workload_ref.name, b.workload_ref.name, c.workload_ref.name);
        }
    }
}

/// A report (see [`crate::report::Report::new`]) lists every workload report
/// it was given, each as often, in report order: higher index first, then
/// by workload name.
pub proof fn report_is_ordered_permutation(workloads: Seq<WorkloadReportModel>)
    ensures
        is_sorted_by(sorted_by(workloads, report_order()), report_order()),
        sorted_by(workloads, report_order()).to_multiset() == workloads.to_multiset(),
{
    lemma_report_order_strict();
    lemma_sorted_by_sorted(workloads, report_order());
    lemma_sorted_by_permutes(workloads, report_order());
}

} // verus!
