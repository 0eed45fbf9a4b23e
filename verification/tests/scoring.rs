use manifestvault_engine::advisory::{
    AffectedPackage, AffectedRange, Cve, CveDatabase, RangeEvent, Severity,
};
use manifestvault_engine::layer::{ContainerSbom, LayerSbom, Package, Sbom};
use manifestvault_engine::manifest::{
    ContainerRef, ContainerSecurityContext, Workload, WorkloadKind,
};
use manifestvault_engine::score::{score, CiiScorer, Scorer};
use manifestvault_engine::version::version_cmp;

fn workload() -> Workload {
    Workload {
        kind: WorkloadKind::Pod,
        name: "api".to_owned(),
        namespace: Some("platform".to_owned()),
        containers: vec![ContainerRef {
            name: "app".to_owned(),
            image: Some("app:latest".to_owned()),
            image_pull_policy: None,
            security_context: Some(ContainerSecurityContext {
                allow_privilege_escalation: None,
                add_capabilities: Vec::new(),
                privileged: Some(false),
                read_only_root_filesystem: None,
                run_as_group: None,
                run_as_non_root: Some(true),
                run_as_user: Some(1000),
            }),
            command: Vec::new(),
            args: Vec::new(),
        }],
        service_account: None,
        host_network: false,
        host_pid: false,
        privileged: false,
    }
}

fn database(severity: Severity) -> CveDatabase {
    let cvss: f64 = match severity {
        Severity::Negligible => 0.0,
        Severity::Low => 3.0,
        Severity::Medium => 5.0,
        Severity::High => 8.0,
        Severity::Critical => 9.8,
    };
    CveDatabase::from_cves(vec![Cve::new(
        "CVE-TEST-1".to_owned(),
        Vec::new(),
        Some("test vulnerability".to_owned()),
        Some(cvss.to_bits()),
        severity,
        vec![AffectedPackage {
            ecosystem: "alpine".to_owned(),
            name: "openssl".to_owned(),
            versions: Vec::new(),
            ranges: vec![AffectedRange {
                events: vec![
                    RangeEvent::Introduced("0".to_owned()),
                    RangeEvent::Fixed("3.1.4-r0".to_owned()),
                ],
            }],
        }],
    )])
}

fn sbom_at_depth(depth: usize) -> Sbom {
    let mut layers = vec![
        layer(0, package("base-files", "1.0.0", "alpine")),
        layer(1, package("openssl", "3.1.0-r0", "alpine")),
        layer(2, package("app", "1.0.0", "pypi")),
    ];
    layers[1] = layer(depth, package("openssl", "3.1.0-r0", "alpine"));

    Sbom {
        containers: vec![ContainerSbom {
            container: "app".to_owned(),
            image: Some("app:latest".to_owned()),
            layers,
        }],
    }
}

fn layer(depth: usize, package: Package) -> LayerSbom {
    LayerSbom {
        digest: format!("sha256:{depth}"),
        depth,
        packages: vec![package],
    }
}

fn package(name: &str, version: &str, ecosystem: &str) -> Package {
    Package {
        name: name.to_owned(),
        version: version.to_owned(),
        ecosystem: ecosystem.to_owned(),
        source_path: "/lib/apk/db/installed".to_owned(),
        binaries: vec![format!("/usr/bin/{name}")],
    }
}

/// A score in hundredths as the number it stands for.
fn value(hundredths: u64) -> f64 {
    hundredths as f64 / 100.0
}

#[test]
fn privileged_container_multiplier_scores_branch() {
    let mut workload = workload();
    workload.containers[0]
        .security_context
        .as_mut()
        .unwrap()
        .privileged = Some(true);

    let report = score(&workload, &sbom_at_depth(1), &database(Severity::High));

    assert_eq!(value(report.findings[0].score), 14.0);
    assert!(report.findings[0]
        .contributing_factors
        .contains(&"privileged".to_owned()));
}

#[test]
fn cap_sys_admin_uses_privileged_multiplier() {
    let mut workload = workload();
    workload.containers[0]
        .security_context
        .as_mut()
        .unwrap()
        .add_capabilities = vec!["SYS_ADMIN".to_owned()];

    let report = score(&workload, &sbom_at_depth(1), &database(Severity::High));

    assert_eq!(value(report.findings[0].score), 14.0);
}

#[test]
fn root_container_multiplier_scores_branch() {
    let mut workload = workload();
    workload.containers[0]
        .security_context
        .as_mut()
        .unwrap()
        .run_as_non_root = None;
    workload.containers[0]
        .security_context
        .as_mut()
        .unwrap()
        .run_as_user = Some(0);

    let report = score(&workload, &sbom_at_depth(1), &database(Severity::High));

    assert_eq!(value(report.findings[0].score), 10.5);
    assert!(report.findings[0]
        .contributing_factors
        .contains(&"root_user".to_owned()));
}

#[test]
fn host_namespace_multiplier_scores_branch() {
    let mut workload = workload();
    workload.host_network = true;

    let report = score(&workload, &sbom_at_depth(1), &database(Severity::High));

    assert_eq!(value(report.findings[0].score), 10.5);
    assert!(report.findings[0]
        .contributing_factors
        .contains(&"host_namespace".to_owned()));
}

#[test]
fn entrypoint_multiplier_scores_branch() {
    let mut workload = workload();
    workload.containers[0].command = vec!["/usr/bin/openssl".to_owned()];

    let report = score(&workload, &sbom_at_depth(1), &database(Severity::High));

    assert_eq!(value(report.findings[0].score), 14.0);
    assert!(report.findings[0]
        .contributing_factors
        .contains(&"entrypoint_binary".to_owned()));
}

#[test]
fn depth_multiplier_scores_base_intermediate_and_top_layers() {
    let workload = workload();
    let database = database(Severity::High);

    let base = score(&workload, &sbom_at_depth(0), &database);
    let intermediate = score(&workload, &sbom_at_depth(1), &database);
    let top = score(&workload, &sbom_at_depth(2), &database);

    assert_eq!(value(base.findings[0].score), 4.9);
    assert_eq!(value(intermediate.findings[0].score), 7.0);
    assert_eq!(value(top.findings[0].score), 9.1);
}

#[test]
fn deduplicates_same_container_package_and_cve() {
    let workload = workload();
    let sbom = Sbom {
        containers: vec![ContainerSbom {
            container: "app".to_owned(),
            image: Some("app:latest".to_owned()),
            layers: vec![
                layer(0, package("openssl", "3.1.0-r0", "alpine")),
                layer(2, package("openssl", "3.1.0-r0", "alpine")),
            ],
        }],
    };

    let report = score(&workload, &sbom, &database(Severity::High));

    assert_eq!(report.findings.len(), 1);
    assert_eq!(report.findings[0].package.layer_depth, 2);
}

#[test]
fn version_comparison_handles_revision_numbers() {
    assert_eq!(
        version_cmp("3.1.0-r1", "3.1.0-r0"),
        std::cmp::Ordering::Greater
    );
    assert_eq!(version_cmp("2.31.0", "2.32.0"), std::cmp::Ordering::Less);
}

#[test]
fn documented_example_scores_entrypoint_in_base_layer() {
    let mut workload = workload();
    workload.containers[0].command = vec!["/usr/bin/openssl".to_owned()];

    let report = score(&workload, &sbom_at_depth(0), &database(Severity::High));

    assert_eq!(value(report.findings[0].score), 9.8);
    assert_eq!(report.cii_total, 980);
}

#[test]
fn documented_example_stacks_privileged_and_entrypoint() {
    let mut workload = workload();
    workload.containers[0].command = vec!["/usr/bin/openssl".to_owned()];
    workload.containers[0]
        .security_context
        .as_mut()
        .unwrap()
        .privileged = Some(true);

    let report = score(&workload, &sbom_at_depth(0), &database(Severity::High));

    assert_eq!(value(report.findings[0].score), 19.6);
}

#[test]
fn index_sums_finding_scores_in_finding_order() {
    let workload = workload();
    let sbom = Sbom {
        containers: vec![ContainerSbom {
            container: "app".to_owned(),
            image: Some("app:latest".to_owned()),
            layers: vec![
                layer(0, package("openssl", "3.1.0-r0", "alpine")),
                layer(2, package("libcrypto3", "3.1.0-r0", "alpine")),
            ],
        }],
    };
    let mut cves = vec![];
    for (id, name) in [("CVE-A", "openssl"), ("CVE-B", "libcrypto3")] {
        cves.push(Cve::new(
            id.to_owned(),
            Vec::new(),
            None,
            None,
            Severity::Medium,
            vec![AffectedPackage {
                ecosystem: "alpine".to_owned(),
                name: name.to_owned(),
                versions: vec!["3.1.0-r0".to_owned()],
                ranges: Vec::new(),
            }],
        ));
    }
    let report = score(&workload, &sbom, &CveDatabase::from_cves(cves));

    assert_eq!(report.findings.len(), 2);
    assert_eq!(report.findings[0].cve.id, "CVE-B");
    assert_eq!(report.findings[0].score, 390);
    assert_eq!(report.findings[1].score, 210);
    assert_eq!(report.cii_total, 600);
}

#[test]
fn workload_without_sbom_has_no_findings() {
    let report = score(&workload(), &Sbom::empty(), &database(Severity::Critical));

    assert!(report.findings.is_empty());
    assert_eq!(report.cii_total, 0);
    assert_eq!(report.workload_ref.name, "api");
}

#[test]
fn cii_scorer_scores_like_score() {
    let scorer = CiiScorer;
    let sbom = sbom_at_depth(2);
    let database = database(Severity::Critical);

    let by_trait = scorer.score(&workload(), &sbom, &database);
    let direct = score(&workload(), &sbom, &database);

    assert_eq!(by_trait, direct);
    assert_eq!(value(by_trait.findings[0].score), 13.0);
}

#[test]
fn fixed_version_is_not_affected() {
    let workload = workload();
    let sbom = Sbom {
        containers: vec![ContainerSbom {
            container: "app".to_owned(),
            image: None,
            layers: vec![layer(1, package("openssl", "3.1.4-r0", "alpine"))],
        }],
    };

    let report = score(&workload, &sbom, &database(Severity::High));

    assert!(report.findings.is_empty());
}

#[test]
fn uid_zero_is_root_even_with_run_as_non_root() {
    let mut workload = workload();
    workload.containers[0]
        .security_context
        .as_mut()
        .unwrap()
        .run_as_user = Some(0);

    let report = score(&workload, &sbom_at_depth(1), &database(Severity::High));

    assert_eq!(value(report.findings[0].score), 10.5);
    assert!(report.findings[0]
        .contributing_factors
        .contains(&"root_user".to_owned()));
}

#[test]
fn run_as_non_root_without_user_is_not_root() {
    let mut workload = workload();
    workload.containers[0]
        .security_context
        .as_mut()
        .unwrap()
        .run_as_user = None;

    let report = score(&workload, &sbom_at_depth(1), &database(Severity::High));

    assert_eq!(value(report.findings[0].score), 7.0);
}
