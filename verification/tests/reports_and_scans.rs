use manifestvault_engine::advisory::{
    normalize_ecosystem, normalize_name, CveDatabase, OsvAdvisory, OsvAffected, OsvEvent,
    OsvPackage, OsvRange, OrderedScore, CvssRating, Severity, database_specific_severity,
};
use manifestvault_engine::layer::{ContainerSbom, LayerSbom, LocalContainerSbom, Package, Sbom};
use manifestvault_engine::manifest::{ContainerRef, Workload, WorkloadKind};
use manifestvault_engine::report::{hundredths_string, render_text, Report, WorkloadRef, WorkloadReport};
use manifestvault_engine::scan::{
    feed_entry_action, FeedEntryAction,
    load_workload_sbom, resolve_sbom_path, sanitize_image_ref, sbom_candidates, target_base_dir,
    ScanOptions,
};
use manifestvault_engine::score::score;

fn workload_report(name: &str, cii_total: f64) -> WorkloadReport {
    WorkloadReport {
        workload_ref: WorkloadRef {
            kind: WorkloadKind::Pod,
            name: name.to_owned(),
            namespace: None,
        },
        findings: Vec::new(),
        cii_total: (cii_total * 100.0).round() as u128,
    }
}

#[test]
fn renders_text_sorted_by_cii() {
    let report = Report::new(vec![
        workload_report("low", 1.0),
        workload_report("high", 10.0),
        workload_report("medium", 3.0),
    ]);

    let rendered = render_text(&report);
    let high = rendered.find("high").expect("high workload");
    let medium = rendered.find("medium").expect("medium workload");
    let low = rendered.find("low").expect("low workload");

    assert!(high < medium);
    assert!(medium < low);
}

#[test]
fn renders_text_layout() {
    let report = Report::new(vec![workload_report("api", 4.9)]);

    assert_eq!(
        render_text(&report),
        "ManifestVault report\nWorkloads: 1\n\napi (Pod)\nCII: 4.90\nFindings: 0"
    );
    assert_eq!(render_text(&Report::empty()), "ManifestVault report\nWorkloads: 0");
}

#[test]
fn equal_indexes_are_ordered_by_name() {
    let report = Report::new(vec![
        workload_report("zeta", 2.0),
        workload_report("alpha", 2.0),
        workload_report("top", 5.0),
    ]);

    let names: Vec<&str> = report
        .workloads
        .iter()
        .map(|w| w.workload_ref.name.as_str())
        .collect();
    assert_eq!(names, vec!["top", "alpha", "zeta"]);
}

#[test]
fn hundredths_print_with_two_decimals() {
    assert_eq!(hundredths_string(0), "0.00");
    assert_eq!(hundredths_string(5), "0.05");
    assert_eq!(hundredths_string(1960), "19.60");
    assert_eq!(hundredths_string(123456), "1234.56");
}

#[test]
fn display_name_includes_namespace() {
    let with = WorkloadRef {
        kind: WorkloadKind::Job,
        name: "batch".to_owned(),
        namespace: Some("jobs".to_owned()),
    };
    let without = WorkloadRef { namespace: None, ..with.clone() };

    assert_eq!(with.display_name(), "jobs/batch");
    assert_eq!(without.display_name(), "batch");
}

#[test]
fn loads_container_sbom_with_fallback_metadata() {
    let local = LocalContainerSbom {
        container: None,
        image: None,
        layers: vec![LayerSbom {
            digest: "sha256:base".to_owned(),
            depth: 0,
            packages: vec![Package {
                name: "openssl".to_owned(),
                version: "3.1.0-r0".to_owned(),
                ecosystem: "alpine".to_owned(),
                source_path: "/lib/apk/db/installed".to_owned(),
                binaries: vec!["/usr/bin/openssl".to_owned()],
            }],
        }],
    };

    let sbom = ContainerSbom::from_local(local, "app", Some("app:latest".to_owned()));

    assert_eq!(sbom.container, "app");
    assert_eq!(sbom.image.as_deref(), Some("app:latest"));
    assert_eq!(
        sbom.layers[0].packages[0],
        Package {
            name: "openssl".to_owned(),
            version: "3.1.0-r0".to_owned(),
            ecosystem: "alpine".to_owned(),
            source_path: "/lib/apk/db/installed".to_owned(),
            binaries: vec!["/usr/bin/openssl".to_owned()],
        }
    );
}

#[test]
fn local_sbom_metadata_wins_over_manifest() {
    let local = LocalContainerSbom {
        container: Some("sidecar".to_owned()),
        image: Some("proxy:2".to_owned()),
        layers: Vec::new(),
    };

    let sbom = ContainerSbom::from_local(local, "app", Some("app:latest".to_owned()));

    assert_eq!(sbom.container, "sidecar");
    assert_eq!(sbom.image.as_deref(), Some("proxy:2"));
}

fn package(name: &str, version: &str, ecosystem: &str) -> Package {
    Package {
        name: name.to_owned(),
        version: version.to_owned(),
        ecosystem: ecosystem.to_owned(),
        source_path: "/lib/apk/db/installed".to_owned(),
        binaries: vec![format!("/usr/bin/{name}")],
    }
}

fn rated(score: f64, severity: Severity) -> Option<CvssRating> {
    Some(CvssRating { score: OrderedScore(score.to_bits()), severity })
}

fn ranged(ecosystem: &str, name: &str, introduced: &str, fixed: &str) -> OsvAffected {
    OsvAffected {
        package: Some(OsvPackage { ecosystem: ecosystem.to_owned(), name: name.to_owned() }),
        ranges: vec![OsvRange {
            events: vec![
                OsvEvent { introduced: Some(introduced.to_owned()), fixed: None, last_affected: None, limit: None },
                OsvEvent { introduced: None, fixed: Some(fixed.to_owned()), last_affected: None, limit: None },
            ],
        }],
        versions: Vec::new(),
    }
}

fn three_ecosystems() -> CveDatabase {
    CveDatabase::from_advisories(vec![
        OsvAdvisory {
            id: "CVE-PYPI-1".to_owned(),
            aliases: Vec::new(),
            summary: None,
            cvss: None,
            database_severity: Some("critical".to_owned()),
            affected: vec![ranged("PyPI", "requests", "2.0.0", "2.32.0")],
        },
        OsvAdvisory {
            id: "CVE-ALPINE-1".to_owned(),
            aliases: Vec::new(),
            summary: Some("openssl issue".to_owned()),
            cvss: rated(8.1, Severity::High),
            database_severity: None,
            affected: vec![ranged("Alpine:v3.18", "openssl", "0", "3.1.4-r0")],
        },
        OsvAdvisory {
            id: "CVE-DEBIAN-1".to_owned(),
            aliases: Vec::new(),
            summary: None,
            cvss: rated(5.0, Severity::Medium),
            database_severity: None,
            affected: vec![OsvAffected {
                package: Some(OsvPackage { ecosystem: "Debian".to_owned(), name: "libssl3".to_owned() }),
                ranges: Vec::new(),
                versions: vec!["3.0.11-1".to_owned()],
            }],
        },
    ])
}

#[test]
fn osv_loader_matches_three_ecosystems_and_ranges() {
    let database = three_ecosystems();

    assert_eq!(
        database.find(&package("openssl", "3.1.0-r0", "apk"))[0].id,
        "CVE-ALPINE-1"
    );
    assert_eq!(
        database.find(&package("libssl3", "3.0.11-1", "dpkg"))[0].id,
        "CVE-DEBIAN-1"
    );
    assert_eq!(
        database.find(&package("requests", "2.31.0", "pypi"))[0].id,
        "CVE-PYPI-1"
    );
    assert!(database
        .find(&package("openssl", "3.1.5-r0", "apk"))
        .is_empty());
}

#[test]
fn advisory_severity_falls_back_to_database_label() {
    let database = three_ecosystems();

    let pypi = &database.find(&package("requests", "2.31.0", "pypi"))[0];
    assert_eq!(pypi.severity, Severity::Critical);
    assert_eq!(pypi.cvss_score, None);
    let alpine = &database.find(&package("openssl", "3.1.0-r0", "apk"))[0];
    assert_eq!(alpine.severity, Severity::High);
    assert_eq!(alpine.cvss_score, Some(OrderedScore(8.1f64.to_bits())));
}

#[test]
fn severity_labels_are_case_insensitive() {
    assert_eq!(database_specific_severity(Some("MODERATE")), Some(Severity::Medium));
    assert_eq!(database_specific_severity(Some("None")), Some(Severity::Negligible));
    assert_eq!(database_specific_severity(Some("severe")), None);
    assert_eq!(database_specific_severity(None), None);
    assert_eq!(Severity::High.as_str(), "high");
    assert_eq!(Severity::Critical.weight(), 10);
}

#[test]
fn names_and_ecosystems_are_normalised() {
    assert_eq!(normalize_name("  Py_YAML "), "py-yaml");
    assert_eq!(normalize_ecosystem("Alpine:v3.18"), "alpine");
    assert_eq!(normalize_ecosystem("apk"), "alpine");
    assert_eq!(normalize_ecosystem("dpkg"), "debian");
}

#[test]
fn sanitizes_image_references() {
    assert_eq!(sanitize_image_ref("alpine:3.18"), "alpine_3_18");
    assert_eq!(sanitize_image_ref("Registry.io/Team/App:Latest"), "registry_io_team_app_latest");
    assert_eq!(sanitize_image_ref("__x__"), "x");
    assert_eq!(sanitize_image_ref("::"), "");
}

#[test]
fn sbom_candidates_follow_the_lookup_order() {
    let candidates = sbom_candidates("alpine:3.18", "/work", "/feed");

    assert_eq!(
        candidates,
        vec![
            "/work/alpine:3.18".to_owned(),
            "/work/sbom/alpine_3_18.json".to_owned(),
            "/feed/sbom/alpine_3_18.json".to_owned(),
        ]
    );
    assert_eq!(sbom_candidates("/sboms/app.json", "/work", "/feed")[0], "/sboms/app.json");
}

#[test]
fn resolve_takes_first_json_file() {
    let candidates = vec![
        "/work/alpine:3.18".to_owned(),
        "/work/sbom/alpine_3_18.json".to_owned(),
        "/feed/sbom/alpine_3_18.json".to_owned(),
    ];

    assert_eq!(
        resolve_sbom_path(&candidates, &vec![true, false, true]),
        Some("/feed/sbom/alpine_3_18.json".to_owned())
    );
    assert_eq!(resolve_sbom_path(&candidates, &vec![false, false, false]), None);
}

#[test]
fn base_dir_is_target_directory_or_parent() {
    assert_eq!(target_base_dir("/work/k8s", true), "/work/k8s");
    assert_eq!(target_base_dir("/work/k8s/pod.yaml", false), "/work/k8s");
    assert_eq!(target_base_dir("pod.yaml", false), "");
    assert_eq!(target_base_dir("/", false), ".");
}

#[test]
fn scan_options_keep_paths() {
    let options = ScanOptions::new("sample.yaml".to_owned(), "cves".to_owned());
    assert_eq!(options.target, "sample.yaml");
    assert_eq!(options.cve_feed, "cves");
}

fn pod_with(image: Option<&str>) -> Workload {
    Workload {
        kind: WorkloadKind::Pod,
        name: "api".to_owned(),
        namespace: None,
        containers: vec![ContainerRef {
            name: "app".to_owned(),
            image: image.map(|i| i.to_owned()),
            image_pull_policy: None,
            security_context: None,
            command: Vec::new(),
            args: Vec::new(),
        }],
        service_account: None,
        host_network: false,
        host_pid: false,
        privileged: false,
    }
}

#[test]
fn scan_returns_empty_workload_report_without_sbom() {
    let workload = pod_with(Some("nginx:1.27"));
    let sbom = load_workload_sbom(&workload, vec![None]);

    assert_eq!(sbom.containers.len(), 1);
    assert_eq!(sbom.containers[0].container, "app");
    assert_eq!(sbom.containers[0].image.as_deref(), Some("nginx:1.27"));
    assert!(sbom.containers[0].layers.is_empty());
    let report = Report::new(vec![score(&workload, &sbom, &three_ecosystems())]);
    assert_eq!(report.workloads.len(), 1);
    assert!(report.workloads[0].findings.is_empty());
}

#[test]
fn scan_uses_sbom_sidecar_from_cve_bundle() {
    let mut workload = pod_with(Some("alpine:3.18"));
    workload.containers[0].security_context =
        Some(manifestvault_engine::manifest::ContainerSecurityContext {
            allow_privilege_escalation: None,
            add_capabilities: Vec::new(),
            privileged: None,
            read_only_root_filesystem: None,
            run_as_group: None,
            run_as_non_root: Some(true),
            run_as_user: Some(1000),
        });
    let sidecar = ContainerSbom::from_local(
        LocalContainerSbom {
            container: None,
            image: None,
            layers: vec![LayerSbom {
                digest: "sha256:base".to_owned(),
                depth: 0,
                packages: vec![Package {
                    name: "openssl".to_owned(),
                    version: "3.1.0-r0".to_owned(),
                    ecosystem: "alpine".to_owned(),
                    source_path: "/lib/apk/db/installed".to_owned(),
                    binaries: Vec::new(),
                }],
            }],
        },
        "app",
        Some("alpine:3.18".to_owned()),
    );
    let database = CveDatabase::from_advisories(vec![OsvAdvisory {
        id: "CVE-TEST-OPENSSL".to_owned(),
        aliases: Vec::new(),
        summary: None,
        cvss: rated(8.1, Severity::High),
        database_severity: None,
        affected: vec![ranged("Alpine", "openssl", "0", "3.1.4-r0")],
    }]);
    let sbom = load_workload_sbom(&workload, vec![Some(sidecar)]);

    let report = Report::new(vec![score(&workload, &sbom, &database)]);

    assert_eq!(report.workloads[0].findings.len(), 1);
    assert_eq!(report.workloads[0].cii_total as f64 / 100.0, 4.9);
}

#[test]
fn sbom_extend_appends_containers() {
    let mut sbom = Sbom::for_container(ContainerSbom::empty("a".to_owned(), None));
    sbom.extend(Sbom::for_container(ContainerSbom::empty("b".to_owned(), None)));

    assert_eq!(sbom.containers.len(), 2);
    assert_eq!(sbom.containers[1].container, "b");
}

#[test]
fn feed_walk_skips_sbom_directories_and_keeps_json_files() {
    assert_eq!(feed_entry_action("/feed/sbom", true, false), FeedEntryAction::Skip);
    assert_eq!(feed_entry_action("/feed/alpine", true, false), FeedEntryAction::Descend);
    assert_eq!(feed_entry_action("/feed/a.json", false, true), FeedEntryAction::Collect);
    assert_eq!(feed_entry_action("/feed/notes.txt", false, true), FeedEntryAction::Skip);
    assert_eq!(feed_entry_action("/feed/link.json", false, false), FeedEntryAction::Skip);
}

#[test]
fn a_name_that_only_starts_with_a_dot_has_no_extension() {
    let candidates = vec!["/feed/sbom/.json".to_owned(), "/feed/sbom/app.tar.json".to_owned()];

    assert_eq!(
        resolve_sbom_path(&candidates, &vec![true, true]),
        Some("/feed/sbom/app.tar.json".to_owned())
    );
    assert_eq!(feed_entry_action("/feed/.json", false, true), FeedEntryAction::Skip);
}
