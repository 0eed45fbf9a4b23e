use manifestvault_engine::decode::parse_content;
use manifestvault_engine::manifest::{
    workload_kind, ManifestError, Manifest, SourceLocation, WorkloadKind, YamlFailure, yaml_error,
};

fn pod_manifest(name: &str, image: &str) -> String {
    format!(
        r#"
apiVersion: v1
kind: Pod
metadata:
  name: {name}
  namespace: platform
spec:
  serviceAccountName: api-sa
  hostNetwork: true
  hostPID: false
  containers:
    - name: api
      image: {image}
      imagePullPolicy: IfNotPresent
      command: ["/bin/server"]
      args: ["--port", "8080"]
"#
    )
}

fn deployment_manifest(name: &str, image: &str) -> String {
    format!(
        r#"
apiVersion: apps/v1
kind: Deployment
metadata:
  name: {name}
spec:
  selector:
    matchLabels:
      app: {name}
  template:
    metadata:
      labels:
        app: {name}
    spec:
      containers:
        - name: web
          image: {image}
"#
    )
}

fn job_manifest(name: &str, image: &str) -> String {
    format!(
        r#"
apiVersion: batch/v1
kind: Job
metadata:
  name: {name}
spec:
  template:
    spec:
      restartPolicy: Never
      containers:
        - name: worker
          image: {image}
"#
    )
}

#[test]
fn parses_pod_and_deployment() {
    let pod_workloads =
        parse_content("pod.yaml", &pod_manifest("api", "nginx:1.27")).expect("parse pod");
    let deployment_workloads =
        parse_content("deployment.yaml", &deployment_manifest("web", "nginx:1.27"))
            .expect("parse deployment");

    assert_eq!(pod_workloads[0].kind, WorkloadKind::Pod);
    assert_eq!(pod_workloads[0].name, "api");
    assert_eq!(pod_workloads[0].namespace.as_deref(), Some("platform"));
    assert_eq!(pod_workloads[0].service_account.as_deref(), Some("api-sa"));
    assert_eq!(
        pod_workloads[0].containers[0].image.as_deref(),
        Some("nginx:1.27")
    );
    assert_eq!(
        pod_workloads[0].containers[0].image_pull_policy.as_deref(),
        Some("IfNotPresent")
    );
    assert_eq!(deployment_workloads[0].kind, WorkloadKind::Deployment);
    assert_eq!(deployment_workloads[0].name, "web");
}

#[test]
fn parses_multi_document_yaml() {
    let content = format!(
        "{}\n---\n{}",
        pod_manifest("api", "nginx:1.27"),
        job_manifest("batch", "busybox:1.36")
    );

    let workloads = parse_content("multi.yaml", &content).expect("parse multi doc");

    assert_eq!(workloads.len(), 2);
    assert_eq!(workloads[0].kind, WorkloadKind::Pod);
    assert_eq!(workloads[1].kind, WorkloadKind::Job);
}

#[test]
fn malformed_yaml_reports_path_and_location() {
    let err = parse_content(
        "broken.yaml",
        "apiVersion: v1\nkind: Pod\nmetadata:\n  name: broken\n  :",
    )
    .expect_err("malformed YAML");

    assert_eq!(err.path(), "broken.yaml");
    assert!(err.location().is_some());
    assert!(matches!(
        err,
        ManifestError::InvalidYaml { .. } | ManifestError::InvalidYamlWithoutLocation { .. }
    ));
}

#[test]
fn unsupported_kind_is_rejected() {
    let err = parse_content(
        "service.yaml",
        r#"
apiVersion: v1
kind: Service
metadata:
  name: api
"#,
    )
    .expect_err("unsupported kind");

    assert!(matches!(
        err,
        ManifestError::UnsupportedKind { kind, .. } if kind == "Service"
    ));
}

#[test]
fn unknown_fields_are_rejected() {
    let err = parse_content(
        "unknown-field.yaml",
        r#"
apiVersion: v1
kind: Pod
metadata:
  name: api
spec:
  madeUpField: true
  containers:
    - name: api
      image: nginx:1.27
"#,
    )
    .expect_err("unknown field");

    assert!(matches!(err, ManifestError::UnknownField { .. }));
}

#[test]
fn detects_privileged_container() {
    let workloads = parse_content(
        "privileged.yaml",
        r#"
apiVersion: v1
kind: Pod
metadata:
  name: privileged-api
spec:
  containers:
    - name: api
      image: nginx:1.27
      securityContext:
        privileged: true
"#,
    )
    .expect("parse privileged pod");

    assert!(workloads[0].privileged);
    assert_eq!(
        workloads[0].containers[0]
            .security_context
            .as_ref()
            .and_then(|security_context| security_context.privileged),
        Some(true)
    );
}

#[test]
fn error_path_returns_path_for_all_pathful_variants() {
    let err = ManifestError::UnsupportedPath {
        path: "sample.yaml".to_owned(),
    };

    assert_eq!(err.path(), "sample.yaml");
}

#[test]
fn pod_fields_are_normalised() {
    let workloads =
        parse_content("pod.yaml", &pod_manifest("api", "nginx:1.27")).expect("parse pod");
    let pod = &workloads[0];

    assert!(pod.host_network);
    assert!(!pod.host_pid);
    assert!(!pod.privileged);
    assert_eq!(pod.containers.len(), 1);
    assert_eq!(pod.containers[0].name, "api");
    assert_eq!(pod.containers[0].command, vec!["/bin/server".to_owned()]);
    assert_eq!(
        pod.containers[0].args,
        vec!["--port".to_owned(), "8080".to_owned()]
    );
    assert!(pod.containers[0].security_context.is_none());
}

#[test]
fn cron_job_pod_template_is_found() {
    let workloads = parse_content(
        "cron.yaml",
        r#"
apiVersion: batch/v1
kind: CronJob
metadata:
  name: nightly
spec:
  schedule: "0 3 * * *"
  jobTemplate:
    spec:
      template:
        spec:
          restartPolicy: OnFailure
          serviceAccount: legacy-sa
          containers:
            - name: task
              image: busybox:1.36
              securityContext:
                runAsUser: 0
                capabilities:
                  add: ["SYS_ADMIN"]
"#,
    )
    .expect("parse cron job");

    assert_eq!(workloads[0].kind, WorkloadKind::CronJob);
    assert_eq!(workloads[0].service_account.as_deref(), Some("legacy-sa"));
    let context = workloads[0].containers[0]
        .security_context
        .as_ref()
        .expect("security context");
    assert_eq!(context.run_as_user, Some(0));
    assert_eq!(context.add_capabilities, vec!["SYS_ADMIN".to_owned()]);
}

#[test]
fn second_document_errors_name_document_two() {
    let content = format!(
        "{}\n---\napiVersion: v1\nkind: Pod\nmetadata:\n  name: ''\nspec:\n  containers:\n    - name: a\n",
        pod_manifest("api", "nginx:1.27")
    );

    let err = parse_content("two.yaml", &content).expect_err("empty name");

    assert_eq!(
        err,
        ManifestError::MissingRequiredField {
            path: "two.yaml".to_owned(),
            document_index: 2,
            field: "metadata.name",
        }
    );
}

#[test]
fn empty_document_is_rejected() {
    let err = parse_content("empty.yaml", "").expect_err("empty document");

    assert_eq!(
        err,
        ManifestError::EmptyDocument {
            path: "empty.yaml".to_owned(),
            document_index: 1,
        }
    );
}

#[test]
fn missing_kind_is_a_missing_field() {
    let err = parse_content("nokind.yaml", "apiVersion: v1\nmetadata:\n  name: x\n")
        .expect_err("missing kind");

    assert_eq!(
        err,
        ManifestError::MissingRequiredField {
            path: "nokind.yaml".to_owned(),
            document_index: 1,
            field: "kind",
        }
    );
}

#[test]
fn unknown_api_version_is_rejected() {
    let err = parse_content("v2.yaml", "apiVersion: apps/v2\nkind: Deployment\n")
        .expect_err("unsupported api version");

    assert_eq!(
        err,
        ManifestError::UnsupportedApiVersion {
            path: "v2.yaml".to_owned(),
            document_index: 1,
            api_version: "apps/v2".to_owned(),
            kind: "Deployment".to_owned(),
        }
    );
}

#[test]
fn missing_template_spec_is_reported() {
    let err = parse_content(
        "deploy.yaml",
        r#"
apiVersion: apps/v1
kind: Deployment
metadata:
  name: web
spec:
  selector:
    matchLabels:
      app: web
  template:
    metadata:
      labels:
        app: web
"#,
    )
    .expect_err("missing template spec");

    assert_eq!(
        err,
        ManifestError::MissingRequiredField {
            path: "deploy.yaml".to_owned(),
            document_index: 1,
            field: "spec.template.spec",
        }
    );
}

#[test]
fn decode_failure_names_the_kind() {
    let err = parse_content(
        "bad.yaml",
        "apiVersion: v1\nkind: Pod\nmetadata:\n  name: api\nspec:\n  containers: 5\n",
    )
    .expect_err("decode failure");

    assert!(matches!(
        err,
        ManifestError::Decode { kind: WorkloadKind::Pod, document_index: 1, .. }
    ));
}

#[test]
fn workload_kind_table() {
    assert_eq!(workload_kind("m.yaml", 1, "batch/v1", "CronJob"), Ok(WorkloadKind::CronJob));
    assert_eq!(workload_kind("m.yaml", 1, "apps/v1", "DaemonSet"), Ok(WorkloadKind::DaemonSet));
    assert_eq!(
        workload_kind("m.yaml", 3, "batch/v1", "Pod"),
        Err(ManifestError::UnsupportedKind {
            path: "m.yaml".to_owned(),
            document_index: 3,
            kind: "Pod".to_owned(),
        })
    );
}

#[test]
fn yaml_error_keeps_location() {
    let with = yaml_error(
        "a.yaml",
        2,
        YamlFailure { location: Some(SourceLocation { line: 4, column: 3 }), message: "bad".to_owned() },
    );
    let without = yaml_error("a.yaml", 2, YamlFailure { location: None, message: "bad".to_owned() });

    assert_eq!(with.location(), Some(SourceLocation { line: 4, column: 3 }));
    assert_eq!(without.location(), None);
    assert_eq!(without.path(), "a.yaml");
}

#[test]
fn manifest_keeps_its_path() {
    assert_eq!(Manifest::new("k8s/".to_owned()).path, "k8s/");
}

#[test]
fn yaml_failure_names_the_document_after_those_read() {
    let content = format!(
        "{}\n---\napiVersion: v1\nkind: Pod\nmetadata:\n  name: broken\n  :",
        pod_manifest("api", "nginx:1.27")
    );

    let err = parse_content("broken.yaml", &content).expect_err("malformed YAML");

    match err {
        ManifestError::InvalidYaml { path, document_index, line, message, .. } => {
            assert_eq!(path, "broken.yaml");
            assert_eq!(document_index, 2);
            assert!(line >= 1);
            assert!(!message.is_empty());
        }
        other => panic!("expected a located YAML error, got {other:?}"),
    }
}
