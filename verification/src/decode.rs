//! Reading manifest text with the YAML and Kubernetes API crates: YAML
//! documents, their `apiVersion` and `kind`, and strict decoding into the
//! Kubernetes workload types.
//!
//! What the crates make of a text is named, document by document, over the
//! text and the document's position in it; the parser's contracts are exact
//! over those names.

use vstd::prelude::*;

use k8s_openapi::api::apps::v1::{DaemonSet, Deployment, StatefulSet};
use k8s_openapi::api::batch::v1::{CronJob, Job};
use serde_yaml::Value;

use crate::manifest::{
    decoded_result_holds, error_document, error_path, is_missing_field, known_api_version,
    kind_model, pod_spec_of, record_unknown_field, required_field, workload_from_decoded,
    workload_kind, workload_well_formed, ContainerSource, ManifestError, MetadataSource,
    PodSettings, PodSpecSource, SecurityContextSource, SourceLocation, Workload, WorkloadKind,
    WorkloadObject, YamlFailure, yaml_error, yaml_error_holds,
};

verus! {

#[verifier::external_type_specification]
#[verifier::external_body]
pub struct ExValue(Value);

#[verifier::external_type_specification]
#[verifier::external_body]
pub struct ExPodSpec(k8s_openapi::api::core::v1::PodSpec);

#[verifier::external_type_specification]
#[verifier::external_body]
pub struct ExContainer(k8s_openapi::api::core::v1::Container);

#[verifier::external_type_specification]
#[verifier::external_body]
pub struct ExSecurityContext(k8s_openapi::api::core::v1::SecurityContext);

/// One YAML document of a manifest text.  Its view is the text it was read
/// from and its position there, counted from 0.
pub struct Document {
    value: Value,
    origin: Ghost<(Seq<char>, nat)>,
}

impl View for Document {
    type V = (Seq<char>, nat);

    closed spec fn view(&self) -> (Seq<char>, nat) {
        self.origin@
    }
}

/// How reading the YAML documents of a text ends: how many documents were
/// read before the reading stopped, and whether it stopped at a document
/// that failed.  It depends on the text alone.
pub uninterp spec fn yaml_document_outcome(content: Seq<char>) -> (nat, bool);

/// Whether document `index` of a text is empty (`Value::Null`).
pub uninterp spec fn document_is_null(text: Seq<char>, index: nat) -> bool;

/// The string that document `index` of a text maps the top-level key
/// `field` to, where it is a mapping with that key and the value is a string.
pub uninterp spec fn document_string_field(text: Seq<char>, index: nat, field: Seq<char>) -> Option<
    Seq<char>,
>;

/// What strict decoding makes of document `index` of a text as a workload
/// of kind `kind`: the object down to its pod specification, with the first
/// field path the decoder did not use, or the decoder's message.
pub uninterp spec fn decoded_document(text: Seq<char>, index: nat, kind: WorkloadKind) -> Result<
    (WorkloadObject<PodSpecSource>, Option<String>),
    String,
>;

/// The first YAML failure in a text, where reading its documents stops at
/// one: its line and column, where serde_yaml gives them, and its message.
pub uninterp spec fn yaml_text_failure(content: Seq<char>) -> Option<YamlFailure>;

/// Splits `content` into YAML documents with
/// `serde_yaml::Deserializer::from_str` and reads each as a `Value` (serde's
/// `Deserialize`), up to the first document that fails.  Each document comes
/// back with its position in `content`; the failure comes back with the line
/// and column that `serde_yaml::Error::location` gives (`Location::line`,
/// `Location::column`) and its message (`Display`).  The documents come from
/// serde_yaml's own iterator, whose end no contract here can show, so walking
/// them stays here.  How many come back, and the failure, are named
/// ([`yaml_document_outcome`], [`yaml_text_failure`]).
#[verifier::external_body]
fn yaml_documents(content: &str) -> (r: (Vec<Document>, Option<YamlFailure>))
    ensures
        r.0.len() == yaml_document_outcome(content@).0,
        r.1 is Some <==> yaml_document_outcome(content@).1,
        r.1 == yaml_text_failure(content@),
        forall|i: int| 0 <= i < r.0.len() ==> (#[trigger] r.0@[i])@ == (content@, i as nat),
{
    let mut documents = Vec::new();
    for document in serde_yaml::Deserializer::from_str(content) {
        match <Value as serde::Deserialize>::deserialize(document) {
            Ok(value) => {
                let origin = Ghost((content@, documents.len() as nat));
                documents.push(Document { value, origin });
            },
            Err(e) => {
                let location = e.location().map(|at| SourceLocation { line: at.line(), column: at.column() });
                return (documents, Some(YamlFailure { location, message: e.to_string() }));
            },
        }
    }
    (documents, None)
}

/// Whether the document equals `Value::Null` (serde_yaml's `PartialEq`):
/// named [`document_is_null`].
#[verifier::external_body]
fn null_document(document: &Document) -> (r: bool)
    ensures
        r == document_is_null(document@.0, document@.1),
{
    document.value == Value::Null
}

/// The string at the top-level key `field` of a document
/// (`Value::as_mapping`, `Mapping::get` with a string key, `Value::as_str`),
/// copied: named [`document_string_field`].
#[verifier::external_body]
fn string_field(document: &Document, field: &str) -> (r: Option<String>)
    ensures
        r.deep_view() == document_string_field(document@.0, document@.1, field@),
{
    document.value.as_mapping()
        .and_then(|mapping| mapping.get(Value::String(field.to_owned())))
        .and_then(|found| found.as_str())
        .map(|text| text.to_owned())
}

/// Decodes a document as a `Pod` with `serde_ignored::deserialize`, keeping
/// the first field path that the decoder reported unused (see
/// [`record_unknown_field`]); its pod specification comes back as plain
/// values (see [`pod_spec_source`]) and a failure as its message.  Named
/// [`decoded_document`].
#[verifier::external_body]
fn decode_pod(document: &Document) -> (r: Result<
    (WorkloadObject<PodSpecSource>, Option<String>),
    String,
>)
    ensures
        r == decoded_document(document@.0, document@.1, WorkloadKind::Pod),
{
    let mut unknown = None;
    let decoded: Result<k8s_openapi::api::core::v1::Pod, serde_yaml::Error> =
        serde_ignored::deserialize(
        document.value.clone(),
        |field| record_unknown_field(&mut unknown, field.to_string()),
    );
    match decoded {
        Ok(pod) => Ok((WorkloadObject::Pod {
            metadata: MetadataSource { name: pod.metadata.name, namespace: pod.metadata.namespace },
            spec: pod.spec.as_ref().map(pod_spec_source),
        }, unknown)),
        Err(error) => Err(error.to_string()),
    }
}

/// As [`decode_pod`], for a `Deployment`; its pod specification is at
/// `spec.template.spec`.
#[verifier::external_body]
fn decode_deployment(document: &Document) -> (r: Result<
    (WorkloadObject<PodSpecSource>, Option<String>),
    String,
>)
    ensures
        r == decoded_document(document@.0, document@.1, WorkloadKind::Deployment),
{
    let mut unknown = None;
    let decoded: Result<Deployment, serde_yaml::Error> = serde_ignored::deserialize(
        document.value.clone(),
        |field| record_unknown_field(&mut unknown, field.to_string()),
    );
    match decoded {
        Ok(object) => Ok((WorkloadObject::Templated {
            metadata: MetadataSource { name: object.metadata.name, namespace: object.metadata.namespace },
            spec: object.spec.map(|spec| spec.template.spec.as_ref().map(pod_spec_source)),
        }, unknown)),
        Err(error) => Err(error.to_string()),
    }
}

/// As [`decode_pod`], for a `StatefulSet`; its pod specification is at
/// `spec.template.spec`.
#[verifier::external_body]
fn decode_stateful_set(document: &Document) -> (r: Result<
    (WorkloadObject<PodSpecSource>, Option<String>),
    String,
>)
    ensures
        r == decoded_document(document@.0, document@.1, WorkloadKind::StatefulSet),
{
    let mut unknown = None;
    let decoded: Result<StatefulSet, serde_yaml::Error> = serde_ignored::deserialize(
        document.value.clone(),
        |field| record_unknown_field(&mut unknown, field.to_string()),
    );
    match decoded {
        Ok(object) => Ok((WorkloadObject::Templated {
            metadata: MetadataSource { name: object.metadata.name, namespace: object.metadata.namespace },
            spec: object.spec.map(|spec| spec.template.spec.as_ref().map(pod_spec_source)),
        }, unknown)),
        Err(error) => Err(error.to_string()),
    }
}

/// As [`decode_pod`], for a `DaemonSet`; its pod specification is at
/// `spec.template.spec`.
#[verifier::external_body]
fn decode_daemon_set(document: &Document) -> (r: Result<
    (WorkloadObject<PodSpecSource>, Option<String>),
    String,
>)
    ensures
        r == decoded_document(document@.0, document@.1, WorkloadKind::DaemonSet),
{
    let mut unknown = None;
    let decoded: Result<DaemonSet, serde_yaml::Error> = serde_ignored::deserialize(
        document.value.clone(),
        |field| record_unknown_field(&mut unknown, field.to_string()),
    );
    match decoded {
        Ok(object) => Ok((WorkloadObject::Templated {
            metadata: MetadataSource { name: object.metadata.name, namespace: object.metadata.namespace },
            spec: object.spec.map(|spec| spec.template.spec.as_ref().map(pod_spec_source)),
        }, unknown)),
        Err(error) => Err(error.to_string()),
    }
}

/// As [`decode_pod`], for a `Job`; its pod specification is at
/// `spec.template.spec`.
#[verifier::external_body]
fn decode_job(document: &Document) -> (r: Result<
    (WorkloadObject<PodSpecSource>, Option<String>),
    String,
>)
    ensures
        r == decoded_document(document@.0, document@.1, WorkloadKind::Job),
{
    let mut unknown = None;
    let decoded: Result<Job, serde_yaml::Error> = serde_ignored::deserialize(
        document.value.clone(),
        |field| record_unknown_field(&mut unknown, field.to_string()),
    );
    match decoded {
        Ok(object) => Ok((WorkloadObject::Templated {
            metadata: MetadataSource { name: object.metadata.name, namespace: object.metadata.namespace },
            spec: object.spec.map(|spec| spec.template.spec.as_ref().map(pod_spec_source)),
        }, unknown)),
        Err(error) => Err(error.to_string()),
    }
}

/// As [`decode_pod`], for a `CronJob`; its pod specification is at
/// `spec.jobTemplate.spec.template.spec`.
#[verifier::external_body]
fn decode_cron_job(document: &Document) -> (r: Result<
    (WorkloadObject<PodSpecSource>, Option<String>),
    String,
>)
    ensures
        r == decoded_document(document@.0, document@.1, WorkloadKind::CronJob),
{
    let mut unknown = None;
    let decoded: Result<CronJob, serde_yaml::Error> = serde_ignored::deserialize(
        document.value.clone(),
        |field| record_unknown_field(&mut unknown, field.to_string()),
    );
    match decoded {
        Ok(object) => Ok((WorkloadObject::CronJob {
            metadata: MetadataSource { name: object.metadata.name, namespace: object.metadata.namespace },
            spec: object.spec.map(|spec| {
                spec.job_template.spec.map(|job| job.template.spec.as_ref().map(pod_spec_source))
            }),
        }, unknown)),
        Err(error) => Err(error.to_string()),
    }
}

/// The service account, host network and host PID fields of a `PodSpec`,
/// copied.  Its result is not stated: a `PodSpec` has no model here.
#[verifier::external_body]
fn pod_settings(spec: &k8s_openapi::api::core::v1::PodSpec) -> (r: PodSettings) {
    PodSettings {
        service_account_name: spec.service_account_name.clone(),
        service_account: spec.service_account.clone(),
        host_network: spec.host_network,
        host_pid: spec.host_pid,
    }
}

/// The `containers` field of a `PodSpec`.  Its result is not stated: a
/// `PodSpec` has no model here.
#[verifier::external_body]
fn pod_containers(
    spec: &k8s_openapi::api::core::v1::PodSpec,
) -> (r: &Vec<k8s_openapi::api::core::v1::Container>) {
    &spec.containers
}

/// The fields of a `Container` that the parser reads, copied, with the
/// security context given.  Its result is not stated: a `Container` has no
/// model here.
#[verifier::external_body]
fn container_source(
    container: &k8s_openapi::api::core::v1::Container,
    security_context: Option<SecurityContextSource>,
) -> (r: ContainerSource) {
    ContainerSource {
        name: container.name.clone(),
        image: container.image.clone(),
        image_pull_policy: container.image_pull_policy.clone(),
        security_context,
        command: container.command.clone(),
        args: container.args.clone(),
    }
}

/// The `securityContext` field of a `Container`.  Its result is not stated:
/// a `Container` has no model here.
#[verifier::external_body]
fn container_security_context(
    container: &k8s_openapi::api::core::v1::Container,
) -> (r: Option<&k8s_openapi::api::core::v1::SecurityContext>) {
    container.security_context.as_ref()
}

/// The fields of a `SecurityContext` that scoring reads, copied, with the
/// capabilities it adds (`capabilities.add`).  Its result is not stated: a
/// `SecurityContext` has no model here.
#[verifier::external_body]
fn security_context_source(
    context: &k8s_openapi::api::core::v1::SecurityContext,
) -> (r: SecurityContextSource) {
    SecurityContextSource {
        allow_privilege_escalation: context.allow_privilege_escalation,
        add_capabilities: context.capabilities.as_ref().and_then(|caps| caps.add.clone()),
        privileged: context.privileged,
        read_only_root_filesystem: context.read_only_root_filesystem,
        run_as_group: context.run_as_group,
        run_as_non_root: context.run_as_non_root,
        run_as_user: context.run_as_user,
    }
}

/// The pod specification as plain values.
fn pod_spec_source(spec: &k8s_openapi::api::core::v1::PodSpec) -> PodSpecSource {
    let containers = pod_containers(spec);
    let mut sources: Vec<ContainerSource> = Vec::new();
    let mut i: usize = 0;
    while i < containers.len()
        invariant
            i <= containers.len(),
        decreases containers.len() - i,
    {
        let container = &containers[i];
        let security_context = match container_security_context(container) {
            Some(context) => Some(security_context_source(context)),
            None => None,
        };
        sources.push(container_source(container, security_context));
        i = i + 1;
    }
    PodSpecSource { settings: pod_settings(spec), containers: sources }
}


/// Whether a strictly decoded document gives a workload: it decoded, no
/// field went unused, the pod specification is there, and it has a name and
/// a container.
pub open spec fn decoded_succeeds(decoded: Result<(WorkloadObject<PodSpecSource>, Option<String>), String>) -> bool {
    match decoded {
        Ok((object, None)) => match pod_spec_of(object) {
            Ok((metadata, spec)) => (metadata.name matches Some(n) && n@.len() > 0)
                && spec.containers@.len() > 0,
            Err(_) => false,
        },
        _ => false,
    }
}

/// The workload, or the error, that document `index` of `text` gives as
/// document number `document_index` of `path`: an empty document, then a
/// missing `apiVersion` or `kind`, then an unsupported kind or API version,
/// then what strict decoding for its kind gives (see [`decoded_result_holds`]).
pub open spec fn document_result_holds(
    r: Result<Workload, ManifestError>,
    path: Seq<char>,
    document_index: usize,
    text: Seq<char>,
    index: nat,
) -> bool {
    if document_is_null(text, index) {
        r matches Err(ManifestError::EmptyDocument { path: p, document_index: d }) && p@ == path
            && d == document_index
    } else {
        match document_string_field(text, index, "apiVersion"@) {
            None => r matches Err(e) && is_missing_field(e, path, document_index, "apiVersion"@),
            Some(api_version) => match document_string_field(text, index, "kind"@) {
                None => r matches Err(e) && is_missing_field(e, path, document_index, "kind"@),
                Some(kind) => match kind_model(api_version, kind) {
                    Some(k) => decoded_result_holds(
                        r,
                        path,
                        document_index,
                        k,
                        decoded_document(text, index, k),
                    ),
                    None => if known_api_version(api_version) {
                        r matches Err(
                            ManifestError::UnsupportedKind { path: p, document_index: d, kind: k },
                        ) && p@ == path && d == document_index && k@ == kind
                    } else {
                        r matches Err(
                            ManifestError::UnsupportedApiVersion {
                                path: p,
                                document_index: d,
                                api_version: a,
                                kind: k,
                            },
                        ) && p@ == path && d == document_index && a@ == api_version && k@ == kind
                    },
                },
            },
        }
    }
}

/// Whether document `index` of `text` gives a workload (see
/// [`document_result_holds`]).
pub open spec fn document_succeeds(text: Seq<char>, index: nat) -> bool {
    &&& !document_is_null(text, index)
    &&& document_string_field(text, index, "apiVersion"@) matches Some(api_version)
    &&& document_string_field(text, index, "kind"@) matches Some(kind)
    &&& kind_model(api_version, kind) matches Some(k)
    &&& decoded_succeeds(decoded_document(text, index, k))
}

/// An error that a document which is not valid YAML gives.
pub open spec fn is_yaml_error(e: ManifestError) -> bool {
    e is InvalidYaml || e is InvalidYamlWithoutLocation
}

/// Strict decoding gives a workload exactly when [`decoded_succeeds`] says so.
proof fn lemma_decoded_succeeds(
    r: Result<Workload, ManifestError>,
    path: Seq<char>,
    document_index: usize,
    kind: WorkloadKind,
    decoded: Result<(WorkloadObject<PodSpecSource>, Option<String>), String>,
)
    requires
        decoded_result_holds(r, path, document_index, kind, decoded),
    ensures
        r is Ok <==> decoded_succeeds(decoded),
        r matches Err(e) ==> !is_yaml_error(e) && error_path(e) == path && error_document(e)
            == Some(document_index),
{
}

/// The string at the top-level key `field` of a document, or the error that
/// the document lacks it (it is not a mapping, has no such key, or its value
/// is not a string).
pub fn required_string(path: &str, document_index: usize, document: &Document, field: &'static str) -> (r:
    Result<String, ManifestError>)
    ensures
        match document_string_field(document@.0, document@.1, field@) {
            Some(text) => r matches Ok(s) && s@ == text,
            None => r matches Err(e) && is_missing_field(e, path@, document_index, field@),
        },
{
    let text = string_field(document, field);
    required_field(path, document_index, field, text)
}

/// The workload that one YAML document describes (see
/// [`document_result_holds`]).
pub fn parse_document(path: &str, document_index: usize, document: &Document) -> (r: Result<
    Workload,
    ManifestError,
>)
    ensures
        document_result_holds(r, path@, document_index, document@.0, document@.1),
        r is Ok <==> document_succeeds(document@.0, document@.1),
        match r {
            Ok(w) => workload_well_formed(w@),
            Err(e) => error_path(e) == path@ && error_document(e) == Some(document_index)
                && !is_yaml_error(e),
        },
{
    proof {
        reveal_strlit("apiVersion");
        reveal_strlit("kind");
    }
    if null_document(document) {
        return Err(ManifestError::EmptyDocument { path: path.to_owned(), document_index });
    }
    let api_version = match required_string(path, document_index, document, "apiVersion") {
        Ok(text) => text,
        Err(e) => return Err(e),
    };
    let kind_text = match required_string(path, document_index, document, "kind") {
        Ok(text) => text,
        Err(e) => return Err(e),
    };
    let kind = match workload_kind(path, document_index, api_version.as_str(), kind_text.as_str()) {
        Ok(kind) => kind,
        Err(e) => return Err(e),
    };
    let decoded = match kind {
        WorkloadKind::Pod => decode_pod(document),
        WorkloadKind::Deployment => decode_deployment(document),
        WorkloadKind::StatefulSet => decode_stateful_set(document),
        WorkloadKind::DaemonSet => decode_daemon_set(document),
        WorkloadKind::Job => decode_job(document),
        WorkloadKind::CronJob => decode_cron_job(document),
    };
    let ghost expected = decoded;
    let r = workload_from_decoded(path, document_index, kind, decoded);
    proof {
        lemma_decoded_succeeds(r, path@, document_index, kind, expected);
    }
    r
}

/// Where parsing a manifest text stops: the first document that gives no
/// workload, if one of the documents read does.
pub open spec fn first_failing_document(text: Seq<char>, j: nat) -> bool {
    &&& j < yaml_document_outcome(text).0
    &&& !document_succeeds(text, j)
    &&& forall|i: nat| i < j ==> #[trigger] document_succeeds(text, i)
}

/// The workloads of every document of a manifest text, in order; documents
/// are numbered from 1.  Success comes exactly when every document read gives
/// a workload and the text is valid YAML throughout, and then workload `i`
/// is what document `i + 1` gives.  Otherwise the first document that gives
/// no workload gives the error; where there is none, the YAML error of the
/// document after those read does.
pub fn parse_content(path: &str, content: &str) -> (r: Result<Vec<Workload>, ManifestError>)
    ensures
        r is Ok <==> !yaml_document_outcome(content@).1 && forall|i: nat|
            i < yaml_document_outcome(content@).0 ==> #[trigger] document_succeeds(content@, i),
        match r {
            Ok(ws) => {
                &&& ws.len() == yaml_document_outcome(content@).0
                &&& forall|i: int|
                    0 <= i < ws.len() ==> document_result_holds(
                        Ok(#[trigger] ws[i]),
                        path@,
                        (i + 1) as usize,
                        content@,
                        i as nat,
                    )
                &&& forall|i: int| 0 <= i < ws.len() ==> workload_well_formed(#[trigger] ws[i]@)
            },
            Err(e) => {
                &&& error_path(e) == path@
                &&& error_document(e) matches Some(d)
                &&& 1 <= d <= yaml_document_outcome(content@).0 + 1
                &&& !is_yaml_error(e) ==> {
                    &&& first_failing_document(content@, (d - 1) as nat)
                    &&& document_result_holds(Err(e), path@, d, content@, (d - 1) as nat)
                }
                &&& is_yaml_error(e) ==> {
                    &&& yaml_document_outcome(content@).1
                    &&& forall|i: nat|
                        i < yaml_document_outcome(content@).0 ==> #[trigger] document_succeeds(
                            content@,
                            i,
                        )
                    &&& (d == yaml_document_outcome(content@).0 + 1 || d == usize::MAX)
                    &&& yaml_text_failure(content@) matches Some(failure)
                    &&& yaml_error_holds(e, path@, d, failure)
                }
            },
        },
{
    let (documents, failure) = yaml_documents(content);
    let ghost n = yaml_document_outcome(content@).0;
    let mut workloads: Vec<Workload> = Vec::new();
    let mut i: usize = 0;
    while i < documents.len()
        invariant
            i <= documents.len(),
            documents.len() == n,
            n == yaml_document_outcome(content@).0,
            forall|k: int| 0 <= k < documents.len() ==> (#[trigger] documents@[k])@ == (content@, k as nat),
            workloads.len() == i,
            forall|k: nat| k < i ==> #[trigger] document_succeeds(content@, k),
            forall|k: int|
                0 <= k < workloads.len() ==> document_result_holds(
                    Ok(#[trigger] workloads@[k]),
                    path@,
                    (k + 1) as usize,
                    content@,
                    k as nat,
                ),
            forall|k: int| 0 <= k < workloads.len() ==> workload_well_formed(#[trigger] workloads@[k]@),
        decreases documents.len() - i,
    {
        assert(documents@[i as int]@ == (content@, i as nat));
        let result = parse_document(path, i + 1, &documents[i]);
        match result {
            Ok(workload) => {
                let ghost before = workloads@;
                workloads.push(workload);
                assert forall|k: int| 0 <= k < workloads.len() implies document_result_holds(
                    Ok(#[trigger] workloads@[k]),
                    path@,
                    (k + 1) as usize,
                    content@,
                    k as nat,
                ) by {
                    if k < i {
                        assert(workloads@[k] == before[k]);
                    }
                }
            },
            Err(e) => {
                proof {
                    assert(first_failing_document(content@, i as nat));
                    assert((((i + 1) as usize) - 1) as nat == i as nat);
                }
                return Err(e);
            },
        }
        i = i + 1;
    }
    match failure {
        Some(failure) => {
            let n = documents.len();
            let document_index = if n < usize::MAX { n + 1 } else { n };
            Err(yaml_error(path, document_index, failure))
        },
        None => Ok(workloads),
    }
}

} // verus!
