//! Workloads as the manifest parser normalises them.

use vstd::prelude::*;

use crate::layer::copy_strings;
use crate::text::str_eq;

verus! {

/// A manifest file or directory to scan.
#[derive(Debug, Clone, PartialEq, Eq)]
pub struct Manifest {
    pub path: String,
}

impl Manifest {
    /// The manifest at `path`.
    pub fn new(path: String) -> (r: Self)
        ensures
            r.path@ == path@,
    {
        Manifest { path }
    }
}

/// The workload kinds that the parser accepts.
#[derive(Debug, Clone, Copy, PartialEq, Eq, Structural, PartialOrd, Ord, Hash)]
pub enum WorkloadKind {
    Pod,
    Deployment,
    StatefulSet,
    DaemonSet,
    Job,
    CronJob,
}

/// The security settings of one container that scoring reads.
#[derive(Debug, Clone, PartialEq, Eq)]
pub struct ContainerSecurityContext {
    pub allow_privilege_escalation: Option<bool>,
    pub add_capabilities: Vec<String>,
    pub privileged: Option<bool>,
    pub read_only_root_filesystem: Option<bool>,
    pub run_as_group: Option<i64>,
    pub run_as_non_root: Option<bool>,
    pub run_as_user: Option<i64>,
}

/// The model of a [`ContainerSecurityContext`].
pub struct SecurityContextModel {
    pub allow_privilege_escalation: Option<bool>,
    pub add_capabilities: Seq<Seq<char>>,
    pub privileged: Option<bool>,
    pub read_only_root_filesystem: Option<bool>,
    pub run_as_group: Option<i64>,
    pub run_as_non_root: Option<bool>,
    pub run_as_user: Option<i64>,
}

impl View for ContainerSecurityContext {
    type V = SecurityContextModel;

    open spec fn view(&self) -> SecurityContextModel {
        SecurityContextModel {
            allow_privilege_escalation: self.allow_privilege_escalation,
            add_capabilities: self.add_capabilities.deep_view(),
            privileged: self.privileged,
            read_only_root_filesystem: self.read_only_root_filesystem,
            run_as_group: self.run_as_group,
            run_as_non_root: self.run_as_non_root,
            run_as_user: self.run_as_user,
        }
    }
}

impl DeepView for ContainerSecurityContext {
    type V = SecurityContextModel;

    open spec fn deep_view(&self) -> SecurityContextModel {
        self@
    }
}

/// One container of a workload.
#[derive(Debug, Clone, PartialEq, Eq)]
pub struct ContainerRef {
    pub name: String,
    pub image: Option<String>,
    pub image_pull_policy: Option<String>,
    pub security_context: Option<ContainerSecurityContext>,
    pub command: Vec<String>,
    pub args: Vec<String>,
}

/// The model of a [`ContainerRef`].
pub struct ContainerModel {
    pub name: Seq<char>,
    pub image: Option<Seq<char>>,
    pub image_pull_policy: Option<Seq<char>>,
    pub security_context: Option<SecurityContextModel>,
    pub command: Seq<Seq<char>>,
    pub args: Seq<Seq<char>>,
}

impl View for ContainerRef {
    type V = ContainerModel;

    open spec fn view(&self) -> ContainerModel {
        ContainerModel {
            name: self.name@,
            image: self.image.deep_view(),
            image_pull_policy: self.image_pull_policy.deep_view(),
            security_context: self.security_context.deep_view(),
            command: self.command.deep_view(),
            args: self.args.deep_view(),
        }
    }
}

impl DeepView for ContainerRef {
    type V = ContainerModel;

    open spec fn deep_view(&self) -> ContainerModel {
        self@
    }
}

/// A normalised workload.
#[derive(Debug, Clone, PartialEq, Eq)]
pub struct Workload {
    pub kind: WorkloadKind,
    pub name: String,
    pub namespace: Option<String>,
    pub containers: Vec<ContainerRef>,
    pub service_account: Option<String>,
    pub host_network: bool,
    pub host_pid: bool,
    pub privileged: bool,
}

/// The model of a [`Workload`].
pub struct WorkloadModel {
    pub kind: WorkloadKind,
    pub name: Seq<char>,
    pub namespace: Option<Seq<char>>,
    pub containers: Seq<ContainerModel>,
    pub service_account: Option<Seq<char>>,
    pub host_network: bool,
    pub host_pid: bool,
    pub privileged: bool,
}

impl View for Workload {
    type V = WorkloadModel;

    open spec fn view(&self) -> WorkloadModel {
        WorkloadModel {
            kind: self.kind,
            name: self.name@,
            namespace: self.namespace.deep_view(),
            containers: self.containers.deep_view(),
            service_account: self.service_account.deep_view(),
            host_network: self.host_network,
            host_pid: self.host_pid,
            privileged: self.privileged,
        }
    }
}

impl DeepView for Workload {
    type V = WorkloadModel;

    open spec fn deep_view(&self) -> WorkloadModel {
        self@
    }
}

/// A line and column in a manifest file.
#[derive(Debug, Clone, Copy, PartialEq, Eq)]
pub struct SourceLocation {
    pub line: usize,
    pub column: usize,
}


/// Why a manifest could not be parsed.  Variants that carried an outside
/// error keep its message.
#[derive(Debug, Clone, PartialEq, Eq)]
pub enum ManifestError {
    ReadPath { path: String, message: String },
    ReadDirectory { path: String, message: String },
    ReadFile { path: String, message: String },
    InvalidYaml {
        path: String,
        document_index: usize,
        line: usize,
        column: usize,
        message: String,
    },
    InvalidYamlWithoutLocation { path: String, document_index: usize, message: String },
    EmptyDocument { path: String, document_index: usize },
    MissingRequiredField { path: String, document_index: usize, field: &'static str },
    UnsupportedApiVersion {
        path: String,
        document_index: usize,
        api_version: String,
        kind: String,
    },
    UnsupportedKind { path: String, document_index: usize, kind: String },
    UnknownField { path: String, document_index: usize, field_path: String },
    Decode { path: String, document_index: usize, kind: WorkloadKind, message: String },
    UnsupportedPath { path: String },
    Join { path: String, message: String },
}

/// The path that an error names.
pub open spec fn error_path(e: ManifestError) -> Seq<char> {
    match e {
        ManifestError::ReadPath { path, .. } => path@,
        ManifestError::ReadDirectory { path, .. } => path@,
        ManifestError::ReadFile { path, .. } => path@,
        ManifestError::InvalidYaml { path, .. } => path@,
        ManifestError::InvalidYamlWithoutLocation { path, .. } => path@,
        ManifestError::EmptyDocument { path, .. } => path@,
        ManifestError::MissingRequiredField { path, .. } => path@,
        ManifestError::UnsupportedApiVersion { path, .. } => path@,
        ManifestError::UnsupportedKind { path, .. } => path@,
        ManifestError::UnknownField { path, .. } => path@,
        ManifestError::Decode { path, .. } => path@,
        ManifestError::UnsupportedPath { path } => path@,
        ManifestError::Join { path, .. } => path@,
    }
}

/// The document that an error of one document names, if any.
pub open spec fn error_document(e: ManifestError) -> Option<usize> {
    match e {
        ManifestError::InvalidYaml { document_index, .. } => Some(document_index),
        ManifestError::InvalidYamlWithoutLocation { document_index, .. } => Some(document_index),
        ManifestError::EmptyDocument { document_index, .. } => Some(document_index),
        ManifestError::MissingRequiredField { document_index, .. } => Some(document_index),
        ManifestError::UnsupportedApiVersion { document_index, .. } => Some(document_index),
        ManifestError::UnsupportedKind { document_index, .. } => Some(document_index),
        ManifestError::UnknownField { document_index, .. } => Some(document_index),
        ManifestError::Decode { document_index, .. } => Some(document_index),
        _ => None,
    }
}

impl ManifestError {
    /// The path that this error names.
    pub fn path(&self) -> (r: &String)
        ensures
            r@ == error_path(*self),
    {
        match self {
            ManifestError::ReadPath { path, .. } => path,
            ManifestError::ReadDirectory { path, .. } => path,
            ManifestError::ReadFile { path, .. } => path,
            ManifestError::InvalidYaml { path, .. } => path,
            ManifestError::InvalidYamlWithoutLocation { path, .. } => path,
            ManifestError::EmptyDocument { path, .. } => path,
            ManifestError::MissingRequiredField { path, .. } => path,
            ManifestError::UnsupportedApiVersion { path, .. } => path,
            ManifestError::UnsupportedKind { path, .. } => path,
            ManifestError::UnknownField { path, .. } => path,
            ManifestError::Decode { path, .. } => path,
            ManifestError::UnsupportedPath { path } => path,
            ManifestError::Join { path, .. } => path,
        }
    }

    /// The line and column of a YAML syntax error; `None` for every other error.
    pub fn location(&self) -> (r: Option<SourceLocation>)
        ensures
            r == (match *self {
                ManifestError::InvalidYaml { line, column, .. } => Some(
                    SourceLocation { line, column },
                ),
                _ => None,
            }),
    {
        match self {
            ManifestError::InvalidYaml { line, column, .. } => Some(
                SourceLocation { line: *line, column: *column },
            ),
            _ => None,
        }
    }
}

/// A YAML syntax error: its message, and its line and column where the
/// parser knows them.
#[derive(Debug, Clone, PartialEq, Eq)]
pub struct YamlFailure {
    pub location: Option<SourceLocation>,
    pub message: String,
}

/// `e` reports `failure` as document `document_index` of `path`: with its
/// line and column where the failure has them, and its message.
pub open spec fn yaml_error_holds(
    e: ManifestError,
    path: Seq<char>,
    document_index: usize,
    failure: YamlFailure,
) -> bool {
    match failure.location {
        Some(loc) => e matches ManifestError::InvalidYaml {
            path: p,
            document_index: d,
            line,
            column,
            message: m,
        } && p@ == path && d == document_index && line == loc.line && column == loc.column && m@
            == failure.message@,
        None => e matches ManifestError::InvalidYamlWithoutLocation {
            path: p,
            document_index: d,
            message: m,
        } && p@ == path && d == document_index && m@ == failure.message@,
    }
}

/// The error of a document that is not valid YAML (see [`yaml_error_holds`]).
pub fn yaml_error(path: &str, document_index: usize, failure: YamlFailure) -> (r: ManifestError)
    ensures
        error_path(r) == path@,
        yaml_error_holds(r, path@, document_index, failure),
        match failure.location {
            Some(loc) => r matches ManifestError::InvalidYaml { document_index: d, line, column, .. }
                && d == document_index && line == loc.line && column == loc.column,
            None => r matches ManifestError::InvalidYamlWithoutLocation { document_index: d, .. }
                && d == document_index,
        },
{
    match failure.location {
        Some(location) => ManifestError::InvalidYaml {
            path: path.to_owned(),
            document_index,
            line: location.line,
            column: location.column,
            message: failure.message,
        },
        None => ManifestError::InvalidYamlWithoutLocation {
            path: path.to_owned(),
            document_index,
            message: failure.message,
        },
    }
}

/// The error of a document that lacks a required field.
pub fn missing_field(path: &str, document_index: usize, field: &'static str) -> (r: ManifestError)
    ensures
        is_missing_field(r, path@, document_index, field@),
{
    ManifestError::MissingRequiredField { path: path.to_owned(), document_index, field }
}

/// `e` says that document `document_index` of `path` lacks `field`.
pub open spec fn is_missing_field(
    e: ManifestError,
    path: Seq<char>,
    document_index: usize,
    field: Seq<char>,
) -> bool {
    e matches ManifestError::MissingRequiredField { path: p, document_index: d, field: f } && p@
        == path && d == document_index && f@ == field
}

/// The text of a required top-level field, or the error that the document
/// lacks it.
pub fn required_field(path: &str, document_index: usize, field: &'static str, text: Option<String>) -> (r:
    Result<String, ManifestError>)
    ensures
        match text {
            Some(t) => r == Ok::<String, ManifestError>(t),
            None => r matches Err(e) && is_missing_field(e, path@, document_index, field@),
        },
{
    match text {
        Some(t) => Ok(t),
        None => Err(missing_field(path, document_index, field)),
    }
}

/// The workload kind of an `apiVersion` and `kind`, where the parser accepts it.
pub open spec fn kind_model(api_version: Seq<char>, kind: Seq<char>) -> Option<WorkloadKind> {
    if api_version == "v1"@ && kind == "Pod"@ {
        Some(WorkloadKind::Pod)
    } else if api_version == "apps/v1"@ && kind == "Deployment"@ {
        Some(WorkloadKind::Deployment)
    } else if api_version == "apps/v1"@ && kind == "StatefulSet"@ {
        Some(WorkloadKind::StatefulSet)
    } else if api_version == "apps/v1"@ && kind == "DaemonSet"@ {
        Some(WorkloadKind::DaemonSet)
    } else if api_version == "batch/v1"@ && kind == "Job"@ {
        Some(WorkloadKind::Job)
    } else if api_version == "batch/v1"@ && kind == "CronJob"@ {
        Some(WorkloadKind::CronJob)
    } else {
        None
    }
}

/// Whether the parser knows the API group version.
pub open spec fn known_api_version(api_version: Seq<char>) -> bool {
    api_version == "v1"@ || api_version == "apps/v1"@ || api_version == "batch/v1"@
}

/// The workload kind of a document: an error names an unknown kind of a
/// known API version, or an unknown API version.
pub fn workload_kind(path: &str, document_index: usize, api_version: &str, kind: &str) -> (r: Result<
    WorkloadKind,
    ManifestError,
>)
    ensures
        kind_model(api_version@, kind@) matches Some(k) ==> r == Ok::<WorkloadKind, ManifestError>(
            k,
        ),
        kind_model(api_version@, kind@) is None && known_api_version(api_version@) ==> (r matches Err(
            ManifestError::UnsupportedKind { path: p, document_index: d, kind: k },
        ) && p@ == path@ && d == document_index && k@ == kind@),
        kind_model(api_version@, kind@) is None && !known_api_version(api_version@) ==> (r matches Err(
            ManifestError::UnsupportedApiVersion { path: p, document_index: d, api_version: a, kind: k },
        ) && p@ == path@ && d == document_index && a@ == api_version@ && k@ == kind@),
{
    let v1 = str_eq(api_version, "v1");
    let apps = str_eq(api_version, "apps/v1");
    let batch = str_eq(api_version, "batch/v1");
    if v1 && str_eq(kind, "Pod") {
        Ok(WorkloadKind::Pod)
    } else if apps && str_eq(kind, "Deployment") {
        Ok(WorkloadKind::Deployment)
    } else if apps && str_eq(kind, "StatefulSet") {
        Ok(WorkloadKind::StatefulSet)
    } else if apps && str_eq(kind, "DaemonSet") {
        Ok(WorkloadKind::DaemonSet)
    } else if batch && str_eq(kind, "Job") {
        Ok(WorkloadKind::Job)
    } else if batch && str_eq(kind, "CronJob") {
        Ok(WorkloadKind::CronJob)
    } else if v1 || apps || batch {
        Err(
            ManifestError::UnsupportedKind {
                path: path.to_owned(),
                document_index,
                kind: kind.to_owned(),
            },
        )
    } else {
        Err(
            ManifestError::UnsupportedApiVersion {
                path: path.to_owned(),
                document_index,
                api_version: api_version.to_owned(),
                kind: kind.to_owned(),
            },
        )
    }
}

/// The metadata of a manifest object that the parser reads.
#[derive(Debug, Clone, PartialEq, Eq)]
pub struct MetadataSource {
    pub name: Option<String>,
    pub namespace: Option<String>,
}

/// A decoded workload object, down to its pod specification `S`.
/// Deployments, stateful sets, daemon sets and jobs hold it at
/// `spec.template.spec`; cron jobs at `spec.jobTemplate.spec.template.spec`.
pub enum WorkloadObject<S> {
    Pod { metadata: MetadataSource, spec: Option<S> },
    Templated { metadata: MetadataSource, spec: Option<Option<S>> },
    CronJob { metadata: MetadataSource, spec: Option<Option<Option<S>>> },
}

/// The security context of a container as the manifest states it.
#[derive(Debug, Clone, PartialEq, Eq)]
pub struct SecurityContextSource {
    pub allow_privilege_escalation: Option<bool>,
    pub add_capabilities: Option<Vec<String>>,
    pub privileged: Option<bool>,
    pub read_only_root_filesystem: Option<bool>,
    pub run_as_group: Option<i64>,
    pub run_as_non_root: Option<bool>,
    pub run_as_user: Option<i64>,
}

/// A container as the manifest states it.
#[derive(Debug, Clone, PartialEq, Eq)]
pub struct ContainerSource {
    pub name: String,
    pub image: Option<String>,
    pub image_pull_policy: Option<String>,
    pub security_context: Option<SecurityContextSource>,
    pub command: Option<Vec<String>>,
    pub args: Option<Vec<String>>,
}

/// The pod-level settings that the parser reads.
#[derive(Debug, Clone, PartialEq, Eq)]
pub struct PodSettings {
    pub service_account_name: Option<String>,
    pub service_account: Option<String>,
    pub host_network: Option<bool>,
    pub host_pid: Option<bool>,
}

/// A pod specification as the manifest states it.
#[derive(Debug, Clone, PartialEq, Eq)]
pub struct PodSpecSource {
    pub settings: PodSettings,
    pub containers: Vec<ContainerSource>,
}

/// The model of an optional string list, missing read as empty.
pub open spec fn strings_or_empty(v: Option<Vec<String>>) -> Seq<Seq<char>> {
    match v {
        Some(list) => list.deep_view(),
        None => Seq::empty(),
    }
}

/// The normalised security context of a container.
pub open spec fn security_context_model(s: SecurityContextSource) -> SecurityContextModel {
    SecurityContextModel {
        allow_privilege_escalation: s.allow_privilege_escalation,
        add_capabilities: strings_or_empty(s.add_capabilities),
        privileged: s.privileged,
        read_only_root_filesystem: s.read_only_root_filesystem,
        run_as_group: s.run_as_group,
        run_as_non_root: s.run_as_non_root,
        run_as_user: s.run_as_user,
    }
}

/// The normalised container: missing command and arguments read as empty.
pub open spec fn container_model(c: ContainerSource) -> ContainerModel {
    ContainerModel {
        name: c.name@,
        image: c.image.deep_view(),
        image_pull_policy: c.image_pull_policy.deep_view(),
        security_context: match c.security_context {
            Some(s) => Some(security_context_model(s)),
            None => None,
        },
        command: strings_or_empty(c.command),
        args: strings_or_empty(c.args),
    }
}

/// Whether a container's security context sets `privileged: true`.
pub open spec fn sets_privileged(c: ContainerModel) -> bool {
    c.security_context matches Some(ctx) && ctx.privileged == Some(true)
}

fn copy_string_option(s: &Option<String>) -> (r: Option<String>)
    ensures
        r.deep_view() == s.deep_view(),
{
    match s {
        Some(v) => Some(v.clone()),
        None => None,
    }
}

fn strings_or_default(v: &Option<Vec<String>>) -> (r: Vec<String>)
    ensures
        r.deep_view() == strings_or_empty(*v),
{
    match v {
        Some(list) => copy_strings(list),
        None => {
            let r: Vec<String> = Vec::new();
            assert(r.deep_view() =~= Seq::<Seq<char>>::empty());
            r
        },
    }
}

/// The normalised security context (see [`security_context_model`]).
pub fn normalize_security_context(s: &SecurityContextSource) -> (r: ContainerSecurityContext)
    ensures
        r@ == security_context_model(*s),
{
    ContainerSecurityContext {
        allow_privilege_escalation: s.allow_privilege_escalation,
        add_capabilities: strings_or_default(&s.add_capabilities),
        privileged: s.privileged,
        read_only_root_filesystem: s.read_only_root_filesystem,
        run_as_group: s.run_as_group,
        run_as_non_root: s.run_as_non_root,
        run_as_user: s.run_as_user,
    }
}

/// The normalised containers, in order (see [`container_model`]).
pub fn normalize_containers(containers: &Vec<ContainerSource>) -> (r: Vec<ContainerRef>)
    ensures
        r.deep_view() == Seq::new(containers@.len(), |i: int| container_model(containers@[i])),
{
    let mut out: Vec<ContainerRef> = Vec::new();
    let mut i: usize = 0;
    while i < containers.len()
        invariant
            i <= containers.len(),
            out.deep_view() == Seq::new(i as nat, |k: int| container_model(containers@[k])),
        decreases containers.len() - i,
    {
        let c = &containers[i];
        let security_context = match &c.security_context {
            Some(s) => Some(normalize_security_context(s)),
            None => None,
        };
        let normalized = ContainerRef {
            name: c.name.clone(),
            image: copy_string_option(&c.image),
            image_pull_policy: copy_string_option(&c.image_pull_policy),
            security_context,
            command: strings_or_default(&c.command),
            args: strings_or_default(&c.args),
        };
        let ghost before = out.deep_view();
        out.push(normalized);
        assert(out.deep_view() =~= before.push(normalized@));
        i = i + 1;
        assert(out.deep_view() =~= Seq::new(i as nat, |k: int| container_model(containers@[k])));
    }
    out
}

/// What every parsed workload satisfies: it has a name and a container, and
/// it is privileged exactly when one of its containers sets `privileged: true`.
pub open spec fn workload_well_formed(w: WorkloadModel) -> bool {
    &&& w.name.len() > 0
    &&& w.containers.len() > 0
    &&& w.privileged == exists|i: int| 0 <= i < w.containers.len() && #[trigger] sets_privileged(w.containers[i])
}

/// The workload that a pod specification gives, or the error: the name must
/// be set and not empty, and there must be a container.
pub open spec fn workload_result_holds(
    r: Result<Workload, ManifestError>,
    path: Seq<char>,
    document_index: usize,
    kind: WorkloadKind,
    metadata: MetadataSource,
    spec: PodSpecSource,
) -> bool {
    let containers = Seq::new(spec.containers@.len(), |i: int| container_model(spec.containers@[i]));
    if !(metadata.name matches Some(n) && n@.len() > 0) {
        r matches Err(e) && is_missing_field(e, path, document_index, "metadata.name"@)
    } else if containers.len() == 0 {
        r matches Err(e) && is_missing_field(e, path, document_index, "spec.containers"@)
    } else {
        r matches Ok(w) && w@ == WorkloadModel {
            kind,
            name: metadata.name.unwrap()@,
            namespace: metadata.namespace.deep_view(),
            containers,
            service_account: match spec.settings.service_account_name {
                Some(n) => Some(n@),
                None => spec.settings.service_account.deep_view(),
            },
            host_network: spec.settings.host_network == Some(true),
            host_pid: spec.settings.host_pid == Some(true),
            privileged: exists|i: int| 0 <= i < containers.len() && sets_privileged(containers[i]),
        }
    }
}

/// The normalised workload of a pod specification (see [`workload_result_holds`]).
pub fn normalize_workload(
    path: &str,
    document_index: usize,
    kind: WorkloadKind,
    metadata: MetadataSource,
    spec: PodSpecSource,
) -> (r: Result<Workload, ManifestError>)
    ensures
        workload_result_holds(r, path@, document_index, kind, metadata, spec),
        r matches Ok(w) ==> workload_well_formed(w@),
{
    let name = match &metadata.name {
        Some(n) if !n.as_str().is_empty() => n.clone(),
        _ => {
            proof {
                if let Some(n) = metadata.name {
                    assert(n@.len() == 0);
                }
            }
            return Err(missing_field(path, document_index, "metadata.name"));
        },
    };
    let containers = normalize_containers(&spec.containers);
    if containers.len() == 0 {
        return Err(missing_field(path, document_index, "spec.containers"));
    }
    let ghost models = containers.deep_view();
    let mut privileged = false;
    let mut i: usize = 0;
    while i < containers.len() && !privileged
        invariant
            i <= containers.len(),
            models == containers.deep_view(),
            privileged ==> exists|k: int| 0 <= k < models.len() && sets_privileged(models[k]),
            !privileged ==> forall|k: int| 0 <= k < i ==> !sets_privileged(models[k]),
        decreases containers.len() - i,
    {
        assert(models[i as int] == containers@[i as int]@);
        if let Some(ctx) = &containers[i].security_context {
            if let Some(true) = ctx.privileged {
                privileged = true;
            }
        }
        i = i + 1;
    }
    let service_account = match &spec.settings.service_account_name {
        Some(n) => Some(n.clone()),
        None => copy_string_option(&spec.settings.service_account),
    };
    let host_network = match spec.settings.host_network {
        Some(true) => true,
        _ => false,
    };
    let host_pid = match spec.settings.host_pid {
        Some(true) => true,
        _ => false,
    };
    Ok(
        Workload {
            kind,
            name,
            namespace: copy_string_option(&metadata.namespace),
            containers,
            service_account,
            host_network,
            host_pid,
            privileged,
        },
    )
}

/// The pod specification of a decoded object with its metadata, or the
/// first level on the way to it that is missing.
pub open spec fn pod_spec_of<S>(object: WorkloadObject<S>) -> Result<(MetadataSource, S), Seq<char>> {
    match object {
        WorkloadObject::Pod { metadata, spec } => match spec {
            Some(s) => Ok((metadata, s)),
            None => Err("spec"@),
        },
        WorkloadObject::Templated { metadata, spec } => match spec {
            None => Err("spec"@),
            Some(None) => Err("spec.template.spec"@),
            Some(Some(s)) => Ok((metadata, s)),
        },
        WorkloadObject::CronJob { metadata, spec } => match spec {
            None => Err("spec"@),
            Some(None) => Err("spec.jobTemplate.spec"@),
            Some(Some(None)) => Err("spec.jobTemplate.spec.template.spec"@),
            Some(Some(Some(s))) => Ok((metadata, s)),
        },
    }
}

/// The pod specification of a decoded object (see [`pod_spec_of`]), or the
/// error that names the first missing level.
pub fn locate_pod_spec<S>(path: &str, document_index: usize, object: WorkloadObject<S>) -> (r: Result<
    (MetadataSource, S),
    ManifestError,
>)
    ensures
        match pod_spec_of(object) {
            Ok(found) => r == Ok::<(MetadataSource, S), ManifestError>(found),
            Err(field) => r matches Err(e) && is_missing_field(e, path@, document_index, field),
        },
{
    proof {
        reveal_strlit("spec");
        reveal_strlit("spec.template.spec");
        reveal_strlit("spec.jobTemplate.spec");
        reveal_strlit("spec.jobTemplate.spec.template.spec");
    }
    match object {
        WorkloadObject::Pod { metadata, spec } => match spec {
            Some(s) => Ok((metadata, s)),
            None => Err(missing_field(path, document_index, "spec")),
        },
        WorkloadObject::Templated { metadata, spec } => match spec {
            None => Err(missing_field(path, document_index, "spec")),
            Some(None) => Err(missing_field(path, document_index, "spec.template.spec")),
            Some(Some(s)) => Ok((metadata, s)),
        },
        WorkloadObject::CronJob { metadata, spec } => match spec {
            None => Err(missing_field(path, document_index, "spec")),
            Some(None) => Err(missing_field(path, document_index, "spec.jobTemplate.spec")),
            Some(Some(None)) => Err(
                missing_field(path, document_index, "spec.jobTemplate.spec.template.spec"),
            ),
            Some(Some(Some(s))) => Ok((metadata, s)),
        },
    }
}

/// Keeps the first field path that strict decoding reported as unknown.
pub fn record_unknown_field(first: &mut Option<String>, field_path: String)
    ensures
        *final(first) == (match *old(first) {
            Some(f) => Some(f),
            None => Some(field_path),
        }),
{
    if first.is_none() {
        *first = Some(field_path);
    }
}

/// The outcome of strict decoding as the parser reports it: a decoding
/// failure, else the first unknown field, else the object.
pub fn check_decoded<S>(
    path: &str,
    document_index: usize,
    kind: WorkloadKind,
    decoded: Result<(WorkloadObject<S>, Option<String>), String>,
) -> (r: Result<WorkloadObject<S>, ManifestError>)
    ensures
        match decoded {
            Err(message) => r matches Err(ManifestError::Decode { path: p, document_index: d, kind: k, message: m })
                && p@ == path@ && d == document_index && k == kind && m@ == message@,
            Ok((object, Some(field))) => r matches Err(ManifestError::UnknownField { path: p, document_index: d, field_path: f })
                && p@ == path@ && d == document_index && f@ == field@,
            Ok((object, None)) => r == Ok::<WorkloadObject<S>, ManifestError>(object),
        },
{
    match decoded {
        Err(message) => Err(
            ManifestError::Decode { path: path.to_owned(), document_index, kind, message },
        ),
        Ok((object, Some(field_path))) => Err(
            ManifestError::UnknownField { path: path.to_owned(), document_index, field_path },
        ),
        Ok((object, None)) => Ok(object),
    }
}

/// The workload, or the error, that a strictly decoded document gives: a
/// decoding failure, else the first unknown field, else the first missing
/// level on the way to the pod specification, else what
/// [`workload_result_holds`] says of that specification.
pub open spec fn decoded_result_holds(
    r: Result<Workload, ManifestError>,
    path: Seq<char>,
    document_index: usize,
    kind: WorkloadKind,
    decoded: Result<(WorkloadObject<PodSpecSource>, Option<String>), String>,
) -> bool {
    match decoded {
        Err(message) => r matches Err(ManifestError::Decode { path: p, document_index: d, kind: k, message: m })
            && p@ == path && d == document_index && k == kind && m@ == message@,
        Ok((_, Some(field))) => r matches Err(ManifestError::UnknownField { path: p, document_index: d, field_path: f })
            && p@ == path && d == document_index && f@ == field@,
        Ok((object, None)) => match pod_spec_of(object) {
            Err(field) => r matches Err(e) && is_missing_field(e, path, document_index, field),
            Ok((metadata, spec)) => workload_result_holds(r, path, document_index, kind, metadata, spec),
        },
    }
}

/// The workload of a strictly decoded document of kind `kind` (see
/// [`decoded_result_holds`]).
pub fn workload_from_decoded(
    path: &str,
    document_index: usize,
    kind: WorkloadKind,
    decoded: Result<(WorkloadObject<PodSpecSource>, Option<String>), String>,
) -> (r: Result<Workload, ManifestError>)
    ensures
        decoded_result_holds(r, path@, document_index, kind, decoded),
        r matches Ok(w) ==> workload_well_formed(w@),
{
    let object = match check_decoded(path, document_index, kind, decoded) {
        Ok(object) => object,
        Err(e) => return Err(e),
    };
    match locate_pod_spec(path, document_index, object) {
        Ok((metadata, spec)) => normalize_workload(path, document_index, kind, metadata, spec),
        Err(e) => Err(e),
    }
}

/// A normalised workload shares the host network, or the host PID
/// namespace, exactly when its pod specification sets `hostNetwork`, or
/// `hostPID`, to true.
pub proof fn host_namespaces_follow_pod_spec(
    r: Result<Workload, ManifestError>,
    path: Seq<char>,
    document_index: usize,
    kind: WorkloadKind,
    metadata: MetadataSource,
    spec: PodSpecSource,
)
    requires
        workload_result_holds(r, path, document_index, kind, metadata, spec),
    ensures
        r matches Ok(w) ==> (w@.host_pid <==> spec.settings.host_pid == Some(true)),
        r matches Ok(w) ==> (w@.host_network <==> spec.settings.host_network == Some(true)),
{
}

} // verus!
