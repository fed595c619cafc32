//! Kubernetes-style admission control for plugins.
//!
//! **Experimental.** Admission control lets a plugin validate or mutate resources
//! before they are persisted, following the Kubernetes admission webhook pattern.
use vstd::prelude::*;

use super::convert::ConvertFromError;
use crate::pluginv2;
use crate::pluginv2::admission_request::{operation_of, Operation};

verus! {

/// A machine- and human-readable status, modelled on Kubernetes' `Status`.
#[derive(Clone, Debug, Default, PartialEq, Eq)]
#[non_exhaustive]
pub struct StatusResult {
    /// The status of the operation: `"Success"` or `"Failure"`.
    pub status: String,
    /// A human-readable description of the status.
    pub message: String,
    /// A machine-readable reason for a failure, if any.
    pub reason: String,
    /// A suggested HTTP status code (`0` if unset).
    pub code: i32,
}

impl StatusResult {
    /// A `"Failure"` status with the given message.
    pub fn failure(message: &str) -> (s: Self)
        ensures
            s.status@ == "Failure"@,
            s.message@ == message@,
            s.reason@ == Seq::<char>::empty(),
            s.code == 0,
    {
        StatusResult {
            status: String::from_str("Failure"),
            message: message.to_owned(),
            reason: String::new(),
            code: 0,
        }
    }

    /// A `"Success"` status.
    pub fn success() -> (s: Self)
        ensures
            s.status@ == "Success"@,
            s.message@ == Seq::<char>::empty(),
            s.reason@ == Seq::<char>::empty(),
            s.code == 0,
    {
        StatusResult {
            status: String::from_str("Success"),
            message: String::new(),
            reason: String::new(),
            code: 0,
        }
    }
}

/// The wire form of a status: the same four fields.
pub open spec fn status_to_wire(s: StatusResult) -> pluginv2::StatusResult {
    pluginv2::StatusResult { status: s.status, message: s.message, reason: s.reason, code: s.code }
}

/// The wire form of an optional status.
pub open spec fn optional_status_to_wire(s: Option<StatusResult>) -> Option<pluginv2::StatusResult> {
    match s {
        Some(r) => Some(status_to_wire(r)),
        None => None,
    }
}

impl From<StatusResult> for pluginv2::StatusResult {
    fn from(other: StatusResult) -> (r: Self) {
        pluginv2::StatusResult {
            status: other.status,
            message: other.message,
            reason: other.reason,
            code: other.code,
        }
    }
}

impl vstd::std_specs::convert::FromSpecImpl<StatusResult> for pluginv2::StatusResult {
    open spec fn obeys_from_spec() -> bool {
        true
    }

    open spec fn from_spec(v: StatusResult) -> Self {
        status_to_wire(v)
    }
}

fn optional_status_into_wire(s: Option<StatusResult>) -> (w: Option<pluginv2::StatusResult>)
    ensures
        w == optional_status_to_wire(s),
{
    match s {
        Some(r) => Some(pluginv2::StatusResult::from(r)),
        None => None,
    }
}

/// The group, version and kind identifying a resource type.
#[derive(Clone, Debug, Default, PartialEq, Eq)]
#[non_exhaustive]
pub struct GroupVersionKind {
    /// The API group.
    pub group: String,
    /// The API version.
    pub version: String,
    /// The resource kind.
    pub kind: String,
}

/// The SDK form of a wire group/version/kind: the same three fields.
pub open spec fn group_version_kind_from_wire(g: pluginv2::GroupVersionKind) -> GroupVersionKind {
    GroupVersionKind { group: g.group, version: g.version, kind: g.kind }
}

impl From<pluginv2::GroupVersionKind> for GroupVersionKind {
    fn from(other: pluginv2::GroupVersionKind) -> (r: Self) {
        GroupVersionKind { group: other.group, version: other.version, kind: other.kind }
    }
}

impl vstd::std_specs::convert::FromSpecImpl<pluginv2::GroupVersionKind> for GroupVersionKind {
    open spec fn obeys_from_spec() -> bool {
        true
    }

    open spec fn from_spec(v: pluginv2::GroupVersionKind) -> Self {
        group_version_kind_from_wire(v)
    }
}

/// The type of resource operation being admitted.
#[derive(Clone, Copy, Debug, PartialEq, Eq, Structural)]
#[non_exhaustive]
pub enum AdmissionOperation {
    /// The object is being created.
    Create,
    /// The object is being updated.
    Update,
    /// The object is being deleted.
    Delete,
}

/// The SDK form of a wire operation: the operation of the same name.
pub open spec fn operation_from_wire(op: Operation) -> AdmissionOperation {
    match op {
        Operation::Create => AdmissionOperation::Create,
        Operation::Update => AdmissionOperation::Update,
        Operation::Delete => AdmissionOperation::Delete,
    }
}

impl From<Operation> for AdmissionOperation {
    fn from(other: Operation) -> (r: Self) {
        match other {
            Operation::Create => AdmissionOperation::Create,
            Operation::Update => AdmissionOperation::Update,
            Operation::Delete => AdmissionOperation::Delete,
        }
    }
}

impl vstd::std_specs::convert::FromSpecImpl<Operation> for AdmissionOperation {
    open spec fn obeys_from_spec() -> bool {
        true
    }

    open spec fn from_spec(v: Operation) -> Self {
        operation_from_wire(v)
    }
}

/// A request to admit (validate or mutate) a resource; `C` is the plugin
/// context that the request carries.
#[derive(Debug)]
#[non_exhaustive]
pub struct InnerAdmissionRequest<C> {
    /// Details of the plugin instance from which the request originated.
    pub plugin_context: C,
    /// The operation being performed.
    pub operation: AdmissionOperation,
    /// The kind of the object in the request.
    pub kind: GroupVersionKind,
    /// The object in the request, including its full metadata envelope.
    pub object_bytes: Vec<u8>,
    /// The object as it currently exists in storage (for updates/deletes).
    pub old_object_bytes: Vec<u8>,
}

/// `r` is the kind carried by a wire request: the wire kind's fields, or the
/// empty kind when none was sent.
pub open spec fn kind_from_wire(k: Option<pluginv2::GroupVersionKind>, r: GroupVersionKind) -> bool {
    match k {
        Some(g) => r == group_version_kind_from_wire(g),
        None => r.group@ == Seq::<char>::empty() && r.version@ == Seq::<char>::empty() && r.kind@
            == Seq::<char>::empty(),
    }
}

/// The kind carried by a wire request, or the empty kind when none was sent.
fn kind_or_default(k: Option<pluginv2::GroupVersionKind>) -> (r: GroupVersionKind)
    ensures
        kind_from_wire(k, r),
{
    match k {
        Some(g) => GroupVersionKind::from(g),
        None => GroupVersionKind { group: String::new(), version: String::new(), kind: String::new() },
    }
}

impl<C> InnerAdmissionRequest<C> {
    /// Turn a wire admission request into its SDK form, converting its plugin
    /// context with `convert_context`.
    ///
    /// Fails with [`ConvertFromError::MissingPluginContext`] when the request
    /// carries no plugin context, and with the conversion's own error when the
    /// context cannot be converted.
    pub fn try_from_proto<P, E, F: Fn(P) -> Result<C, E>>(
        other: pluginv2::AdmissionRequest<P>,
        convert_context: F,
    ) -> (r: Result<Self, ConvertFromError<E>>)
        requires
            forall|p: P| #[trigger] convert_context.requires((p,)),
        ensures
            other.plugin_context is None ==> r is Err && r->Err_0
                is MissingPluginContext,
            other.plugin_context matches Some(p) ==> match r {
                Ok(req) => {
                    &&& convert_context.ensures((p,), Ok::<C, E>(req.plugin_context))
                    &&& req.operation == operation_from_wire(operation_of(other.operation as int))
                    &&& kind_from_wire(other.kind, req.kind)
                    &&& req.object_bytes == other.object_bytes
                    &&& req.old_object_bytes == other.old_object_bytes
                },
                Err(ConvertFromError::PluginContext(e)) => convert_context.ensures(
                    (p,),
                    Err::<C, E>(e),
                ),
                Err(ConvertFromError::MissingPluginContext) => false,
            },
    {
        let operation = AdmissionOperation::from(other.operation());
        let plugin_context = match other.plugin_context {
            Some(p) => match convert_context(p) {
                Ok(c) => c,
                Err(e) => {
                    return Err(ConvertFromError::PluginContext(e));
                },
            },
            None => {
                return Err(ConvertFromError::MissingPluginContext);
            },
        };
        Ok(InnerAdmissionRequest {
            plugin_context,
            operation,
            kind: kind_or_default(other.kind),
            object_bytes: other.object_bytes,
            old_object_bytes: other.old_object_bytes,
        })
    }
}

/// The response to a validating admission request.
#[derive(Clone, Debug, Default)]
#[non_exhaustive]
pub struct ValidationResponse {
    /// Whether the request is permitted.
    pub allowed: bool,
    /// Details of why the request was denied (ignored when `allowed`).
    pub result: Option<StatusResult>,
    /// Warnings to return to the API client.
    pub warnings: Vec<String>,
}

impl ValidationResponse {
    /// An allowed response.
    pub fn allowed() -> (r: Self)
        ensures
            r.allowed,
            r.result is None,
            r.warnings@ == Seq::<String>::empty(),
    {
        ValidationResponse { allowed: true, result: None, warnings: Vec::new() }
    }

    /// A denied response with the given reason.
    pub fn denied(result: StatusResult) -> (r: Self)
        ensures
            !r.allowed,
            r.result == Some(result),
            r.warnings@ == Seq::<String>::empty(),
    {
        ValidationResponse { allowed: false, result: Some(result), warnings: Vec::new() }
    }

    /// Attach warnings to the response.
    pub fn with_warnings(self, warnings: Vec<String>) -> (r: Self)
        ensures
            r.allowed == self.allowed,
            r.result == self.result,
            r.warnings == warnings,
    {
        let mut r = self;
        r.warnings = warnings;
        r
    }
}

/// The wire form of a validation response: the same fields, the status in
/// its wire form.
pub open spec fn validation_to_wire(v: ValidationResponse) -> pluginv2::ValidationResponse {
    pluginv2::ValidationResponse {
        allowed: v.allowed,
        result: optional_status_to_wire(v.result),
        warnings: v.warnings,
    }
}

impl From<ValidationResponse> for pluginv2::ValidationResponse {
    fn from(other: ValidationResponse) -> (r: Self) {
        pluginv2::ValidationResponse {
            allowed: other.allowed,
            result: optional_status_into_wire(other.result),
            warnings: other.warnings,
        }
    }
}

impl vstd::std_specs::convert::FromSpecImpl<ValidationResponse> for pluginv2::ValidationResponse {
    open spec fn obeys_from_spec() -> bool {
        true
    }

    open spec fn from_spec(v: ValidationResponse) -> Self {
        validation_to_wire(v)
    }
}

/// The response to a mutating admission request.
#[derive(Clone, Debug, Default)]
#[non_exhaustive]
pub struct MutationResponse {
    /// Whether the request is permitted.
    pub allowed: bool,
    /// Details of why the request was denied (ignored when `allowed`).
    pub result: Option<StatusResult>,
    /// Warnings to return to the API client.
    pub warnings: Vec<String>,
    /// The mutated object bytes.
    pub object_bytes: Vec<u8>,
}

impl MutationResponse {
    /// An allowed response returning the (possibly mutated) object.
    pub fn allowed(object_bytes: Vec<u8>) -> (r: Self)
        ensures
            r.allowed,
            r.result is None,
            r.warnings@ == Seq::<String>::empty(),
            r.object_bytes == object_bytes,
    {
        MutationResponse { allowed: true, result: None, warnings: Vec::new(), object_bytes }
    }

    /// A denied response with the given reason.
    pub fn denied(result: StatusResult) -> (r: Self)
        ensures
            !r.allowed,
            r.result == Some(result),
            r.warnings@ == Seq::<String>::empty(),
            r.object_bytes@ == Seq::<u8>::empty(),
    {
        MutationResponse {
            allowed: false,
            result: Some(result),
            warnings: Vec::new(),
            object_bytes: Vec::new(),
        }
    }
}

/// The wire form of a mutation response: the same fields, the status in its
/// wire form.
pub open spec fn mutation_to_wire(v: MutationResponse) -> pluginv2::MutationResponse {
    pluginv2::MutationResponse {
        allowed: v.allowed,
        result: optional_status_to_wire(v.result),
        warnings: v.warnings,
        object_bytes: v.object_bytes,
    }
}

impl From<MutationResponse> for pluginv2::MutationResponse {
    fn from(other: MutationResponse) -> (r: Self) {
        pluginv2::MutationResponse {
            allowed: other.allowed,
            result: optional_status_into_wire(other.result),
            warnings: other.warnings,
            object_bytes: other.object_bytes,
        }
    }
}

impl vstd::std_specs::convert::FromSpecImpl<MutationResponse> for pluginv2::MutationResponse {
    open spec fn obeys_from_spec() -> bool {
        true
    }

    open spec fn from_spec(v: MutationResponse) -> Self {
        mutation_to_wire(v)
    }
}

/// A status keeps each of its four fields in its wire form, and so in the
/// wire form of every validation and mutation response: the status, the
/// message, the reason and the suggested HTTP code.
pub proof fn law_status_reaches_the_wire_whole(
    s: StatusResult,
    v: ValidationResponse,
    m: MutationResponse,
)
    ensures
        status_to_wire(s).status == s.status,
        status_to_wire(s).message == s.message,
        status_to_wire(s).reason == s.reason,
        status_to_wire(s).code == s.code,
        optional_status_to_wire(Some(s)) matches Some(w) && w.status == s.status && w.message
            == s.message && w.reason == s.reason && w.code == s.code,
        optional_status_to_wire(None) is None,
        validation_to_wire(v).allowed == v.allowed,
        validation_to_wire(v).warnings == v.warnings,
        validation_to_wire(v).result is Some <==> v.result is Some,
        v.result matches Some(r) ==> validation_to_wire(v).result matches Some(w) && w.status
            == r.status && w.message == r.message && w.reason == r.reason && w.code == r.code,
        mutation_to_wire(m).allowed == m.allowed,
        mutation_to_wire(m).warnings == m.warnings,
        mutation_to_wire(m).object_bytes == m.object_bytes,
        mutation_to_wire(m).result is Some <==> m.result is Some,
        m.result matches Some(r) ==> mutation_to_wire(m).result matches Some(w) && w.status
            == r.status && w.message == r.message && w.reason == r.reason && w.code == r.code,
{
}

/// The kind of a converted admission request is the wire kind field by
/// field: its group is the wire group, its version the wire version and its
/// kind the wire kind; with no wire kind, all three are empty.
pub proof fn law_request_kind_is_the_wire_kind(
    g: pluginv2::GroupVersionKind,
    k: Option<pluginv2::GroupVersionKind>,
    r: GroupVersionKind,
)
    ensures
        group_version_kind_from_wire(g).group == g.group,
        group_version_kind_from_wire(g).version == g.version,
        group_version_kind_from_wire(g).kind == g.kind,
        kind_from_wire(k, r) ==> match k {
            Some(w) => r.group == w.group && r.version == w.version && r.kind == w.kind,
            None => r.group@.len() == 0 && r.version@.len() == 0 && r.kind@.len() == 0,
        },
{
}

} // verus!
