//! The wire messages of the `pluginv2` protocol that admission control and
//! resource conversion exchange with Grafana.
pub mod admission_request;

use vstd::prelude::*;

verus! {

/// A status, as carried on the wire.
#[derive(Clone, Debug, Default, PartialEq, Eq)]
pub struct StatusResult {
    /// `"Success"` or `"Failure"`.
    pub status: String,
    /// A human-readable description of the status.
    pub message: String,
    /// A machine-readable reason for a failure.
    pub reason: String,
    /// A suggested HTTP status code.
    pub code: i32,
}

/// The group, version and kind of a resource type, as carried on the wire.
#[derive(Clone, Debug, Default, PartialEq, Eq)]
pub struct GroupVersionKind {
    /// The API group.
    pub group: String,
    /// The API version.
    pub version: String,
    /// The resource kind.
    pub kind: String,
}

/// The group and version of a resource, as carried on the wire.
#[derive(Clone, Debug, Default, PartialEq, Eq)]
pub struct GroupVersion {
    /// The API group.
    pub group: String,
    /// The API version.
    pub version: String,
}

/// A serialized resource with its media type, as carried on the wire.
#[derive(Clone, Debug, Default, PartialEq, Eq)]
pub struct RawObject {
    /// The serialized object.
    pub raw: Vec<u8>,
    /// The media type of `raw`.
    pub content_type: String,
}

/// A request to admit a resource, as carried on the wire; `P` is the wire
/// form of the plugin context that accompanies it.
#[derive(Clone, Debug, Default, PartialEq)]
pub struct AdmissionRequest<P> {
    /// The plugin context of the request, if it was sent.
    pub plugin_context: Option<P>,
    /// The operation, as its protocol number.
    pub operation: i32,
    /// The kind of the object, if it was sent.
    pub kind: Option<GroupVersionKind>,
    /// The object, including its metadata envelope.
    pub object_bytes: Vec<u8>,
    /// The object as it currently exists in storage.
    pub old_object_bytes: Vec<u8>,
}

impl<P> AdmissionRequest<P> {
    /// The operation of the request; a number that names no operation reads
    /// as the protocol's default, `Create`.
    pub fn operation(&self) -> (op: admission_request::Operation)
        ensures
            op == admission_request::operation_of(self.operation as int),
    {
        match admission_request::Operation::from_i32(self.operation) {
            Some(op) => op,
            None => admission_request::Operation::Create,
        }
    }
}

/// The response to a validating admission request, as carried on the wire.
#[derive(Clone, Debug, Default, PartialEq, Eq)]
pub struct ValidationResponse {
    /// Whether the request is permitted.
    pub allowed: bool,
    /// Details of why the request was denied.
    pub result: Option<StatusResult>,
    /// Warnings for the API client.
    pub warnings: Vec<String>,
}

/// The response to a mutating admission request, as carried on the wire.
#[derive(Clone, Debug, Default, PartialEq, Eq)]
pub struct MutationResponse {
    /// Whether the request is permitted.
    pub allowed: bool,
    /// Details of why the request was denied.
    pub result: Option<StatusResult>,
    /// Warnings for the API client.
    pub warnings: Vec<String>,
    /// The mutated object.
    pub object_bytes: Vec<u8>,
}

/// A request to convert objects, as carried on the wire; `P` is the wire form
/// of the plugin context that accompanies it.
#[derive(Clone, Debug, Default, PartialEq)]
pub struct ConversionRequest<P> {
    /// The plugin context of the request, if it was sent.
    pub plugin_context: Option<P>,
    /// An identifier correlating the request and its response.
    pub uid: String,
    /// The objects to convert.
    pub objects: Vec<RawObject>,
    /// The version to convert the objects to, if it was sent.
    pub target_version: Option<GroupVersion>,
}

/// The response to a conversion request, as carried on the wire.
#[derive(Clone, Debug, Default, PartialEq, Eq)]
pub struct ConversionResponse {
    /// The identifier of the request.
    pub uid: String,
    /// Details of why conversion failed, if it did.
    pub result: Option<StatusResult>,
    /// The converted objects.
    pub objects: Vec<RawObject>,
}

} // verus!
