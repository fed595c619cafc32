//! Kubernetes-style resource conversion for plugins.
//!
//! **Experimental.** Resource conversion lets a plugin convert objects between API
//! versions, following the Kubernetes conversion webhook pattern.
use vstd::prelude::*;

use super::admission::{optional_status_to_wire, StatusResult};
use super::convert::ConvertFromError;
use crate::pluginv2;

verus! {

/// The API group and version of a resource.
#[derive(Clone, Debug, Default, PartialEq, Eq)]
#[non_exhaustive]
pub struct GroupVersion {
    /// The API group.
    pub group: String,
    /// The API version.
    pub version: String,
}

/// The SDK form of a wire group/version: the same two fields.
pub open spec fn group_version_from_wire(g: pluginv2::GroupVersion) -> GroupVersion {
    GroupVersion { group: g.group, version: g.version }
}

impl From<pluginv2::GroupVersion> for GroupVersion {
    fn from(other: pluginv2::GroupVersion) -> (r: Self) {
        GroupVersion { group: other.group, version: other.version }
    }
}

impl vstd::std_specs::convert::FromSpecImpl<pluginv2::GroupVersion> for GroupVersion {
    open spec fn obeys_from_spec() -> bool {
        true
    }

    open spec fn from_spec(v: pluginv2::GroupVersion) -> Self {
        group_version_from_wire(v)
    }
}

/// A resource serialized to bytes together with its media type.
#[derive(Clone, Debug, Default)]
#[non_exhaustive]
pub struct RawObject {
    /// The serialized object.
    pub raw: Vec<u8>,
    /// The media type of [`raw`](RawObject::raw).
    pub content_type: String,
}

impl RawObject {
    /// Create a `RawObject` from serialized bytes and a content type.
    pub fn new(raw: Vec<u8>, content_type: &str) -> (o: Self)
        ensures
            o.raw == raw,
            o.content_type@ == content_type@,
    {
        RawObject { raw, content_type: content_type.to_owned() }
    }
}

/// The SDK form of a wire object: the same two fields.
pub open spec fn raw_object_from_wire(o: pluginv2::RawObject) -> RawObject {
    RawObject { raw: o.raw, content_type: o.content_type }
}

/// The wire form of an object: the same two fields.
pub open spec fn raw_object_to_wire(o: RawObject) -> pluginv2::RawObject {
    pluginv2::RawObject { raw: o.raw, content_type: o.content_type }
}

impl From<pluginv2::RawObject> for RawObject {
    fn from(other: pluginv2::RawObject) -> (r: Self) {
        RawObject { raw: other.raw, content_type: other.content_type }
    }
}

impl vstd::std_specs::convert::FromSpecImpl<pluginv2::RawObject> for RawObject {
    open spec fn obeys_from_spec() -> bool {
        true
    }

    open spec fn from_spec(v: pluginv2::RawObject) -> Self {
        raw_object_from_wire(v)
    }
}

impl From<RawObject> for pluginv2::RawObject {
    fn from(other: RawObject) -> (r: Self) {
        pluginv2::RawObject { raw: other.raw, content_type: other.content_type }
    }
}

impl vstd::std_specs::convert::FromSpecImpl<RawObject> for pluginv2::RawObject {
    open spec fn obeys_from_spec() -> bool {
        true
    }

    open spec fn from_spec(v: RawObject) -> Self {
        raw_object_to_wire(v)
    }
}

/// Converting an object to its wire form and back gives the object, and
/// converting a wire object to its SDK form and back gives the wire object.
pub proof fn law_raw_object_round_trip(o: RawObject, w: pluginv2::RawObject)
    ensures
        raw_object_from_wire(raw_object_to_wire(o)) == o,
        raw_object_to_wire(raw_object_from_wire(w)) == w,
{
}

/// Convert each wire object to its SDK form, in order.
fn objects_from_wire(objects: Vec<pluginv2::RawObject>) -> (r: Vec<RawObject>)
    ensures
        r@ == objects@.map_values(|o: pluginv2::RawObject| raw_object_from_wire(o)),
{
    broadcast use vstd::std_specs::vec::axiom_spec_into_iter;

    let ghost wire = objects@;
    let mut r: Vec<RawObject> = Vec::new();
    for o in it: objects
        invariant
            it.seq() == wire,
            r@.len() == it.index(),
            forall|i: int| 0 <= i < r@.len() ==> r@[i] == raw_object_from_wire(wire[i]),
    {
        r.push(RawObject::from(o));
    }
    assert(r@ =~= wire.map_values(|o: pluginv2::RawObject| raw_object_from_wire(o)));
    r
}

/// Convert each object to its wire form, in order.
fn objects_to_wire(objects: Vec<RawObject>) -> (r: Vec<pluginv2::RawObject>)
    ensures
        r@ == objects@.map_values(|o: RawObject| raw_object_to_wire(o)),
{
    broadcast use vstd::std_specs::vec::axiom_spec_into_iter;

    let ghost sdk = objects@;
    let mut r: Vec<pluginv2::RawObject> = Vec::new();
    for o in it: objects
        invariant
            it.seq() == sdk,
            r@.len() == it.index(),
            forall|i: int| 0 <= i < r@.len() ==> r@[i] == raw_object_to_wire(sdk[i]),
    {
        r.push(pluginv2::RawObject::from(o));
    }
    assert(r@ =~= sdk.map_values(|o: RawObject| raw_object_to_wire(o)));
    r
}

/// A request to convert one or more objects to a target version; `C` is the
/// plugin context that the request carries.
#[derive(Debug)]
#[non_exhaustive]
pub struct InnerConversionRequest<C> {
    /// Details of the plugin instance from which the request originated.
    pub plugin_context: C,
    /// An identifier correlating this request and its response.
    pub uid: String,
    /// The objects to convert.
    pub objects: Vec<RawObject>,
    /// The version to convert the objects to.
    pub target_version: GroupVersion,
}

/// `r` is the target version carried by a wire request: the wire version's
/// fields, or the empty version when none was sent.
pub open spec fn target_from_wire(g: Option<pluginv2::GroupVersion>, r: GroupVersion) -> bool {
    match g {
        Some(v) => r == group_version_from_wire(v),
        None => r.group@ == Seq::<char>::empty() && r.version@ == Seq::<char>::empty(),
    }
}

fn target_or_default(g: Option<pluginv2::GroupVersion>) -> (r: GroupVersion)
    ensures
        target_from_wire(g, r),
{
    match g {
        Some(v) => GroupVersion::from(v),
        None => GroupVersion { group: String::new(), version: String::new() },
    }
}

impl<C> InnerConversionRequest<C> {
    /// Turn a wire conversion request into its SDK form, converting its plugin
    /// context with `convert_context`.
    ///
    /// Fails with [`ConvertFromError::MissingPluginContext`] when the request
    /// carries no plugin context, and with the conversion's own error when the
    /// context cannot be converted.
    pub fn try_from_proto<P, E, F: Fn(P) -> Result<C, E>>(
        other: pluginv2::ConversionRequest<P>,
        convert_context: F,
    ) -> (r: Result<Self, ConvertFromError<E>>)
        requires
            forall|p: P| #[trigger] convert_context.requires((p,)),
        ensures
            other.plugin_context is None ==> r is Err && r->Err_0
                is MissingPluginContext,
            other.plugin_context matches Some(p) ==> match r {
                Ok(req) => {
                    &&& convert_context.ensures((p,), Ok::<C, E>(req.plugin_context))
                    &&& req.uid == other.uid
                    &&& req.objects@ == other.objects@.map_values(
                        |o: pluginv2::RawObject| raw_object_from_wire(o),
                    )
                    &&& target_from_wire(other.target_version, req.target_version)
                },
                Err(ConvertFromError::PluginContext(e)) => convert_context.ensures(
                    (p,),
                    Err::<C, E>(e),
                ),
                Err(ConvertFromError::MissingPluginContext) => false,
            },
    {
        let plugin_context = match other.plugin_context {
            Some(p) => match convert_context(p) {
                Ok(c) => c,
                Err(e) => {
                    return Err(ConvertFromError::PluginContext(e));
                },
            },
            None => {
                return Err(ConvertFromError::MissingPluginContext);
            },
        };
        Ok(InnerConversionRequest {
            plugin_context,
            uid: other.uid,
            objects: objects_from_wire(other.objects),
            target_version: target_or_default(other.target_version),
        })
    }
}

/// The response to a conversion request.
#[derive(Clone, Debug, Default)]
#[non_exhaustive]
pub struct ConversionResponse {
    /// The `uid` copied from the corresponding request.
    pub uid: String,
    /// Details of why conversion failed, if it did.
    pub result: Option<StatusResult>,
    /// The converted objects (empty on failure).
    pub objects: Vec<RawObject>,
}

impl ConversionResponse {
    /// A successful response returning the converted `objects`.
    pub fn new(uid: &str, objects: Vec<RawObject>) -> (r: Self)
        ensures
            r.uid@ == uid@,
            r.result matches Some(s) && s.status@ == "Success"@ && s.message@ == Seq::<
                char,
            >::empty() && s.reason@ == Seq::<char>::empty() && s.code == 0,
            r.objects == objects,
    {
        ConversionResponse { uid: uid.to_owned(), result: Some(StatusResult::success()), objects }
    }

    /// A failed response with the given reason.
    pub fn failure(uid: &str, result: StatusResult) -> (r: Self)
        ensures
            r.uid@ == uid@,
            r.result == Some(result),
            r.objects@ == Seq::<RawObject>::empty(),
    {
        ConversionResponse { uid: uid.to_owned(), result: Some(result), objects: Vec::new() }
    }

    /// The wire form of this response: the same identifier, the status and
    /// each object in its wire form.
    pub fn into_wire(self) -> (w: pluginv2::ConversionResponse)
        ensures
            w.uid == self.uid,
            w.result == optional_status_to_wire(self.result),
            w.objects@ == self.objects@.map_values(|o: RawObject| raw_object_to_wire(o)),
    {
        let result = match self.result {
            Some(s) => Some(pluginv2::StatusResult::from(s)),
            None => None,
        };
        pluginv2::ConversionResponse {
            uid: self.uid,
            result,
            objects: objects_to_wire(self.objects),
        }
    }
}

impl From<ConversionResponse> for pluginv2::ConversionResponse {
    /// The wire form of the response, as [`ConversionResponse::into_wire`]
    /// gives it.
    fn from(other: ConversionResponse) -> (r: Self)
        ensures
            r.uid == other.uid,
            r.result == optional_status_to_wire(other.result),
            r.objects@ == other.objects@.map_values(|o: RawObject| raw_object_to_wire(o)),
    {
        other.into_wire()
    }
}

impl vstd::std_specs::convert::FromSpecImpl<ConversionResponse> for pluginv2::ConversionResponse {
    /// The wire form holds its objects in a new vector, which a spec function
    /// cannot build; the `ensures` of `from` states the result instead.
    open spec fn obeys_from_spec() -> bool {
        false
    }

    open spec fn from_spec(v: ConversionResponse) -> Self {
        arbitrary()
    }
}

/// The target version of a converted conversion request is the wire target
/// field by field: its group is the wire group and its version the wire
/// version; with no wire target, both are empty.
pub proof fn law_target_is_the_wire_target(
    g: pluginv2::GroupVersion,
    t: Option<pluginv2::GroupVersion>,
    r: GroupVersion,
)
    ensures
        group_version_from_wire(g).group == g.group,
        group_version_from_wire(g).version == g.version,
        target_from_wire(t, r) ==> match t {
            Some(w) => r.group == w.group && r.version == w.version,
            None => r.group@.len() == 0 && r.version@.len() == 0,
        },
{
}

} // verus!
