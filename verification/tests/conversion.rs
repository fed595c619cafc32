use grafana_plugin_sdk_rs::backend::conversion::{
    ConversionResponse, InnerConversionRequest, RawObject,
};
use grafana_plugin_sdk_rs::backend::{ConvertFromError, StatusResult};
use grafana_plugin_sdk_rs::pluginv2;

type Request = InnerConversionRequest<String>;

fn context_ok(c: String) -> Result<String, String> {
    Ok(c)
}

#[test]
fn conversion_request_converts_from_proto() {
    let proto = pluginv2::ConversionRequest {
        plugin_context: Some(String::new()),
        uid: "abc".to_owned(),
        objects: vec![pluginv2::RawObject {
            raw: b"{}".to_vec(),
            content_type: "application/json".to_owned(),
        }],
        target_version: Some(pluginv2::GroupVersion {
            group: "g".to_owned(),
            version: "v2".to_owned(),
        }),
    };
    let request: Request = InnerConversionRequest::try_from_proto(proto, context_ok).unwrap();
    assert_eq!(request.uid, "abc");
    assert_eq!(request.target_version.version, "v2");
    assert_eq!(request.objects.len(), 1);
    assert_eq!(request.objects[0].content_type, "application/json");
}

#[test]
fn conversion_response_converts_to_proto() {
    let response: pluginv2::ConversionResponse = ConversionResponse::new(
        "abc",
        vec![RawObject::new(b"{}".to_vec(), "application/json")],
    )
    .into();
    assert_eq!(response.uid, "abc");
    assert_eq!(response.result.unwrap().status, "Success");
    assert_eq!(response.objects.len(), 1);
}

#[test]
fn conversion_request_without_context_is_refused() {
    let proto: pluginv2::ConversionRequest<String> = pluginv2::ConversionRequest {
        plugin_context: None,
        uid: "u".to_owned(),
        objects: Vec::new(),
        target_version: None,
    };
    let result: Result<Request, ConvertFromError<String>> =
        InnerConversionRequest::try_from_proto(proto, context_ok);
    assert!(matches!(result, Err(ConvertFromError::MissingPluginContext)));
}

#[test]
fn conversion_request_keeps_object_order_and_defaults_target() {
    let proto = pluginv2::ConversionRequest {
        plugin_context: Some("ctx".to_owned()),
        uid: "u".to_owned(),
        objects: vec![
            pluginv2::RawObject { raw: b"1".to_vec(), content_type: "a".to_owned() },
            pluginv2::RawObject { raw: b"2".to_vec(), content_type: "b".to_owned() },
        ],
        target_version: None,
    };
    let request: Request = InnerConversionRequest::try_from_proto(proto, context_ok).unwrap();
    assert_eq!(request.objects[0].raw, b"1");
    assert_eq!(request.objects[1].content_type, "b");
    assert_eq!(request.target_version.group, "");
    assert_eq!(request.target_version.version, "");
}

#[test]
fn failed_conversion_has_no_objects() {
    let response: pluginv2::ConversionResponse =
        ConversionResponse::failure("abc", StatusResult::failure("cannot")).into();
    assert_eq!(response.uid, "abc");
    let result = response.result.unwrap();
    assert_eq!(result.status, "Failure");
    assert_eq!(result.message, "cannot");
    assert!(response.objects.is_empty());
}

#[test]
fn raw_object_round_trips_through_wire_form() {
    let object = RawObject::new(b"{\"a\":1}".to_vec(), "application/json");
    let wire: pluginv2::RawObject = object.clone().into();
    let back: RawObject = wire.clone().into();
    assert_eq!(back.raw, object.raw);
    assert_eq!(back.content_type, object.content_type);
    assert_eq!(wire.content_type, "application/json");
}
