use grafana_plugin_sdk_rs::backend::admission::{
    AdmissionOperation, InnerAdmissionRequest, MutationResponse, StatusResult, ValidationResponse,
};
use grafana_plugin_sdk_rs::backend::ConvertFromError;
use grafana_plugin_sdk_rs::pluginv2;
use grafana_plugin_sdk_rs::pluginv2::admission_request::Operation;

type Request = InnerAdmissionRequest<String>;

fn context_ok(plugin_id: String) -> Result<String, String> {
    Ok(plugin_id)
}

#[test]
fn admission_request_converts_from_proto() {
    let proto = pluginv2::AdmissionRequest {
        plugin_context: Some(String::new()),
        operation: Operation::Update as i32,
        kind: Some(pluginv2::GroupVersionKind {
            group: "g".to_owned(),
            version: "v1".to_owned(),
            kind: "Dashboard".to_owned(),
        }),
        object_bytes: b"new".to_vec(),
        old_object_bytes: b"old".to_vec(),
    };
    let request: Request = InnerAdmissionRequest::try_from_proto(proto, context_ok).unwrap();
    assert_eq!(request.operation, AdmissionOperation::Update);
    assert_eq!(request.kind.kind, "Dashboard");
    assert_eq!(request.object_bytes, b"new");
    assert_eq!(request.old_object_bytes, b"old");
}

#[test]
fn responses_convert_to_proto() {
    let validation: pluginv2::ValidationResponse =
        ValidationResponse::denied(StatusResult::failure("nope"))
            .with_warnings(vec!["careful".to_owned()])
            .into();
    assert!(!validation.allowed);
    assert_eq!(validation.result.unwrap().message, "nope");
    assert_eq!(validation.warnings, vec!["careful".to_owned()]);

    let mutation: pluginv2::MutationResponse =
        MutationResponse::allowed(b"mutated".to_vec()).into();
    assert!(mutation.allowed);
    assert_eq!(mutation.object_bytes, b"mutated");
}

#[test]
fn admission_request_without_context_is_refused() {
    let proto: pluginv2::AdmissionRequest<String> = pluginv2::AdmissionRequest {
        plugin_context: None,
        operation: 0,
        kind: None,
        object_bytes: Vec::new(),
        old_object_bytes: Vec::new(),
    };
    let result: Result<Request, _> = InnerAdmissionRequest::try_from_proto(proto, context_ok);
    assert!(matches!(result, Err(ConvertFromError::MissingPluginContext)));
}

#[test]
fn admission_request_context_error_is_reported() {
    let proto = pluginv2::AdmissionRequest {
        plugin_context: Some("broken".to_owned()),
        operation: 2,
        kind: None,
        object_bytes: Vec::new(),
        old_object_bytes: Vec::new(),
    };
    let result: Result<Request, ConvertFromError<String>> =
        InnerAdmissionRequest::try_from_proto(proto, |c: String| Err(c));
    match result {
        Err(ConvertFromError::PluginContext(e)) => assert_eq!(e, "broken"),
        _ => panic!("expected the context conversion error"),
    }
}

#[test]
fn admission_request_defaults_kind_and_unknown_operation() {
    let proto = pluginv2::AdmissionRequest {
        plugin_context: Some("ctx".to_owned()),
        operation: 7,
        kind: None,
        object_bytes: b"x".to_vec(),
        old_object_bytes: Vec::new(),
    };
    let request: Request = InnerAdmissionRequest::try_from_proto(proto, context_ok).unwrap();
    assert_eq!(request.operation, AdmissionOperation::Create);
    assert_eq!(request.kind.group, "");
    assert_eq!(request.kind.version, "");
    assert_eq!(request.kind.kind, "");
    assert_eq!(request.plugin_context, "ctx");
}

#[test]
fn wire_operations_map_to_sdk_operations() {
    assert_eq!(AdmissionOperation::from(Operation::Create), AdmissionOperation::Create);
    assert_eq!(AdmissionOperation::from(Operation::Update), AdmissionOperation::Update);
    assert_eq!(AdmissionOperation::from(Operation::Delete), AdmissionOperation::Delete);
    assert_eq!(Operation::from_i32(2), Some(Operation::Delete));
    assert_eq!(Operation::from_i32(-1), None);
    assert_eq!(Operation::Update.number(), 1);
    for op in [Operation::Create, Operation::Update, Operation::Delete] {
        assert_eq!(Operation::from_i32(op.number()), Some(op));
    }
}

#[test]
fn status_results_and_allowed_validation() {
    let success = StatusResult::success();
    assert_eq!(success.status, "Success");
    assert_eq!(success.message, "");
    assert_eq!(success.code, 0);
    let failure = StatusResult::failure("bad");
    assert_eq!(failure.status, "Failure");
    assert_eq!(failure.reason, "");

    let wire: pluginv2::StatusResult = failure.clone().into();
    assert_eq!(wire.status, "Failure");
    assert_eq!(wire.message, "bad");

    let allowed: pluginv2::ValidationResponse = ValidationResponse::allowed().into();
    assert!(allowed.allowed);
    assert!(allowed.result.is_none());
    assert!(allowed.warnings.is_empty());

    let denied: pluginv2::MutationResponse = MutationResponse::denied(failure).into();
    assert!(!denied.allowed);
    assert_eq!(denied.result.unwrap().message, "bad");
    assert!(denied.object_bytes.is_empty());
}
