use nidex::protocol::{jsonrpc_version, AcpPermissionOptionKind, RequestId, ReviewDecision};

#[test]
fn request_ids_from_json() {
    assert_eq!(RequestId::from_json(&serde_json::Value::from("abc")), Some(RequestId::String("abc".to_string())));
    assert_eq!(RequestId::from_json(&serde_json::Value::from(7)), Some(RequestId::Integer(7)));
    assert_eq!(RequestId::from_json(&serde_json::Value::from(-3)), Some(RequestId::Integer(-3)));
    assert_eq!(RequestId::from_json(&serde_json::Value::Bool(true)), None);
    assert_eq!(RequestId::from_json(&serde_json::Value::Null), None);
    assert_eq!(jsonrpc_version(), "2.0");
}

#[test]
fn permission_options_map_to_decisions() {
    assert_eq!(AcpPermissionOptionKind::AllowOnce.to_review_decision(), ReviewDecision::Approved);
    assert_eq!(AcpPermissionOptionKind::AllowAlways.to_review_decision(), ReviewDecision::ApprovedForSession);
    assert_eq!(AcpPermissionOptionKind::RejectOnce.to_review_decision(), ReviewDecision::Denied);
    assert_eq!(AcpPermissionOptionKind::RejectAlways.to_review_decision(), ReviewDecision::Abort);
}
