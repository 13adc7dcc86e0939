use temp_probe::delivery::{
    classify, classify_status, delivery_body, delivery_request, DeliveryOutcome, Reply,
    StatusClass,
};
use temp_probe::reading::TemperatureReading;

fn answered(status: u16, body: &str) -> DeliveryOutcome {
    classify(Reply::Answered { status, body: body.to_string() })
}

#[test]
fn status_200_is_delivered() {
    assert!(matches!(answered(200, "ok"), DeliveryOutcome::Delivered));
}

#[test]
fn status_503_is_server_rejected() {
    assert!(matches!(answered(503, "down"), DeliveryOutcome::ServerRejected));
}

#[test]
fn status_500_is_server_rejected() {
    assert!(matches!(answered(500, ""), DeliveryOutcome::ServerRejected));
}

#[test]
fn status_404_is_unknown_with_code_and_text() {
    match answered(404, "not here") {
        DeliveryOutcome::UnknownOutcome { status, body } => {
            assert_eq!(status, 404);
            assert_eq!(body, "not here");
        }
        other => panic!("{:?}", other),
    }
}

#[test]
fn redirect_is_unknown() {
    assert!(matches!(answered(302, ""), DeliveryOutcome::UnknownOutcome { status: 302, .. }));
}

#[test]
fn connection_error_is_transport_failed() {
    let outcome = classify(Reply::Failed { reason: "connection refused".to_string() });
    match outcome {
        DeliveryOutcome::TransportFailed { reason } => assert_eq!(reason, "connection refused"),
        other => panic!("{:?}", other),
    }
}

#[test]
fn status_classes_at_their_borders() {
    assert_eq!(classify_status(199), StatusClass::Other);
    assert_eq!(classify_status(200), StatusClass::Success);
    assert_eq!(classify_status(299), StatusClass::Success);
    assert_eq!(classify_status(300), StatusClass::Other);
    assert_eq!(classify_status(499), StatusClass::Other);
    assert_eq!(classify_status(500), StatusClass::ServerError);
    assert_eq!(classify_status(599), StatusClass::ServerError);
    assert_eq!(classify_status(600), StatusClass::Other);
    assert_eq!(classify_status(0), StatusClass::Other);
    assert_eq!(classify_status(u16::MAX), StatusClass::Other);
}

#[test]
fn body_holds_id_and_temperature() {
    let body = delivery_body(TemperatureReading::new(45, 22), 7);
    assert_eq!(body.id, 7);
    assert_eq!(body.temp, 22);
    assert_eq!(body.entries(), vec![("id", 7), ("temp", 22)]);
}

#[test]
fn body_never_names_humidity() {
    let body = delivery_body(TemperatureReading::new(45, 22), 45);
    let members: std::collections::HashMap<&str, i32> = body.entries().into_iter().collect();
    let text = serde_json::to_string(&members).unwrap();
    let value = serde_json::from_str::<serde_json::Value>(&text).unwrap();
    let object = value.as_object().unwrap();
    assert_eq!(object.len(), 2);
    assert_eq!(object.get("id").and_then(|v| v.as_i64()), Some(45));
    assert_eq!(object.get("temp").and_then(|v| v.as_i64()), Some(22));
    assert!(object.get("humidity").is_none());
    assert!(!text.contains("humidity"));
}

#[test]
fn request_carries_url_token_and_body() {
    let request =
        delivery_request(TemperatureReading::new(45, -3), 12, "http://controller/api", "s3cr3t");
    assert_eq!(request.url, "http://controller/api");
    assert_eq!(request.token, "s3cr3t");
    assert_eq!(request.body.id, 12);
    assert_eq!(request.body.temp, -3);
}
