use replica_broadcast::{
    connection_outcome, database_url, ApiError, BroadcastError, BroadcastOperation, ChannelHandle,
    StartupError,
};

fn op(kind: &str, payload: &str) -> BroadcastOperation {
    BroadcastOperation::new(kind.to_string(), payload.to_string())
}

#[test]
fn status_codes_for_every_kind() {
    assert_eq!(ApiError::DependencyMissing.status_code(), 200);
    assert_eq!(ApiError::InvalidOperation("x".to_string()).status_code(), 400);
    assert_eq!(ApiError::RequestFailed("x".to_string()).status_code(), 500);
    assert_eq!(ApiError::DatabaseError("x".to_string()).status_code(), 500);
    assert_eq!(ApiError::InternalServerError("x".to_string()).status_code(), 500);
}

#[test]
fn messages_render_kind_and_quoted_detail() {
    assert_eq!(ApiError::DependencyMissing.message(), "DependencyMissing");
    assert_eq!(
        ApiError::InvalidOperation("bad kind".to_string()).message(),
        "InvalidOperation(\"bad kind\")"
    );
    assert_eq!(
        ApiError::DatabaseError("say \"no\"".to_string()).message(),
        "DatabaseError(\"say \\\"no\\\"\")"
    );
    assert_eq!(
        ApiError::InternalServerError("a\nb".to_string()).message(),
        "InternalServerError(\"a\\nb\")"
    );
}

#[test]
fn respond_pairs_status_and_body() {
    let r = ApiError::RequestFailed("down".to_string()).respond();
    assert_eq!(r.status, 500);
    assert_eq!(r.body, "RequestFailed(\"down\")");
    let r = ApiError::DependencyMissing.respond();
    assert_eq!(r.status, 200);
    assert_eq!(r.body, "DependencyMissing");
}

#[test]
fn insert_message_is_exact_json() {
    let o = op("insert", "{\"id\":42,\"value\":\"x\"}");
    let m = o.to_message();
    assert_eq!(m, "{\"operation\":\"insert\",\"payload\":{\"id\":42,\"value\":\"x\"}}");
    let v: serde_json::Value = serde_json::from_str(&m).unwrap();
    assert_eq!(v["operation"].as_str(), Some("insert"));
    assert_eq!(v["payload"]["id"].as_i64(), Some(42));
    assert_eq!(v["payload"]["value"].as_str(), Some("x"));
}

#[test]
fn round_trip_of_plain_and_escaped_kinds() {
    let cases = [
        op("insert", "{\"id\":42,\"value\":\"x\"}"),
        op("", "null"),
        op("say \"hi\"", "[1,2]"),
        op("back\\slash", "{}"),
        op("tab\there\u{1}\u{1f}", "\"s\""),
        op("caf\u{e9} \u{1f600}", "{\"k\":\"}\"}"),
    ];
    for o in cases.iter() {
        let m = o.to_message();
        assert_eq!(BroadcastOperation::from_message(&m), Some(o.clone()));
    }
}

#[test]
fn escaped_kind_is_read_by_a_json_parser() {
    let o = op("a\"b\\c\u{0}\u{1b}", "0");
    let m = o.to_message();
    assert_eq!(m, "{\"operation\":\"a\\\"b\\\\c\\u0000\\u001b\",\"payload\":0}");
    let v: serde_json::Value = serde_json::from_str(&m).unwrap();
    assert_eq!(v["operation"].as_str(), Some("a\"b\\c\u{0}\u{1b}"));
}

#[test]
fn malformed_messages_are_rejected() {
    assert_eq!(BroadcastOperation::from_message(""), None);
    assert_eq!(BroadcastOperation::from_message("{}"), None);
    assert_eq!(BroadcastOperation::from_message("{\"operation\":\"insert\""), None);
    assert_eq!(BroadcastOperation::from_message("{\"operation\":\"insert\",\"payload\"}"), None);
    assert_eq!(BroadcastOperation::from_message("{\"operation\":\"insert\",\"data\":1}"), None);
    assert_eq!(BroadcastOperation::from_message("{\"operation\":\"insert\",\"payload\":1"), None);
    assert_eq!(BroadcastOperation::from_message("{\"operation\":\"a\\qb\",\"payload\":1}"), None);
    assert_eq!(BroadcastOperation::from_message("{\"operation\":\"a\\u0041\",\"payload\":1}"), None);
    assert_eq!(BroadcastOperation::from_message("{\"operation\":\"a\nb\",\"payload\":1}"), None);
    assert_eq!(
        BroadcastOperation::from_message("{\"operation\":\"a\\u001F\",\"payload\":1}"),
        None
    );
}

#[test]
fn payload_text_is_carried_verbatim() {
    assert_eq!(
        BroadcastOperation::from_message("{\"operation\":\"insert\",\"payload\":}"),
        Some(op("insert", ""))
    );
    assert_eq!(
        BroadcastOperation::from_message("{\"operation\":\"x\",\"payload\":{\"a\":\"}\"}}"),
        Some(op("x", "{\"a\":\"}\"}"))
    );
}

#[test]
fn announce_publishes_once_and_succeeds() {
    let mut channel = ChannelHandle::new("replica-updates".to_string());
    let o = op("insert", "{\"id\":42,\"value\":\"x\"}");
    let req = channel.begin_announce(&o).unwrap();
    assert_eq!(req.topic, "replica-updates");
    assert_eq!(BroadcastOperation::from_message(&req.message), Some(o.clone()));
    assert!(channel.is_busy());
    assert_eq!(channel.finish_announce(Ok(())), Ok(()));
    assert!(!channel.is_busy());
    assert_eq!(channel.topic(), "replica-updates");
}

#[test]
fn announce_reports_transport_failure() {
    let mut channel = ChannelHandle::new("replica-updates".to_string());
    let o = op("delete", "{\"id\":7}");
    assert!(channel.begin_announce(&o).is_some());
    let r = channel.finish_announce(Err("endpoint unreachable".to_string()));
    assert_eq!(
        r,
        Err(BroadcastError::TransportFailure("endpoint unreachable".to_string()))
    );
    assert!(!channel.is_busy());
    let api = r.unwrap_err().to_api_error();
    assert_eq!(api, ApiError::RequestFailed("endpoint unreachable".to_string()));
    assert_eq!(api.status_code(), 500);
}

#[test]
fn held_channel_refuses_second_announce() {
    let mut channel = ChannelHandle::new("t".to_string());
    let first = op("insert", "1");
    let second = op("update", "2");
    assert!(channel.begin_announce(&first).is_some());
    assert_eq!(channel.begin_announce(&second), None);
    assert!(channel.finish_announce(Ok(())).is_ok());
    let req = channel.begin_announce(&second).unwrap();
    assert_eq!(req.message, "{\"operation\":\"update\",\"payload\":2}");
}

#[test]
fn sequential_announces_publish_each_message() {
    let mut channel = ChannelHandle::new("t".to_string());
    let ops = [op("a", "1"), op("b", "2"), op("c", "3")];
    let mut sent = Vec::new();
    for o in ops.iter() {
        let req = channel.begin_announce(o).unwrap();
        sent.push(req.message);
        assert!(channel.finish_announce(Ok(())).is_ok());
    }
    assert_eq!(sent.len(), 3);
    for (m, o) in sent.iter().zip(ops.iter()) {
        assert_eq!(m, &o.to_message());
    }
}

#[test]
fn missing_database_url_is_fatal() {
    assert_eq!(database_url(None), Err(StartupError::MissingDatabaseUrl));
    assert_eq!(
        database_url(Some("postgres://db".to_string())),
        Ok("postgres://db".to_string())
    );
}

#[test]
fn failed_connection_is_a_database_error() {
    assert_eq!(connection_outcome(Ok(())), Ok(()));
    assert_eq!(
        connection_outcome(Err("refused".to_string())),
        Err(StartupError::ConnectionFailed(ApiError::DatabaseError("refused".to_string())))
    );
}
