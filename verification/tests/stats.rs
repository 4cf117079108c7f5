use xray_bridge::error::{AppError, GrpcCode};
use xray_bridge::stats::{
    parse_stat_name, stat_record, stat_value_from_reply, user_emails, user_traffic,
};

#[test]
fn parse_stat_name_four_parts() {
    let rec = parse_stat_name("user>>>alice@example.com>>>traffic>>>uplink");
    assert_eq!(rec.scope.as_deref(), Some("user"));
    assert_eq!(rec.id.as_deref(), Some("alice@example.com"));
    assert_eq!(rec.category.as_deref(), Some("traffic"));
    assert_eq!(rec.metric.as_deref(), Some("uplink"));
    assert_eq!(rec.parts.len(), 4);
}

#[test]
fn parse_stat_name_three_parts() {
    let rec = parse_stat_name("user>>>alice@example.com>>>traffic");
    assert_eq!(rec.scope.as_deref(), Some("user"));
    assert_eq!(rec.id.as_deref(), Some("alice@example.com"));
    assert_eq!(rec.category.as_deref(), Some("traffic"));
    assert!(rec.metric.is_none());
    assert_eq!(rec.parts.len(), 3);
}

#[test]
fn parse_stat_name_two_parts() {
    let rec = parse_stat_name("inbound>>>vless-ws");
    assert_eq!(rec.scope.as_deref(), Some("inbound"));
    assert_eq!(rec.id.as_deref(), Some("vless-ws"));
    assert!(rec.category.is_none());
    assert!(rec.metric.is_none());
    assert_eq!(rec.parts.len(), 2);
}

#[test]
fn parse_stat_name_one_part() {
    let rec = parse_stat_name("outbound");
    assert_eq!(rec.scope.as_deref(), Some("outbound"));
    assert!(rec.id.is_none());
    assert_eq!(rec.parts.len(), 1);
}

#[test]
fn parse_stat_name_empty() {
    let rec = parse_stat_name("");
    // Empty string split by ">>>" gives [""]
    assert_eq!(rec.scope.as_deref(), Some(""));
    assert!(rec.id.is_none());
    assert_eq!(rec.parts.len(), 1);
    assert_eq!(rec.name, "");
}

#[test]
fn parse_stat_name_agrees_with_str_split() {
    for name in [
        "a>>>>b",
        ">>>",
        ">>>>>>",
        "a>>b>>>c",
        "x>>>y>>>z>>>w>>>v",
        "ü>>>ß>>>日本",
        ">>",
        "a>>>",
    ] {
        let rec = parse_stat_name(name);
        let expected: Vec<String> = name.split(">>>").map(str::to_owned).collect();
        assert_eq!(rec.parts, expected, "{name}");
        assert_eq!(rec.parts.join(">>>"), name);
        assert_eq!(rec.parts.len(), name.matches(">>>").count() + 1, "{name}");
        assert!(rec.parts.iter().all(|p| !p.contains(">>>")), "{name}");
        assert_eq!(rec.value, 0);
    }
}

#[test]
fn five_parts_keep_only_four_fields() {
    let rec = stat_record("a>>>b>>>c>>>d>>>e", 7);
    assert_eq!(rec.parts.len(), 5);
    assert_eq!(rec.metric.as_deref(), Some("d"));
    assert_eq!(rec.value, 7);
    assert_eq!(rec.name, "a>>>b>>>c>>>d>>>e");
}

#[test]
fn missing_counters_read_as_zero() {
    assert_eq!(stat_value_from_reply(Ok(Some(42))).unwrap(), 42);
    assert_eq!(stat_value_from_reply(Ok(None)).unwrap(), 0);
    let nf = AppError::Grpc { code: GrpcCode::NotFound, details: String::new() };
    assert_eq!(stat_value_from_reply(Err(nf)).unwrap(), 0);
    let nf2 = AppError::Grpc { code: GrpcCode::Unknown, details: "stat Not Found".to_owned() };
    assert_eq!(stat_value_from_reply(Err(nf2)).unwrap(), 0);
    let other = AppError::Grpc { code: GrpcCode::Unavailable, details: "down".to_owned() };
    match stat_value_from_reply(Err(other)) {
        Err(AppError::Grpc { code, details }) => {
            assert_eq!(code, GrpcCode::Unavailable);
            assert_eq!(details, "down");
        }
        _ => panic!("error should pass through"),
    }
}

#[test]
fn user_emails_are_sorted_and_unique() {
    let records = vec![
        stat_record("user>>>bob@x>>>traffic>>>uplink", 1),
        stat_record("user>>>alice@x>>>traffic>>>uplink", 2),
        stat_record("user>>>bob@x>>>traffic>>>downlink", 3),
        stat_record("user", 4),
        stat_record("user>>>Zed>>>traffic>>>uplink", 5),
        stat_record("user>>>é>>>traffic>>>uplink", 6),
    ];
    assert_eq!(user_emails(&records), vec!["Zed", "alice@x", "bob@x", "é"]);
    assert!(user_emails(&Vec::new()).is_empty());
}

#[test]
fn traffic_defaults_to_zero() {
    let t = user_traffic("a@x".to_owned(), None);
    assert_eq!((t.email.as_str(), t.uplink, t.downlink), ("a@x", 0, 0));
    let t = user_traffic("b@x".to_owned(), Some((5, 9)));
    assert_eq!((t.email.as_str(), t.uplink, t.downlink), ("b@x", 5, 9));
}
