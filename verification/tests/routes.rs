use xray_bridge::configs::{
    extract_typed_message, inbound_config_from_body, json_to_inbound_config,
    json_to_outbound_config, outbound_config_from_body, typed_message_from_decoded, ConfigJson,
    InboundConfigBody, JsonField, TypedMessageJson,
};
use xray_bridge::error::{AppError, GrpcCode};
use xray_bridge::routes::{
    add_inbound_reply, add_user_reply, default_ignore_missing, default_network, default_proto,
    default_ss_cipher, default_vmess_security, network_from_str, override_balancer_reply,
    remove_inbound_reply, remove_outbound_reply, remove_rule_reply, remove_user_reply,
    restart_logger_reply, route_query, add_outbound_reply, AddUserBody, OperationResult,
    TestRouteBody,
};

fn detail(r: &OperationResult) -> Vec<(&str, &str)> {
    r.detail.iter().map(|(k, v)| (k.as_str(), v.as_str())).collect()
}

fn text(s: &str) -> JsonField {
    JsonField::Text(s.to_owned())
}

fn settings(t: JsonField, v: JsonField) -> Option<TypedMessageJson> {
    Some(TypedMessageJson { message_type: t, value: v })
}

fn unprocessable<T: std::fmt::Debug>(r: Result<T, AppError>) -> String {
    match r {
        Err(AppError::UnprocessableEntity(m)) => m,
        other => panic!("expected 422, got {other:?}"),
    }
}

#[test]
fn defaults_match_the_api() {
    assert_eq!(default_proto(), "vless");
    assert_eq!(default_vmess_security(), "AUTO");
    assert_eq!(default_ss_cipher(), "CHACHA20_POLY1305");
    assert!(default_ignore_missing());
    assert_eq!(default_network(), "TCP");
}

#[test]
fn network_names_any_case() {
    assert_eq!(network_from_str("tcp"), 2);
    assert_eq!(network_from_str("Udp"), 3);
    assert_eq!(network_from_str("unix"), 2);
    let q = route_query(&TestRouteBody {
        target_domain: "google.com".to_owned(),
        network: "udp".to_owned(),
        inbound_tag: "in".to_owned(),
        user: "u".to_owned(),
    });
    assert_eq!((q.target_domain.as_str(), q.network, q.inbound_tag.as_str(), q.user.as_str()), ("google.com", 3, "in", "u"));
}

#[test]
fn add_user_reply_is_201() {
    let body = AddUserBody {
        tag: "vless-ws".to_owned(),
        email: "alice@example.com".to_owned(),
        proto: "vless".to_owned(),
        level: 0,
        uuid: "u".to_owned(),
        flow: String::new(),
        vmess_security: "AUTO".to_owned(),
        password: String::new(),
        ss_cipher: "CHACHA20_POLY1305".to_owned(),
    };
    let r = add_user_reply(&body);
    assert_eq!((r.status, r.action.as_str()), (201, "add-user"));
    assert_eq!(detail(&r), vec![("tag", "vless-ws"), ("email", "alice@example.com"), ("proto", "vless")]);
}

#[test]
fn removing_a_missing_user_is_ignored_by_default() {
    let nf = || AppError::Grpc { code: GrpcCode::Unknown, details: "User Not Found".to_owned() };
    let r = remove_user_reply("t", "e", Err(nf()), true).unwrap();
    assert_eq!((r.status, r.action.as_str()), (200, "remove-user"));
    assert_eq!(detail(&r), vec![("tag", "t"), ("email", "e"), ("note", "not found, ignored")]);
    match remove_user_reply("t", "e", Err(nf()), false) {
        Err(e) => assert_eq!(e.http_status(), 404),
        Ok(_) => panic!("strict removal must fail"),
    }
    let r = remove_user_reply("t", "e", Ok(()), false).unwrap();
    assert_eq!(detail(&r), vec![("tag", "t"), ("email", "e")]);
    let down = AppError::Grpc { code: GrpcCode::Unavailable, details: "down".to_owned() };
    match remove_user_reply("t", "e", Err(down), true) {
        Err(e) => assert_eq!(e.http_status(), 502),
        Ok(_) => panic!("other failures pass through"),
    }
}

#[test]
fn tag_replies() {
    let r = add_inbound_reply("in");
    assert_eq!((r.status, r.action.as_str(), detail(&r)), (201, "add-inbound", vec![("tag", "in")]));
    let r = remove_inbound_reply("in");
    assert_eq!((r.status, r.action.as_str()), (200, "remove-inbound"));
    let r = add_outbound_reply("out");
    assert_eq!((r.status, r.action.as_str()), (201, "add-outbound"));
    let r = remove_outbound_reply("out");
    assert_eq!((r.status, r.action.as_str()), (200, "remove-outbound"));
    let r = remove_rule_reply("rule");
    assert_eq!((r.status, r.action.as_str()), (200, "remove-routing-rule"));
    let r = restart_logger_reply();
    assert_eq!((r.status, r.action.as_str(), r.detail.len()), (200, "restart-logger", 0));
    let r = override_balancer_reply("b", "o");
    assert_eq!((r.status, r.action.as_str(), detail(&r)), (200, "override-balancer-target", vec![("balancer_tag", "b"), ("target", "o")]));
}

#[test]
fn settings_need_type_and_base64_value() {
    assert!(extract_typed_message("proxy_settings", &None).unwrap().is_none());
    let m = extract_typed_message("proxy_settings", &settings(text("t.T"), text("AQID")))
        .unwrap()
        .unwrap();
    assert_eq!((m.message_type.as_str(), m.value), ("t.T", vec![1, 2, 3]));
    assert_eq!(
        unprocessable(extract_typed_message("proxy_settings", &settings(JsonField::Other, text("AQID")))),
        "proxy_settings.type must be a string"
    );
    assert_eq!(
        unprocessable(extract_typed_message("proxy_settings", &settings(text("t"), JsonField::Missing))),
        "proxy_settings.value must be a base64 string"
    );
    let m = unprocessable(extract_typed_message("receiver_settings", &settings(text("t"), text("!!"))));
    assert!(m.starts_with("receiver_settings.value base64 decode error: "), "{m}");
    assert!(m.len() > "receiver_settings.value base64 decode error: ".len());
    let m = typed_message_from_decoded("f", "t", Err("bad".to_owned()));
    assert_eq!(unprocessable(m), "f.value base64 decode error: bad");
}

#[test]
fn inbound_config_needs_a_string_tag() {
    let body = InboundConfigBody {
        config: ConfigJson {
            tag: JsonField::Missing,
            receiver_settings: None,
            sender_settings: None,
            proxy_settings: None,
        },
    };
    assert_eq!(unprocessable(inbound_config_from_body(&body)), "config 必须包含 'tag' 字段");
    assert_eq!(unprocessable(outbound_config_from_body(&body)), "config 必须包含 'tag' 字段");
    let cfg = ConfigJson {
        tag: JsonField::Other,
        receiver_settings: None,
        sender_settings: None,
        proxy_settings: None,
    };
    assert_eq!(unprocessable(json_to_inbound_config(&cfg)), "config.tag is required");
    assert_eq!(unprocessable(json_to_outbound_config(&cfg)), "config.tag is required");
}

#[test]
fn inbound_and_outbound_configs_read_their_settings() {
    let cfg = ConfigJson {
        tag: text("in"),
        receiver_settings: settings(text("r"), text("AA==")),
        sender_settings: settings(JsonField::Other, JsonField::Other),
        proxy_settings: settings(text("p"), text("")),
    };
    let inbound = json_to_inbound_config(&cfg).unwrap();
    assert_eq!(inbound.tag, "in");
    assert_eq!(inbound.receiver_settings.unwrap().value, vec![0]);
    assert_eq!(inbound.proxy_settings.unwrap().value, Vec::<u8>::new());
    assert_eq!(unprocessable(json_to_outbound_config(&cfg)), "sender_settings.type must be a string");
    let body = InboundConfigBody { config: cfg };
    assert!(inbound_config_from_body(&body).is_ok());
    let cfg = ConfigJson {
        tag: text("out"),
        receiver_settings: None,
        sender_settings: None,
        proxy_settings: settings(text("p"), JsonField::Other),
    };
    assert_eq!(unprocessable(json_to_outbound_config(&cfg)), "proxy_settings.value must be a base64 string");
}
