use xray_bridge::account::{
    build_account_typed_message, ss_cipher_to_int, vmess_security_to_int, TypedMessage,
};
use xray_bridge::error::AppError;
use xray_bridge::operations::{add_user_request, remove_user_request};

fn unprocessable(r: Result<TypedMessage, AppError>) -> String {
    match r {
        Err(AppError::UnprocessableEntity(m)) => m,
        other => panic!("expected 422, got {:?}", other),
    }
}

#[test]
fn vless_account_encoding() {
    let m = build_account_typed_message("vless", "u1", "", "AUTO", "", "").unwrap();
    assert_eq!(m.message_type, "xray.proxy.vless.Account");
    assert_eq!(m.value, vec![0x0a, 2, b'u', b'1', 0x1a, 4, b'n', b'o', b'n', b'e']);
    let m = build_account_typed_message("vless", "u", "xtls-rprx-vision", "", "", "").unwrap();
    let mut expected = vec![0x0a, 1, b'u', 0x12, 16];
    expected.extend_from_slice(b"xtls-rprx-vision");
    expected.extend_from_slice(&[0x1a, 4, b'n', b'o', b'n', b'e']);
    assert_eq!(m.value, expected);
}

#[test]
fn vmess_account_encoding() {
    let m = build_account_typed_message("vmess", "id", "", "aes128_gcm", "", "").unwrap();
    assert_eq!(m.message_type, "xray.proxy.vmess.Account");
    assert_eq!(m.value, vec![0x0a, 2, b'i', b'd', 0x1a, 2, 0x08, 3]);
    let m = build_account_typed_message("vmess", "", "", "bogus", "", "").unwrap();
    assert_eq!(m.value, vec![0x1a, 2, 0x08, 2]);
}

#[test]
fn trojan_and_shadowsocks_need_a_password() {
    assert_eq!(
        unprocessable(build_account_typed_message("trojan", "", "", "", "", "")),
        "Trojan protocol requires password"
    );
    assert_eq!(
        unprocessable(build_account_typed_message("shadowsocks", "", "", "", "", "x")),
        "Shadowsocks protocol requires password"
    );
    let m = build_account_typed_message("trojan", "", "", "", "pw", "").unwrap();
    assert_eq!(m.message_type, "xray.proxy.trojan.Account");
    assert_eq!(m.value, vec![0x0a, 2, b'p', b'w']);
    let m = build_account_typed_message("shadowsocks", "", "", "", "pw", "chacha20_poly1305").unwrap();
    assert_eq!(m.message_type, "xray.proxy.shadowsocks.Account");
    assert_eq!(m.value, vec![0x0a, 2, b'p', b'w', 0x10, 7]);
}

#[test]
fn unknown_protocol_is_refused() {
    assert_eq!(
        unprocessable(build_account_typed_message("wireguard", "", "", "", "", "")),
        "Unknown protocol 'wireguard'. Supported: vless, vmess, trojan, shadowsocks"
    );
    // The name is matched exactly; lower-casing is the caller's job.
    assert!(build_account_typed_message("VLESS", "", "", "", "", "").is_err());
}

#[test]
fn security_and_cipher_names_any_case() {
    assert_eq!(vmess_security_to_int("auto"), 2);
    assert_eq!(vmess_security_to_int("Aes128_Gcm"), 3);
    assert_eq!(vmess_security_to_int("chacha20_poly1305"), 4);
    assert_eq!(vmess_security_to_int("none"), 5);
    assert_eq!(vmess_security_to_int("zero"), 6);
    assert_eq!(vmess_security_to_int("legacy"), 2);
    assert_eq!(ss_cipher_to_int("aes_128_gcm"), 5);
    assert_eq!(ss_cipher_to_int("AES_256_GCM"), 6);
    assert_eq!(ss_cipher_to_int("chacha20_poly1305"), 7);
    assert_eq!(ss_cipher_to_int("xchacha20_poly1305"), 8);
    assert_eq!(ss_cipher_to_int("None"), 9);
    assert_eq!(ss_cipher_to_int("rc4"), 7);
}

#[test]
fn unknown_security_and_cipher_names_map_to_zero() {
    assert_eq!(vmess_security_to_int("UNKNOWN"), 0);
    assert_eq!(vmess_security_to_int("unknown"), 0);
    assert_eq!(ss_cipher_to_int("UNKNOWN"), 0);
    assert_eq!(ss_cipher_to_int("Unknown"), 0);
    // A zero enum value is the proto3 default and leaves the field out.
    let m = build_account_typed_message("shadowsocks", "", "", "", "pw", "unknown").unwrap();
    assert_eq!(m.value, vec![0x0a, 2, b'p', b'w']);
    let m = build_account_typed_message("vmess", "u", "", "unknown", "", "").unwrap();
    assert_eq!(m.value, vec![0x0a, 1, b'u', 0x1a, 0]);
}

#[test]
fn add_user_request_wraps_the_account() {
    let req = add_user_request("vless-ws", "a@x", "VLESS", 0, "u", "", "AUTO", "", "").unwrap();
    assert_eq!(req.tag, "vless-ws");
    assert_eq!(req.operation.message_type, "xray.app.proxyman.command.AddUserOperation");
    // AddUserOperation { user: User { level: 0, email: "a@x", account: TypedMessage } }
    let account_type = b"xray.proxy.vless.Account";
    let account = [0x0a, 1, b'u', 0x1a, 4, b'n', b'o', b'n', b'e'];
    let mut typed = vec![0x0a, account_type.len() as u8];
    typed.extend_from_slice(account_type);
    typed.extend_from_slice(&[0x12, account.len() as u8]);
    typed.extend_from_slice(&account);
    let mut user = vec![0x12, 3, b'a', b'@', b'x', 0x1a, typed.len() as u8];
    user.extend_from_slice(&typed);
    let mut op = vec![0x0a, user.len() as u8];
    op.extend_from_slice(&user);
    assert_eq!(req.operation.value, op);

    let req = add_user_request("t", "e", "vless", 5, "u", "", "", "", "").unwrap();
    assert_eq!(&req.operation.value[2..4], &[0x08, 5]);

    match add_user_request("t", "e", "Trojan", 0, "", "", "", "", "") {
        Err(AppError::UnprocessableEntity(m)) => assert_eq!(m, "Trojan protocol requires password"),
        _ => panic!("trojan without password"),
    }
    match add_user_request("t", "e", "Foo", 0, "", "", "", "", "") {
        Err(AppError::UnprocessableEntity(m)) => {
            assert_eq!(m, "Unknown protocol 'foo'. Supported: vless, vmess, trojan, shadowsocks")
        }
        _ => panic!("unknown protocol"),
    }
}

#[test]
fn remove_user_request_names_the_email() {
    let req = remove_user_request("vless-ws", "bob@x");
    assert_eq!(req.tag, "vless-ws");
    assert_eq!(req.operation.message_type, "xray.app.proxyman.command.RemoveUserOperation");
    assert_eq!(req.operation.value, vec![0x0a, 5, b'b', b'o', b'b', b'@', b'x']);
    let req = remove_user_request("t", "");
    assert!(req.operation.value.is_empty());
}
