//! Protocol-specific account messages and the user operations that carry them.

use vstd::prelude::*;

use crate::error::AppError;
use crate::text::{text_eq, to_uppercase, upper_case};
use crate::wire::{
    bytes_field, len_delimited_reads_back, message_field, put_bytes_field, put_len_delimited,
    put_string_field, put_uint_field, read_field, string_field, string_field_reads_back,
    uint_field,
};
use vstd::utf8::decode_utf8;

verus! {

/// A protobuf message packed with its full type name (`xray.common.serial.TypedMessage`).
#[derive(Debug)]
pub struct TypedMessage {
    /// Full protobuf type name of the packed message.
    pub message_type: String,
    /// The packed message's encoding.
    pub value: Vec<u8>,
}

/// Encoding of a `TypedMessage` with type name `t` and payload `v`.
pub open spec fn typed_message_bytes(t: Seq<char>, v: Seq<u8>) -> Seq<u8> {
    string_field(1, t) + bytes_field(2, v)
}

pub const VLESS_ACCOUNT_TYPE: &'static str = "xray.proxy.vless.Account";
pub const VMESS_ACCOUNT_TYPE: &'static str = "xray.proxy.vmess.Account";
pub const TROJAN_ACCOUNT_TYPE: &'static str = "xray.proxy.trojan.Account";
pub const SS_ACCOUNT_TYPE: &'static str = "xray.proxy.shadowsocks.Account";
pub const ADD_USER_OP_TYPE: &'static str = "xray.app.proxyman.command.AddUserOperation";
pub const REMOVE_USER_OP_TYPE: &'static str = "xray.app.proxyman.command.RemoveUserOperation";

/// `SecurityType` number for a VMess security name given in upper case: `UNKNOWN` is 0,
/// and a name outside the table means AUTO.
pub open spec fn vmess_security_code(upper: Seq<char>) -> i32 {
    if upper == "UNKNOWN"@ {
        0
    } else if upper == "AUTO"@ {
        2
    } else if upper == "AES128_GCM"@ {
        3
    } else if upper == "CHACHA20_POLY1305"@ {
        4
    } else if upper == "NONE"@ {
        5
    } else if upper == "ZERO"@ {
        6
    } else {
        2
    }
}

/// `CipherType` number for a Shadowsocks cipher name given in upper case: `UNKNOWN` is 0,
/// and a name outside the table means CHACHA20_POLY1305.
pub open spec fn ss_cipher_code(upper: Seq<char>) -> i32 {
    if upper == "UNKNOWN"@ {
        0
    } else if upper == "AES_128_GCM"@ {
        5
    } else if upper == "AES_256_GCM"@ {
        6
    } else if upper == "CHACHA20_POLY1305"@ {
        7
    } else if upper == "XCHACHA20_POLY1305"@ {
        8
    } else if upper == "NONE"@ {
        9
    } else {
        7
    }
}

/// The `SecurityType` number for a VMess security name already in upper case.
pub fn vmess_security_from_upper(upper: &str) -> (r: i32)
    ensures
        r == vmess_security_code(upper@),
{
    if text_eq(upper, "UNKNOWN") {
        0
    } else if text_eq(upper, "AUTO") {
        2
    } else if text_eq(upper, "AES128_GCM") {
        3
    } else if text_eq(upper, "CHACHA20_POLY1305") {
        4
    } else if text_eq(upper, "NONE") {
        5
    } else if text_eq(upper, "ZERO") {
        6
    } else {
        2
    }
}

/// Maps a VMess security name, in any letter case, to its `SecurityType` number.
pub fn vmess_security_to_int(name: &str) -> (r: i32)
    ensures
        r == vmess_security_code(upper_case(name@)),
{
    let upper = to_uppercase(name);
    vmess_security_from_upper(upper.as_str())
}

/// The `CipherType` number for a Shadowsocks cipher name already in upper case.
pub fn ss_cipher_from_upper(upper: &str) -> (r: i32)
    ensures
        r == ss_cipher_code(upper@),
{
    if text_eq(upper, "UNKNOWN") {
        0
    } else if text_eq(upper, "AES_128_GCM") {
        5
    } else if text_eq(upper, "AES_256_GCM") {
        6
    } else if text_eq(upper, "CHACHA20_POLY1305") {
        7
    } else if text_eq(upper, "XCHACHA20_POLY1305") {
        8
    } else if text_eq(upper, "NONE") {
        9
    } else {
        7
    }
}

/// Maps a Shadowsocks cipher name, in any letter case, to its `CipherType` number.
pub fn ss_cipher_to_int(name: &str) -> (r: i32)
    ensures
        r == ss_cipher_code(upper_case(name@)),
{
    let upper = to_uppercase(name);
    ss_cipher_from_upper(upper.as_str())
}

/// `xray.proxy.vless.Account { id, flow, encryption: "none" }`.
pub open spec fn vless_account_bytes(id: Seq<char>, flow: Seq<char>) -> Seq<u8> {
    string_field(1, id) + string_field(2, flow) + string_field(3, "none"@)
}

/// `xray.proxy.vmess.Account { id, security_settings: { type: security } }`.
pub open spec fn vmess_account_bytes(id: Seq<char>, security: i32) -> Seq<u8> {
    string_field(1, id) + message_field(3, uint_field(1, security as nat))
}

/// `xray.proxy.trojan.Account { password }`.
pub open spec fn trojan_account_bytes(password: Seq<char>) -> Seq<u8> {
    string_field(1, password)
}

/// `xray.proxy.shadowsocks.Account { password, cipher_type }`.
pub open spec fn ss_account_bytes(password: Seq<char>, cipher: i32) -> Seq<u8> {
    string_field(1, password) + uint_field(2, cipher as nat)
}

/// Message of the error for an unsupported protocol name.
pub open spec fn unknown_protocol_message(proto: Seq<char>) -> Seq<char> {
    "Unknown protocol '"@ + proto + "'. Supported: vless, vmess, trojan, shadowsocks"@
}

/// The account `TypedMessage` (type name, encoding) for protocol `proto`, given the
/// upper-cased VMess security and Shadowsocks cipher names, or the 422 message.
pub open spec fn account_spec(
    proto: Seq<char>,
    uuid: Seq<char>,
    flow: Seq<char>,
    vmess_security_upper: Seq<char>,
    password: Seq<char>,
    ss_cipher_upper: Seq<char>,
) -> Result<(Seq<char>, Seq<u8>), Seq<char>> {
    if proto == "vless"@ {
        Ok((VLESS_ACCOUNT_TYPE@, vless_account_bytes(uuid, flow)))
    } else if proto == "vmess"@ {
        Ok(
            (
                VMESS_ACCOUNT_TYPE@,
                vmess_account_bytes(uuid, vmess_security_code(vmess_security_upper)),
            ),
        )
    } else if proto == "trojan"@ {
        if password.len() == 0 {
            Err("Trojan protocol requires password"@)
        } else {
            Ok((TROJAN_ACCOUNT_TYPE@, trojan_account_bytes(password)))
        }
    } else if proto == "shadowsocks"@ {
        if password.len() == 0 {
            Err("Shadowsocks protocol requires password"@)
        } else {
            Ok((SS_ACCOUNT_TYPE@, ss_account_bytes(password, ss_cipher_code(ss_cipher_upper))))
        }
    } else {
        Err(unknown_protocol_message(proto))
    }
}

/// `r` is the typed message or the 422 error that `spec` describes.
pub open spec fn matches_account(
    r: Result<TypedMessage, AppError>,
    spec: Result<(Seq<char>, Seq<u8>), Seq<char>>,
) -> bool {
    match spec {
        Ok((t, v)) => r matches Ok(m) && m.message_type@ == t && m.value@ == v,
        Err(msg) => r matches Err(e) && e matches AppError::UnprocessableEntity(m) && m@ == msg,
    }
}

/// Builds the `TypedMessage` wrapping the protocol-specific account: `proto` (expected in
/// lower case) selects vless, vmess, trojan or shadowsocks; trojan and shadowsocks need a
/// non-empty password; any other protocol is refused.
pub fn build_account_typed_message(
    proto: &str,
    uuid: &str,
    flow: &str,
    vmess_security: &str,
    password: &str,
    ss_cipher: &str,
) -> (r: Result<TypedMessage, AppError>)
    ensures
        matches_account(
            r,
            account_spec(
                proto@,
                uuid@,
                flow@,
                upper_case(vmess_security@),
                password@,
                upper_case(ss_cipher@),
            ),
        ),
{
    if text_eq(proto, "vless") {
        let mut value: Vec<u8> = Vec::new();
        put_string_field(&mut value, 1, uuid);
        put_string_field(&mut value, 2, flow);
        put_string_field(&mut value, 3, "none");
        assert(value@ =~= vless_account_bytes(uuid@, flow@));
        Ok(TypedMessage { message_type: VLESS_ACCOUNT_TYPE.to_owned(), value })
    } else if text_eq(proto, "vmess") {
        let security = vmess_security_to_int(vmess_security);
        let mut settings: Vec<u8> = Vec::new();
        put_uint_field(&mut settings, 1, security as u64);
        let mut value: Vec<u8> = Vec::new();
        put_string_field(&mut value, 1, uuid);
        put_len_delimited(&mut value, 3, settings.as_slice());
        assert(value@ =~= vmess_account_bytes(uuid@, security));
        Ok(TypedMessage { message_type: VMESS_ACCOUNT_TYPE.to_owned(), value })
    } else if text_eq(proto, "trojan") {
        if password.is_empty() {
            return Err(AppError::UnprocessableEntity("Trojan protocol requires password".to_owned()));
        }
        let mut value: Vec<u8> = Vec::new();
        put_string_field(&mut value, 1, password);
        assert(value@ =~= trojan_account_bytes(password@));
        Ok(TypedMessage { message_type: TROJAN_ACCOUNT_TYPE.to_owned(), value })
    } else if text_eq(proto, "shadowsocks") {
        if password.is_empty() {
            return Err(
                AppError::UnprocessableEntity("Shadowsocks protocol requires password".to_owned()),
            );
        }
        let cipher = ss_cipher_to_int(ss_cipher);
        let mut value: Vec<u8> = Vec::new();
        put_string_field(&mut value, 1, password);
        put_uint_field(&mut value, 2, cipher as u64);
        assert(value@ =~= ss_account_bytes(password@, cipher));
        Ok(TypedMessage { message_type: SS_ACCOUNT_TYPE.to_owned(), value })
    } else {
        let mut msg = "Unknown protocol '".to_owned();
        msg.append(proto);
        msg.append("'. Supported: vless, vmess, trojan, shadowsocks");
        Err(AppError::UnprocessableEntity(msg))
    }
}

/// A Shadowsocks account with a password carries the password (field 1) and the cipher
/// number of the requested cipher name (field 2): AES_128_GCM 5, AES_256_GCM 6,
/// CHACHA20_POLY1305 7, XCHACHA20_POLY1305 8, NONE 9, UNKNOWN 0 (the field is then left
/// out), and any other name 7.
pub proof fn shadowsocks_account_carries_requested_cipher(
    uuid: Seq<char>,
    flow: Seq<char>,
    vmess_security_upper: Seq<char>,
    password: Seq<char>,
    cipher_upper: Seq<char>,
)
    requires
        password.len() > 0,
    ensures
        ({
            let r = account_spec(
                "shadowsocks"@,
                uuid,
                flow,
                vmess_security_upper,
                password,
                cipher_upper,
            );
            let with = |n: nat| Ok::<(Seq<char>, Seq<u8>), Seq<char>>(
                (SS_ACCOUNT_TYPE@, string_field(1, password) + uint_field(2, n)),
            );
            &&& cipher_upper == "AES_128_GCM"@ ==> r == with(5)
            &&& cipher_upper == "AES_256_GCM"@ ==> r == with(6)
            &&& cipher_upper == "CHACHA20_POLY1305"@ ==> r == with(7)
            &&& cipher_upper == "XCHACHA20_POLY1305"@ ==> r == with(8)
            &&& cipher_upper == "NONE"@ ==> r == with(9)
            &&& cipher_upper == "UNKNOWN"@ ==> r == Ok::<(Seq<char>, Seq<u8>), Seq<char>>(
                (SS_ACCOUNT_TYPE@, string_field(1, password)),
            )
            &&& cipher_upper != "AES_128_GCM"@ && cipher_upper != "AES_256_GCM"@ && cipher_upper
                != "CHACHA20_POLY1305"@ && cipher_upper != "XCHACHA20_POLY1305"@ && cipher_upper
                != "NONE"@ && cipher_upper != "UNKNOWN"@ ==> r == with(7)
        }),
{
    reveal_strlit("shadowsocks");
    reveal_strlit("vless");
    reveal_strlit("vmess");
    reveal_strlit("trojan");
    reveal_strlit("UNKNOWN");
    reveal_strlit("AES_128_GCM");
    reveal_strlit("AES_256_GCM");
    reveal_strlit("CHACHA20_POLY1305");
    reveal_strlit("XCHACHA20_POLY1305");
    reveal_strlit("NONE");
    assert(string_field(1, password) + Seq::<u8>::empty() =~= string_field(1, password));
    assert("shadowsocks"@.len() == 11 && "vless"@.len() == 5 && "vmess"@.len() == 5
        && "trojan"@.len() == 6);
    assert("UNKNOWN"@.len() == 7 && "AES_128_GCM"@.len() == 11 && "AES_256_GCM"@.len() == 11
        && "CHACHA20_POLY1305"@.len() == 17 && "XCHACHA20_POLY1305"@.len() == 18
        && "NONE"@.len() == 4);
    assert("AES_128_GCM"@[4] != "AES_256_GCM"@[4]);
}

/// A VMess account carries the user id (field 1) and, in its security settings (field 3),
/// the security number of the requested name: AUTO 2, AES128_GCM 3, CHACHA20_POLY1305 4,
/// NONE 5, ZERO 6, UNKNOWN 0 (an empty settings message), and any other name 2.
pub proof fn vmess_account_carries_requested_security(
    uuid: Seq<char>,
    flow: Seq<char>,
    security_upper: Seq<char>,
    password: Seq<char>,
    cipher_upper: Seq<char>,
)
    ensures
        ({
            let r = account_spec(
                "vmess"@,
                uuid,
                flow,
                security_upper,
                password,
                cipher_upper,
            );
            let with = |n: nat| Ok::<(Seq<char>, Seq<u8>), Seq<char>>(
                (VMESS_ACCOUNT_TYPE@, string_field(1, uuid) + message_field(3, uint_field(1, n))),
            );
            &&& security_upper == "AUTO"@ ==> r == with(2)
            &&& security_upper == "AES128_GCM"@ ==> r == with(3)
            &&& security_upper == "CHACHA20_POLY1305"@ ==> r == with(4)
            &&& security_upper == "NONE"@ ==> r == with(5)
            &&& security_upper == "ZERO"@ ==> r == with(6)
            &&& security_upper == "UNKNOWN"@ ==> r == with(0)
            &&& security_upper != "AUTO"@ && security_upper != "AES128_GCM"@ && security_upper
                != "CHACHA20_POLY1305"@ && security_upper != "NONE"@ && security_upper != "ZERO"@
                && security_upper != "UNKNOWN"@ ==> r == with(2)
        }),
{
    reveal_strlit("vless");
    reveal_strlit("vmess");
    reveal_strlit("UNKNOWN");
    reveal_strlit("AUTO");
    reveal_strlit("AES128_GCM");
    reveal_strlit("CHACHA20_POLY1305");
    reveal_strlit("NONE");
    reveal_strlit("ZERO");
    assert("vless"@[1] != "vmess"@[1]);
    assert("UNKNOWN"@.len() == 7 && "AUTO"@.len() == 4 && "AES128_GCM"@.len() == 10
        && "CHACHA20_POLY1305"@.len() == 17 && "NONE"@.len() == 4 && "ZERO"@.len() == 4);
    assert("AUTO"@[0] != "NONE"@[0] && "AUTO"@[0] != "ZERO"@[0] && "NONE"@[0] != "ZERO"@[0]);
}

/// An encoded `TypedMessage` with a non-empty type name and value reads back as field 1
/// holding the type name and then field 2 holding exactly the value bytes.
pub proof fn typed_message_reads_back(t: Seq<char>, v: Seq<u8>)
    requires
        t.len() > 0,
        v.len() > 0,
    ensures
        read_field(typed_message_bytes(t, v)) matches Some((f1, w1, _n1, p1, used))
            && f1 == 1 && w1 == 2 && decode_utf8(p1) == t && (read_field(
            typed_message_bytes(t, v).subrange(used as int, typed_message_bytes(t, v).len() as int),
        ) matches Some((f2, w2, _n2, p2, _u2)) && f2 == 2 && w2 == 2 && p2 == v),
{
    let b = typed_message_bytes(t, v);
    let first = string_field(1, t);
    string_field_reads_back(1, t, bytes_field(2, v));
    len_delimited_reads_back(2, v, Seq::empty());
    assert(b.subrange(first.len() as int, b.len() as int) =~= bytes_field(2, v) + Seq::<u8>::empty());
}

} // verus!
