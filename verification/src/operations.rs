//! The `AlterInbound` requests that add a user to, or remove one from, an inbound.

use vstd::prelude::*;

use crate::account::{
    account_spec, build_account_typed_message, typed_message_bytes, TypedMessage,
    ADD_USER_OP_TYPE, REMOVE_USER_OP_TYPE,
};
use crate::error::AppError;
use crate::text::{to_lowercase, lower_case, upper_case};
use crate::wire::{
    len_delimited_reads_back, message_field, put_bytes_field, put_len_delimited,
    put_string_field, put_uint_field, read_field, string_field, string_field_reads_back,
    uint_field, uint_field_reads_back,
};
use vstd::utf8::decode_utf8;

verus! {

/// An `AlterInboundRequest`: apply `operation` to the inbound tagged `tag`.
#[derive(Debug)]
pub struct AlterInbound {
    pub tag: String,
    pub operation: TypedMessage,
}

/// Encoding of `xray.common.protocol.User { level, email, account }`.
pub open spec fn user_bytes(level: u32, email: Seq<char>, account_type: Seq<char>, account: Seq<u8>) -> Seq<u8> {
    uint_field(1, level as nat) + string_field(2, email) + message_field(
        3,
        typed_message_bytes(account_type, account),
    )
}

/// Encoding of `AddUserOperation { user }`.
pub open spec fn add_user_op_bytes(level: u32, email: Seq<char>, account_type: Seq<char>, account: Seq<u8>) -> Seq<u8> {
    message_field(1, user_bytes(level, email, account_type, account))
}

/// Encoding of `RemoveUserOperation { email }`.
pub open spec fn remove_user_op_bytes(email: Seq<char>) -> Seq<u8> {
    string_field(1, email)
}

/// Appends the encoding of a `TypedMessage`.
fn put_typed_message(buf: &mut Vec<u8>, m: &TypedMessage)
    ensures
        final(buf)@ == old(buf)@ + typed_message_bytes(m.message_type@, m.value@),
{
    put_string_field(buf, 1, m.message_type.as_str());
    put_bytes_field(buf, 2, m.value.as_slice());
    assert(final(buf)@ =~= old(buf)@ + typed_message_bytes(m.message_type@, m.value@));
}

/// The `AddUserOperation` typed message adding user `email` at `level` with `account`.
pub fn add_user_operation(email: &str, level: u32, account: &TypedMessage) -> (r: TypedMessage)
    ensures
        r.message_type@ == ADD_USER_OP_TYPE@,
        r.value@ == add_user_op_bytes(level, email@, account.message_type@, account.value@),
{
    let mut packed: Vec<u8> = Vec::new();
    put_typed_message(&mut packed, account);
    let mut user: Vec<u8> = Vec::new();
    put_uint_field(&mut user, 1, level as u64);
    put_string_field(&mut user, 2, email);
    put_len_delimited(&mut user, 3, packed.as_slice());
    let mut value: Vec<u8> = Vec::new();
    put_len_delimited(&mut value, 1, user.as_slice());
    assert(user@ =~= user_bytes(level, email@, account.message_type@, account.value@));
    assert(value@ =~= add_user_op_bytes(level, email@, account.message_type@, account.value@));
    TypedMessage { message_type: ADD_USER_OP_TYPE.to_owned(), value }
}

/// The `RemoveUserOperation` typed message removing user `email`.
pub fn remove_user_operation(email: &str) -> (r: TypedMessage)
    ensures
        r.message_type@ == REMOVE_USER_OP_TYPE@,
        r.value@ == remove_user_op_bytes(email@),
{
    let mut value: Vec<u8> = Vec::new();
    put_string_field(&mut value, 1, email);
    assert(value@ =~= remove_user_op_bytes(email@));
    TypedMessage { message_type: REMOVE_USER_OP_TYPE.to_owned(), value }
}

/// The request adding user `email` to inbound `tag`: the protocol name is taken in any
/// letter case; the account is built as [`build_account_typed_message`] builds it.
pub fn add_user_request(
    tag: &str,
    email: &str,
    proto: &str,
    level: u32,
    uuid: &str,
    flow: &str,
    vmess_security: &str,
    password: &str,
    ss_cipher: &str,
) -> (r: Result<AlterInbound, AppError>)
    ensures
        ({
            let spec = account_spec(
                lower_case(proto@),
                uuid@,
                flow@,
                upper_case(vmess_security@),
                password@,
                upper_case(ss_cipher@),
            );
            match spec {
                Ok((t, v)) => r matches Ok(req) && req.tag@ == tag@ && req.operation.message_type@
                    == ADD_USER_OP_TYPE@ && req.operation.value@ == add_user_op_bytes(
                    level,
                    email@,
                    t,
                    v,
                ),
                Err(msg) => r matches Err(e) && e matches AppError::UnprocessableEntity(m) && m@
                    == msg,
            }
        }),
{
    let lowered = to_lowercase(proto);
    let account = build_account_typed_message(
        lowered.as_str(),
        uuid,
        flow,
        vmess_security,
        password,
        ss_cipher,
    )?;
    let operation = add_user_operation(email, level, &account);
    Ok(AlterInbound { tag: tag.to_owned(), operation })
}

/// The request removing user `email` from inbound `tag`.
pub fn remove_user_request(tag: &str, email: &str) -> (r: AlterInbound)
    ensures
        r.tag@ == tag@,
        r.operation.message_type@ == REMOVE_USER_OP_TYPE@,
        r.operation.value@ == remove_user_op_bytes(email@),
{
    AlterInbound { tag: tag.to_owned(), operation: remove_user_operation(email) }
}

/// The encoded `RemoveUserOperation` names exactly the given email: for a non-empty email
/// it is a single field number 1 whose payload decodes to that email, letter case and all,
/// and for an empty email it is empty.
pub proof fn remove_user_op_names_the_email(email: Seq<char>)
    ensures
        email.len() == 0 ==> remove_user_op_bytes(email).len() == 0,
        email.len() > 0 ==> (read_field(remove_user_op_bytes(email)) matches Some((t, w, _n, p, used))
            && t == 1 && w == 2 && decode_utf8(p) == email && used == remove_user_op_bytes(
            email,
        ).len()),
{
    string_field_reads_back(1, email, Seq::empty());
    assert(remove_user_op_bytes(email) + Seq::<u8>::empty() =~= remove_user_op_bytes(email));
}

/// The encoded `AddUserOperation` holds one field, number 1, holding the user; reading the
/// user gives back its level (field 1, left out when 0) and then, for a non-empty email, the
/// email (field 2) unchanged.
pub proof fn add_user_op_names_the_user(
    level: u32,
    email: Seq<char>,
    account_type: Seq<char>,
    account: Seq<u8>,
)
    ensures
        read_field(add_user_op_bytes(level, email, account_type, account)) matches Some(
            (t, w, _n, u, used),
        ) && t == 1 && w == 2 && u == user_bytes(level, email, account_type, account) && used
            == add_user_op_bytes(level, email, account_type, account).len(),
        level == 0 && email.len() > 0 ==> (read_field(
            user_bytes(level, email, account_type, account),
        ) matches Some((t, w, _n, p, _used)) && t == 2 && w == 2 && decode_utf8(p) == email),
        level > 0 ==> (read_field(user_bytes(level, email, account_type, account)) matches Some(
            (t, w, lv, _p, k),
        ) && t == 1 && w == 0 && lv == level && k == uint_field(1, level as nat).len()),
        level > 0 && email.len() > 0 ==> (read_field(
            user_bytes(level, email, account_type, account).subrange(
                uint_field(1, level as nat).len() as int,
                user_bytes(level, email, account_type, account).len() as int,
            ),
        ) matches Some((t, w, _n, p, _used)) && t == 2 && w == 2 && decode_utf8(p) == email),
{
    let u = user_bytes(level, email, account_type, account);
    let m = message_field(3, typed_message_bytes(account_type, account));
    len_delimited_reads_back(1, u, Seq::empty());
    assert(add_user_op_bytes(level, email, account_type, account) + Seq::<u8>::empty()
        =~= add_user_op_bytes(level, email, account_type, account));
    string_field_reads_back(2, email, m);
    if level == 0 {
        assert(u =~= string_field(2, email) + m);
    } else {
        let lf = uint_field(1, level as nat);
        uint_field_reads_back(1, level as nat, string_field(2, email) + m);
        assert(u =~= lf + (string_field(2, email) + m));
        assert(u.subrange(lf.len() as int, u.len() as int) =~= string_field(2, email) + m);
    }
}

} // verus!
