//! Inbound and outbound handler configurations given as JSON by clients.

use vstd::prelude::*;

use base64::Engine;

use crate::account::TypedMessage;
use crate::error::AppError;

verus! {

/// A field of a JSON object, as far as the bridge reads it.
#[derive(Debug)]
pub enum JsonField {
    /// The field is absent (or the value holding it is not an object).
    Missing,
    /// The field is a JSON string.
    Text(String),
    /// The field holds some other JSON value.
    Other,
}

/// A settings object `{"type": "...", "value": "<base64 protobuf bytes>"}`, as read:
/// its `type` and `value` fields.
#[derive(Debug)]
pub struct TypedMessageJson {
    pub message_type: JsonField,
    pub value: JsonField,
}

/// A handler configuration object, as read: its `tag` field and the settings objects
/// present among `receiver_settings`, `sender_settings` and `proxy_settings`.
#[derive(Debug)]
pub struct ConfigJson {
    pub tag: JsonField,
    pub receiver_settings: Option<TypedMessageJson>,
    pub sender_settings: Option<TypedMessageJson>,
    pub proxy_settings: Option<TypedMessageJson>,
}

/// Body of `POST /v1/inbounds` and `POST /v1/outbounds`.
#[derive(Debug)]
pub struct InboundConfigBody {
    pub config: ConfigJson,
}

/// An inbound handler to add (`xray.core.InboundHandlerConfig`).
#[derive(Debug)]
pub struct InboundHandlerConfig {
    pub tag: String,
    pub receiver_settings: Option<TypedMessage>,
    pub proxy_settings: Option<TypedMessage>,
}

/// An outbound handler to add (`xray.core.OutboundHandlerConfig`).
#[derive(Debug)]
pub struct OutboundHandlerConfig {
    pub tag: String,
    pub sender_settings: Option<TypedMessage>,
    pub proxy_settings: Option<TypedMessage>,
}

/// What decoding `text` with base64's standard engine (`STANDARD.decode`) gives:
/// the bytes, or the decode error's message.
pub uninterp spec fn base64_decode_outcome(text: Seq<char>) -> Result<Seq<u8>, Seq<char>>;

/// Calls `base64::engine::general_purpose::STANDARD.decode`, turning an error into its message.
#[verifier::external_body]
fn base64_decode(text: &str) -> (r: Result<Vec<u8>, String>)
    ensures
        match base64_decode_outcome(text@) {
            Ok(b) => r matches Ok(v) && v@ == b,
            Err(m) => r matches Err(e) && e@ == m,
        },
{
    match base64::engine::general_purpose::STANDARD.decode(text) {
        Ok(bytes) => Ok(bytes),
        Err(e) => Err(e.to_string()),
    }
}

/// The typed message, or 422 message, for the settings object `field` once its value has
/// been decoded: `decoded` holds the bytes or the decoder's message.
pub open spec fn settings_from_decoded(
    field: Seq<char>,
    message_type: Seq<char>,
    decoded: Result<Seq<u8>, Seq<char>>,
) -> Result<(Seq<char>, Seq<u8>), Seq<char>> {
    match decoded {
        Ok(b) => Ok((message_type, b)),
        Err(m) => Err(field + ".value base64 decode error: "@ + m),
    }
}

/// The typed message, or 422 message, for the settings object `field` as read.
pub open spec fn settings_spec(field: Seq<char>, sub: TypedMessageJson) -> Result<
    (Seq<char>, Seq<u8>),
    Seq<char>,
> {
    match sub.message_type {
        JsonField::Text(t) => match sub.value {
            JsonField::Text(v) => settings_from_decoded(field, t@, base64_decode_outcome(v@)),
            _ => Err(field + ".value must be a base64 string"@),
        },
        _ => Err(field + ".type must be a string"@),
    }
}

/// `r` is the typed message or the 422 error that `spec` describes.
pub open spec fn matches_settings(
    r: Result<TypedMessage, AppError>,
    spec: Result<(Seq<char>, Seq<u8>), Seq<char>>,
) -> bool {
    match spec {
        Ok((t, v)) => r matches Ok(m) && m.message_type@ == t && m.value@ == v,
        Err(msg) => r matches Err(e) && e matches AppError::UnprocessableEntity(m) && m@ == msg,
    }
}

/// What an optional settings object gives: nothing when absent, else the typed
/// message's (type name, encoding) or the 422 message.
pub open spec fn settings_outcome(field: Seq<char>, sub: Option<TypedMessageJson>) -> Result<
    Option<(Seq<char>, Seq<u8>)>,
    Seq<char>,
> {
    match sub {
        None => Ok(None),
        Some(s) => match settings_spec(field, s) {
            Ok(p) => Ok(Some(p)),
            Err(m) => Err(m),
        },
    }
}

/// The plain values of an optional typed message.
pub open spec fn settings_view(o: Option<TypedMessage>) -> Option<(Seq<char>, Seq<u8>)> {
    match o {
        Some(m) => Some((m.message_type@, m.value@)),
        None => None,
    }
}

/// `r` is what an optional settings object gives.
pub open spec fn matches_optional_settings(
    r: Result<Option<TypedMessage>, AppError>,
    field: Seq<char>,
    sub: Option<TypedMessageJson>,
) -> bool {
    match settings_outcome(field, sub) {
        Ok(o) => r matches Ok(x) && settings_view(x) == o,
        Err(msg) => r matches Err(e) && e matches AppError::UnprocessableEntity(m) && m@ == msg,
    }
}

/// `r` is a 422 error with message `msg`.
pub open spec fn is_unprocessable<T>(r: Result<T, AppError>, msg: Seq<char>) -> bool {
    r matches Err(e) && e matches AppError::UnprocessableEntity(m) && m@ == msg
}

/// A 422 error with message `prefix` followed by `suffix`.
fn unprocessable(prefix: &str, suffix: &str) -> (r: AppError)
    ensures
        r matches AppError::UnprocessableEntity(m) && m@ == prefix@ + suffix@,
{
    let mut msg = prefix.to_owned();
    msg.append(suffix);
    AppError::UnprocessableEntity(msg)
}

/// The typed message for settings object `field` of type `message_type`, given what
/// decoding its base64 value gave.
pub fn typed_message_from_decoded(
    field: &str,
    message_type: &str,
    decoded: Result<Vec<u8>, String>,
) -> (r: Result<TypedMessage, AppError>)
    ensures
        matches_settings(
            r,
            settings_from_decoded(
                field@,
                message_type@,
                match decoded {
                    Ok(v) => Ok(v@),
                    Err(m) => Err(m@),
                },
            ),
        ),
{
    match decoded {
        Ok(value) => Ok(TypedMessage { message_type: message_type.to_owned(), value }),
        Err(m) => {
            let mut msg = field.to_owned();
            msg.append(".value base64 decode error: ");
            msg.append(m.as_str());
            Err(AppError::UnprocessableEntity(msg))
        },
    }
}

/// Reads the settings object `field`: `type` must be a string and `value` a base64 string.
pub fn typed_message_from_json(field: &str, sub: &TypedMessageJson) -> (r: Result<
    TypedMessage,
    AppError,
>)
    ensures
        matches_settings(r, settings_spec(field@, *sub)),
{
    let message_type = match &sub.message_type {
        JsonField::Text(t) => t,
        _ => return Err(unprocessable(field, ".type must be a string")),
    };
    let value = match &sub.value {
        JsonField::Text(v) => v,
        _ => return Err(unprocessable(field, ".value must be a base64 string")),
    };
    let decoded = base64_decode(value.as_str());
    typed_message_from_decoded(field, message_type.as_str(), decoded)
}

/// Reads an optional settings object `field`: nothing when absent.
pub fn extract_typed_message(field: &str, sub: &Option<TypedMessageJson>) -> (r: Result<
    Option<TypedMessage>,
    AppError,
>)
    ensures
        matches_optional_settings(r, field@, *sub),
{
    match sub {
        None => Ok(None),
        Some(s) => match typed_message_from_json(field, s) {
            Ok(m) => Ok(Some(m)),
            Err(e) => Err(e),
        },
    }
}

/// Message for a configuration whose `tag` is absent.
pub open spec fn missing_tag_message() -> Seq<char> {
    "config 必须包含 'tag' 字段"@
}

/// Message for a configuration whose `tag` is not a string.
pub open spec fn tag_required_message() -> Seq<char> {
    "config.tag is required"@
}

/// `r` is what reading configuration `v` as an inbound handler gives.
pub open spec fn inbound_config_post(v: ConfigJson, r: Result<InboundHandlerConfig, AppError>) -> bool {
    match v.tag {
        JsonField::Text(t) => match (
            settings_outcome("receiver_settings"@, v.receiver_settings),
            settings_outcome("proxy_settings"@, v.proxy_settings),
        ) {
            (Err(msg), _) => is_unprocessable(r, msg),
            (Ok(_), Err(msg)) => is_unprocessable(r, msg),
            (Ok(a), Ok(b)) => r matches Ok(c) && c.tag@ == t@ && settings_view(c.receiver_settings) == a
                && settings_view(c.proxy_settings) == b,
        },
        _ => is_unprocessable(r, tag_required_message()),
    }
}

/// The inbound handler a configuration describes: `tag` must be a string, then
/// `receiver_settings` and `proxy_settings` are read, in that order.
pub fn json_to_inbound_config(v: &ConfigJson) -> (r: Result<InboundHandlerConfig, AppError>)
    ensures
        inbound_config_post(*v, r),
{
    let tag = match &v.tag {
        JsonField::Text(t) => t.clone(),
        _ => return Err(AppError::UnprocessableEntity("config.tag is required".to_owned())),
    };
    let receiver_settings = extract_typed_message("receiver_settings", &v.receiver_settings)?;
    let proxy_settings = extract_typed_message("proxy_settings", &v.proxy_settings)?;
    Ok(InboundHandlerConfig { tag, receiver_settings, proxy_settings })
}

/// `r` is what reading configuration `v` as an outbound handler gives.
pub open spec fn outbound_config_post(v: ConfigJson, r: Result<OutboundHandlerConfig, AppError>) -> bool {
    match v.tag {
        JsonField::Text(t) => match (
            settings_outcome("sender_settings"@, v.sender_settings),
            settings_outcome("proxy_settings"@, v.proxy_settings),
        ) {
            (Err(msg), _) => is_unprocessable(r, msg),
            (Ok(_), Err(msg)) => is_unprocessable(r, msg),
            (Ok(a), Ok(b)) => r matches Ok(c) && c.tag@ == t@ && settings_view(c.sender_settings) == a
                && settings_view(c.proxy_settings) == b,
        },
        _ => is_unprocessable(r, tag_required_message()),
    }
}

/// The outbound handler a configuration describes: `tag` must be a string, then
/// `sender_settings` and `proxy_settings` are read, in that order.
pub fn json_to_outbound_config(v: &ConfigJson) -> (r: Result<OutboundHandlerConfig, AppError>)
    ensures
        outbound_config_post(*v, r),
{
    let tag = match &v.tag {
        JsonField::Text(t) => t.clone(),
        _ => return Err(AppError::UnprocessableEntity("config.tag is required".to_owned())),
    };
    let sender_settings = extract_typed_message("sender_settings", &v.sender_settings)?;
    let proxy_settings = extract_typed_message("proxy_settings", &v.proxy_settings)?;
    Ok(OutboundHandlerConfig { tag, sender_settings, proxy_settings })
}

/// The inbound handler a `POST /v1/inbounds` body asks for: the configuration must have
/// a `tag` field, then it is read as [`json_to_inbound_config`] reads it.
pub fn inbound_config_from_body(body: &InboundConfigBody) -> (r: Result<InboundHandlerConfig, AppError>)
    ensures
        body.config.tag is Missing ==> is_unprocessable(r, missing_tag_message()),
        !(body.config.tag is Missing) ==> inbound_config_post(body.config, r),
{
    if let JsonField::Missing = &body.config.tag {
        return Err(AppError::UnprocessableEntity("config 必须包含 'tag' 字段".to_owned()));
    }
    json_to_inbound_config(&body.config)
}

/// The outbound handler a `POST /v1/outbounds` body asks for: the configuration must have
/// a `tag` field, then it is read as [`json_to_outbound_config`] reads it.
pub fn outbound_config_from_body(body: &InboundConfigBody) -> (r: Result<OutboundHandlerConfig, AppError>)
    ensures
        body.config.tag is Missing ==> is_unprocessable(r, missing_tag_message()),
        !(body.config.tag is Missing) ==> outbound_config_post(body.config, r),
{
    if let JsonField::Missing = &body.config.tag {
        return Err(AppError::UnprocessableEntity("config 必须包含 'tag' 字段".to_owned()));
    }
    json_to_outbound_config(&body.config)
}

/// The typed message `m` is what the settings object `j` holds: absent when `j` is absent,
/// else with `j`'s `type` string as its type name and the bytes its base64 `value` string
/// decodes to as its value.
pub open spec fn holds_settings_of(j: Option<TypedMessageJson>, m: Option<TypedMessage>) -> bool {
    match j {
        None => m is None,
        Some(s) => match (m, s.message_type, s.value) {
            (Some(x), JsonField::Text(t), JsonField::Text(v)) => t@ == x.message_type@
                && base64_decode_outcome(v@) == Ok::<Seq<u8>, Seq<char>>(x.value@),
            _ => false,
        },
    }
}

/// The settings object `j` reads without error: absent, or a string `type` with a string
/// `value` that decodes as base64.
pub open spec fn settings_readable(j: Option<TypedMessageJson>) -> bool {
    match j {
        None => true,
        Some(s) => match (s.message_type, s.value) {
            (JsonField::Text(_), JsonField::Text(v)) => base64_decode_outcome(v@) is Ok,
            _ => false,
        },
    }
}

/// An outbound handler read from a configuration takes each of its settings from the JSON
/// field of the same name (`sender_settings` from `sender_settings`, `proxy_settings` from
/// `proxy_settings`) and its tag from `tag`; a configuration with a string tag whose
/// settings all read is always accepted.
pub proof fn outbound_settings_come_from_their_own_fields(
    v: ConfigJson,
    r: Result<OutboundHandlerConfig, AppError>,
)
    requires
        outbound_config_post(v, r),
    ensures
        r matches Ok(c) ==> (v.tag matches JsonField::Text(t) && c.tag@ == t@),
        r matches Ok(c) ==> holds_settings_of(v.sender_settings, c.sender_settings),
        r matches Ok(c) ==> holds_settings_of(v.proxy_settings, c.proxy_settings),
        v.tag is Text && settings_readable(v.sender_settings) && settings_readable(v.proxy_settings)
            ==> r is Ok,
{
}

/// An inbound handler read from a configuration takes each of its settings from the JSON
/// field of the same name (`receiver_settings` from `receiver_settings`, `proxy_settings`
/// from `proxy_settings`) and its tag from `tag`; a configuration with a string tag whose
/// settings all read is always accepted.
pub proof fn inbound_settings_come_from_their_own_fields(
    v: ConfigJson,
    r: Result<InboundHandlerConfig, AppError>,
)
    requires
        inbound_config_post(v, r),
    ensures
        r matches Ok(c) ==> (v.tag matches JsonField::Text(t) && c.tag@ == t@),
        r matches Ok(c) ==> holds_settings_of(v.receiver_settings, c.receiver_settings),
        r matches Ok(c) ==> holds_settings_of(v.proxy_settings, c.proxy_settings),
        v.tag is Text && settings_readable(v.receiver_settings) && settings_readable(
            v.proxy_settings,
        ) ==> r is Ok,
{
}

} // verus!
