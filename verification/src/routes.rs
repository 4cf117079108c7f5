//! What the HTTP endpoints decide: request bodies and their defaults, the checks on
//! inbound/outbound configurations, and the replies to management operations.

use vstd::prelude::*;

use crate::error::{is_not_found, means_not_found, AppError, HTTP_CREATED, HTTP_OK};
use crate::text::{text_eq, to_uppercase, lower_case, upper_case};

verus! {

/// Body of `POST /v1/users`.
#[derive(Debug)]
pub struct AddUserBody {
    pub tag: String,
    pub email: String,
    pub proto: String,
    pub level: u32,
    pub uuid: String,
    pub flow: String,
    pub vmess_security: String,
    pub password: String,
    pub ss_cipher: String,
}

/// Query of `DELETE /v1/users/:email`.
#[derive(Debug)]
pub struct RemoveUserQuery {
    pub tag: String,
    pub ignore_missing: bool,
}

/// Body of `POST /v1/routing/test`.
#[derive(Debug)]
pub struct TestRouteBody {
    pub target_domain: String,
    pub network: String,
    pub inbound_tag: String,
    pub user: String,
}

/// Body of `PUT /v1/routing/balancers/:tag`.
#[derive(Debug)]
pub struct OverrideBalancerBody {
    pub target: String,
}

/// Query of the stat endpoints that can reset counters.
#[derive(Debug, Clone, Copy)]
pub struct ResetQuery {
    pub reset: bool,
}

/// Query of `GET /v1/stats`.
#[derive(Debug)]
pub struct StatsQuery {
    pub pattern: String,
    pub reset: bool,
}

/// Protocol used when the add-user body names none.
pub fn default_proto() -> (r: String)
    ensures
        r@ == "vless"@,
{
    "vless".to_owned()
}

/// VMess security used when the add-user body names none.
pub fn default_vmess_security() -> (r: String)
    ensures
        r@ == "AUTO"@,
{
    "AUTO".to_owned()
}

/// Shadowsocks cipher used when the add-user body names none.
pub fn default_ss_cipher() -> (r: String)
    ensures
        r@ == "CHACHA20_POLY1305"@,
{
    "CHACHA20_POLY1305".to_owned()
}

/// Removing a missing user is not an error unless the query says otherwise.
pub fn default_ignore_missing() -> (r: bool)
    ensures
        r,
{
    true
}

/// Network used when the route-test body names none.
pub fn default_network() -> (r: String)
    ensures
        r@ == "TCP"@,
{
    "TCP".to_owned()
}

/// The xray `Network` number for a network name in upper case: UDP is 3, anything else TCP (2).
pub open spec fn network_code(upper: Seq<char>) -> i32 {
    if upper == "UDP"@ {
        3
    } else {
        2
    }
}

/// The `Network` number for a network name already in upper case.
pub fn network_from_upper(upper: &str) -> (r: i32)
    ensures
        r == network_code(upper@),
{
    if text_eq(upper, "UDP") {
        3
    } else {
        2
    }
}

/// Maps a network name, in any letter case, to its `Network` number (TCP=2, UDP=3,
/// anything else TCP).
pub fn network_from_str(s: &str) -> (r: i32)
    ensures
        r == network_code(upper_case(s@)),
{
    let upper = to_uppercase(s);
    network_from_upper(upper.as_str())
}

/// The routing context a route test asks the node to decide on.
#[derive(Debug)]
pub struct RouteQuery {
    pub target_domain: String,
    pub network: i32,
    pub inbound_tag: String,
    pub user: String,
}

/// The routing context for a route-test body.
pub fn route_query(body: &TestRouteBody) -> (r: RouteQuery)
    ensures
        r.target_domain@ == body.target_domain@,
        r.network == network_code(upper_case(body.network@)),
        r.inbound_tag@ == body.inbound_tag@,
        r.user@ == body.user@,
{
    RouteQuery {
        target_domain: body.target_domain.clone(),
        network: network_from_str(body.network.as_str()),
        inbound_tag: body.inbound_tag.clone(),
        user: body.user.clone(),
    }
}

/// The success envelope of a management operation:
/// `{"ok": true, "action": …, "persisted": false, "detail": {…}}` with an HTTP status.
#[derive(Debug)]
pub struct OperationResult {
    pub status: u16,
    pub action: String,
    /// The `detail` object's string fields, in order.
    pub detail: Vec<(String, String)>,
}

/// The plain values of a reply's detail fields.
pub open spec fn detail_view(d: Seq<(String, String)>) -> Seq<(Seq<char>, Seq<char>)> {
    d.map_values(|p: (String, String)| (p.0@, p.1@))
}

/// `r` is the envelope with this status, action and detail.
pub open spec fn is_result(
    r: OperationResult,
    status: u16,
    action: Seq<char>,
    detail: Seq<(Seq<char>, Seq<char>)>,
) -> bool {
    &&& r.status == status
    &&& r.action@ == action
    &&& detail_view(r.detail@) == detail
}

/// A detail field.
fn field(key: &str, value: &str) -> (r: (String, String))
    ensures
        r.0@ == key@,
        r.1@ == value@,
{
    (key.to_owned(), value.to_owned())
}

/// Reply to a successful `POST /v1/users` (201).
pub fn add_user_reply(body: &AddUserBody) -> (r: OperationResult)
    ensures
        is_result(
            r,
            201,
            "add-user"@,
            seq![("tag"@, body.tag@), ("email"@, body.email@), ("proto"@, body.proto@)],
        ),
{
    let detail = vec![
        field("tag", body.tag.as_str()),
        field("email", body.email.as_str()),
        field("proto", body.proto.as_str()),
    ];
    let r = OperationResult { status: HTTP_CREATED, action: "add-user".to_owned(), detail };
    assert(detail_view(r.detail@) =~= seq![("tag"@, body.tag@), ("email"@, body.email@), ("proto"@, body.proto@)]);
    r
}

/// What `DELETE /v1/users/:email` answers, given the node's outcome: success is 200;
/// a "not found" failure is also 200 (noted as ignored) when `ignore_missing` is set;
/// any other failure is passed on.
pub fn remove_user_reply(
    tag: &str,
    email: &str,
    outcome: Result<(), AppError>,
    ignore_missing: bool,
) -> (r: Result<OperationResult, AppError>)
    ensures
        outcome is Ok ==> (r matches Ok(res) && is_result(
            res,
            200,
            "remove-user"@,
            seq![("tag"@, tag@), ("email"@, email@)],
        )),
        outcome matches Err(e) ==> (if ignore_missing && (e matches AppError::Grpc { code, details }
            && means_not_found(code, lower_case(details@))) {
            r matches Ok(res) && is_result(
                res,
                200,
                "remove-user"@,
                seq![("tag"@, tag@), ("email"@, email@), ("note"@, "not found, ignored"@)],
            )
        } else {
            r == Err::<OperationResult, AppError>(e)
        }),
{
    match outcome {
        Ok(()) => {
            let detail = vec![field("tag", tag), field("email", email)];
            let r = OperationResult {
                status: HTTP_OK,
                action: "remove-user".to_owned(),
                detail,
            };
            assert(detail_view(r.detail@) =~= seq![("tag"@, tag@), ("email"@, email@)]);
            Ok(r)
        },
        Err(e) => {
            let missing = match &e {
                AppError::Grpc { code, details } => is_not_found(*code, details.as_str()),
                _ => false,
            };
            if missing && ignore_missing {
                let detail = vec![
                    field("tag", tag),
                    field("email", email),
                    field("note", "not found, ignored"),
                ];
                let r = OperationResult {
                    status: HTTP_OK,
                    action: "remove-user".to_owned(),
                    detail,
                };
                assert(detail_view(r.detail@) =~= seq![
                    ("tag"@, tag@),
                    ("email"@, email@),
                    ("note"@, "not found, ignored"@),
                ]);
                Ok(r)
            } else {
                Err(e)
            }
        },
    }
}

/// A reply whose detail is just the tag.
fn tag_reply(status: u16, action: &str, tag: &str) -> (r: OperationResult)
    ensures
        is_result(r, status, action@, seq![("tag"@, tag@)]),
{
    let detail = vec![field("tag", tag)];
    let r = OperationResult { status, action: action.to_owned(), detail };
    assert(detail_view(r.detail@) =~= seq![("tag"@, tag@)]);
    r
}

/// Reply to a successful `POST /v1/inbounds` (201).
pub fn add_inbound_reply(tag: &str) -> (r: OperationResult)
    ensures
        is_result(r, 201, "add-inbound"@, seq![("tag"@, tag@)]),
{
    tag_reply(HTTP_CREATED, "add-inbound", tag)
}

/// Reply to a successful `DELETE /v1/inbounds/:tag` (200).
pub fn remove_inbound_reply(tag: &str) -> (r: OperationResult)
    ensures
        is_result(r, 200, "remove-inbound"@, seq![("tag"@, tag@)]),
{
    tag_reply(HTTP_OK, "remove-inbound", tag)
}

/// Reply to a successful `POST /v1/outbounds` (201).
pub fn add_outbound_reply(tag: &str) -> (r: OperationResult)
    ensures
        is_result(r, 201, "add-outbound"@, seq![("tag"@, tag@)]),
{
    tag_reply(HTTP_CREATED, "add-outbound", tag)
}

/// Reply to a successful `DELETE /v1/outbounds/:tag` (200).
pub fn remove_outbound_reply(tag: &str) -> (r: OperationResult)
    ensures
        is_result(r, 200, "remove-outbound"@, seq![("tag"@, tag@)]),
{
    tag_reply(HTTP_OK, "remove-outbound", tag)
}

/// Reply to a successful `DELETE /v1/routing/rules/:tag` (200).
pub fn remove_rule_reply(tag: &str) -> (r: OperationResult)
    ensures
        is_result(r, 200, "remove-routing-rule"@, seq![("tag"@, tag@)]),
{
    tag_reply(HTTP_OK, "remove-routing-rule", tag)
}

/// Reply to a successful `POST /v1/logger/restart` (200, empty detail).
pub fn restart_logger_reply() -> (r: OperationResult)
    ensures
        is_result(r, 200, "restart-logger"@, Seq::empty()),
{
    let r = OperationResult {
        status: HTTP_OK,
        action: "restart-logger".to_owned(),
        detail: Vec::new(),
    };
    assert(detail_view(r.detail@) =~= Seq::<(Seq<char>, Seq<char>)>::empty());
    r
}

/// Reply to a successful `PUT /v1/routing/balancers/:tag` (200).
pub fn override_balancer_reply(balancer_tag: &str, target: &str) -> (r: OperationResult)
    ensures
        is_result(
            r,
            200,
            "override-balancer-target"@,
            seq![("balancer_tag"@, balancer_tag@), ("target"@, target@)],
        ),
{
    let detail = vec![field("balancer_tag", balancer_tag), field("target", target)];
    let r = OperationResult {
        status: HTTP_OK,
        action: "override-balancer-target".to_owned(),
        detail,
    };
    assert(detail_view(r.detail@) =~= seq![("balancer_tag"@, balancer_tag@), ("target"@, target@)]);
    r
}

} // verus!
