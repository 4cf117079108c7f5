use xray_bridge::error::{grpc_code_to_http, is_not_found, code_name, AppError, GrpcCode};
use axum::http::StatusCode;

#[test]
fn grpc_to_http_not_found() {
    assert_eq!(grpc_code_to_http(GrpcCode::NotFound, ""), StatusCode::NOT_FOUND.as_u16());
}

#[test]
fn grpc_to_http_already_exists() {
    assert_eq!(
        grpc_code_to_http(GrpcCode::AlreadyExists, ""),
        StatusCode::CONFLICT.as_u16()
    );
}

#[test]
fn grpc_to_http_unimplemented() {
    assert_eq!(
        grpc_code_to_http(GrpcCode::Unimplemented, ""),
        StatusCode::NOT_IMPLEMENTED.as_u16()
    );
}

#[test]
fn grpc_to_http_unavailable() {
    assert_eq!(
        grpc_code_to_http(GrpcCode::Unavailable, ""),
        StatusCode::BAD_GATEWAY.as_u16()
    );
}

#[test]
fn grpc_to_http_unknown_not_found() {
    assert_eq!(
        grpc_code_to_http(GrpcCode::Unknown, "user not found in database"),
        StatusCode::NOT_FOUND.as_u16()
    );
}

#[test]
fn grpc_to_http_unknown_already_exists() {
    assert_eq!(
        grpc_code_to_http(GrpcCode::Unknown, "already exists: user"),
        StatusCode::CONFLICT.as_u16()
    );
}

#[test]
fn grpc_to_http_unknown_other() {
    assert_eq!(
        grpc_code_to_http(GrpcCode::Unknown, "connection reset"),
        StatusCode::BAD_GATEWAY.as_u16()
    );
}

#[test]
fn grpc_to_http_other_codes_are_500() {
    assert_eq!(
        grpc_code_to_http(GrpcCode::Internal, ""),
        StatusCode::INTERNAL_SERVER_ERROR.as_u16()
    );
    assert_eq!(
        grpc_code_to_http(GrpcCode::Cancelled, ""),
        StatusCode::INTERNAL_SERVER_ERROR.as_u16()
    );
    assert_eq!(
        grpc_code_to_http(GrpcCode::PermissionDenied, ""),
        StatusCode::INTERNAL_SERVER_ERROR.as_u16()
    );
}

#[test]
fn grpc_to_http_unknown_case_insensitive() {
    // "not found" must match case-insensitively
    assert_eq!(
        grpc_code_to_http(GrpcCode::Unknown, "NOT FOUND"),
        StatusCode::NOT_FOUND.as_u16()
    );
    assert_eq!(
        grpc_code_to_http(GrpcCode::Unknown, "Not Found"),
        StatusCode::NOT_FOUND.as_u16()
    );
}

#[test]
fn grpc_to_http_not_found_code_ignores_details() {
    assert_eq!(grpc_code_to_http(GrpcCode::NotFound, "already exists"), 404);
    assert_eq!(grpc_code_to_http(GrpcCode::Unknown, "Already Exists"), 409);
    assert_eq!(grpc_code_to_http(GrpcCode::Unknown, "not found and already exists"), 404);
    assert_eq!(grpc_code_to_http(GrpcCode::Success, ""), 500);
}

#[test]
fn not_found_means_404_on_examples() {
    let cases = [
        (GrpcCode::NotFound, "x"),
        (GrpcCode::Unknown, "Not Found here"),
        (GrpcCode::Unknown, "gone"),
        (GrpcCode::Internal, "not found"),
        (GrpcCode::AlreadyExists, ""),
    ];
    for (code, details) in cases {
        assert_eq!(is_not_found(code, details), grpc_code_to_http(code, details) == 404);
    }
}

#[test]
fn code_names_are_screaming_snake_case() {
    assert_eq!(code_name(GrpcCode::Success), "OK");
    assert_eq!(code_name(GrpcCode::DeadlineExceeded), "DEADLINE_EXCEEDED");
    assert_eq!(code_name(GrpcCode::Unauthenticated), "UNAUTHENTICATED");
    assert_eq!(code_name(GrpcCode::DataLoss), "DATA_LOSS");
}

#[test]
fn error_statuses_codes_and_messages() {
    let e = AppError::Unauthenticated("m1".to_owned());
    assert_eq!((e.http_status(), e.code_label(), e.message()), (401, "UNAUTHENTICATED", "m1"));
    let e = AppError::InvalidArgument("m2".to_owned());
    assert_eq!((e.http_status(), e.code_label(), e.message()), (400, "INVALID_ARGUMENT", "m2"));
    let e = AppError::UnprocessableEntity("m3".to_owned());
    assert_eq!((e.http_status(), e.code_label(), e.message()), (422, "INVALID_ARGUMENT", "m3"));
    let e = AppError::Internal("m4".to_owned());
    assert_eq!((e.http_status(), e.code_label(), e.message()), (500, "INTERNAL_ERROR", "m4"));
    let e = AppError::Grpc { code: GrpcCode::Unknown, details: "User Not Found".to_owned() };
    assert_eq!((e.http_status(), e.code_label(), e.message()), (404, "UNKNOWN", "User Not Found"));
    let e = AppError::Grpc { code: GrpcCode::Unimplemented, details: String::new() };
    assert_eq!((e.http_status(), e.code_label()), (501, "UNIMPLEMENTED"));
}
