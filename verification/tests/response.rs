use http_metrics::response::{
    api_status, check_read, check_write, outcome, AppError, Code, ExternalResponse, SafeJson,
    SafeQuery, Success,
};

const CODES: [(Code, u32, &str, u16); 9] = [
    (Code::Okay, 200, "OK", 200),
    (Code::BadRequest, 400, "Bad Request", 400),
    (Code::Unauthorized, 401, "Unauthorized", 401),
    (Code::Forbidden, 403, "Forbidden", 403),
    (Code::NotFound, 404, "Not Found", 404),
    (Code::MethodNotAllowed, 405, "Method Not Allowed", 405),
    (Code::UnprocessableEntity, 422, "Unprocessable Entity", 422),
    (Code::InternalServerError, 500, "Internal Server Error", 500),
    (Code::DbError, 403001, "DB Error", 500),
];

#[test]
fn codes() {
    for (code, number, words, status) in CODES {
        assert_eq!(code.as_u32(), number);
        assert_eq!(code.message(), words);
        assert_eq!(code.http_status(), status);
    }
}

#[test]
fn errors() {
    let logic = AppError::Logic(Code::NotFound);
    assert_eq!(logic.code(), Code::NotFound);
    assert_eq!(logic.message(), "Not Found");
    assert_eq!(logic.http_status(), 404);
    let custom = AppError::Custom(Code::DbError, "deadlock".to_string());
    assert_eq!(custom.code(), Code::DbError);
    assert_eq!(custom.message(), "deadlock");
    assert_eq!(custom.http_status(), 500);
    assert!(matches!(AppError::upstream(), AppError::Logic(Code::InternalServerError)));
    assert!(matches!(AppError::unreadable(), AppError::Logic(Code::UnprocessableEntity)));
}

#[test]
fn wrappers_hold_their_value() {
    assert_eq!(Success(5).0, 5);
    assert_eq!(SafeJson("x").0, "x");
    assert_eq!(SafeQuery(vec![1]).0, vec![1]);
}

#[test]
fn answer_of_another_service() {
    let ok = ExternalResponse { code: 200, message: "OK".to_string(), data: Some(7) };
    assert!(matches!(ok.into_data(), Ok(Some(7))));
    let empty: ExternalResponse<u8> =
        ExternalResponse { code: 200, message: "OK".to_string(), data: None };
    assert!(matches!(empty.into_data(), Ok(None)));
    let failed = ExternalResponse { code: 500, message: "no".to_string(), data: Some(7) };
    assert!(matches!(failed.into_data(), Err(AppError::Logic(Code::InternalServerError))));
    let odd = ExternalResponse { code: 201, message: "made".to_string(), data: Some(7) };
    assert!(matches!(odd.into_data(), Err(AppError::Logic(Code::InternalServerError))));
}

#[test]
fn status_for_a_code_number() {
    assert_eq!(api_status(200), 200);
    assert_eq!(api_status(422), 422);
    assert_eq!(api_status(100), 100);
    assert_eq!(api_status(999), 999);
    assert_eq!(api_status(99), 500);
    assert_eq!(api_status(1000), 500);
    assert_eq!(api_status(0), 500);
    assert_eq!(api_status(403001), 500);
    assert_eq!(api_status(65736), 500);
}

#[test]
fn endpoint_checks() {
    assert_eq!(check_read(0), Err(Code::UnprocessableEntity));
    assert_eq!(check_read(1), Ok(()));
    assert_eq!(check_read(u64::MAX), Ok(()));
    assert_eq!(check_write(0, false), Err(Code::UnprocessableEntity));
    assert_eq!(check_write(5, true), Err(Code::UnprocessableEntity));
    assert_eq!(check_write(0, true), Err(Code::UnprocessableEntity));
    assert_eq!(check_write(5, false), Ok(()));
}

fn answer(code: u32, data: Option<u8>) -> Option<ExternalResponse<u8>> {
    Some(ExternalResponse { code, message: "m".to_string(), data })
}

#[test]
fn outcome_of_a_call_that_went_well() {
    assert!(matches!(outcome(true, 200, answer(200, Some(7))), Ok(Some(7))));
    assert!(matches!(outcome(true, 204, answer(200, None)), Ok(None)));
    assert!(matches!(outcome(true, 299, answer(200, Some(1))), Ok(Some(1))));
}

#[test]
fn outcome_of_a_call_that_failed() {
    let failed = |r: Result<Option<u8>, AppError>| {
        matches!(r, Err(AppError::Logic(Code::InternalServerError)))
    };
    assert!(failed(outcome(false, 200, answer(200, Some(7)))));
    assert!(failed(outcome(false, 0, None)));
    assert!(failed(outcome(true, 199, answer(200, Some(7)))));
    assert!(failed(outcome(true, 300, answer(200, Some(7)))));
    assert!(failed(outcome(true, 404, answer(200, Some(7)))));
    assert!(failed(outcome(true, 500, None)));
    assert!(failed(outcome(true, 200, None)));
    assert!(failed(outcome(true, 200, answer(500, Some(7)))));
    assert!(failed(outcome(true, 200, answer(201, Some(7)))));
}
