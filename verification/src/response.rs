//! The codes and errors of the service's answers, and the checks that its
//! endpoints make before they touch the stores.

use vstd::prelude::*;
use vstd::string::*;

verus! {

/// The outcome of a call, as the body of the answer reports it.
#[derive(Clone, Copy, Debug, PartialEq, Eq, Structural)]
pub enum Code {
    /// The call succeeded.
    Okay,
    BadRequest,
    Unauthorized,
    Forbidden,
    NotFound,
    MethodNotAllowed,
    UnprocessableEntity,
    InternalServerError,
    DbError,
}

impl Code {
    /// The number of the code.
    pub open spec fn number(self) -> u32 {
        match self {
            Code::Okay => 200,
            Code::BadRequest => 400,
            Code::Unauthorized => 401,
            Code::Forbidden => 403,
            Code::NotFound => 404,
            Code::MethodNotAllowed => 405,
            Code::UnprocessableEntity => 422,
            Code::InternalServerError => 500,
            Code::DbError => 403001,
        }
    }

    /// The words for the code.
    pub open spec fn words(self) -> Seq<char> {
        match self {
            Code::Okay => "OK"@,
            Code::BadRequest => "Bad Request"@,
            Code::Unauthorized => "Unauthorized"@,
            Code::Forbidden => "Forbidden"@,
            Code::NotFound => "Not Found"@,
            Code::MethodNotAllowed => "Method Not Allowed"@,
            Code::UnprocessableEntity => "Unprocessable Entity"@,
            Code::InternalServerError => "Internal Server Error"@,
            Code::DbError => "DB Error"@,
        }
    }

    /// The HTTP status that an answer with the code is sent with: the
    /// number of the code, but 500 for an error of the database.
    pub open spec fn status(self) -> u16 {
        match self {
            Code::Okay => 200,
            Code::BadRequest => 400,
            Code::Unauthorized => 401,
            Code::Forbidden => 403,
            Code::NotFound => 404,
            Code::MethodNotAllowed => 405,
            Code::UnprocessableEntity => 422,
            Code::InternalServerError => 500,
            Code::DbError => 500,
        }
    }

    /// The number of the code.
    pub fn as_u32(&self) -> (number: u32)
        ensures
            number == self.number(),
    {
        match self {
            Code::Okay => 200,
            Code::BadRequest => 400,
            Code::Unauthorized => 401,
            Code::Forbidden => 403,
            Code::NotFound => 404,
            Code::MethodNotAllowed => 405,
            Code::UnprocessableEntity => 422,
            Code::InternalServerError => 500,
            Code::DbError => 403001,
        }
    }

    /// The words for the code.
    pub fn message(&self) -> (words: &'static str)
        ensures
            words@ == self.words(),
    {
        match self {
            Code::Okay => "OK",
            Code::BadRequest => "Bad Request",
            Code::Unauthorized => "Unauthorized",
            Code::Forbidden => "Forbidden",
            Code::NotFound => "Not Found",
            Code::MethodNotAllowed => "Method Not Allowed",
            Code::UnprocessableEntity => "Unprocessable Entity",
            Code::InternalServerError => "Internal Server Error",
            Code::DbError => "DB Error",
        }
    }

    /// The HTTP status that an answer with the code is sent with.
    pub fn http_status(&self) -> (status: u16)
        ensures
            status == self.status(),
    {
        match self {
            Code::Okay => 200,
            Code::BadRequest => 400,
            Code::Unauthorized => 401,
            Code::Forbidden => 403,
            Code::NotFound => 404,
            Code::MethodNotAllowed => 405,
            Code::UnprocessableEntity => 422,
            Code::InternalServerError => 500,
            Code::DbError => 500,
        }
    }
}

/// The payload of an answer that succeeded.
pub struct Success<T>(pub T);

/// A request body that was read as JSON.
pub struct SafeJson<T>(pub T);

/// A query string that was read into a value.
pub struct SafeQuery<T>(pub T);

/// An answer that failed.
#[derive(Debug, Clone)]
pub enum AppError {
    /// With the words of the code as the message.
    Logic(Code),
    /// With a message of its own.
    Custom(Code, String),
}

/// The outcome of an endpoint.
pub type AppResult<T> = Result<Success<T>, AppError>;

impl AppError {
    /// The code of the error.
    pub open spec fn spec_code(&self) -> Code {
        match self {
            AppError::Logic(code) => *code,
            AppError::Custom(code, _) => *code,
        }
    }

    /// The message of the error: its own, or the words of its code.
    pub open spec fn spec_message(&self) -> Seq<char> {
        match self {
            AppError::Logic(code) => code.words(),
            AppError::Custom(_, text) => text@,
        }
    }

    /// The code of the error.
    #[verifier::when_used_as_spec(spec_code)]
    pub fn code(&self) -> (code: Code)
        ensures
            code == self.spec_code(),
    {
        match self {
            AppError::Logic(code) => *code,
            AppError::Custom(code, _) => *code,
        }
    }

    /// The message of the error: its own, or the words of its code.
    pub fn message(&self) -> (text: String)
        ensures
            text@ == self.spec_message(),
    {
        match self {
            AppError::Logic(code) => code.message().to_owned(),
            AppError::Custom(_, text) => text.clone(),
        }
    }

    /// The HTTP status that the error is answered with.
    pub fn http_status(&self) -> (status: u16)
        ensures
            status == self.spec_code().status(),
    {
        self.code().http_status()
    }

    /// The error for a call to another service that failed: whatever went
    /// wrong there, the answer is an internal server error.
    pub fn upstream() -> (error: AppError)
        ensures
            error == AppError::Logic(Code::InternalServerError),
    {
        AppError::Logic(Code::InternalServerError)
    }

    /// The error for a request body or a query string that could not be
    /// read.
    pub fn unreadable() -> (error: AppError)
        ensures
            error == AppError::Logic(Code::UnprocessableEntity),
    {
        AppError::Logic(Code::UnprocessableEntity)
    }
}

/// The answer of another service, as its body reports it.
#[derive(Debug)]
pub struct ExternalResponse<T> {
    pub code: u32,
    pub message: String,
    pub data: Option<T>,
}

impl<T> ExternalResponse<T> {
    /// The data of an answer that reports success, which is code 200; an
    /// internal server error for any other code.
    pub fn into_data(self) -> (data: Result<Option<T>, AppError>)
        ensures
            self.code == 200 ==> data == Ok::<Option<T>, AppError>(self.data),
            self.code != 200 ==> data == Err::<Option<T>, AppError>(
                AppError::Logic(Code::InternalServerError),
            ),
    {
        if self.code != 200 {
            return Err(AppError::Logic(Code::InternalServerError));
        }
        Ok(self.data)
    }
}

/// The outcome of a call to another service, from what came back: the data
/// of the answer where the request was sent, the status is a success (from
/// 200 to 299), the body was read as an answer, and the answer reports
/// code 200. In every other case the outcome is an internal server error.
pub fn outcome<T>(sent: bool, status: u16, body: Option<ExternalResponse<T>>) -> (result: Result<
    Option<T>,
    AppError,
>)
    ensures
        sent && 200 <= status < 300 && body is Some && body->Some_0.code == 200 ==> result == Ok::<
            Option<T>,
            AppError,
        >(body->Some_0.data),
        !(sent && 200 <= status < 300 && body is Some && body->Some_0.code == 200) ==> result
            == Err::<Option<T>, AppError>(AppError::Logic(Code::InternalServerError)),
{
    if !sent || status < 200 || status >= 300 {
        return Err(AppError::Logic(Code::InternalServerError));
    }
    match body {
        Some(answer) => answer.into_data(),
        None => Err(AppError::Logic(Code::InternalServerError)),
    }
}

/// The HTTP status for the number of a code: the number itself where it is
/// a status, which is from 100 to 999 and fits in 16 bits, else 500.
pub open spec fn status_of(code: u32) -> u16 {
    if 100 <= code && code < 1000 {
        code as u16
    } else {
        500
    }
}

/// The HTTP status that an answer with the code number `code` is sent with.
pub fn api_status(code: u32) -> (status: u16)
    ensures
        status == status_of(code),
{
    if 100 <= code && code < 1000 {
        code as u16
    } else {
        500
    }
}

/// Checks the user id of a read: zero is no user.
pub fn check_read(uid: u64) -> (checked: Result<(), Code>)
    ensures
        uid == 0 ==> checked == Err::<(), Code>(Code::UnprocessableEntity),
        uid != 0 ==> checked is Ok,
{
    if uid == 0 {
        Err(Code::UnprocessableEntity)
    } else {
        Ok(())
    }
}

/// Checks a write: zero is no user, and an object without fields is
/// nothing to write.
pub fn check_write(uid: u64, payload_is_empty_object: bool) -> (checked: Result<(), Code>)
    ensures
        uid == 0 || payload_is_empty_object ==> checked == Err::<(), Code>(
            Code::UnprocessableEntity,
        ),
        uid != 0 && !payload_is_empty_object ==> checked is Ok,
{
    if uid == 0 || payload_is_empty_object {
        Err(Code::UnprocessableEntity)
    } else {
        Ok(())
    }
}

} // verus!
