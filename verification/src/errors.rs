//! The error every API handler returns, and the HTTP answer each variant
//! maps to: the single place where statuses are decided.

use vstd::prelude::*;

verus! {

#[derive(Debug, Clone, PartialEq, Eq)]
pub enum ApiError {
    BadRequest(String),
    Unauthorized,
    Forbidden(String),
    NotFound(String),
    Conflict(String),
    QuotaExceeded(String),
    /// An unexpected failure; the text is logged, never shown.
    Internal(String),
}

/// [`ApiError`] with its messages as character sequences.
pub enum ApiErrorView {
    BadRequest(Seq<char>),
    Unauthorized,
    Forbidden(Seq<char>),
    NotFound(Seq<char>),
    Conflict(Seq<char>),
    QuotaExceeded(Seq<char>),
    Internal(Seq<char>),
}

impl View for ApiError {
    type V = ApiErrorView;

    open spec fn view(&self) -> ApiErrorView {
        match self {
            ApiError::BadRequest(m) => ApiErrorView::BadRequest(m@),
            ApiError::Unauthorized => ApiErrorView::Unauthorized,
            ApiError::Forbidden(m) => ApiErrorView::Forbidden(m@),
            ApiError::NotFound(m) => ApiErrorView::NotFound(m@),
            ApiError::Conflict(m) => ApiErrorView::Conflict(m@),
            ApiError::QuotaExceeded(m) => ApiErrorView::QuotaExceeded(m@),
            ApiError::Internal(m) => ApiErrorView::Internal(m@),
        }
    }
}

pub open spec fn msg_forbidden() -> Seq<char> {
    "you cannot perform this action"@
}

pub open spec fn msg_not_found() -> Seq<char> {
    "not found"@
}

/// The HTTP status an error is answered with.
pub open spec fn status_of(e: ApiErrorView) -> u16 {
    match e {
        ApiErrorView::BadRequest(_) => 400,
        ApiErrorView::Unauthorized => 401,
        ApiErrorView::Forbidden(_) => 403,
        ApiErrorView::NotFound(_) => 404,
        ApiErrorView::Conflict(_) => 409,
        ApiErrorView::QuotaExceeded(_) => 422,
        ApiErrorView::Internal(_) => 500,
    }
}

/// The response body: the message, except for the two variants whose text
/// is fixed (an internal error's detail is never shown).
pub open spec fn body_of(e: ApiErrorView) -> Seq<char> {
    match e {
        ApiErrorView::BadRequest(m) => m,
        ApiErrorView::Unauthorized => "not logged in"@,
        ApiErrorView::Forbidden(m) => m,
        ApiErrorView::NotFound(m) => m,
        ApiErrorView::Conflict(m) => m,
        ApiErrorView::QuotaExceeded(m) => m,
        ApiErrorView::Internal(_) => "internal error"@,
    }
}

impl ApiError {
    /// The generic refusal.
    pub fn forbidden() -> (r: Self)
        ensures
            r@ == ApiErrorView::Forbidden(msg_forbidden()),
    {
        ApiError::Forbidden(String::from_str("you cannot perform this action"))
    }

    /// The generic "no such row".
    pub fn not_found() -> (r: Self)
        ensures
            r@ == ApiErrorView::NotFound(msg_not_found()),
    {
        ApiError::NotFound(String::from_str("not found"))
    }

    /// An unexpected failure described by `detail`.
    pub fn internal(detail: String) -> (r: Self)
        ensures
            r@ == ApiErrorView::Internal(detail@),
    {
        ApiError::Internal(detail)
    }

    /// The HTTP status code of the response.
    pub fn status(&self) -> (r: u16)
        ensures
            r == status_of(self@),
    {
        match self {
            ApiError::BadRequest(_) => 400,
            ApiError::Unauthorized => 401,
            ApiError::Forbidden(_) => 403,
            ApiError::NotFound(_) => 404,
            ApiError::Conflict(_) => 409,
            ApiError::QuotaExceeded(_) => 422,
            ApiError::Internal(_) => 500,
        }
    }

    /// The body of the response.
    pub fn body(&self) -> (r: String)
        ensures
            r@ == body_of(self@),
    {
        match self {
            ApiError::BadRequest(m) => m.clone(),
            ApiError::Unauthorized => String::from_str("not logged in"),
            ApiError::Forbidden(m) => m.clone(),
            ApiError::NotFound(m) => m.clone(),
            ApiError::Conflict(m) => m.clone(),
            ApiError::QuotaExceeded(m) => m.clone(),
            ApiError::Internal(_) => String::from_str("internal error"),
        }
    }
}

/// `r` with its error taken by its view.
pub open spec fn result_view<T>(r: Result<T, ApiError>) -> Result<T, ApiErrorView> {
    match r {
        Ok(t) => Ok(t),
        Err(e) => Err(e@),
    }
}

/// A message made of `prefix` and `rest`.
pub fn message(prefix: &str, rest: &str) -> (r: String)
    ensures
        r@ == prefix@ + rest@,
{
    let mut m = String::from_str(prefix);
    m.append(rest);
    m
}

} // verus!
