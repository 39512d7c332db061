use vstd::prelude::*;

verus! {

/// The closed taxonomy of failures surfaced at the request boundary.
#[derive(Debug, Clone, PartialEq, Eq)]
pub enum ApiError {
    DependencyMissing,
    InvalidOperation(String),
    RequestFailed(String),
    DatabaseError(String),
    InternalServerError(String),
}

/// The boundary status code of each kind of error.
pub open spec fn status_of(e: ApiError) -> u16 {
    match e {
        ApiError::DependencyMissing => 200,
        ApiError::InvalidOperation(_) => 400,
        ApiError::RequestFailed(_) => 500,
        ApiError::DatabaseError(_) => 500,
        ApiError::InternalServerError(_) => 500,
    }
}

/// What `{:?}` renders for a string: the string quoted, with its special
/// characters escaped.
pub uninterp spec fn debug_text_of(s: Seq<char>) -> Seq<char>;

/// Relies on `<str as Debug>::fmt`: the quoted, escaped form of the string,
/// which depends on the characters alone.
#[verifier::external_body]
fn debug_quoted(s: &str) -> (r: String)
    ensures
        r@ == debug_text_of(s@),
{
    format!("{:?}", s)
}

/// A kind's name followed by its detail, quoted, in parentheses.
pub open spec fn tagged_of(tag: Seq<char>, detail: Seq<char>) -> Seq<char> {
    tag + "("@ + debug_text_of(detail) + ")"@
}

/// The plain-text body of the response: the kind's name, followed by the
/// detail rendered as `{:?}` renders it, in parentheses.
pub open spec fn body_of(e: ApiError) -> Seq<char> {
    match e {
        ApiError::DependencyMissing => "DependencyMissing"@,
        ApiError::InvalidOperation(d) => tagged_of("InvalidOperation"@, d@),
        ApiError::RequestFailed(d) => tagged_of("RequestFailed"@, d@),
        ApiError::DatabaseError(d) => tagged_of("DatabaseError"@, d@),
        ApiError::InternalServerError(d) => tagged_of("InternalServerError"@, d@),
    }
}

/// A rendered error: one status code and a plain-text body.
#[derive(Debug, Clone, PartialEq, Eq)]
pub struct ErrorResponse {
    pub status: u16,
    pub body: String,
}

fn tagged(tag: &str, detail: &String) -> (r: String)
    ensures
        r@ == tagged_of(tag@, detail@),
{
    let mut out = String::from_str(tag);
    out.append("(");
    let quoted = debug_quoted(detail.as_str());
    out.append(quoted.as_str());
    out.append(")");
    out
}

impl ApiError {
    /// The status code with which the boundary answers this error.
    pub fn status_code(&self) -> (r: u16)
        ensures
            r == status_of(*self),
    {
        match self {
            ApiError::DependencyMissing => 200,
            ApiError::InvalidOperation(_) => 400,
            ApiError::RequestFailed(_) => 500,
            ApiError::DatabaseError(_) => 500,
            ApiError::InternalServerError(_) => 500,
        }
    }

    /// The plain-text message carried in the response body.
    pub fn message(&self) -> (r: String)
        ensures
            r@ == body_of(*self),
    {
        match self {
            ApiError::DependencyMissing => {
                String::from_str("DependencyMissing")
            },
            ApiError::InvalidOperation(d) => tagged("InvalidOperation", d),
            ApiError::RequestFailed(d) => tagged("RequestFailed", d),
            ApiError::DatabaseError(d) => tagged("DatabaseError", d),
            ApiError::InternalServerError(d) => tagged("InternalServerError", d),
        }
    }

    /// Renders the error for the boundary: its status code and its message.
    pub fn respond(&self) -> (r: ErrorResponse)
        ensures
            r.status == status_of(*self),
            r.body@ == body_of(*self),
    {
        ErrorResponse { status: self.status_code(), body: self.message() }
    }
}

/// Each kind of error maps to its fixed status: a missing dependency is
/// success-shaped, an invalid operation is a client error, and every other
/// kind is a server error.
pub proof fn lemma_status_mapping(e: ApiError)
    ensures
        (e is DependencyMissing) ==> status_of(e) == 200,
        (e is InvalidOperation) ==> status_of(e) == 400,
        (e is RequestFailed || e is DatabaseError || e is InternalServerError) ==> status_of(e) == 500,
        status_of(e) == 200 || status_of(e) == 400 || status_of(e) == 500,
{
}

} // verus!
