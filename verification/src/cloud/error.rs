//! The error type for the cloud, with its code and retry policy.

use vstd::prelude::*;
use vstd::std_specs::convert::FromSpecImpl;
use vstd::string::StringExecFns;
use protobuf::ProtobufError;
use std::io::Error as IoError;

verus! {

pub type Result<T> = std::result::Result<T, Error>;

#[verifier::external_type_specification]
#[verifier::external_body]
pub struct ExProtobufError(protobuf::ProtobufError);

#[verifier::external_type_specification]
#[verifier::external_body]
pub struct ExIoError(std::io::Error);

/// The codes under which cloud errors are reported.
#[derive(Clone, Copy, Debug, PartialEq, Eq, Structural)]
pub enum ErrorCode {
    Io,
    Proto,
    Unknown,
    Timeout,
    ApiInternal,
    ApiNotFound,
    ApiAuthentication,
    WrongMasterKey,
    InvalidInput,
}

/// An error that has a code.
pub trait ErrorCodeExt {
    spec fn spec_error_code(&self) -> ErrorCode;

    fn error_code(&self) -> (code: ErrorCode)
        ensures
            code == self.spec_error_code(),
    ;
}

/// An error that says whether the failed operation is worth another try.
pub trait RetryError {
    spec fn spec_is_retryable(&self) -> bool;

    fn is_retryable(&self) -> (b: bool)
        ensures
            b == self.spec_is_retryable(),
    ;
}

/// What every cloud error offers.
pub trait ErrorTrait: core::fmt::Debug + ErrorCodeExt + RetryError + Send + Sync + 'static {

}

/// An error from elsewhere, kept by its message, with the retry policy of
/// where it came from.
#[derive(Debug)]
pub struct OtherError {
    retryable: bool,
    err: String,
}

pub struct OtherErrorView {
    pub retryable: bool,
    pub err: Seq<char>,
}

impl View for OtherError {
    type V = OtherErrorView;

    closed spec fn view(&self) -> OtherErrorView {
        OtherErrorView { retryable: self.retryable, err: self.err@ }
    }
}

impl OtherError {
    /// Wraps an error of which only the message is known: it is not retried.
    pub fn from_box(err: String) -> (e: OtherError)
        ensures
            e@ == (OtherErrorView { retryable: false, err: err@ }),
    {
        OtherError { retryable: false, err }
    }

    /// Wraps an error of which the message and the retry policy are known.
    pub fn with_policy(retryable: bool, err: String) -> (e: OtherError)
        ensures
            e@ == (OtherErrorView { retryable, err: err@ }),
    {
        OtherError { retryable, err }
    }

    /// Wraps an error with a retry policy of its own; `err` is its message.
    pub fn from_retry<E: RetryError>(source: &E, err: String) -> (e: OtherError)
        ensures
            e@ == (OtherErrorView { retryable: source.spec_is_retryable(), err: err@ }),
    {
        OtherError { retryable: source.is_retryable(), err }
    }

    /// The message of the wrapped error.
    pub fn to_string(&self) -> (s: String)
        ensures
            s@ == self@.err,
    {
        self.err.clone()
    }
}

impl RetryError for OtherError {
    closed spec fn spec_is_retryable(&self) -> bool {
        self.retryable
    }

    fn is_retryable(&self) -> (b: bool)
        ensures
            b == self@.retryable,
    {
        self.retryable
    }
}

/// Errors of the key management service.
#[derive(Debug)]
pub enum KmsError {
    WrongMasterKey(String),
    EmptyKey(String),
    Other(OtherError),
}

impl KmsError {
    /// The text of the error: what kind it is, then its detail.
    pub open spec fn text(&self) -> Seq<char> {
        match self {
            KmsError::WrongMasterKey(m) => "Wrong master key "@ + m@,
            KmsError::EmptyKey(m) => "Empty key "@ + m@,
            KmsError::Other(o) => "Kms error "@ + o@.err,
        }
    }

    pub fn to_string(&self) -> (s: String)
        ensures
            s@ == self.text(),
    {
        match self {
            KmsError::WrongMasterKey(m) => String::from_str("Wrong master key ").concat(
                m.as_str(),
            ),
            KmsError::EmptyKey(m) => String::from_str("Empty key ").concat(m.as_str()),
            KmsError::Other(o) => String::from_str("Kms error ").concat(o.to_string().as_str()),
        }
    }
}

impl ErrorCodeExt for KmsError {
    open spec fn spec_error_code(&self) -> ErrorCode {
        match self {
            KmsError::WrongMasterKey(_) => ErrorCode::WrongMasterKey,
            KmsError::EmptyKey(_) => ErrorCode::InvalidInput,
            KmsError::Other(_) => ErrorCode::Unknown,
        }
    }

    fn error_code(&self) -> (code: ErrorCode) {
        match self {
            KmsError::WrongMasterKey(_) => ErrorCode::WrongMasterKey,
            KmsError::EmptyKey(_) => ErrorCode::InvalidInput,
            KmsError::Other(_) => ErrorCode::Unknown,
        }
    }
}

impl RetryError for KmsError {
    open spec fn spec_is_retryable(&self) -> bool {
        match self {
            KmsError::WrongMasterKey(_) => false,
            KmsError::EmptyKey(_) => false,
            KmsError::Other(e) => e@.retryable,
        }
    }

    fn is_retryable(&self) -> (b: bool) {
        match self {
            KmsError::WrongMasterKey(_) => false,
            KmsError::EmptyKey(_) => false,
            KmsError::Other(e) => e.is_retryable(),
        }
    }
}

/// The error type for the cloud.
///
/// Errors that reach the library as a boxed error are kept by their message.
#[derive(Debug)]
pub enum Error {
    Other(String),
    Io(IoError),
    Proto(ProtobufError),
    ApiTimeout(String),
    ApiInternal(String),
    ApiNotFound(String),
    ApiAuthentication(String),
    KmsError(KmsError),
}

impl ErrorTrait for Error {

}

impl Error {
    /// What the text of the error begins with: its kind.
    pub open spec fn heading(&self) -> Seq<char> {
        match self {
            Error::Other(_) => "Other error "@,
            Error::Io(_) => "IO error "@,
            Error::Proto(_) => "Protobuf error "@,
            Error::ApiTimeout(_) => "API Timeout error: "@,
            Error::ApiInternal(_) => "API internal error: "@,
            Error::ApiNotFound(_) => "API not found: "@,
            Error::ApiAuthentication(_) => "API auth: "@,
            Error::KmsError(_) => "Key error: "@,
        }
    }

    /// The text of the error, where `inner` is the text of the I/O or
    /// protobuf error that it holds, if it holds one.
    pub open spec fn text_with(&self, inner: Seq<char>) -> Seq<char> {
        match self {
            Error::Other(m) => self.heading() + m@,
            Error::Io(_) => self.heading() + inner,
            Error::Proto(_) => self.heading() + inner,
            Error::ApiTimeout(m) => self.heading() + m@,
            Error::ApiInternal(m) => self.heading() + m@,
            Error::ApiNotFound(m) => self.heading() + m@,
            Error::ApiAuthentication(m) => self.heading() + m@,
            Error::KmsError(k) => self.heading() + k.text(),
        }
    }

    /// Whether the text of the error depends on an error of another
    /// library that it holds.
    pub open spec fn holds_foreign(&self) -> bool {
        self is Io || self is Proto
    }

    /// Whether `s` is the text of the error: its kind, then its detail,
    /// which for an I/O or protobuf error is a text that the held error
    /// gives of itself.
    pub open spec fn shown_as(&self, s: Seq<char>) -> bool {
        match self {
            Error::Io(e) => exists|t: String|
                vstd::string::to_string_from_display_ensures::<IoError>(e, t) && s
                    == self.text_with(t@),
            Error::Proto(e) => exists|t: String|
                vstd::string::to_string_from_display_ensures::<ProtobufError>(e, t) && s
                    == self.text_with(t@),
            _ => s == self.text_with(Seq::empty()),
        }
    }

    /// The text of the error, given the text of the I/O or protobuf error
    /// that it holds.
    pub fn render(&self, inner: &str) -> (s: String)
        ensures
            s@ == self.text_with(inner@),
    {
        match self {
            Error::Other(m) => String::from_str("Other error ").concat(m.as_str()),
            Error::Io(_) => String::from_str("IO error ").concat(inner),
            Error::Proto(_) => String::from_str("Protobuf error ").concat(inner),
            Error::ApiTimeout(m) => String::from_str("API Timeout error: ").concat(m.as_str()),
            Error::ApiInternal(m) => String::from_str("API internal error: ").concat(m.as_str()),
            Error::ApiNotFound(m) => String::from_str("API not found: ").concat(m.as_str()),
            Error::ApiAuthentication(m) => String::from_str("API auth: ").concat(m.as_str()),
            Error::KmsError(k) => String::from_str("Key error: ").concat(k.to_string().as_str()),
        }
    }

    /// The text of the error: its kind, then its detail. The detail of an
    /// I/O or protobuf error is the text that the error gives of itself.
    pub fn to_string(&self) -> (s: String)
        ensures
            self.shown_as(s@),
            exists|inner: Seq<char>| s@ == self.text_with(inner),
            !self.holds_foreign() ==> s@ == self.text_with(Seq::empty()),
    {
        let inner = match self {
            Error::Io(e) => e.to_string(),
            Error::Proto(e) => e.to_string(),
            _ => String::new(),
        };
        self.render(inner.as_str())
    }
}

impl ErrorCodeExt for Error {
    open spec fn spec_error_code(&self) -> ErrorCode {
        match self {
            Error::Io(_) => ErrorCode::Io,
            Error::Proto(_) => ErrorCode::Proto,
            Error::Other(_) => ErrorCode::Unknown,
            Error::ApiTimeout(_) => ErrorCode::Timeout,
            Error::ApiInternal(_) => ErrorCode::ApiInternal,
            Error::ApiNotFound(_) => ErrorCode::ApiNotFound,
            Error::ApiAuthentication(_) => ErrorCode::ApiAuthentication,
            Error::KmsError(e) => e.spec_error_code(),
        }
    }

    fn error_code(&self) -> (code: ErrorCode) {
        match self {
            Error::Io(_) => ErrorCode::Io,
            Error::Proto(_) => ErrorCode::Proto,
            Error::Other(_) => ErrorCode::Unknown,
            Error::ApiTimeout(_) => ErrorCode::Timeout,
            Error::ApiInternal(_) => ErrorCode::ApiInternal,
            Error::ApiNotFound(_) => ErrorCode::ApiNotFound,
            Error::ApiAuthentication(_) => ErrorCode::ApiAuthentication,
            Error::KmsError(e) => e.error_code(),
        }
    }
}

impl RetryError for Error {
    open spec fn spec_is_retryable(&self) -> bool {
        match self {
            Error::Io(_) => true,
            Error::Proto(_) => true,
            Error::Other(_) => true,
            Error::ApiTimeout(_) => true,
            Error::ApiInternal(_) => true,
            Error::ApiNotFound(_) => false,
            Error::ApiAuthentication(_) => false,
            Error::KmsError(e) => e.spec_is_retryable(),
        }
    }

    fn is_retryable(&self) -> (b: bool) {
        match self {
            Error::Io(_) => true,
            Error::Proto(_) => true,
            Error::Other(_) => true,
            Error::ApiTimeout(_) => true,
            Error::ApiInternal(_) => true,
            Error::ApiNotFound(_) => false,
            Error::ApiAuthentication(_) => false,
            Error::KmsError(e) => e.is_retryable(),
        }
    }
}

impl From<KmsError> for Error {
    fn from(e: KmsError) -> (ret: Error) {
        Error::KmsError(e)
    }
}

impl FromSpecImpl<KmsError> for Error {
    open spec fn obeys_from_spec() -> bool {
        true
    }

    open spec fn from_spec(e: KmsError) -> Error {
        Error::KmsError(e)
    }
}

impl From<IoError> for Error {
    fn from(e: IoError) -> (ret: Error) {
        Error::Io(e)
    }
}

impl FromSpecImpl<IoError> for Error {
    open spec fn obeys_from_spec() -> bool {
        true
    }

    open spec fn from_spec(e: IoError) -> Error {
        Error::Io(e)
    }
}

impl From<ProtobufError> for Error {
    fn from(e: ProtobufError) -> (ret: Error) {
        Error::Proto(e)
    }
}

impl FromSpecImpl<ProtobufError> for Error {
    open spec fn obeys_from_spec() -> bool {
        true
    }

    open spec fn from_spec(e: ProtobufError) -> Error {
        Error::Proto(e)
    }
}

/// The I/O error of the kind `Other` that carries `text` as its payload.
pub uninterp spec fn io_error_with(text: Seq<char>) -> IoError;

/// Makes an I/O error that carries `text`.
///
/// Calls `std::io::Error::other`, which makes an error of the kind `Other`
/// around the payload it is given. The result depends on the text alone,
/// and the contract gives it a name.
#[verifier::external_body]
fn io_error_other(text: String) -> (e: IoError)
    ensures
        e == io_error_with(text@),
{
    IoError::other(text)
}

impl From<Error> for IoError {
    fn from(err: Error) -> (ret: IoError)
        ensures
            err matches Error::Io(inner) ==> ret == inner,
            !(err is Io) ==> exists|s: Seq<char>| err.shown_as(s) && ret == io_error_with(s),
            !(err is Io) ==> exists|inner: Seq<char>| ret == io_error_with(err.text_with(inner)),
            !err.holds_foreign() ==> ret == io_error_with(err.text_with(Seq::empty())),
    {
        into_io_error(err)
    }
}

impl FromSpecImpl<Error> for IoError {
    open spec fn obeys_from_spec() -> bool {
        false
    }

    open spec fn from_spec(err: Error) -> IoError {
        arbitrary()
    }
}

/// Turns a cloud error into an I/O error: the I/O error that it holds, or
/// a new one of the kind `Other` that carries the text of the cloud error.
pub fn into_io_error(err: Error) -> (e: IoError)
    ensures
        err matches Error::Io(inner) ==> e == inner,
        !(err is Io) ==> exists|s: Seq<char>| err.shown_as(s) && e == io_error_with(s),
        !(err is Io) ==> exists|inner: Seq<char>| e == io_error_with(err.text_with(inner)),
        !err.holds_foreign() ==> e == io_error_with(err.text_with(Seq::empty())),
{
    match err {
        Error::Io(e) => e,
        other => {
            let text = other.to_string();
            assert(other.shown_as(text@));
            io_error_other(text)
        },
    }
}

} // verus!
