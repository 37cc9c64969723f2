//! The shared data model: target triples, wire error codes, and the inputs
//! and outputs of the four registry operations.
use vstd::prelude::*;

use crate::text::text_eq;

verus! {

/// A supported platform: an architecture paired with an operating system.
#[derive(Debug, Clone, Copy, PartialEq, Eq, Structural)]
pub enum Triple {
    X86_64Linux,
    Aarch64Linux,
    X86_64Darwin,
    Aarch64Darwin,
    X86_64Windows,
    Aarch64Windows,
}

impl Triple {
    /// The canonical text of the triple, used on the wire and as a storage
    /// path segment.
    pub open spec fn spec_text(self) -> Seq<char> {
        match self {
            Triple::X86_64Linux => "x86_64_linux"@,
            Triple::Aarch64Linux => "aarch64_linux"@,
            Triple::X86_64Darwin => "x86_64_darwin"@,
            Triple::Aarch64Darwin => "aarch64_darwin"@,
            Triple::X86_64Windows => "x86_64_windows"@,
            Triple::Aarch64Windows => "aarch64_windows"@,
        }
    }

    /// The triple whose canonical text is `s`, if any.
    pub open spec fn spec_parse(s: Seq<char>) -> Option<Triple> {
        if s == "x86_64_linux"@ {
            Some(Triple::X86_64Linux)
        } else if s == "aarch64_linux"@ {
            Some(Triple::Aarch64Linux)
        } else if s == "x86_64_darwin"@ {
            Some(Triple::X86_64Darwin)
        } else if s == "aarch64_darwin"@ {
            Some(Triple::Aarch64Darwin)
        } else if s == "x86_64_windows"@ {
            Some(Triple::X86_64Windows)
        } else if s == "aarch64_windows"@ {
            Some(Triple::Aarch64Windows)
        } else {
            None
        }
    }

    /// Returns the canonical text of the triple.
    pub fn as_str(&self) -> (r: &'static str)
        ensures
            r@ == self.spec_text(),
    {
        match self {
            Triple::X86_64Linux => "x86_64_linux",
            Triple::Aarch64Linux => "aarch64_linux",
            Triple::X86_64Darwin => "x86_64_darwin",
            Triple::Aarch64Darwin => "aarch64_darwin",
            Triple::X86_64Windows => "x86_64_windows",
            Triple::Aarch64Windows => "aarch64_windows",
        }
    }

    /// Parses the canonical text of a triple; `None` for any other text.
    pub fn parse(s: &str) -> (r: Option<Triple>)
        ensures
            r == Triple::spec_parse(s@),
    {
        if text_eq(s, "x86_64_linux") {
            Some(Triple::X86_64Linux)
        } else if text_eq(s, "aarch64_linux") {
            Some(Triple::Aarch64Linux)
        } else if text_eq(s, "x86_64_darwin") {
            Some(Triple::X86_64Darwin)
        } else if text_eq(s, "aarch64_darwin") {
            Some(Triple::Aarch64Darwin)
        } else if text_eq(s, "x86_64_windows") {
            Some(Triple::X86_64Windows)
        } else if text_eq(s, "aarch64_windows") {
            Some(Triple::Aarch64Windows)
        } else {
            None
        }
    }
}

/// Parsing the canonical text of a triple gives the triple back.
pub proof fn lemma_triple_text_round_trip(t: Triple)
    ensures
        Triple::spec_parse(t.spec_text()) == Some(t),
{
    reveal_strlit("x86_64_linux");
    reveal_strlit("aarch64_linux");
    reveal_strlit("x86_64_darwin");
    reveal_strlit("aarch64_darwin");
    reveal_strlit("x86_64_windows");
    reveal_strlit("aarch64_windows");
    // the texts are told apart by their lengths and first characters
    assert("x86_64_linux"@.len() == 12 && "x86_64_linux"@[0] == 'x');
    assert("aarch64_linux"@.len() == 13 && "aarch64_linux"@[0] == 'a');
    assert("x86_64_darwin"@.len() == 13 && "x86_64_darwin"@[0] == 'x');
    assert("aarch64_darwin"@.len() == 14 && "aarch64_darwin"@[0] == 'a');
    assert("x86_64_windows"@.len() == 14 && "x86_64_windows"@[0] == 'x');
    assert("aarch64_windows"@.len() == 15);
}

/// The body of a failed reply: one short machine-readable error code.
#[derive(Debug, Clone)]
pub struct ErrorInfo {
    pub code: String,
}

/// An error code that the receiving side does not know.
#[derive(Debug, Clone)]
pub struct UnrecognizedCode {
    pub code: String,
}

/// A closed set of errors, each with a stable wire code.
pub trait ErrorCode: Sized {
    /// The wire code of the error.
    spec fn spec_code(&self) -> Seq<char>;

    /// The error whose wire code is `code`, if any.
    spec fn spec_from_code(code: Seq<char>) -> Option<Self>;

    /// Encodes the error as the body of a failed reply.
    fn to_info(&self) -> (r: ErrorInfo)
        ensures
            r.code@ == self.spec_code(),
    ;

    /// Decodes the body of a failed reply; an unknown code is reported as such.
    fn from_info(info: &ErrorInfo) -> (r: Result<Self, UnrecognizedCode>)
        ensures
            match r {
                Ok(e) => Self::spec_from_code(info.code@) == Some(e),
                Err(u) => Self::spec_from_code(info.code@) is None && u.code@ == info.code@,
            },
    ;
}

/// Builds a failed reply body from a code.
fn info(code: &str) -> (r: ErrorInfo)
    ensures
        r.code@ == code@,
{
    ErrorInfo { code: String::from_str(code) }
}

/// Reports a code as unrecognized.
fn unrecognized(info: &ErrorInfo) -> (r: UnrecognizedCode)
    ensures
        r.code@ == info.code@,
{
    UnrecognizedCode { code: info.code.clone() }
}

/// Errors that can occur on any operation: the credential checks.
#[derive(Debug, Clone, Copy, PartialEq, Eq, Structural)]
pub enum GeneralError {
    PasswordMissing,
    PasswordInvalid,
}

impl ErrorCode for GeneralError {
    open spec fn spec_code(&self) -> Seq<char> {
        match self {
            GeneralError::PasswordMissing => "password_missing"@,
            GeneralError::PasswordInvalid => "password_invalid"@,
        }
    }

    open spec fn spec_from_code(code: Seq<char>) -> Option<GeneralError> {
        if code == "password_missing"@ {
            Some(GeneralError::PasswordMissing)
        } else if code == "password_invalid"@ {
            Some(GeneralError::PasswordInvalid)
        } else {
            None
        }
    }

    fn to_info(&self) -> (r: ErrorInfo) {
        match self {
            GeneralError::PasswordMissing => info("password_missing"),
            GeneralError::PasswordInvalid => info("password_invalid"),
        }
    }

    fn from_info(info: &ErrorInfo) -> (r: Result<GeneralError, UnrecognizedCode>) {
        let code = info.code.as_str();
        if text_eq(code, "password_missing") {
            Ok(GeneralError::PasswordMissing)
        } else if text_eq(code, "password_invalid") {
            Ok(GeneralError::PasswordInvalid)
        } else {
            Err(unrecognized(info))
        }
    }
}

/// Errors of the publish operation.
#[derive(Debug, Clone, Copy, PartialEq, Eq, Structural)]
pub enum PublishError {
    /// The content is not valid base64.
    InvalidEncoding,
    /// The version was already published with different content.
    VersionExists,
    InternalError,
}

impl ErrorCode for PublishError {
    open spec fn spec_code(&self) -> Seq<char> {
        match self {
            PublishError::InvalidEncoding => "invalid_encoding"@,
            PublishError::VersionExists => "version_exists"@,
            PublishError::InternalError => "internal_error"@,
        }
    }

    open spec fn spec_from_code(code: Seq<char>) -> Option<PublishError> {
        if code == "invalid_encoding"@ {
            Some(PublishError::InvalidEncoding)
        } else if code == "version_exists"@ {
            Some(PublishError::VersionExists)
        } else if code == "internal_error"@ {
            Some(PublishError::InternalError)
        } else {
            None
        }
    }

    fn to_info(&self) -> (r: ErrorInfo) {
        match self {
            PublishError::InvalidEncoding => info("invalid_encoding"),
            PublishError::VersionExists => info("version_exists"),
            PublishError::InternalError => info("internal_error"),
        }
    }

    fn from_info(info: &ErrorInfo) -> (r: Result<PublishError, UnrecognizedCode>) {
        let code = info.code.as_str();
        if text_eq(code, "invalid_encoding") {
            Ok(PublishError::InvalidEncoding)
        } else if text_eq(code, "version_exists") {
            Ok(PublishError::VersionExists)
        } else if text_eq(code, "internal_error") {
            Ok(PublishError::InternalError)
        } else {
            Err(unrecognized(info))
        }
    }
}

/// Errors of the get operation.
#[derive(Debug, Clone, Copy, PartialEq, Eq, Structural)]
pub enum GetError {
    PackageNotFound,
    InternalError,
}

impl ErrorCode for GetError {
    open spec fn spec_code(&self) -> Seq<char> {
        match self {
            GetError::PackageNotFound => "package_not_found"@,
            GetError::InternalError => "internal_error"@,
        }
    }

    open spec fn spec_from_code(code: Seq<char>) -> Option<GetError> {
        if code == "package_not_found"@ {
            Some(GetError::PackageNotFound)
        } else if code == "internal_error"@ {
            Some(GetError::InternalError)
        } else {
            None
        }
    }

    fn to_info(&self) -> (r: ErrorInfo) {
        match self {
            GetError::PackageNotFound => info("package_not_found"),
            GetError::InternalError => info("internal_error"),
        }
    }

    fn from_info(info: &ErrorInfo) -> (r: Result<GetError, UnrecognizedCode>) {
        let code = info.code.as_str();
        if text_eq(code, "package_not_found") {
            Ok(GetError::PackageNotFound)
        } else if text_eq(code, "internal_error") {
            Ok(GetError::InternalError)
        } else {
            Err(unrecognized(info))
        }
    }
}

/// Errors of the get-info operation.
#[derive(Debug, Clone, Copy, PartialEq, Eq, Structural)]
pub enum GetInfoError {
    PackageNotFound,
    InternalError,
}

impl ErrorCode for GetInfoError {
    open spec fn spec_code(&self) -> Seq<char> {
        match self {
            GetInfoError::PackageNotFound => "package_not_found"@,
            GetInfoError::InternalError => "internal_error"@,
        }
    }

    open spec fn spec_from_code(code: Seq<char>) -> Option<GetInfoError> {
        if code == "package_not_found"@ {
            Some(GetInfoError::PackageNotFound)
        } else if code == "internal_error"@ {
            Some(GetInfoError::InternalError)
        } else {
            None
        }
    }

    fn to_info(&self) -> (r: ErrorInfo) {
        match self {
            GetInfoError::PackageNotFound => info("package_not_found"),
            GetInfoError::InternalError => info("internal_error"),
        }
    }

    fn from_info(info: &ErrorInfo) -> (r: Result<GetInfoError, UnrecognizedCode>) {
        let code = info.code.as_str();
        if text_eq(code, "package_not_found") {
            Ok(GetInfoError::PackageNotFound)
        } else if text_eq(code, "internal_error") {
            Ok(GetInfoError::InternalError)
        } else {
            Err(unrecognized(info))
        }
    }
}

/// Errors of the list operation.
#[derive(Debug, Clone, Copy, PartialEq, Eq, Structural)]
pub enum ListError {
    InternalError,
}

impl ErrorCode for ListError {
    open spec fn spec_code(&self) -> Seq<char> {
        "internal_error"@
    }

    open spec fn spec_from_code(code: Seq<char>) -> Option<ListError> {
        if code == "internal_error"@ {
            Some(ListError::InternalError)
        } else {
            None
        }
    }

    fn to_info(&self) -> (r: ErrorInfo) {
        info("internal_error")
    }

    fn from_info(info: &ErrorInfo) -> (r: Result<ListError, UnrecognizedCode>) {
        if text_eq(info.code.as_str(), "internal_error") {
            Ok(ListError::InternalError)
        } else {
            Err(unrecognized(info))
        }
    }
}

/// Input of the publish operation; `content` is the artifact in base64.
#[derive(Debug, Clone)]
pub struct PublishInput {
    pub name: String,
    pub version: String,
    pub triple: Triple,
    pub content: String,
}

/// Output of the publish operation.
#[derive(Debug, Clone)]
pub struct PublishOutput {}

/// Input of the get operation; without a version the latest one is fetched.
#[derive(Debug, Clone)]
pub struct GetInput {
    pub name: String,
    pub version: Option<String>,
    pub triple: Triple,
}

/// Output of the get operation; `content` is the artifact in base64.
#[derive(Debug, Clone)]
pub struct GetOutput {
    pub name: String,
    pub version: String,
    pub content: String,
}

/// Input of the get-info operation.
#[derive(Debug, Clone)]
pub struct GetInfoInput {
    pub name: String,
    pub triple: Triple,
}

/// Output of the get-info operation: every published version, in order.
#[derive(Debug, Clone)]
pub struct GetInfoOutput {
    pub name: String,
    pub versions: Vec<String>,
}

/// Input of the list operation.
#[derive(Debug, Clone)]
pub struct ListInput {
    pub triple: Triple,
}

/// Output of the list operation: the packages published for the triple.
#[derive(Debug, Clone)]
pub struct ListOutput {
    pub packages: Vec<String>,
}

/// Decoding the code of a general error gives the error back.
pub proof fn lemma_general_code_round_trip(e: GeneralError)
    ensures
        GeneralError::spec_from_code(e.spec_code()) == Some(e),
{
    reveal_strlit("password_missing");
    reveal_strlit("password_invalid");
    assert("password_missing"@[9] != "password_invalid"@[9]);
}

/// Decoding the code of a publish error gives the error back.
pub proof fn lemma_publish_code_round_trip(e: PublishError)
    ensures
        PublishError::spec_from_code(e.spec_code()) == Some(e),
{
    reveal_strlit("invalid_encoding");
    reveal_strlit("version_exists");
    reveal_strlit("internal_error");
    assert("invalid_encoding"@.len() != "version_exists"@.len());
    assert("invalid_encoding"@.len() != "internal_error"@.len());
    assert("version_exists"@[0] != "internal_error"@[0]);
}

/// Decoding the code of a get error gives the error back.
pub proof fn lemma_get_code_round_trip(e: GetError)
    ensures
        GetError::spec_from_code(e.spec_code()) == Some(e),
{
    reveal_strlit("package_not_found");
    reveal_strlit("internal_error");
    assert("package_not_found"@.len() != "internal_error"@.len());
}

/// Decoding the code of a get-info error gives the error back.
pub proof fn lemma_get_info_code_round_trip(e: GetInfoError)
    ensures
        GetInfoError::spec_from_code(e.spec_code()) == Some(e),
{
    reveal_strlit("package_not_found");
    reveal_strlit("internal_error");
    assert("package_not_found"@.len() != "internal_error"@.len());
}

/// No operation-specific code is a general one: a general error can never be
/// mistaken for an error of the operation, nor the other way round.
pub proof fn lemma_general_codes_disjoint(code: Seq<char>)
    requires
        GeneralError::spec_from_code(code) is Some,
    ensures
        PublishError::spec_from_code(code) is None,
        GetError::spec_from_code(code) is None,
        GetInfoError::spec_from_code(code) is None,
        ListError::spec_from_code(code) is None,
{
    reveal_strlit("password_missing");
    reveal_strlit("password_invalid");
    reveal_strlit("invalid_encoding");
    reveal_strlit("version_exists");
    reveal_strlit("internal_error");
    reveal_strlit("package_not_found");
    assert("password_missing"@[0] != "invalid_encoding"@[0]);
    assert("password_invalid"@[0] != "invalid_encoding"@[0]);
    assert("password_missing"@.len() != "version_exists"@.len());
    assert("password_invalid"@.len() != "version_exists"@.len());
    assert("password_missing"@.len() != "internal_error"@.len());
    assert("password_invalid"@.len() != "internal_error"@.len());
    assert("password_missing"@.len() != "package_not_found"@.len());
    assert("password_invalid"@.len() != "package_not_found"@.len());
}

} // verus!
