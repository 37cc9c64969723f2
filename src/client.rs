//! The client side of the protocol: where each operation is sent, what
//! credential goes with it, and how a response is decoded into an output or
//! one of three tiers of error.
use vstd::prelude::*;

use crate::model::{
    ErrorCode, ErrorInfo, GeneralError, GetError, GetInfoError, GetInfoOutput, GetOutput,
    ListError, ListOutput, PublishError, PublishOutput,
};
use crate::text::text_eq;

verus! {

/// A failure of the exchange itself: nothing the registry decided was read.
#[derive(Debug, Clone)]
pub enum TransportError {
    /// The request could not be sent, or no response came back.
    Unreachable(String),
    /// The response carries no success indicator.
    OkHeaderMissing,
    /// The success indicator is neither `true` nor `false`.
    OkHeaderMalformed,
    /// A failed response whose body is not an error body.
    ErrorBodyMalformed,
    /// A failed response with an error code that is neither general nor of
    /// the operation.
    UnrecognizedCode(String),
    /// A successful response whose body is not the operation's output.
    OutputMalformed,
}

/// The error of a client call, in three tiers.
#[derive(Debug, Clone)]
pub enum Error<T> {
    /// The exchange failed or could not be decoded.
    Transport(TransportError),
    /// An error that any operation can return: the credential checks.
    General(GeneralError),
    /// An error of the requested operation.
    Specific(T),
}

/// The success indicator of a response, as received.
#[derive(Debug, Clone)]
pub enum OkHeader {
    Missing,
    /// Present but not readable as text.
    Malformed,
    Text(String),
}

impl OkHeader {
    /// What the indicator says: `Some(true)` for exactly `true`,
    /// `Some(false)` for exactly `false`, `None` when it is missing or
    /// malformed.
    pub open spec fn spec_reading(&self) -> Option<bool> {
        match self {
            OkHeader::Text(t) => if t@ == "true"@ {
                Some(true)
            } else if t@ == "false"@ {
                Some(false)
            } else {
                None
            },
            _ => None,
        }
    }

    /// Reads the indicator, and so whether the body is to be decoded as the
    /// operation's output, as an error body, or not at all.
    pub fn reading(&self) -> (r: Option<bool>)
        ensures
            r == self.spec_reading(),
    {
        match self {
            OkHeader::Text(t) => if text_eq(t.as_str(), "true") {
                Some(true)
            } else if text_eq(t.as_str(), "false") {
                Some(false)
            } else {
                None
            },
            _ => None,
        }
    }
}

/// A response as received: the success indicator, and the body decoded as an
/// error body and as the operation's output, each `None` where the body does
/// not decode as such.
#[derive(Debug, Clone)]
pub struct Response<O> {
    pub ok: OkHeader,
    pub error: Option<ErrorInfo>,
    pub output: Option<O>,
}

/// How a response decodes: an indicator that is missing, unreadable, or
/// neither `true` nor `false` is a transport error; on success the body must be the output; on failure the code is
/// tried as a general error first, then as an error of the operation.
pub open spec fn spec_receive<O, E: ErrorCode>(response: Response<O>) -> Result<O, Error<E>> {
    match response.ok.spec_reading() {
        None => if response.ok is Missing {
            Err(Error::Transport(TransportError::OkHeaderMissing))
        } else {
            Err(Error::Transport(TransportError::OkHeaderMalformed))
        },
        Some(true) => match response.output {
            Some(o) => Ok(o),
            None => Err(Error::Transport(TransportError::OutputMalformed)),
        },
        Some(false) => match response.error {
            None => Err(Error::Transport(TransportError::ErrorBodyMalformed)),
            Some(info) => match GeneralError::spec_from_code(info.code@) {
                Some(g) => Err(Error::General(g)),
                None => match E::spec_from_code(info.code@) {
                    Some(e) => Err(Error::Specific(e)),
                    None => Err(Error::Transport(TransportError::UnrecognizedCode(info.code))),
                },
            },
        },
    }
}

/// Decodes a response into the operation's output or an error.
pub fn receive<O, E: ErrorCode>(response: Response<O>) -> (r: Result<O, Error<E>>)
    ensures
        r == spec_receive::<O, E>(response),
{
    match response.ok.reading() {
        None => {
            return match response.ok {
                OkHeader::Missing => Err(Error::Transport(TransportError::OkHeaderMissing)),
                _ => Err(Error::Transport(TransportError::OkHeaderMalformed)),
            };
        },
        Some(true) => {
            return match response.output {
                Some(o) => Ok(o),
                None => Err(Error::Transport(TransportError::OutputMalformed)),
            };
        },
        Some(false) => {},
    }
    let info = match response.error {
        Some(info) => info,
        None => return Err(Error::Transport(TransportError::ErrorBodyMalformed)),
    };
    if let Ok(g) = GeneralError::from_info(&info) {
        return Err(Error::General(g));
    }
    match E::from_info(&info) {
        Ok(e) => Err(Error::Specific(e)),
        Err(_) => Err(Error::Transport(TransportError::UnrecognizedCode(info.code))),
    }
}

/// A response whose success indicator is missing, unreadable, or any text
/// but `true` or `false`, or that signals success with a body that is not the
/// output, decodes as a transport error, never as a general or operation
/// error.
pub proof fn lemma_undecodable_is_transport<O, E: ErrorCode>(response: Response<O>)
    requires
        response.ok is Missing || response.ok is Malformed || (response.ok matches OkHeader::Text(t)
            && t@ != "true"@ && t@ != "false"@) || (response.ok matches OkHeader::Text(t) && t@
            == "true"@ && response.output is None),
    ensures
        spec_receive::<O, E>(response) matches Err(Error::Transport(_)),
{
}

/// The four operations of the registry.
#[derive(Debug, Clone, Copy, PartialEq, Eq, Structural)]
pub enum Operation {
    Publish,
    Get,
    GetInfo,
    List,
}

impl Operation {
    /// The path of the operation under the registry's address.
    pub open spec fn spec_path(self) -> Seq<char> {
        match self {
            Operation::Publish => "/publish"@,
            Operation::Get => "/get"@,
            Operation::GetInfo => "/get-info"@,
            Operation::List => "/list"@,
        }
    }

    pub fn path(&self) -> (r: &'static str)
        ensures
            r@ == self.spec_path(),
    {
        match self {
            Operation::Publish => "/publish",
            Operation::Get => "/get",
            Operation::GetInfo => "/get-info",
            Operation::List => "/list",
        }
    }
}

/// A client for a registry: its address and the credential sent with every
/// request, if any.
pub struct Client {
    registry_url: String,
    password: Option<String>,
}

impl Client {
    pub closed spec fn spec_url(&self) -> Seq<char> {
        self.registry_url@
    }

    pub closed spec fn spec_password(&self) -> Option<Seq<char>> {
        match self.password {
            Some(p) => Some(p@),
            None => None,
        }
    }

    /// Creates a client.
    pub fn new(registry_url: String, password: Option<String>) -> (r: Client)
        ensures
            r.spec_url() == registry_url@,
            r.spec_password() == match password {
                Some(p) => Some(p@),
                None => None::<Seq<char>>,
            },
    {
        Client { registry_url, password }
    }

    /// The address to which a request for the operation is sent.
    pub fn endpoint(&self, operation: Operation) -> (r: String)
        ensures
            r@ == self.spec_url() + operation.spec_path(),
    {
        let mut url = self.registry_url.clone();
        url.append(operation.path());
        url
    }

    /// The credential to attach to every request.
    pub fn credential(&self) -> (r: Option<&str>)
        ensures
            match r {
                Some(p) => self.spec_password() == Some(p@),
                None => self.spec_password() is None,
            },
    {
        match &self.password {
            Some(p) => Some(p.as_str()),
            None => None,
        }
    }

    /// Decodes the response to a publish request.
    pub fn publish(&self, response: Response<PublishOutput>) -> (r: Result<PublishOutput, Error<PublishError>>)
        ensures
            r == spec_receive::<PublishOutput, PublishError>(response),
    {
        receive(response)
    }

    /// Decodes the response to a get request.
    pub fn get(&self, response: Response<GetOutput>) -> (r: Result<GetOutput, Error<GetError>>)
        ensures
            r == spec_receive::<GetOutput, GetError>(response),
    {
        receive(response)
    }

    /// Decodes the response to a get-info request.
    pub fn get_info(&self, response: Response<GetInfoOutput>) -> (r: Result<GetInfoOutput, Error<GetInfoError>>)
        ensures
            r == spec_receive::<GetInfoOutput, GetInfoError>(response),
    {
        receive(response)
    }

    /// Decodes the response to a list request.
    pub fn list(&self, response: Response<ListOutput>) -> (r: Result<ListOutput, Error<ListError>>)
        ensures
            r == spec_receive::<ListOutput, ListError>(response),
    {
        receive(response)
    }
}

} // verus!
