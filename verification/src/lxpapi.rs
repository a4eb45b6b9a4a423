//! Plans typed LetterXpress requests and judges their responses.
//!
//! The caller owns the HTTP connection: it performs each planned call with the
//! body built here, hands every received chunk to [`append_chunk`], and passes
//! the decoded envelope to [`decode`]. Credentials and payloads never appear
//! in a planned call or an error.

use vstd::prelude::*;

use crate::lxptypes::{ApiMode, Auth, Envelope, Request};
use crate::text::{decimal_chars, push_decimal};

verus! {

/// Limits server responses, including Base64 invoice data.
pub const MAX_RESPONSE_BYTES: usize = 50_000_000;

/// The HTTP method of a call.
#[derive(Debug, Clone, Copy, PartialEq, Eq, Structural)]
pub enum Method {
    Get,
    Post,
    Delete,
}

/// A request to perform: its method and absolute URL.
pub struct Call {
    pub method: Method,
    pub url: String,
}

/// Holds credentials and processing mode for the production service.
pub struct LxpApi {
    /// Locates the API version root.
    base_url: String,
    /// Identifies the account.
    username: String,
    /// Authenticates requests.
    apikey: String,
    /// Determines upload processing semantics.
    mode: ApiMode,
}

/// Describes failures without including response bodies or credentials.
#[derive(Debug, PartialEq, Eq)]
pub enum Error {
    /// Reports a network or TLS failure.
    Transport,
    /// Reports a rejected HTTP request.
    Http {
        /// Gives the HTTP status code.
        status: u16,
    },
    /// Reports a service-level error even when HTTP succeeded.
    Api {
        /// Gives the service status code.
        status: u16,
    },
    /// Reports malformed or unexpected response data.
    Json,
    /// Rejects successful responses lacking endpoint data.
    MissingData,
    /// Bounds memory used for server responses.
    ResponseTooLarge,
    /// Requires a separate opt-in before paid submissions.
    LiveConfirmationRequired,
    /// Warns that a failed upload may already have been accepted.
    Unconfirmed {
        /// Preserves the underlying failure.
        source: Box<Error>,
    },
}

/// The URL of an endpoint below the API root.
pub open spec fn endpoint(base: Seq<char>, path: Seq<char>) -> Seq<char> {
    base + seq!['/'] + path
}

/// The path of a page of jobs, optionally filtered.
pub open spec fn jobs_path(filter: Option<Seq<char>>, page: nat) -> Seq<char> {
    "printjobs?page="@ + decimal_chars(page) + match filter {
        Some(f) => "&filter="@ + f,
        None => Seq::<char>::empty(),
    }
}

/// The path of a single job.
pub open spec fn job_path(id: nat) -> Seq<char> {
    "printjobs/"@ + decimal_chars(id)
}

/// The path of a page of invoices.
pub open spec fn invoices_path(page: nat) -> Seq<char> {
    "invoices?page="@ + decimal_chars(page)
}

/// The path of a single invoice.
pub open spec fn invoice_path(id: nat) -> Seq<char> {
    "invoices/"@ + decimal_chars(id)
}

/// Whether an HTTP status is a success (`2xx`).
pub open spec fn http_success(status: u16) -> bool {
    200 <= status < 300
}

impl Clone for LxpApi {
    fn clone(&self) -> (r: Self)
        ensures
            r == *self,
    {
        LxpApi {
            base_url: self.base_url.clone(),
            username: self.username.clone(),
            apikey: self.apikey.clone(),
            mode: self.mode,
        }
    }
}

impl LxpApi {
    /// The API root.
    pub closed spec fn base(&self) -> Seq<char> {
        self.base_url@
    }

    /// The account name.
    pub closed spec fn user(&self) -> Seq<char> {
        self.username@
    }

    /// The account key.
    pub closed spec fn key(&self) -> Seq<char> {
        self.apikey@
    }

    /// The processing mode.
    pub closed spec fn mode_view(&self) -> ApiMode {
        self.mode
    }

    /// Creates a client for the production service with explicit processing mode.
    pub fn new(username: String, apikey: String, mode: ApiMode) -> (api: Self)
        ensures
            api.base() == "https://api.letterxpress.de/v3"@,
            api.user() == username@,
            api.key() == apikey@,
            api.mode_view() == mode,
    {
        LxpApi { base_url: String::from_str("https://api.letterxpress.de/v3"), username, apikey, mode }
    }

    /// The processing mode.
    pub fn mode(&self) -> (r: ApiMode)
        ensures
            r == self.mode_view(),
    {
        self.mode
    }

    fn call(&self, method: Method, path: &str) -> (c: Call)
        ensures
            c.method == method,
            c.url@ == endpoint(self.base(), path@),
    {
        let mut url = self.base_url.clone();
        proof {
            reveal_strlit("/");
        }
        url.append("/");
        url.append(path);
        Call { method, url }
    }

    /// Retrieves the available account balance.
    pub fn balance(&self) -> (c: Call)
        ensures
            c.method == Method::Get,
            c.url@ == endpoint(self.base(), "balance"@),
    {
        self.call(Method::Get, "balance")
    }

    /// Quotes a document without uploading its contents; the quote travels
    /// as the request's letter.
    pub fn price(&self) -> (c: Call)
        ensures
            c.method == Method::Get,
            c.url@ == endpoint(self.base(), "price"@),
    {
        self.call(Method::Get, "price")
    }

    /// Retrieves a page of jobs without following server-supplied URLs; a
    /// filter is given by its wire name.
    pub fn jobs(&self, filter: Option<&str>, page: u32) -> (c: Call)
        ensures
            c.method == Method::Get,
            c.url@ == endpoint(
                self.base(),
                jobs_path(
                    match filter {
                        Some(f) => Some(f@),
                        None => None,
                    },
                    page as nat,
                ),
            ),
    {
        let mut path = String::from_str("printjobs?page=");
        push_decimal(&mut path, page as u64);
        match filter {
            Some(f) => {
                path.append("&filter=");
                path.append(f);
            },
            None => {},
        }
        let c = self.call(Method::Get, path.as_str());
        assert(c.url@ =~= endpoint(
            self.base(),
            jobs_path(
                match filter {
                    Some(f) => Some(f@),
                    None => None,
                },
                page as nat,
            ),
        ));
        c
    }

    /// Retrieves processing and tracking information for a job.
    pub fn job(&self, id: u64) -> (c: Call)
        requires
            id != 0,
        ensures
            c.method == Method::Get,
            c.url@ == endpoint(self.base(), job_path(id as nat)),
    {
        let mut path = String::from_str("printjobs/");
        push_decimal(&mut path, id);
        self.call(Method::Get, path.as_str())
    }

    /// Cancels a job subject to the provider's cancellation window.
    pub fn cancel(&self, id: u64) -> (c: Call)
        requires
            id != 0,
        ensures
            c.method == Method::Delete,
            c.url@ == endpoint(self.base(), job_path(id as nat)),
    {
        let mut path = String::from_str("printjobs/");
        push_decimal(&mut path, id);
        self.call(Method::Delete, path.as_str())
    }

    /// Submits a document once, guarding the effective mode rather than its
    /// source: a live upload needs `confirmed`.
    pub fn send(&self, confirmed: bool) -> (r: Result<Call, Error>)
        ensures
            (self.mode_view() == ApiMode::Live && !confirmed) <==> r is Err,
            r matches Err(e) ==> e == Error::LiveConfirmationRequired,
            r matches Ok(c) ==> c.method == Method::Post && c.url@ == endpoint(
                self.base(),
                "printjobs"@,
            ),
    {
        if self.mode == ApiMode::Live && !confirmed {
            return Err(Error::LiveConfirmationRequired);
        }
        Ok(self.call(Method::Post, "printjobs"))
    }

    /// Retrieves a page of invoices.
    pub fn invoices(&self, page: u32) -> (c: Call)
        ensures
            c.method == Method::Get,
            c.url@ == endpoint(self.base(), invoices_path(page as nat)),
    {
        let mut path = String::from_str("invoices?page=");
        push_decimal(&mut path, page as u64);
        self.call(Method::Get, path.as_str())
    }

    /// Retrieves a single invoice including its encoded PDF.
    pub fn invoice(&self, id: u64) -> (c: Call)
        requires
            id != 0,
        ensures
            c.method == Method::Get,
            c.url@ == endpoint(self.base(), invoice_path(id as nat)),
    {
        let mut path = String::from_str("invoices/");
        push_decimal(&mut path, id);
        self.call(Method::Get, path.as_str())
    }

    /// The body of a request: this client's credentials and mode, and the
    /// endpoint payload if there is one.
    pub fn body<L>(&self, letter: Option<L>) -> (r: Request<L>)
        ensures
            r.auth.username@ == self.user(),
            r.auth.apikey@ == self.key(),
            r.auth.mode == self.mode_view(),
            r.letter == letter,
    {
        Request {
            auth: Auth { username: self.username.clone(), apikey: self.apikey.clone(), mode: self.mode },
            letter,
        }
    }
}

/// A job or invoice identifier from the command line: only a positive one
/// names anything.
pub fn positive_id(id: i32) -> (r: Option<u64>)
    ensures
        r == (if id > 0 {
            Some(id as u64)
        } else {
            None::<u64>
        }),
{
    if id > 0 {
        Some(id as u64)
    } else {
        None
    }
}

/// Accepts an HTTP status only if it is a success; redirects are not followed.
pub fn check_status(status: u16) -> (r: Result<(), Error>)
    ensures
        http_success(status) <==> r is Ok,
        r matches Err(e) ==> e == (Error::Http { status }),
{
    if 200 <= status && status < 300 {
        Ok(())
    } else {
        Err(Error::Http { status })
    }
}

/// Adds a received chunk to the response body unless the body would exceed
/// [`MAX_RESPONSE_BYTES`].
pub fn append_chunk(bytes: &mut Vec<u8>, chunk: &[u8]) -> (r: Result<(), Error>)
    ensures
        r is Ok <==> old(bytes)@.len() + chunk@.len() <= MAX_RESPONSE_BYTES,
        r is Ok ==> final(bytes)@ == old(bytes)@ + chunk@,
        r matches Err(e) ==> e == Error::ResponseTooLarge && final(bytes)@ == old(bytes)@,
{
    if bytes.len() > MAX_RESPONSE_BYTES || chunk.len() > MAX_RESPONSE_BYTES - bytes.len() {
        return Err(Error::ResponseTooLarge);
    }
    let ghost start = bytes@;
    let mut i: usize = 0;
    while i < chunk.len()
        invariant
            i <= chunk@.len(),
            bytes@ == start + chunk@.take(i as int),
        decreases chunk@.len() - i,
    {
        bytes.push(chunk[i]);
        assert(chunk@.take(i + 1) =~= chunk@.take(i as int).push(chunk@[i as int]));
        i = i + 1;
    }
    assert(chunk@.take(i as int) =~= chunk@);
    Ok(())
}

/// Validates a service envelope independently of HTTP transport; `None`
/// stands for a body that is not a valid envelope.
pub fn decode<T>(response: Option<Envelope<T>>) -> (r: Result<Option<T>, Error>)
    ensures
        match response {
            None => r == Err::<Option<T>, Error>(Error::Json),
            Some(e) => if 200 <= e.status < 300 {
                r == Ok::<Option<T>, Error>(e.data)
            } else {
                r == Err::<Option<T>, Error>(Error::Api { status: e.status })
            },
        },
{
    match response {
        None => Err(Error::Json),
        Some(envelope) => {
            if envelope.status < 200 || envelope.status >= 300 {
                Err(Error::Api { status: envelope.status })
            } else {
                Ok(envelope.data)
            }
        },
    }
}

/// Requires endpoint data in a response that should carry some.
pub fn require_data<T>(outcome: Result<Option<T>, Error>) -> (r: Result<T, Error>)
    ensures
        match outcome {
            Ok(Some(x)) => r == Ok::<T, Error>(x),
            Ok(None) => r == Err::<T, Error>(Error::MissingData),
            Err(e) => r == Err::<T, Error>(e),
        },
{
    match outcome {
        Ok(Some(x)) => Ok(x),
        Ok(None) => Err(Error::MissingData),
        Err(e) => Err(e),
    }
}

/// Judges an upload: only returned job data confirms it; every failure is
/// reported as unconfirmed, since the upload may have been accepted.
pub fn confirm_upload<T>(outcome: Result<Option<T>, Error>) -> (r: Result<T, Error>)
    ensures
        match outcome {
            Ok(Some(x)) => r == Ok::<T, Error>(x),
            Ok(None) => r == Err::<T, Error>(Error::Unconfirmed { source: Box::new(Error::MissingData) }),
            Err(e) => r == Err::<T, Error>(Error::Unconfirmed { source: Box::new(e) }),
        },
{
    match outcome {
        Ok(Some(x)) => Ok(x),
        Ok(None) => Err(Error::Unconfirmed { source: Box::new(Error::MissingData) }),
        Err(e) => Err(Error::Unconfirmed { source: Box::new(e) }),
    }
}

} // verus!
