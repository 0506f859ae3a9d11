//! The decisions of the update service: whether a request passes the guard,
//! what the configuration file is to hold after it, and what is answered.

use crate::auth::{authorize, first_values, presents_secret};
use crate::error::{ConfigError, ConfigFailure};
use crate::store::{rewrite, rewritten, KeyUpdate};
use http::{HeaderMap, HeaderValue};
use vstd::prelude::*;
use vstd::string::StringExecFns;

verus! {

/// The section that holds the two keys.
pub const VERSION_SECTION: &'static str = "Version";

/// The key of the product version.
pub const VERSION_KEY: &'static str = "T3000Version";

/// The key of the install URL.
pub const URL_KEY: &'static str = "T3000_INSTALL_URL";

/// The one route of the service, which takes `POST` requests.
pub const UPDATE_ROUTE: &'static str = "/update-version";

/// How long a request may take, in seconds, before it is broken off.
pub const REQUEST_TIMEOUT_SECONDS: u64 = 10;

/// Status of a successful update.
pub const STATUS_OK: u16 = 200;

/// Status of a request that did not present the secret.
pub const STATUS_UNAUTHORIZED: u16 = 401;

/// Status of a request that took longer than the service allows.
pub const STATUS_REQUEST_TIMEOUT: u16 = 408;

/// Status of a request that failed on the configuration file or inside the
/// service.
pub const STATUS_INTERNAL_SERVER_ERROR: u16 = 500;

/// The body of an update request. A field that is absent leaves its key as
/// the file has it.
#[derive(Clone, Debug, Default, PartialEq, Eq)]
pub struct VersionRequest {
    pub version: Option<String>,
    pub url: Option<String>,
}

impl View for VersionRequest {
    type V = (Option<Seq<char>>, Option<Seq<char>>);

    open spec fn view(&self) -> (Option<Seq<char>>, Option<Seq<char>>) {
        (
            match self.version {
                Some(version) => Some(version@),
                None => None,
            },
            match self.url {
                Some(url) => Some(url@),
                None => None,
            },
        )
    }
}

/// The updates that a request asks for: the version key first, then the URL
/// key, each with its new value if the request carries one.
pub open spec fn version_updates(version: Option<Seq<char>>, url: Option<Seq<char>>) -> Seq<
    (Seq<char>, Option<Seq<char>>),
> {
    seq![(VERSION_KEY@, version), (URL_KEY@, url)]
}

/// What the service answers: a status and a plain-text body.
#[derive(Clone, Debug, PartialEq, Eq)]
pub struct Reply {
    pub status: u16,
    pub body: String,
}

/// Takes the content of the configuration file and returns what the file is
/// to hold after the request: the document with the version and the URL set
/// in its `Version` section, as far as the request carries them.
///
/// Fails with `Load` where the content is not an INI document and with
/// `SectionNotFound` where it has no `Version` section; then nothing is to be
/// stored and the file stays as it is.
pub fn update_version(content: &[u8], request: &VersionRequest) -> (r: Result<Vec<u8>, ConfigError>)
    ensures
        match r {
            Ok(bytes) => rewritten(
                content@,
                VERSION_SECTION@,
                version_updates(request@.0, request@.1),
            ) == Ok::<Seq<u8>, ConfigFailure>(bytes@),
            Err(e) => rewritten(
                content@,
                VERSION_SECTION@,
                version_updates(request@.0, request@.1),
            ) == Err::<Seq<u8>, ConfigFailure>(e@),
        },
{
    let version = match &request.version {
        Some(version) => Some(version.as_str()),
        None => None,
    };
    let url = match &request.url {
        Some(url) => Some(url.as_str()),
        None => None,
    };
    let mut updates: Vec<KeyUpdate> = Vec::new();
    updates.push(KeyUpdate { key: VERSION_KEY, value: version });
    updates.push(KeyUpdate { key: URL_KEY, value: url });
    proof {
        assert(crate::store::pending(updates@) =~= version_updates(request@.0, request@.1));
    }
    rewrite(content, VERSION_SECTION, updates.as_slice())
}

/// What the service does with the file once it has tried to read it.
#[derive(Clone, Debug, PartialEq, Eq)]
pub enum Step {
    /// Write these bytes over the file, then answer with `after_write`.
    Store(Vec<u8>),
    /// Leave the file alone and answer.
    Answer(Reply),
}

/// Decides what follows the attempt to read the configuration file. `read`
/// holds the content of the file, or the description of why it could not be
/// read.
///
/// The file is to be written exactly when it was read, holds an INI document
/// and that document has a `Version` section; the bytes to write are those of
/// the updated document. In every other case the file is left alone, whether
/// it exists or not, and the request is answered with the failure.
pub fn after_read(read: Result<&[u8], String>, request: &VersionRequest) -> (step: Step)
    ensures
        match read {
            Ok(content) => match rewritten(
                content@,
                VERSION_SECTION@,
                version_updates(request@.0, request@.1),
            ) {
                Ok(bytes) => step matches Step::Store(stored) && stored@ == bytes,
                Err(failure) => step matches Step::Answer(reply) && reply.status
                    == STATUS_INTERNAL_SERVER_ERROR && reply.body@ == failure.message(),
            },
            Err(description) => step matches Step::Answer(reply) && reply.status
                == STATUS_INTERNAL_SERVER_ERROR && reply.body@ == ConfigFailure::Load(
                description@,
            ).message(),
        },
{
    let outcome = match read {
        Ok(content) => update_version(content, request),
        Err(description) => Err(ConfigError::Load(description)),
    };
    match outcome {
        Ok(bytes) => Step::Store(bytes),
        Err(e) => Step::Answer(reply_to(&Err(e))),
    }
}

/// The answer once the file was to be written: success where it was, the
/// failure with its description where it was not.
pub fn after_write(written: Result<(), String>) -> (reply: Reply)
    ensures
        match written {
            Ok(_) => reply.status == STATUS_OK && reply.body@.len() == 0,
            Err(description) => reply.status == STATUS_INTERNAL_SERVER_ERROR && reply.body@
                == ConfigFailure::Write(description@).message(),
        },
{
    match written {
        Ok(_) => reply_to(&Ok(())),
        Err(description) => reply_to(&Err(ConfigError::Write(description))),
    }
}

/// The guard of the update route. A request passes exactly when its headers
/// present the secret; every other request is answered as unauthorized, with
/// an empty body.
pub fn screen(headers: &HeaderMap<HeaderValue>, secret: &str) -> (r: Result<(), Reply>)
    ensures
        r is Ok <==> presents_secret(first_values(*headers), secret@),
        r matches Err(reply) ==> reply.status == STATUS_UNAUTHORIZED && reply.body@.len() == 0,
{
    if authorize(headers, secret) {
        Ok(())
    } else {
        Err(Reply { status: STATUS_UNAUTHORIZED, body: String::new() })
    }
}

/// The answer to a request that passed the guard: success with an empty body,
/// or a failure with the message of what went wrong.
pub fn reply_to(outcome: &Result<(), ConfigError>) -> (reply: Reply)
    ensures
        match outcome {
            Ok(_) => reply.status == STATUS_OK && reply.body@.len() == 0,
            Err(e) => reply.status == STATUS_INTERNAL_SERVER_ERROR && reply.body@
                == e@.message(),
        },
{
    match outcome {
        Ok(_) => Reply { status: STATUS_OK, body: String::new() },
        Err(e) => Reply { status: STATUS_INTERNAL_SERVER_ERROR, body: e.message() },
    }
}

/// The answer to a request whose processing broke off: a timeout is reported
/// as such, without a body; anything else as an internal error with its
/// description.
pub fn reply_to_fault(timed_out: bool, description: &str) -> (reply: Reply)
    ensures
        timed_out ==> reply.status == STATUS_REQUEST_TIMEOUT && reply.body@.len() == 0,
        !timed_out ==> reply.status == STATUS_INTERNAL_SERVER_ERROR && reply.body@
            == "Unhandled internal error: "@ + description@,
{
    if timed_out {
        Reply { status: STATUS_REQUEST_TIMEOUT, body: String::new() }
    } else {
        Reply {
            status: STATUS_INTERNAL_SERVER_ERROR,
            body: "Unhandled internal error: ".to_owned().concat(description),
        }
    }
}

} // verus!
