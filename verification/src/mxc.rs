//! Content references: `mxc://<server name>/<media id>`.
//!
//! The text is read by the `url` crate's parser and the server name is
//! judged by `ruma-identifiers`; what is made of their answers is decided
//! here.
use crate::event::text_of;
use vstd::prelude::*;
use vstd::string::{StrSliceExecFns, StringExecFns};

verus! {

/// The error of the `url` crate's parser. Nothing is read from it.
#[verifier::external_type_specification]
#[verifier::external_body]
pub struct ExParseError(url::ParseError);

/// What the URL parser found in a text: the scheme, the host if the URL
/// has one, and the path.
#[derive(Debug)]
pub struct UrlParts {
    pub scheme: String,
    pub host: Option<String>,
    pub path: String,
}

impl View for UrlParts {
    type V = (Seq<char>, Option<Seq<char>>, Seq<char>);

    open spec fn view(&self) -> (Seq<char>, Option<Seq<char>>, Seq<char>) {
        (self.scheme@, text_of(self.host), self.path@)
    }
}

/// Why a text is no content reference.
#[derive(Debug, Clone, Copy, PartialEq, Eq, Structural)]
pub enum MxcError {
    /// The text is no absolute URL.
    InvalidUrl,
    /// The URL's scheme is not `mxc`.
    NotMxc,
    /// The URL has no host.
    MissingHost,
    /// The URL's host is no Matrix server name.
    InvalidServerName,
    /// The URL has no path to take the media id from.
    MissingMedia,
}

/// What `url::Url::parse` makes of a text: nothing where it fails, else the
/// scheme, host and path of the URL.
pub uninterp spec fn url_parts(text: Seq<char>) -> Option<(Seq<char>, Option<Seq<char>>, Seq<char>)>;

/// Whether `ruma-identifiers` takes a text as a Matrix server name.
pub uninterp spec fn is_server_name(text: Seq<char>) -> bool;

/// Where the segment of a path that starts at `from` ends: at the next
/// `/`, or at the end of the path.
pub open spec fn segment_end(path: Seq<char>, from: int) -> int
    decreases path.len() - from,
{
    if from >= path.len() || path[from] == '/' {
        from
    } else {
        segment_end(path, from + 1)
    }
}

/// The first segment of a path: what stands between the `/` that the path
/// starts with and the next `/` or the end. A path that does not start
/// with `/` has no segments.
pub open spec fn first_segment(path: Seq<char>) -> Option<Seq<char>> {
    if path.len() > 0 && path[0] == '/' {
        Some(path.subrange(1, segment_end(path, 1)))
    } else {
        None
    }
}

/// The value of an optional set of URL parts.
pub open spec fn parts_of(parts: Option<UrlParts>) -> Option<
    (Seq<char>, Option<Seq<char>>, Seq<char>),
> {
    match parts {
        Some(parts) => Some(parts@),
        None => None,
    }
}

/// The value of a parsed content reference or of its failure.
pub open spec fn mxc_of(parsed: Result<(String, String), MxcError>) -> Result<
    (Seq<char>, Seq<char>),
    MxcError,
> {
    match parsed {
        Ok((server, media)) => Ok((server@, media@)),
        Err(error) => Err(error),
    }
}

/// The content reference in the parts of a URL: the host and the first
/// path segment of a URL of scheme `mxc` whose host is a server name.
pub open spec fn mxc_from_parts(
    parts: Option<(Seq<char>, Option<Seq<char>>, Seq<char>)>,
    host_is_server_name: bool,
) -> Result<(Seq<char>, Seq<char>), MxcError> {
    match parts {
        None => Err(MxcError::InvalidUrl),
        Some((scheme, host, path)) => if scheme != "mxc"@ {
            Err(MxcError::NotMxc)
        } else {
            match host {
                None => Err(MxcError::MissingHost),
                Some(server) => if !host_is_server_name {
                    Err(MxcError::InvalidServerName)
                } else {
                    match first_segment(path) {
                        None => Err(MxcError::MissingMedia),
                        Some(media) => Ok((server, media)),
                    }
                },
            }
        },
    }
}

/// Whether the host among the parts of a URL is a server name.
pub open spec fn host_is_named(parts: Option<(Seq<char>, Option<Seq<char>>, Seq<char>)>) -> bool {
    match parts {
        Some((_, Some(host), _)) => is_server_name(host),
        _ => false,
    }
}

/// The content reference that a text holds.
pub open spec fn mxc(text: Seq<char>) -> Result<(Seq<char>, Seq<char>), MxcError> {
    mxc_from_parts(url_parts(text), host_is_named(url_parts(text)))
}

/// Parses a text with `url::Url::parse` and reads the result's `scheme`,
/// `host_str` and `path`.
///
/// Trusted: that the answer depends on the text alone, which is what
/// `url_parts` names. Nothing is claimed of what the parts are.
#[verifier::external_body]
fn parse_url(text: &str) -> (parts: Result<UrlParts, url::ParseError>)
    ensures
        match parts {
            Ok(parts) => url_parts(text@) == Some(parts@),
            Err(_) => url_parts(text@) is None,
        },
{
    match url::Url::parse(text) {
        Ok(url) => Ok(
            UrlParts {
                scheme: url.scheme().to_owned(),
                host: url.host_str().map(str::to_owned),
                path: url.path().to_owned(),
            },
        ),
        Err(error) => Err(error),
    }
}

/// Asks `ruma_identifiers::ServerName`'s `TryFrom<&str>` whether a text is
/// a server name.
///
/// Trusted: that the answer depends on the text alone, which is what
/// `is_server_name` names.
#[verifier::external_body]
fn is_valid_server_name(host: &str) -> (valid: bool)
    ensures
        valid == is_server_name(host@),
{
    <&ruma_identifiers::ServerName>::try_from(host).is_ok()
}

/// Decides what content reference the parts of a URL hold, given whether
/// the host is a server name.
pub fn classify_mxc(parts: Option<UrlParts>, host_is_server_name: bool) -> (parsed: Result<
    (String, String),
    MxcError,
>)
    ensures
        mxc_of(parsed) == mxc_from_parts(parts_of(parts), host_is_server_name),
{
    let parts = match parts {
        Some(parts) => parts,
        None => { return Err(MxcError::InvalidUrl); },
    };
    let scheme = String::from_str("mxc");
    if !(parts.scheme == scheme) {
        return Err(MxcError::NotMxc);
    }
    let server = match parts.host {
        Some(server) => server,
        None => { return Err(MxcError::MissingHost); },
    };
    if !host_is_server_name {
        return Err(MxcError::InvalidServerName);
    }
    match path_first_segment(parts.path.as_str()) {
        Some(media) => Ok((server, media)),
        None => Err(MxcError::MissingMedia),
    }
}

/// The first segment of a path, if the path starts with `/`.
pub fn path_first_segment(path: &str) -> (segment: Option<String>)
    ensures
        text_of(segment) == first_segment(path@),
{
    let len = path.unicode_len();
    if len == 0 || path.get_char(0) != '/' {
        return None;
    }
    let mut end: usize = 1;
    while end < len && path.get_char(end) != '/'
        invariant
            1 <= end <= len,
            len == path@.len(),
            segment_end(path@, 1) == segment_end(path@, end as int),
        decreases len - end,
    {
        end += 1;
    }
    Some(path.substring_char(1, end).to_owned())
}

/// Break down an mxc url to its authority and path
pub fn parse_mxc(url: &str) -> (parsed: Result<(String, String), MxcError>)
    ensures
        mxc_of(parsed) == mxc(url@),
{
    let parts = match parse_url(url) {
        Ok(parts) => Some(parts),
        Err(_) => None,
    };
    let host_is_server_name = match &parts {
        Some(parts) => match &parts.host {
            Some(host) => is_valid_server_name(host.as_str()),
            None => false,
        },
        None => false,
    };
    classify_mxc(parts, host_is_server_name)
}

impl MxcError {
    /// The text of this error.
    pub open spec fn text(self) -> Seq<char> {
        match self {
            MxcError::InvalidUrl => "Invalid url"@,
            MxcError::NotMxc => "Not an mxc url"@,
            MxcError::MissingHost => "url"@,
            MxcError::InvalidServerName => "server name is not a valid IP address or domain name"@,
            MxcError::MissingMedia => "Invalid mxc url"@,
        }
    }

    /// The text of this error.
    pub fn message(&self) -> (message: String)
        ensures
            message@ == self.text(),
    {
        match self {
            MxcError::InvalidUrl => String::from_str("Invalid url"),
            MxcError::NotMxc => String::from_str("Not an mxc url"),
            MxcError::MissingHost => String::from_str("url"),
            MxcError::InvalidServerName => String::from_str(
                "server name is not a valid IP address or domain name",
            ),
            MxcError::MissingMedia => String::from_str("Invalid mxc url"),
        }
    }
}

} // verus!
