use vstd::prelude::*;

use crate::error::Error;
use crate::question::option_text;

verus! {

/// The parts of a parsed URL that decide whether it may serve as an endpoint.
pub struct EndpointParts {
    pub scheme: String,
    pub host: Option<String>,
    pub username: String,
    pub password: Option<String>,
}

/// The parts as plain text: scheme, host, username and password.
pub type EndpointText = (Seq<char>, Option<Seq<char>>, Seq<char>, Option<Seq<char>>);

impl EndpointParts {
    pub open spec fn text(&self) -> EndpointText {
        (self.scheme@, option_text(self.host), self.username@, option_text(self.password))
    }
}

/// What `url::Url::parse` makes of `text`: `None` when it refuses it, otherwise
/// the URL's scheme, host, username and password.
pub uninterp spec fn parsed_endpoint(text: Seq<char>) -> Option<EndpointText>;

/// Calls `reqwest::Url::parse` (the `url` crate) and reads the scheme, host,
/// username and password of the URL. The parse is named `parsed_endpoint`.
#[verifier::external_body]
fn parse_endpoint(text: &str) -> (r: Option<EndpointParts>)
    ensures
        match r {
            Some(p) => parsed_endpoint(text@) == Some(p.text()),
            None => parsed_endpoint(text@) is None,
        },
{
    match reqwest::Url::parse(text) {
        Ok(url) => Some(EndpointParts {
            scheme: url.scheme().to_owned(),
            host: url.host_str().map(str::to_owned),
            username: url.username().to_owned(),
            password: url.password().map(str::to_owned),
        }),
        Err(_) => None,
    }
}

/// An endpoint must be an HTTP(S) URL with a host and without user credentials.
pub open spec fn endpoint_acceptable(parts: EndpointText) -> bool {
    &&& (parts.0 == "http"@ || parts.0 == "https"@)
    &&& parts.1 is Some
    &&& parts.2.len() == 0
    &&& parts.3 is None
}

/// The configuration message that refuses an endpoint, if any.
pub open spec fn endpoint_fault(parsed: Option<EndpointText>) -> Option<Seq<char>> {
    match parsed {
        None => Some("invalid evaluation endpoint"@),
        Some(parts) => if endpoint_acceptable(parts) {
            None
        } else {
            Some("endpoint must be an HTTP(S) URL without user credentials"@)
        },
    }
}

/// Decide on the parsed form of an endpoint: `Ok` exactly when it is acceptable,
/// otherwise the configuration error that `endpoint_fault` names.
pub fn check_endpoint(parts: &Option<EndpointParts>) -> (r: Result<(), Error>)
    ensures
        match parts {
            Some(p) => match r {
                Ok(_) => endpoint_fault(Some(p.text())) is None,
                Err(e) => e matches Error::Configuration(m) && endpoint_fault(Some(p.text())) == Some(m@),
            },
            None => r matches Err(Error::Configuration(m)) && m@ == "invalid evaluation endpoint"@,
        },
{
    match parts {
        None => Err(Error::Configuration("invalid evaluation endpoint".to_owned())),
        Some(p) => {
            let web = p.scheme == "http".to_owned() || p.scheme == "https".to_owned();
            if web && p.host.is_some() && p.username.unicode_len() == 0 && p.password.is_none() {
                Ok(())
            } else {
                Err(Error::Configuration("endpoint must be an HTTP(S) URL without user credentials".to_owned()))
            }
        },
    }
}

/// Parse and decide on an endpoint text.
pub fn validate_endpoint(text: &str) -> (r: Result<(), Error>)
    ensures
        match r {
            Ok(_) => endpoint_fault(parsed_endpoint(text@)) is None,
            Err(e) => e matches Error::Configuration(m) && endpoint_fault(parsed_endpoint(text@)) == Some(m@),
        },
{
    let parts = parse_endpoint(text);
    check_endpoint(&parts)
}

} // verus!
