use vstd::prelude::*;
use crate::locator::{opt_chars, output_path, output_path_spec};
use crate::transfer::{FetchConfig, FetchError};

verus! {

/// What `url::Url::parse` makes of a text: its serialisation, its path and
/// its host, or nothing where the text is refused.
pub uninterp spec fn parsed_url(input: Seq<char>) -> Option<(Seq<char>, Seq<char>, Option<Seq<char>>)>;

/// Relies on url::Url::parse, and on `as_str`, `path` and `host_str` of the
/// URL it returns: the parts depend on the input text alone.
#[verifier::external_body]
fn parse_parts(input: &str) -> (r: Option<(String, String, Option<String>)>)
    ensures
        match parsed_url(input@) {
            Some(v) => r is Some && v == (r->Some_0.0@, r->Some_0.1@, opt_chars(r->Some_0.2)),
            None => r is None,
        },
{
    match url::Url::parse(input) {
        Ok(u) => Some((u.as_str().to_string(), u.path().to_string(), u.host_str().map(|h| h.to_string()))),
        Err(_) => None,
    }
}

/// A parsed URL, reduced to what the fetcher reads of it: its normalised
/// text, its path and its host.
#[derive(Clone, Debug, PartialEq, Eq)]
pub struct Target {
    pub text: String,
    pub path: String,
    pub host: Option<String>,
}

impl Target {
    /// Parses `input` as a URL. A refusal is reported as `InvalidUrl` carrying
    /// the input.
    pub fn parse(input: &str) -> (r: Result<Target, FetchError>)
        ensures
            r is Ok <==> parsed_url(input@) is Some,
            r is Ok ==> parsed_url(input@) == Some((r->Ok_0.text@, r->Ok_0.path@, opt_chars(r->Ok_0.host))),
            r is Err ==> r->Err_0 == FetchError::InvalidUrl(r->Err_0->InvalidUrl_0)
                && r->Err_0->InvalidUrl_0@ == input@,
    {
        match parse_parts(input) {
            Some(parts) => {
                let (text, path, host) = parts;
                Ok(Target { text, path, host })
            },
            None => Err(FetchError::InvalidUrl(String::from_str(input))),
        }
    }

    /// Where a download of this URL goes under `config`.
    pub fn destination(&self, config: &FetchConfig) -> (r: String)
        ensures
            r@ == output_path_spec(self.path@, opt_chars(self.host), opt_chars(config.output), config.recursive),
    {
        output_path(self.path.as_str(), &self.host, &config.output, config.recursive)
    }
}

} // verus!
