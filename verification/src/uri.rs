//! Request targets: what a message's URI holds, and how a text is read as one.

use vstd::prelude::*;

verus! {

/// A URI with the parts that routing and rewriting read: its full text, its
/// path, and its query without the leading `?`.
#[derive(Debug, PartialEq, Eq)]
pub struct Uri {
    pub text: String,
    pub path: String,
    pub query: Option<String>,
}

/// A URI as character sequences.
pub struct UriParts {
    pub text: Seq<char>,
    pub path: Seq<char>,
    pub query: Option<Seq<char>>,
}

impl View for Uri {
    type V = UriParts;

    open spec fn view(&self) -> UriParts {
        UriParts {
            text: self.text@,
            path: self.path@,
            query: match self.query {
                Some(query) => Some(query@),
                None => None,
            },
        }
    }
}

/// The URI that `text` is read as, or `None` where `text` is no valid URI.
pub uninterp spec fn parsed_uri(text: Seq<char>) -> Option<UriParts>;

/// Reads `text` with `hyper::Uri`'s `FromStr` and copies out the text, path
/// and query of the result. Trusted: whether `text` is accepted, and the
/// parts of the URI it is read as, are fixed by `text` alone.
#[verifier::external_body]
pub(crate) fn parse_uri(text: &str) -> (uri: Option<Uri>)
    ensures
        match uri {
            Some(uri) => parsed_uri(text@) == Some(uri@),
            None => parsed_uri(text@) is None,
        },
{
    match text.parse::<hyper::Uri>() {
        Ok(uri) => Some(
            Uri {
                text: uri.as_ref().to_owned(),
                path: uri.path().to_owned(),
                query: uri.query().map(|query| query.to_owned()),
            },
        ),
        Err(_) => None,
    }
}

} // verus!
