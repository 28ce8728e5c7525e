//! Absolute URLs, kept as the text that the `url` crate serializes them to.

use vstd::prelude::*;
use vstd::string::*;

verus! {

/// The serialization that `url::Url::parse` gives to the address written as
/// `text`, or `None` where it does not accept `text` as an absolute URL.
pub uninterp spec fn url_serialization(text: Seq<char>) -> Option<Seq<char>>;

/// Whether parsing the serialization `text` gives `text` back.
pub open spec fn url_canonical(text: Seq<char>) -> bool {
    url_serialization(text) == Some(text)
}

/// Calls `url::Url::parse` and hands back the serialization of the URL it
/// built. Nothing is proved of it: the contract only gives that serialization
/// its name, and says that `None` comes exactly when the parser refuses the
/// text.
#[verifier::external_body]
fn serialize_absolute(text: &str) -> (r: Option<String>)
    ensures
        match r {
            Some(t) => url_serialization(text@) == Some(t@),
            None => url_serialization(text@) is None,
        },
{
    match ::url::Url::parse(text) {
        Ok(parsed) => Some(String::from(parsed)),
        Err(_) => None,
    }
}

/// An absolute URL.
///
/// Two URLs are the same URL exactly when their serializations are the same
/// text, so the serialization is all that the value holds.
#[derive(Clone, Debug, PartialEq, Eq, PartialOrd, Ord, Hash)]
pub struct Url {
    text: String,
}

impl View for Url {
    type V = Seq<char>;

    closed spec fn view(&self) -> Seq<char> {
        self.text@
    }
}

impl Url {
    /// Whether parsing the serialization again gives the same URL.
    pub open spec fn canonical(&self) -> bool {
        url_canonical(self@)
    }

    /// Reads an absolute URL. `None` is returned exactly where the text is not
    /// one.
    pub fn parse(text: &str) -> (r: Option<Url>)
        ensures
            match r {
                Some(u) => url_serialization(text@) == Some(u@),
                None => url_serialization(text@) is None,
            },
    {
        match serialize_absolute(text) {
            Some(t) => Some(Url { text: t }),
            None => None,
        }
    }

    /// The serialization of the URL.
    pub fn as_str(&self) -> (r: &str)
        ensures
            r@ == self@,
    {
        self.text.as_str()
    }

    /// Tests whether parsing the serialization again gives the same URL.
    pub fn is_canonical(&self) -> (r: bool)
        ensures
            r == self.canonical(),
    {
        match serialize_absolute(self.text.as_str()) {
            Some(t) => t == self.text,
            None => false,
        }
    }
}

} // verus!
