//! Document identities. A document is addressed by an opaque identifier
//! string; only identifiers carrying the `file:` scheme name a local,
//! file-backed document that external tools can be pointed at.

use vstd::prelude::*;

use crate::text;

verus! {

/// The identity of one document, kept verbatim as the client sent it.
#[derive(Debug, Clone, PartialEq, Eq, Hash)]
pub struct Uri {
    text: String,
}

impl View for Uri {
    type V = Seq<char>;

    closed spec fn view(&self) -> Seq<char> {
        self.text@
    }
}

/// Whether an identity names a local, file-backed document: it starts with
/// the `file:` scheme.
pub open spec fn is_local_id(s: Seq<char>) -> bool {
    s.len() >= 5 && s.subrange(0, 5) == "file:"@
}

/// The local filesystem path carried by an identity of the form
/// `file://<path>`, if it has that form.
pub open spec fn local_path_of(s: Seq<char>) -> Option<Seq<char>> {
    if s.len() >= 7 && s.subrange(0, 7) == "file://"@ {
        Some(s.subrange(7, s.len() as int))
    } else {
        None
    }
}

impl Uri {
    /// Wraps an identifier string.
    pub fn new(text: String) -> (u: Uri)
        ensures
            u@ == text@,
    {
        Uri { text }
    }

    /// The identifier as a string slice.
    pub fn as_str(&self) -> (r: &str)
        ensures
            r@ == self@,
    {
        self.text.as_str()
    }

    /// An identical copy, with its value pinned down.
    pub fn duplicate(&self) -> (r: Uri)
        ensures
            r@ == self@,
    {
        Uri { text: self.text.clone() }
    }

    /// Whether the two identities hold the same characters.
    pub fn same_as(&self, other: &Uri) -> (r: bool)
        ensures
            r == (self@ == other@),
    {
        self.text == other.text
    }

    /// Whether this identity names a local, file-backed document.
    pub fn is_local(&self) -> (r: bool)
        ensures
            r == is_local_id(self@),
    {
        proof {
            reveal_strlit("file:");
        }
        text::has_prefix(self.text.as_str(), "file:")
    }

    /// The local filesystem path of a `file://` identity.
    pub fn local_path(&self) -> (r: Option<String>)
        ensures
            r matches Some(p) ==> local_path_of(self@) == Some(p@),
            r is None ==> local_path_of(self@) is None,
    {
        let s = self.text.as_str();
        proof {
            reveal_strlit("file://");
        }
        if text::has_prefix(s, "file://") {
            let n = s.unicode_len();
            Some(s.substring_char(7, n).to_owned())
        } else {
            None
        }
    }
}

} // verus!
