//! Progress tokens: the opaque identity that correlates one build's
//! progress notifications and cancellation requests. One token is minted per
//! build request, a fixed prefix with a fresh random suffix; a reserved
//! wildcard value stands for "every in-flight build".

use vstd::prelude::*;

use crate::text::str_eq;

verus! {

/// A progress token: either a structured number or a string, as the
/// protocol allows both.
#[derive(Debug, Clone, PartialEq, Eq, Hash)]
pub enum ProgressToken {
    Number(u64),
    Text(String),
}

/// The mathematical value of a token: its text as a character sequence.
pub enum TokenView {
    Number(u64),
    Text(Seq<char>),
}

impl View for ProgressToken {
    type V = TokenView;

    open spec fn view(&self) -> TokenView {
        match self {
            ProgressToken::Number(n) => TokenView::Number(*n),
            ProgressToken::Text(s) => TokenView::Text(s@),
        }
    }
}

impl DeepView for ProgressToken {
    type V = TokenView;

    open spec fn deep_view(&self) -> TokenView {
        self.view()
    }
}

/// The reserved wildcard token: cancelling it aborts every in-flight build.
pub open spec fn wildcard() -> TokenView {
    TokenView::Text("texlab-build-*"@)
}

impl ProgressToken {
    /// An identical copy, with its value pinned down.
    pub fn duplicate(&self) -> (r: ProgressToken)
        ensures
            r@ == self@,
    {
        match self {
            ProgressToken::Number(n) => ProgressToken::Number(*n),
            ProgressToken::Text(s) => ProgressToken::Text(s.clone()),
        }
    }

    /// Whether the two tokens hold the same value.
    pub fn same_as(&self, other: &ProgressToken) -> (r: bool)
        ensures
            r == (self@ == other@),
    {
        match (self, other) {
            (ProgressToken::Number(a), ProgressToken::Number(b)) => a == b,
            (ProgressToken::Text(a), ProgressToken::Text(b)) => str_eq(a.as_str(), b.as_str()),
            _ => false,
        }
    }

    /// Whether this is the reserved wildcard token.
    pub fn is_wildcard(&self) -> (r: bool)
        ensures
            r == (self@ == wildcard()),
    {
        match self {
            ProgressToken::Number(_) => false,
            ProgressToken::Text(s) => str_eq(s.as_str(), "texlab-build-*"),
        }
    }
}

/// Relies on `uuid::Uuid::new_v4` and the hyphenated `Display` form of a
/// UUID: a fresh random identifier, rendered as exactly 36 characters.
/// Nothing more is assumed of the value: it is random.
#[verifier::external_body]
fn fresh_uuid_string() -> (r: String)
    ensures
        r@.len() == 36,
{
    uuid::Uuid::new_v4().to_string()
}

/// Mints the token of one new build request: the fixed build prefix with a
/// fresh random suffix. Whatever the suffix, the token is never the
/// wildcard.
pub fn mint_token() -> (t: ProgressToken)
    ensures
        t@ matches TokenView::Text(s) && s.len() == 49 && s.subrange(0, 13) == "texlab-build-"@,
        t@ != wildcard(),
{
    let mut s = "texlab-build-".to_owned();
    let u = fresh_uuid_string();
    s.append(u.as_str());
    proof {
        reveal_strlit("texlab-build-");
        reveal_strlit("texlab-build-*");
        assert(s@.subrange(0, 13) =~= "texlab-build-"@);
        assert(s@.len() == 49);
        assert("texlab-build-*"@.len() == 14);
        assert(s@ != "texlab-build-*"@);
    }
    ProgressToken::Text(s)
}

} // verus!
