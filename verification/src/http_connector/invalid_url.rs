//! Why a URL cannot be connected to.
use vstd::prelude::*;

verus! {

/// Why a URL cannot be connected to.
#[derive(Debug, Clone, Copy, PartialEq, Eq)]
pub enum InvalidUrl {
    MissingScheme,
    NotHttp,
    MissingAuthority,
}

impl InvalidUrl {
    /// The words for the error.
    pub open spec fn words(self) -> Seq<char> {
        match self {
            InvalidUrl::MissingScheme => "invalid URL, missing scheme"@,
            InvalidUrl::NotHttp => "invalid URL, scheme must be http"@,
            InvalidUrl::MissingAuthority => "invalid URL, missing domain"@,
        }
    }

    /// The words for the error.
    pub fn description(&self) -> (words: &'static str)
        ensures
            words@ == self.words(),
    {
        match *self {
            InvalidUrl::MissingScheme => "invalid URL, missing scheme",
            InvalidUrl::NotHttp => "invalid URL, scheme must be http",
            InvalidUrl::MissingAuthority => "invalid URL, missing domain",
        }
    }
}

/// The words say what is wrong with the URL, and tell the errors apart.
pub proof fn law_words_tell_errors_apart(
    err: InvalidUrl,
    words: &'static str,
    other: InvalidUrl,
    other_words: &'static str,
)
    requires
        call_ensures(InvalidUrl::description, (&err,), words),
        call_ensures(InvalidUrl::description, (&other,), other_words),
    ensures
        words@ == other_words@ <==> err == other,
        words@ == match err {
            InvalidUrl::MissingScheme => "invalid URL, missing scheme"@,
            InvalidUrl::NotHttp => "invalid URL, scheme must be http"@,
            InvalidUrl::MissingAuthority => "invalid URL, missing domain"@,
        },
{
    reveal_strlit("invalid URL, missing scheme");
    reveal_strlit("invalid URL, scheme must be http");
    reveal_strlit("invalid URL, missing domain");
    assert("invalid URL, missing scheme"@[21] == 's');
    assert("invalid URL, missing domain"@[21] == 'd');
}

} // verus!
