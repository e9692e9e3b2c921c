use vstd::prelude::*;

use url::{ParseError, Url};

verus! {

#[verifier::external_type_specification]
#[verifier::external_body]
pub struct ExParseError(ParseError);

/// The serialization of the URL that `url::Url::parse` makes of the text, if it is one.
pub uninterp spec fn url_parse_of(s: Seq<char>) -> Option<Seq<char>>;

/// The serialization of `input` resolved by `url::Url::join` against the URL `base`.
pub uninterp spec fn url_join_of(base: Seq<char>, input: Seq<char>) -> Option<Seq<char>>;

/// The serialization of the URL with its scheme changed by `url::Url::set_scheme`.
pub uninterp spec fn url_scheme_set_of(url: Seq<char>, scheme: Seq<char>) -> Option<Seq<char>>;

/// Relies on `url::Url::parse`: it parses an absolute URL, and the result depends on the
/// text alone. The URL is handed back in its serialization.
#[verifier::external_body]
pub(crate) fn parse_url(s: &str) -> (r: Result<String, ParseError>)
    ensures
        match r {
            Ok(u) => url_parse_of(s@) == Some(u@),
            Err(_) => url_parse_of(s@) is None,
        },
{
    Url::parse(s).map(String::from)
}

/// Relies on `url::Url::join`: it resolves `input` as a reference relative to `base`, and
/// the result depends on the two texts alone. `base` is read with `url::Url::parse` first
/// (a failure there is a failure of the join), and the result is handed back in its
/// serialization.
#[verifier::external_body]
pub(crate) fn join_url(base: &str, input: &str) -> (r: Result<String, ParseError>)
    ensures
        match r {
            Ok(u) => url_join_of(base@, input@) == Some(u@),
            Err(_) => url_join_of(base@, input@) is None,
        },
{
    match Url::parse(base) {
        Ok(b) => b.join(input).map(String::from),
        Err(e) => Err(e),
    }
}

/// Relies on `url::Url::set_scheme`: it changes the scheme where the URL standard allows
/// the change and refuses it otherwise; the result depends on the two texts alone. `url`
/// is read with `url::Url::parse` first (a failure there is a refusal).
#[verifier::external_body]
pub(crate) fn with_scheme(url: &str, scheme: &str) -> (r: Option<String>)
    ensures
        match r {
            Some(u) => url_scheme_set_of(url@, scheme@) == Some(u@),
            None => url_scheme_set_of(url@, scheme@) is None,
        },
{
    match Url::parse(url) {
        Ok(mut u) => match u.set_scheme(scheme) {
            Ok(()) => Some(String::from(u)),
            Err(()) => None,
        },
        Err(_) => None,
    }
}

/// The path under the service URL where a note is shown.
pub open spec fn notes_path() -> Seq<char> {
    seq!['n', 'o', 't', 'e', 's', '/']
}

/// The link to a note: the service URL joined with `notes/`, then with the note's id.
pub open spec fn permalink_of(base: Seq<char>, note_id: Seq<char>) -> Option<Seq<char>> {
    match url_join_of(base, notes_path()) {
        Some(notes) => url_join_of(notes, note_id),
        None => None,
    }
}

/// The link to the note `note_id` on the service at `base`.
pub fn permalink(base: &str, note_id: &str) -> (r: Result<String, ParseError>)
    ensures
        match permalink_of(base@, note_id@) {
            Some(l) => r is Ok && r->Ok_0@ == l,
            None => r is Err,
        },
{
    proof {
        reveal_strlit("notes/");
        assert("notes/"@ =~= notes_path());
    }
    let notes = join_url(base, "notes/")?;
    join_url(notes.as_str(), note_id)
}

/// A link depends on the service URL and the note id alone: the same two give the same
/// link, however often it is made.
pub proof fn lemma_permalink_deterministic(b1: Seq<char>, n1: Seq<char>, b2: Seq<char>, n2: Seq<char>)
    requires
        b1 == b2,
        n1 == n2,
    ensures
        permalink_of(b1, n1) == permalink_of(b2, n2),
{
}

/// The path of the streaming endpoint, from the root of the service.
pub open spec fn streaming_path() -> Seq<char> {
    seq!['/', 's', 't', 'r', 'e', 'a', 'm', 'i', 'n', 'g']
}

/// The secure WebSocket scheme.
pub open spec fn secure_ws_scheme() -> Seq<char> {
    seq!['w', 's', 's']
}

} // verus!
