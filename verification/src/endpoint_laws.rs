//! What is shown of a URL.
use crate::endpoint::{Url, final_path, without_trailing_spaces};
use crate::sanitize::{sanitize_parsed, sanitized};
use vstd::prelude::*;

verus! {

/// What stands for a query.
pub open spec fn masked_query(query: Option<String>) -> Seq<char> {
    if query is None {
        Seq::empty()
    } else {
        "?[redacted]"@
    }
}

proof fn lemma_spaces(text: Seq<char>)
    ensures
        text.len() > 0 && text.last() != ' ' ==> without_trailing_spaces(text) == text,
{
}

/// A URL is shown up to its path, with nothing of its query but that there is one, and without its
/// fragment.
pub proof fn law_query_is_masked(url: Url, text: String)
    requires
        call_ensures(Url::redact, (&url,), text),
        url.path@.len() > 0,
        url.path@[0] == '/' || url.path@.last() != ' ',
    ensures
        text@ == url.before_path@ + url.path@ + masked_query(url.query),
{
    lemma_spaces(url.path@);
    assert(final_path(url@) == url.path@);
}

/// A URL whose credentials are left out is shown without them, with nothing of its query but that
/// there is one, and without its fragment.
pub proof fn law_credentials_are_left_out(url: Url, text: String)
    requires
        call_ensures(Url::anonymize, (&url,), text),
        url.path@.len() > 0,
        url.path@[0] == '/' || url.path@.last() != ' ',
    ensures
        text@ == url.before_credentials@ + url.authority@ + url.path@ + masked_query(url.query),
{
    lemma_spaces(url.path@);
    assert(final_path(url@) == url.path@);
}

/// Credentials are given with a user name or with a password.
pub proof fn law_credentials_are_a_name_or_a_password(url: Url, given: bool)
    requires
        call_ensures(Url::has_credentials, (&url,), given),
    ensures
        !given <==> url.username@.len() == 0 && url.password is None,
{
}

/// Two URLs that differ in their credentials, the text of their queries and their fragments only
/// are written down alike; what is no URL is written down as a message is.
pub proof fn law_secrets_of_a_url_are_not_written(
    one: Url,
    other: Url,
    value: &str,
    one_text: String,
    other_text: String,
    message: String,
)
    requires
        call_ensures(sanitize_parsed, (value, &Some(one)), one_text),
        call_ensures(sanitize_parsed, (value, &Some(other)), other_text),
        call_ensures(sanitize_parsed, (value, &None::<Url>), message),
        one.before_credentials@ == other.before_credentials@,
        one.authority@ == other.authority@,
        one.path@ == other.path@,
        one.query is Some <==> other.query is Some,
    ensures
        one_text@ == other_text@,
        message@ == sanitized(value@),
{
}

} // verus!
