//! URLs, taken apart.
use crate::text::{clone_text, text_view};
use url::Position::{BeforeHost, BeforePath, BeforeUsername};
use vstd::prelude::*;
use vstd::string::StringExecFns;

verus! {

/// A URL and its parts. `before_credentials`, `authority` and `before_path` are what is written
/// up to a user name, from the host up to the path, and up to the path; `known_port` is the port
/// or the one that the scheme stands for.
#[derive(Debug, PartialEq, Eq)]
pub struct Url {
    pub text: String,
    pub scheme: String,
    pub before_credentials: String,
    pub authority: String,
    pub before_path: String,
    pub username: String,
    pub password: Option<String>,
    pub host: Option<String>,
    pub port: Option<u16>,
    pub known_port: Option<u16>,
    pub path: String,
    pub query: Option<String>,
    pub fragment: Option<String>,
}

pub struct UrlView {
    pub text: Seq<char>,
    pub scheme: Seq<char>,
    pub before_credentials: Seq<char>,
    pub authority: Seq<char>,
    pub before_path: Seq<char>,
    pub username: Seq<char>,
    pub password: Option<Seq<char>>,
    pub host: Option<Seq<char>>,
    pub port: Option<u16>,
    pub known_port: Option<u16>,
    pub path: Seq<char>,
    pub query: Option<Seq<char>>,
    pub fragment: Option<Seq<char>>,
}

impl View for Url {
    type V = UrlView;

    open spec fn view(&self) -> UrlView {
        UrlView {
            text: self.text@,
            scheme: self.scheme@,
            before_credentials: self.before_credentials@,
            authority: self.authority@,
            before_path: self.before_path@,
            username: self.username@,
            password: text_view(self.password),
            host: text_view(self.host),
            port: self.port,
            known_port: self.known_port,
            path: self.path@,
            query: text_view(self.query),
            fragment: text_view(self.fragment),
        }
    }
}

pub open spec fn url_view(url: Option<Url>) -> Option<UrlView> {
    match url {
        Some(u) => Some(u@),
        None => None,
    }
}

impl Clone for Url {
    fn clone(&self) -> (copy: Self)
        ensures
            copy == *self,
    {
        Url {
            text: self.text.clone(),
            scheme: self.scheme.clone(),
            before_credentials: self.before_credentials.clone(),
            authority: self.authority.clone(),
            before_path: self.before_path.clone(),
            username: self.username.clone(),
            password: clone_text(&self.password),
            host: clone_text(&self.host),
            port: self.port,
            known_port: self.known_port,
            path: self.path.clone(),
            query: clone_text(&self.query),
            fragment: clone_text(&self.fragment),
        }
    }
}

/// What `url` reads in a text.
pub uninterp spec fn parsed_url(text: Seq<char>) -> Option<UrlView>;

/// `url::Url::parse`: whether a text is a URL, and its parts if it is one, are a function of the
/// text.
#[verifier::external_body]
pub(crate) fn parse_url(text: &str) -> (parsed: Option<Url>)
    ensures
        url_view(parsed) == parsed_url(text@),
{
    let url = url::Url::parse(text).ok()?;
    Some(Url {
        text: url.as_str().to_owned(), scheme: url.scheme().to_owned(),
        before_credentials: url[..BeforeUsername].to_owned(),
        authority: url[BeforeHost..BeforePath].to_owned(),
        before_path: url[..BeforePath].to_owned(),
        username: url.username().to_owned(),
        password: url.password().map(str::to_owned),
        host: url.host_str().map(str::to_owned),
        port: url.port(), known_port: url.port_or_known_default(),
        path: url.path().to_owned(), query: url.query().map(str::to_owned),
        fragment: url.fragment().map(str::to_owned),
    })
}

/// A URL whose path stands for itself: neither a host nor a slash is written before it.
pub open spec fn opaque_path(url: UrlView) -> bool {
    &&& url.authority.len() == 0
    &&& !(url.before_credentials.len() > 0 && url.before_credentials.last() == '/')
    &&& !(url.path.len() > 0 && url.path[0] == '/')
}

/// A text without the spaces at its end.
pub open spec fn without_trailing_spaces(text: Seq<char>) -> Seq<char>
    decreases text.len(),
{
    if text.len() > 0 && text.last() == ' ' {
        without_trailing_spaces(text.drop_last())
    } else {
        text
    }
}

/// The path as it stands at the end of a URL: one that stands for itself does not end in spaces.
pub open spec fn final_path(url: UrlView) -> Seq<char> {
    if opaque_path(url) {
        without_trailing_spaces(url.path)
    } else {
        url.path
    }
}

/// What is shown of a query.
pub open spec fn query_mark(url: UrlView) -> Seq<char> {
    if url.query is Some {
        "?[redacted]"@
    } else {
        Seq::empty()
    }
}

/// A URL without its fragment, and with its query masked.
pub open spec fn redacted(url: UrlView) -> Seq<char> {
    url.before_path + final_path(url) + query_mark(url)
}

/// A URL without its credentials and fragment, and with its query masked.
pub open spec fn anonymous(url: UrlView) -> Seq<char> {
    url.before_credentials + url.authority + final_path(url) + query_mark(url)
}

fn ends_in_slash(text: &str) -> (ends: bool)
    ensures
        ends == (text@.len() > 0 && text@.last() == '/'),
{
    let chars = crate::text::chars_of(text);
    chars.len() > 0 && chars[chars.len() - 1] == '/'
}

fn starts_with_slash(text: &str) -> (starts: bool)
    ensures
        starts == (text@.len() > 0 && text@[0] == '/'),
{
    let chars = crate::text::chars_of(text);
    chars.len() > 0 && chars[0] == '/'
}

fn trim_spaces(text: &str) -> (trimmed: String)
    ensures
        trimmed@ == without_trailing_spaces(text@),
{
    let mut chars = crate::text::chars_of(text);
    while chars.len() > 0 && chars[chars.len() - 1] == ' '
        invariant
            without_trailing_spaces(text@) == without_trailing_spaces(chars@),
        decreases chars@.len(),
    {
        chars.pop();
    }
    crate::text::string_of(&chars)
}

impl Url {
    fn path_at_end(&self) -> (path: String)
        ensures
            path@ == final_path(self@),
    {
        if self.authority.as_str().unicode_len() == 0 && !ends_in_slash(&self.before_credentials)
            && !starts_with_slash(&self.path) {
            trim_spaces(&self.path)
        } else {
            self.path.clone()
        }
    }

    fn marked(&self, text: String) -> (marked: String)
        ensures
            marked@ == text@ + query_mark(self@),
    {
        if self.query.is_some() {
            text.concat("?[redacted]")
        } else {
            proof {
                assert(text@ + Seq::<char>::empty() =~= text@);
            }
            text
        }
    }

    /// The URL without its fragment, and with its query masked.
    pub fn redact(&self) -> (text: String)
        ensures
            text@ == redacted(self@),
    {
        let path = self.path_at_end();
        self.marked(self.before_path.clone().concat(&path))
    }

    /// The URL without its credentials and fragment, and with its query masked.
    pub fn anonymize(&self) -> (text: String)
        ensures
            text@ == anonymous(self@),
    {
        let path = self.path_at_end();
        self.marked(self.before_credentials.clone().concat(&self.authority).concat(&path))
    }

    /// Whether a user name or a password is given.
    pub fn has_credentials(&self) -> (given: bool)
        ensures
            given == (self@.username.len() > 0 || self@.password is Some),
    {
        self.username.as_str().unicode_len() > 0 || self.password.is_some()
    }
}

} // verus!
