//! Providers that are named by their endpoints.
use super::{
    AddressText, ConfigError, DirectConfig, FileDirect, ResolveContext, error, first_of, first_text,
    make_absolute, path_below,
};
use crate::cli::Options;
use crate::digest::{hex, hex_of, sha256, sha256_of};
use crate::endpoint::{Url, UrlView, parse_url, parsed_url, url_view};
use crate::model::IpAddr;
use crate::sanitize::{is_whitespace, lower, to_lower, whitespace};
use crate::text::{chars_of, contains_char, dec, decimal, same_text, string_of, text_view};
use vstd::prelude::*;
use vstd::string::{StrSliceExecFns, StringExecFns};
use vstd::utf8::encode_utf8;

verus! {

/// A text of nothing but white space.
pub open spec fn blank(text: Seq<char>) -> bool {
    forall|i: int| 0 <= i < text.len() ==> whitespace(#[trigger] text[i])
}

pub(crate) fn is_blank(text: &str) -> (yes: bool)
    ensures
        yes == blank(text@),
{
    let chars = chars_of(text);
    let mut i: usize = 0;
    while i < chars.len()
        invariant
            chars@ == text@,
            i <= chars@.len(),
            forall|k: int| 0 <= k < i ==> whitespace(#[trigger] chars@[k]),
        decreases chars@.len() - i,
    {
        if !is_whitespace(chars[i]) {
            return false;
        }
        i += 1;
    }
    true
}

/// The URL that a target stands for, before a path is put to it.
pub open spec fn target_base(target: AddressText) -> Seq<char> {
    match target.address {
        Some(address) => match address.ip {
            IpAddr::V4(_) => "wss://"@ + address.text@,
            IpAddr::V6(_) => "wss://["@ + address.text@ + "]"@,
        },
        None => "wss://"@ + target.text@,
    }
}

/// A target that cannot be part of a host name.
pub open spec fn malformed_target(text: Seq<char>) -> bool {
    blank(text) || text.contains('/') || text.contains('?') || text.contains('#')
}

pub open spec fn bad_target(target: AddressText) -> Seq<char> {
    "invalid direct target: "@ + target.text@
}

/// What a target's base comes to: it has to be a URL with a host and without credentials.
pub open spec fn usable_base(parsed: Option<UrlView>) -> bool {
    parsed is Some && parsed->0.host is Some && parsed->0.username.len() == 0
        && parsed->0.password is None
}

/// The two endpoints of a target, or that it is none.
pub open spec fn target_urls(target: AddressText) -> Option<(UrlView, UrlView)> {
    let base = parsed_url(target_base(target));
    if malformed_target(target.text@) || !usable_base(base) {
        None
    } else {
        let download = parsed_url(base->0.before_path + "/ndt/v7/download"@);
        let upload = parsed_url(base->0.before_path + "/ndt/v7/upload"@);
        if download is Some && upload is Some {
            Some((download->0, upload->0))
        } else {
            None
        }
    }
}

fn bad_target_error(target: &AddressText) -> (error: ConfigError)
    ensures
        error.message@ == bad_target(*target),
{
    ConfigError { message: "invalid direct target: ".to_owned().concat(&target.text) }
}

/// The download and upload endpoints of a target.
pub fn direct_target_urls(target: &AddressText) -> (urls: Result<(Url, Url), ConfigError>)
    ensures
        match urls {
            Ok((download, upload)) => target_urls(*target) == Some((download@, upload@)),
            Err(error) => target_urls(*target) is None && error.message@ == bad_target(*target),
        },
{
    if is_blank(&target.text) || contains_char(&target.text, '/') || contains_char(
        &target.text,
        '?',
    ) || contains_char(&target.text, '#') {
        return Err(bad_target_error(target));
    }
    let base = match &target.address {
        Some(address) => match address.ip {
            IpAddr::V4(_) => "wss://".to_owned().concat(&address.text),
            IpAddr::V6(_) => "wss://[".to_owned().concat(&address.text).concat("]"),
        },
        None => "wss://".to_owned().concat(&target.text),
    };
    let parsed = match parse_url(&base) {
        Some(parsed) => parsed,
        None => {
            return Err(bad_target_error(target));
        },
    };
    if parsed.host.is_none() || parsed.has_credentials() {
        return Err(bad_target_error(target));
    }
    let download = parse_url(&parsed.before_path.clone().concat("/ndt/v7/download"));
    let upload = parse_url(&parsed.before_path.clone().concat("/ndt/v7/upload"));
    match (download, upload) {
        (Some(download), Some(upload)) => Ok((download, upload)),
        _ => Err(bad_target_error(target)),
    }
}

/// What forbids a WebSocket endpoint, given what URL it is.
pub open spec fn ndt_url_fault(
    name: Seq<char>,
    parsed: Option<UrlView>,
    allow_insecure: bool,
) -> Option<Seq<char>> {
    match parsed {
        None => Some("invalid "@ + name),
        Some(url) => if url.scheme != "wss"@ && url.scheme != "ws"@ {
            Some(name + " must use wss:// or ws://"@)
        } else if url.scheme == "ws"@ && !allow_insecure {
            Some(
                name
                    + " uses ws://; pass --allow-insecure-ndt only for a trusted private network"@,
            )
        } else if url.host is None || url.username.len() > 0 || url.password is Some || url.fragment
            is Some {
            Some("invalid "@ + name + ": credentials and fragments are not allowed"@)
        } else {
            None
        },
    }
}

/// Checks a WebSocket endpoint, given what URL it is.
pub fn check_ndt_url(name: &str, parsed: Option<Url>, allow_insecure: bool) -> (url: Result<
    Url,
    ConfigError,
>)
    ensures
        match url {
            Ok(url) => parsed == Some(url) && ndt_url_fault(
                name@,
                url_view(parsed),
                allow_insecure,
            ) is None,
            Err(error) => ndt_url_fault(name@, url_view(parsed), allow_insecure) == Some(
                error.message@,
            ),
        },
{
    let url = match parsed {
        Some(url) => url,
        None => {
            return Err(ConfigError { message: "invalid ".to_owned().concat(name) });
        },
    };
    let secure: bool = same_text(&url.scheme, "wss");
    let plain: bool = same_text(&url.scheme, "ws");
    if !secure && !plain {
        return Err(ConfigError { message: name.to_owned().concat(" must use wss:// or ws://") });
    }
    if plain && !allow_insecure {
        return Err(
            ConfigError {
                message: name.to_owned().concat(
                    " uses ws://; pass --allow-insecure-ndt only for a trusted private network",
                ),
            },
        );
    }
    if url.host.is_none() || url.has_credentials() || url.fragment.is_some() {
        return Err(
            ConfigError {
                message: "invalid ".to_owned().concat(name).concat(
                    ": credentials and fragments are not allowed",
                ),
            },
        );
    }
    Ok(url)
}

/// Reads a WebSocket endpoint.
pub fn parse_ndt_url(name: &str, value: &str, allow_insecure: bool) -> (url: Result<
    Url,
    ConfigError,
>)
    ensures
        match url {
            Ok(url) => parsed_url(value@) == Some(url@) && ndt_url_fault(
                name@,
                parsed_url(value@),
                allow_insecure,
            ) is None,
            Err(error) => ndt_url_fault(name@, parsed_url(value@), allow_insecure) == Some(
                error.message@,
            ),
        },
{
    check_ndt_url(name, parse_url(value), allow_insecure)
}

/// What forbids a web address, given what URL it is.
pub open spec fn http_url_fault(name: Seq<char>, parsed: Option<UrlView>) -> Option<Seq<char>> {
    match parsed {
        None => Some("invalid "@ + name),
        Some(url) => if (url.scheme != "http"@ && url.scheme != "https"@) || url.host is None {
            Some(name + " must be an http(s) URL"@)
        } else if url.username.len() > 0 || url.password is Some || url.fragment is Some {
            Some("invalid "@ + name + ": credentials and fragments are not allowed"@)
        } else {
            None
        },
    }
}

/// Checks a web address, given what URL it is.
pub fn check_http_url(name: &str, parsed: Option<Url>) -> (url: Result<Url, ConfigError>)
    ensures
        match url {
            Ok(url) => parsed == Some(url) && http_url_fault(name@, url_view(parsed)) is None,
            Err(error) => http_url_fault(name@, url_view(parsed)) == Some(error.message@),
        },
{
    let url = match parsed {
        Some(url) => url,
        None => {
            return Err(ConfigError { message: "invalid ".to_owned().concat(name) });
        },
    };
    if (!same_text(&url.scheme, "http") && !same_text(&url.scheme, "https")) || url.host.is_none() {
        return Err(ConfigError { message: name.to_owned().concat(" must be an http(s) URL") });
    }
    if url.has_credentials() || url.fragment.is_some() {
        return Err(
            ConfigError {
                message: "invalid ".to_owned().concat(name).concat(
                    ": credentials and fragments are not allowed",
                ),
            },
        );
    }
    Ok(url)
}

/// Reads a web address.
pub fn parse_http_url(name: &str, value: &str) -> (url: Result<Url, ConfigError>)
    ensures
        match url {
            Ok(url) => parsed_url(value@) == Some(url@) && http_url_fault(
                name@,
                parsed_url(value@),
            ) is None,
            Err(error) => http_url_fault(name@, parsed_url(value@)) == Some(error.message@),
        },
{
    check_http_url(name, parse_url(value))
}

/// A text with its ASCII letters in lower case.
pub open spec fn lowered(text: Seq<char>) -> Seq<char> {
    text.map_values(|c: char| lower(c))
}

fn to_ascii_lowercase(text: &str) -> (low: String)
    ensures
        low@ == lowered(text@),
{
    let chars = chars_of(text);
    let mut low: Vec<char> = Vec::new();
    let mut i: usize = 0;
    while i < chars.len()
        invariant
            i <= chars@.len(),
            low@.len() == i,
            forall|k: int| 0 <= k < i ==> #[trigger] low@[k] == lower(chars@[k]),
        decreases chars@.len() - i,
    {
        low.push(to_lower(chars[i]));
        i += 1;
    }
    proof {
        assert(low@ =~= lowered(text@));
    }
    string_of(&low)
}

/// What makes an endpoint the same as another: its scheme, host, port and path.
pub open spec fn identity(url: UrlView) -> Seq<char> {
    let host = match url.host {
        Some(host) => lowered(host),
        None => Seq::empty(),
    };
    let port: u16 = match url.known_port {
        Some(port) => port,
        None => 0,
    };
    url.scheme + "://"@ + host + ":"@ + dec(port as nat) + url.path
}

pub fn endpoint_identity(url: &Url) -> (text: String)
    ensures
        text@ == identity(url@),
{
    let host = match &url.host {
        Some(host) => to_ascii_lowercase(host),
        None => String::new(),
    };
    let port: u16 = match url.known_port {
        Some(port) => port,
        None => 0,
    };
    url.scheme.clone().concat("://").concat(&host).concat(":").concat(
        &decimal(port as u128),
    ).concat(&url.path)
}

/// What the identity of a provider is made of.
pub open spec fn provider_key(
    download: UrlView,
    upload: UrlView,
    tls_server_name: Option<Seq<char>>,
) -> Seq<char> {
    let endpoints = identity(download) + "\n"@ + identity(upload);
    match tls_server_name {
        Some(name) => endpoints + "\nsni="@ + lowered(name),
        None => endpoints,
    }
}

/// The name that a provider is accounted under.
pub open spec fn provider_name(
    download: UrlView,
    upload: UrlView,
    tls_server_name: Option<Seq<char>>,
) -> Seq<char> {
    let digest = sha256_of(encode_utf8(provider_key(download, upload, tls_server_name)));
    "direct:"@ + hex_of(digest.take(8))
}

/// The name that a provider is accounted under: one for each pair of endpoints and server name.
pub fn direct_provider_id(direct: &DirectConfig) -> (id: String)
    ensures
        id@ == provider_name(
            direct.download_url@,
            direct.upload_url@,
            text_view(direct.tls_server_name),
        ),
{
    let mut key = endpoint_identity(&direct.download_url).concat("\n").concat(
        &endpoint_identity(&direct.upload_url),
    );
    if let Some(name) = &direct.tls_server_name {
        key = key.concat("\nsni=").concat(&to_ascii_lowercase(name));
    }
    let digest = sha256(&key.as_str().as_bytes_vec());
    let mut start: Vec<u8> = Vec::new();
    let mut i: usize = 0;
    while i < 8
        invariant
            i <= 8,
            digest@.len() == 32,
            start@ == digest@.take(i as int),
        decreases 8 - i,
    {
        start.push(digest[i]);
        i += 1;
        proof {
            assert(digest@.take(i as int) == digest@.take(i - 1).push(digest@[i - 1]));
        }
    }
    "direct:".to_owned().concat(&hex(&start))
}

pub open spec fn ascii_alphanumeric(c: char) -> bool {
    ('0' <= c && c <= '9') || ('a' <= c && c <= 'z') || ('A' <= c && c <= 'Z')
}

fn is_ascii_alphanumeric(c: char) -> (yes: bool)
    ensures
        yes == ascii_alphanumeric(c),
{
    ('0' <= c && c <= '9') || ('a' <= c && c <= 'z') || ('A' <= c && c <= 'Z')
}

/// A text without the full stops at its end.
pub open spec fn without_trailing_dots(text: Seq<char>) -> Seq<char>
    decreases text.len(),
{
    if text.len() > 0 && text.last() == '.' {
        without_trailing_dots(text.drop_last())
    } else {
        text
    }
}

/// How many characters the label has that ends where the first `n` characters end.
pub open spec fn label_len(text: Seq<char>, n: nat) -> nat
    decreases n,
{
    if n == 0 || text[n - 1] == '.' {
        0
    } else {
        label_len(text, (n - 1) as nat) + 1
    }
}

/// Labels of letters, digits and hyphens with a full stop between any two. Each has one to
/// sixty-three characters and neither begins nor ends with a hyphen.
pub open spec fn dns_labels(text: Seq<char>) -> bool {
    &&& text.len() > 0
    &&& forall|i: int|
        0 <= i < text.len() ==> ascii_alphanumeric(#[trigger] text[i]) || text[i] == '-' || text[i]
            == '.'
    &&& ascii_alphanumeric(text[0])
    &&& ascii_alphanumeric(text.last())
    &&& forall|i: int|
        0 <= i < text.len() && #[trigger] text[i] == '.' ==> 0 < i < text.len() - 1
            && ascii_alphanumeric(text[i - 1]) && ascii_alphanumeric(text[i + 1])
    &&& forall|n: nat| n <= text.len() ==> #[trigger] label_len(text, n) <= 63
}

/// A name that a certificate can be for.
pub open spec fn dns_name(name: AddressText) -> bool {
    name.text@.len() <= 253 && name.address is None && dns_labels(
        without_trailing_dots(name.text@),
    )
}

fn are_dns_labels(chars: &Vec<char>) -> (valid: bool)
    ensures
        valid == dns_labels(chars@),
{
    let count: usize = chars.len();
    if count == 0 || !is_ascii_alphanumeric(chars[0]) || !is_ascii_alphanumeric(chars[count - 1]) {
        return false;
    }
    let mut length: usize = 0;
    let mut i: usize = 0;
    while i < count
        invariant
            count == chars@.len(),
            i <= count,
            length <= i,
            length == label_len(chars@, i as nat),
            ascii_alphanumeric(chars@[0]),
            ascii_alphanumeric(chars@[count - 1]),
            forall|k: int|
                0 <= k < i ==> ascii_alphanumeric(#[trigger] chars@[k]) || chars@[k] == '-'
                    || chars@[k] == '.',
            forall|k: int|
                0 <= k < i && #[trigger] chars@[k] == '.' ==> 0 < k < count - 1
                    && ascii_alphanumeric(chars@[k - 1]) && ascii_alphanumeric(chars@[k + 1]),
            forall|n: nat| n <= i ==> #[trigger] label_len(chars@, n) <= 63,
        decreases count - i,
    {
        let c: char = chars[i];
        if !is_ascii_alphanumeric(c) && c != '-' && c != '.' {
            proof {
                assert(!(ascii_alphanumeric(chars@[i as int]) || chars@[i as int] == '-'
                    || chars@[i as int] == '.'));
            }
            return false;
        }
        if c == '.' {
            if !is_ascii_alphanumeric(chars[i - 1]) || !is_ascii_alphanumeric(chars[i + 1]) {
                proof {
                    assert(chars@[i as int] == '.');
                }
                return false;
            }
            length = 0;
        } else {
            length += 1;
            if length > 63 {
                proof {
                    assert(label_len(chars@, (i + 1) as nat) > 63);
                }
                return false;
            }
        }
        i += 1;
    }
    true
}

fn trim_dots(text: &str) -> (trimmed: Vec<char>)
    ensures
        trimmed@ == without_trailing_dots(text@),
{
    let mut chars = chars_of(text);
    while chars.len() > 0 && chars[chars.len() - 1] == '.'
        invariant
            without_trailing_dots(text@) == without_trailing_dots(chars@),
        decreases chars@.len(),
    {
        chars.pop();
    }
    chars
}

/// Whether a name is one that a certificate can be for.
pub fn valid_dns_name(name: &AddressText) -> (valid: bool)
    ensures
        valid == dns_name(*name),
{
    name.text.as_str().unicode_len() <= 253 && name.address.is_none() && are_dns_labels(
        &trim_dots(&name.text),
    )
}

pub open spec fn name_text(name: Option<AddressText>) -> Option<Seq<char>> {
    match name {
        Some(given) => Some(given.text@),
        None => None,
    }
}

/// The settings of a direct provider, from the command line before the file.
pub struct DirectSettings {
    pub target: Option<AddressText>,
    pub download: Option<String>,
    pub upload: Option<String>,
    pub tls_server_name: Option<AddressText>,
    pub ca_cert: Option<String>,
    pub allow_insecure: bool,
}

/// The settings of a direct provider that the command line and the file come to.
pub open spec fn direct_settings(options: Options, file: FileDirect) -> DirectSettings {
    DirectSettings {
        target: first_of(options.ndt_target, file.target),
        download: first_of(options.ndt_download_url, file.download_url),
        upload: first_of(options.ndt_upload_url, file.upload_url),
        tls_server_name: first_of(options.ndt_tls_server_name, file.tls_server_name),
        ca_cert: first_of(options.ndt_ca_cert, file.ca_cert),
        allow_insecure: options.allow_insecure_ndt || file.allow_insecure == Some(true),
    }
}

impl DirectSettings {
    /// The endpoints that the settings name.
    pub open spec fn urls(self) -> Option<(UrlView, UrlView)> {
        match self.target {
            Some(target) => target_urls(target),
            None => match (parsed_url(self.download->0@), parsed_url(self.upload->0@)) {
                (Some(download), Some(upload)) => Some((download, upload)),
                _ => None,
            },
        }
    }

    /// What forbids to name endpoints as the settings do.
    pub open spec fn choice_fault(self) -> Option<Seq<char>> {
        if self.target is Some && (self.download is Some || self.upload is Some) {
            Some("direct target and explicit download/upload URLs are mutually exclusive"@)
        } else if (self.download is Some) != (self.upload is Some) {
            Some("direct download and upload URLs must be supplied together"@)
        } else if self.target is None && self.download is None {
            Some("direct provider requires a target or download/upload URL pair"@)
        } else {
            None
        }
    }

    /// What is wrong with the endpoints themselves.
    pub open spec fn url_fault(self) -> Option<Seq<char>> {
        match self.target {
            Some(target) => if target_urls(target) is None {
                Some(bad_target(target))
            } else {
                None
            },
            None => first_of(
                ndt_url_fault(
                    "direct download URL"@,
                    parsed_url(self.download->0@),
                    self.allow_insecure,
                ),
                ndt_url_fault(
                    "direct upload URL"@,
                    parsed_url(self.upload->0@),
                    self.allow_insecure,
                ),
            ),
        }
    }

    /// What is wrong with the settings for encryption.
    pub open spec fn tls_fault(self) -> Option<Seq<char>> {
        let (download, upload) = self.urls()->0;
        if (download.scheme == "ws"@ || upload.scheme == "ws"@) && !self.allow_insecure {
            Some("plain ws:// requires the explicit --allow-insecure-ndt opt-in"@)
        } else if self.tls_server_name is Some && !dns_name(self.tls_server_name->0) {
            Some("invalid TLS server name: "@ + self.tls_server_name->0.text@)
        } else if self.tls_server_name is Some && download.scheme != "wss"@ {
            Some("TLS server name requires wss:// direct endpoints"@)
        } else if self.ca_cert is Some && download.scheme != "wss"@ {
            Some("a private CA certificate requires wss:// direct endpoints"@)
        } else {
            None
        }
    }

    /// The first thing that is wrong with the settings.
    pub open spec fn fault(self) -> Option<Seq<char>> {
        first_of(self.choice_fault(), first_of(self.url_fault(), self.tls_fault()))
    }

    /// The provider that the settings describe.
    pub open spec fn describes(self, directory: Seq<char>, config: DirectConfig) -> bool {
        &&& text_view(config.target) == name_text(self.target)
        &&& self.urls() == Some((config.download_url@, config.upload_url@))
        &&& text_view(config.tls_server_name) == name_text(self.tls_server_name)
        &&& text_view(config.ca_cert) == (match self.ca_cert {
            Some(path) => Some(path_below(directory, path@)),
            None => None,
        })
        &&& config.allow_insecure == self.allow_insecure
    }

    /// Checks the settings and makes the provider of them.
    pub fn resolve(&self, directory: &str) -> (config: Result<DirectConfig, ConfigError>)
        ensures
            match config {
                Ok(config) => self.fault() is None && self.describes(directory@, config),
                Err(error) => self.fault() == Some(error.message@),
            },
    {
        if self.target.is_some() && (self.download.is_some() || self.upload.is_some()) {
            return Err(
                error("direct target and explicit download/upload URLs are mutually exclusive"),
            );
        }
        if self.download.is_some() != self.upload.is_some() {
            return Err(error("direct download and upload URLs must be supplied together"));
        }
        if self.target.is_none() && self.download.is_none() {
            return Err(error("direct provider requires a target or download/upload URL pair"));
        }
        let (download_url, upload_url) = match (&self.target, &self.download, &self.upload) {
            (Some(target), _, _) => match direct_target_urls(target) {
                Ok(urls) => urls,
                Err(error) => {
                    return Err(error);
                },
            },
            (None, Some(download), Some(upload)) => {
                let download = match parse_ndt_url(
                    "direct download URL",
                    download,
                    self.allow_insecure,
                ) {
                    Ok(url) => url,
                    Err(error) => {
                        return Err(error);
                    },
                };
                let upload = match parse_ndt_url("direct upload URL", upload, self.allow_insecure) {
                    Ok(url) => url,
                    Err(error) => {
                        return Err(error);
                    },
                };
                (download, upload)
            },
            _ => {
                return Err(
                    error("direct provider requires a target or download/upload URL pair"),
                );
            },
        };
        if (same_text(&download_url.scheme, "ws") || same_text(&upload_url.scheme, "ws"))
            && !self.allow_insecure {
            return Err(error("plain ws:// requires the explicit --allow-insecure-ndt opt-in"));
        }
        let encrypted: bool = same_text(&download_url.scheme, "wss");
        if let Some(name) = &self.tls_server_name {
            if !valid_dns_name(name) {
                return Err(
                    ConfigError {
                        message: "invalid TLS server name: ".to_owned().concat(&name.text),
                    },
                );
            }
            if !encrypted {
                return Err(error("TLS server name requires wss:// direct endpoints"));
            }
        }
        let ca_cert = match &self.ca_cert {
            Some(path) => {
                if !encrypted {
                    return Err(
                        error("a private CA certificate requires wss:// direct endpoints"),
                    );
                }
                Some(make_absolute(path, directory))
            },
            None => None,
        };
        Ok(
            DirectConfig {
                target: match &self.target {
                    Some(target) => Some(target.text.clone()),
                    None => None,
                },
                download_url,
                upload_url,
                tls_server_name: match &self.tls_server_name {
                    Some(name) => Some(name.text.clone()),
                    None => None,
                },
                ca_cert,
                allow_insecure: self.allow_insecure,
            },
        )
    }
}

fn clone_address(given: &AddressText) -> (copy: AddressText)
    ensures
        copy == *given,
{
    AddressText {
        text: given.text.clone(),
        address: match &given.address {
            Some(address) => Some(address.clone()),
            None => None,
        },
    }
}

fn first_address(first: &Option<AddressText>, second: &Option<AddressText>) -> (given: Option<
    AddressText,
>)
    ensures
        given == first_of(*first, *second),
{
    match first {
        Some(given) => Some(clone_address(given)),
        None => match second {
            Some(given) => Some(clone_address(given)),
            None => None,
        },
    }
}

/// Makes the direct provider that the command line and the file describe.
pub fn resolve_direct(options: &Options, file: &FileDirect, context: &ResolveContext) -> (config:
    Result<DirectConfig, ConfigError>)
    ensures
        match config {
            Ok(config) => {
                &&& direct_settings(*options, *file).fault() is None
                &&& direct_settings(*options, *file).describes(context.current_dir@, config)
            },
            Err(error) => direct_settings(*options, *file).fault() == Some(error.message@),
        },
{
    let insecure: bool = match file.allow_insecure {
        Some(allowed) => allowed,
        None => false,
    };
    let settings = DirectSettings {
        target: first_address(&options.ndt_target, &file.target),
        download: first_text(&options.ndt_download_url, &file.download_url),
        upload: first_text(&options.ndt_upload_url, &file.upload_url),
        tls_server_name: first_address(&options.ndt_tls_server_name, &file.tls_server_name),
        ca_cert: first_text(&options.ndt_ca_cert, &file.ca_cert),
        allow_insecure: options.allow_insecure_ndt || insecure,
    };
    settings.resolve(&context.current_dir)
}

} // verus!
