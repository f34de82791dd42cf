//! Which endpoints a direct provider has, and which are refused.
use super::direct::{
    ascii_alphanumeric, blank, check_http_url, check_ndt_url, direct_provider_id,
    direct_target_urls, dns_labels, endpoint_identity, label_len, valid_dns_name,
    without_trailing_dots,
};
use super::environment::{
    PathFacts, check_interfaces, first_absent, has_name, validate_certificate, validate_directory,
};
use super::laws::asks_direct;
use super::resolve::resolve;
use super::{
    AddressText, ConfigError, DirectConfig, FileConfig, ResolveContext, ResolvedConfig,
};
use crate::cli::Cli;
use crate::endpoint::{Url, UrlView, parsed_url};
use crate::text::{dec, text_view};
use vstd::prelude::*;

verus! {

/// The character stands in the text.
pub open spec fn holds(text: Seq<char>, c: char) -> bool {
    exists|i: int| 0 <= i < text.len() && text[i] == c
}

/// The URL that a target stands for.
pub open spec fn stands_for(target: AddressText) -> Seq<char> {
    if target.address is None {
        "wss://"@ + target.text@
    } else if target.address->0.ip is V6 {
        "wss://["@ + target.address->0.text@ + "]"@
    } else {
        "wss://"@ + target.address->0.text@
    }
}

/// A target gives two encrypted endpoints, one for each direction, if it is the name or address of
/// a host and nothing more; otherwise it is refused by its text.
pub proof fn law_target_has_two_endpoints(
    target: AddressText,
    result: Result<(Url, Url), ConfigError>,
)
    requires
        call_ensures(direct_target_urls, (&target,), result),
    ensures
        result is Ok ==> {
            let base = parsed_url(stands_for(target));
            &&& !blank(target.text@)
            &&& !holds(target.text@, '/') && !holds(target.text@, '?') && !holds(target.text@, '#')
            &&& base is Some
            &&& base->0.host is Some
            &&& base->0.username.len() == 0
            &&& base->0.password is None
            &&& parsed_url(base->0.before_path + "/ndt/v7/download"@) == Some((result->Ok_0).0@)
            &&& parsed_url(base->0.before_path + "/ndt/v7/upload"@) == Some((result->Ok_0).1@)
        },
        result is Err ==> {
            let base = parsed_url(stands_for(target));
            &&& result->Err_0.message@ == "invalid direct target: "@ + target.text@
            &&& blank(target.text@) || holds(target.text@, '/') || holds(target.text@, '?')
                || holds(target.text@, '#') || base is None || base->0.host is None
                || base->0.username.len() > 0 || base->0.password is Some || parsed_url(
                base->0.before_path + "/ndt/v7/download"@,
            ) is None || parsed_url(base->0.before_path + "/ndt/v7/upload"@) is None
        },
{
    assert(target.text@.contains('/') == holds(target.text@, '/'));
    assert(target.text@.contains('?') == holds(target.text@, '?'));
    assert(target.text@.contains('#') == holds(target.text@, '#'));
}

/// An endpoint is taken if it is a WebSocket with a host and nothing secret, and unencrypted only
/// with leave.
pub proof fn law_endpoint_is_a_websocket(
    name: &str,
    parsed: Option<Url>,
    allow_insecure: bool,
    result: Result<Url, ConfigError>,
)
    requires
        call_ensures(check_ndt_url, (name, parsed, allow_insecure), result),
    ensures
        result is Ok <==> {
            &&& parsed is Some
            &&& parsed->0.scheme@ == "wss"@ || (parsed->0.scheme@ == "ws"@ && allow_insecure)
            &&& parsed->0.host is Some
            &&& parsed->0.username@.len() == 0
            &&& parsed->0.password is None
            &&& parsed->0.fragment is None
        },
        result is Ok ==> result->Ok_0 == parsed->0,
{
    reveal_strlit("wss");
    reveal_strlit("ws");
    assert("wss"@.len() != "ws"@.len());
}

/// A web address is taken if it has a host and nothing secret.
pub proof fn law_address_is_of_the_web(
    name: &str,
    parsed: Option<Url>,
    result: Result<Url, ConfigError>,
)
    requires
        call_ensures(check_http_url, (name, parsed), result),
    ensures
        result is Ok <==> {
            &&& parsed is Some
            &&& parsed->0.scheme@ == "http"@ || parsed->0.scheme@ == "https"@
            &&& parsed->0.host is Some
            &&& parsed->0.username@.len() == 0
            &&& parsed->0.password is None
            &&& parsed->0.fragment is None
        },
        result is Ok ==> result->Ok_0 == parsed->0,
{
}

/// A letter or a digit.
pub open spec fn letter_or_digit(c: char) -> bool {
    ('0' <= c && c <= '9') || ('a' <= c && c <= 'z') || ('A' <= c && c <= 'Z')
}

/// No full stop stands between the two places.
pub open spec fn one_label(text: Seq<char>, from: int, to: int) -> bool {
    forall|i: int| from <= i < to ==> #[trigger] text[i] != '.'
}

/// Labels with full stops between them: each begins and ends with a letter or a digit, holds
/// letters, digits and hyphens, and has sixty-three characters at most.
pub open spec fn of_labels(text: Seq<char>) -> bool {
    &&& text.len() > 0
    &&& letter_or_digit(text[0])
    &&& letter_or_digit(text[text.len() - 1])
    &&& forall|i: int|
        0 <= i < text.len() ==> letter_or_digit(#[trigger] text[i]) || text[i] == '-' || text[i]
            == '.'
    &&& forall|i: int|
        0 < i < text.len() - 1 && #[trigger] text[i] == '.' ==> letter_or_digit(text[i - 1])
            && letter_or_digit(text[i + 1])
    &&& forall|from: int, to: int|
        0 <= from <= to <= text.len() && #[trigger] one_label(text, from, to) ==> to - from <= 63
}

proof fn lemma_label(text: Seq<char>, n: nat)
    requires
        n <= text.len(),
    ensures
        label_len(text, n) <= n,
        one_label(text, n - label_len(text, n), n as int),
        n > label_len(text, n) ==> text[n - label_len(text, n) - 1] == '.',
    decreases n,
{
    if n > 0 && text[n - 1] != '.' {
        lemma_label(text, (n - 1) as nat);
        let from = n - label_len(text, n);
        assert forall|i: int| from <= i < n implies #[trigger] text[i] != '.' by {
            if i < n - 1 {
                assert(one_label(text, from, n - 1));
            }
        }
    }
}

proof fn lemma_of_labels(text: Seq<char>)
    ensures
        of_labels(text) == dns_labels(text),
{
    if of_labels(text) {
        assert forall|n: nat| n <= text.len() implies #[trigger] label_len(text, n) <= 63 by {
            lemma_label(text, n);
            assert(one_label(text, n - label_len(text, n), n as int));
        }
        assert forall|i: int| 0 <= i < text.len() && #[trigger] text[i] == '.' implies 0 < i
            < text.len() - 1 && ascii_alphanumeric(text[i - 1]) && ascii_alphanumeric(
            text[i + 1],
        ) by {
            assert(i != 0 && i != text.len() - 1);
        }
        assert forall|i: int| 0 <= i < text.len() implies ascii_alphanumeric(#[trigger] text[i])
            || text[i] == '-' || text[i] == '.' by {
            assert(letter_or_digit(text[i]) || text[i] == '-' || text[i] == '.');
        }
    }
    if dns_labels(text) {
        assert forall|from: int, to: int|
            0 <= from <= to <= text.len() && #[trigger] one_label(text, from, to) implies to - from
            <= 63 by {
            lemma_label(text, to as nat);
            assert(label_len(text, to as nat) <= 63);
            let start = to - label_len(text, to as nat);
            if from < start {
                assert(text[start - 1] == '.');
            }
        }
    }
}

proof fn lemma_dots(text: Seq<char>)
    ensures
        without_trailing_dots(text).len() <= text.len(),
        without_trailing_dots(text) == text.take(without_trailing_dots(text).len() as int),
        forall|i: int|
            without_trailing_dots(text).len() <= i < text.len() ==> #[trigger] text[i] == '.',
        without_trailing_dots(text).len() > 0 ==> without_trailing_dots(text).last() != '.',
    decreases text.len(),
{
    if text.len() > 0 && text.last() == '.' {
        let fewer = text.drop_last();
        lemma_dots(fewer);
        let kept = without_trailing_dots(text);
        assert(text.take(kept.len() as int) =~= fewer.take(kept.len() as int));
        assert forall|i: int| kept.len() <= i < text.len() implies #[trigger] text[i] == '.' by {
            if i < fewer.len() {
                assert(fewer[i] == '.');
            }
        }
    } else {
        assert(text.take(text.len() as int) =~= text);
    }
}

/// A server's name is valid if it is no address, has 253 characters at most, and is made of labels
/// once the full stops at its end are left off.
pub proof fn law_server_name_is_made_of_labels(name: AddressText, valid: bool, kept: int)
    requires
        call_ensures(valid_dns_name, (&name,), valid),
        0 <= kept <= name.text@.len(),
        forall|i: int| kept <= i < name.text@.len() ==> #[trigger] name.text@[i] == '.',
        kept > 0 ==> name.text@[kept - 1] != '.',
    ensures
        valid <==> name.address is None && name.text@.len() <= 253 && of_labels(
            name.text@.take(kept),
        ),
{
    let text = name.text@;
    lemma_dots(text);
    let trimmed = without_trailing_dots(text);
    assert(trimmed.len() == kept) by {
        if trimmed.len() < kept {
            assert(text[kept - 1] == '.');
        } else if trimmed.len() > kept {
            assert(trimmed.last() == text[trimmed.len() - 1]);
        }
    }
    lemma_of_labels(trimmed);
}

/// Two hosts are the same but for the case of their letters.
pub open spec fn same_host(one: Option<Seq<char>>, other: Option<Seq<char>>) -> bool {
    &&& one is Some <==> other is Some
    &&& one is Some ==> same_letters(one->0, other->0)
}

/// Two texts are the same but for the case of their ASCII letters.
pub open spec fn same_letters(one: Seq<char>, other: Seq<char>) -> bool {
    &&& one.len() == other.len()
    &&& forall|i: int|
        0 <= i < one.len() ==> #[trigger] one[i] == other[i] || ('A' <= one[i] && one[i] <= 'Z'
            && other[i] == ((one[i] as u32) + 32) as char) || ('A' <= other[i] && other[i] <= 'Z'
            && one[i] == ((other[i] as u32) + 32) as char)
}

proof fn lemma_same_letters(one: Seq<char>, other: Seq<char>)
    requires
        same_letters(one, other),
    ensures
        super::direct::lowered(one) == super::direct::lowered(other),
{
    assert(super::direct::lowered(one) =~= super::direct::lowered(other));
}

/// Two endpoints lead to the same place.
pub open spec fn same_endpoint(one: UrlView, other: UrlView) -> bool {
    &&& one.scheme == other.scheme
    &&& same_host(one.host, other.host)
    &&& one.known_port == other.known_port
    &&& one.path == other.path
}

proof fn lemma_same_identity(one: UrlView, other: UrlView)
    requires
        same_endpoint(one, other),
    ensures
        super::direct::identity(one) == super::direct::identity(other),
{
    if one.host is Some {
        lemma_same_letters(one.host->0, other.host->0);
    }
}

/// Providers whose endpoints lead to the same places under the same server name are accounted as
/// one, whatever else their URLs hold and whatever the case of their hosts.
pub proof fn law_same_endpoints_are_one_account(
    one: DirectConfig,
    other: DirectConfig,
    one_id: String,
    other_id: String,
)
    requires
        call_ensures(direct_provider_id, (&one,), one_id),
        call_ensures(direct_provider_id, (&other,), other_id),
        same_endpoint(one.download_url@, other.download_url@),
        same_endpoint(one.upload_url@, other.upload_url@),
        same_host(text_view(one.tls_server_name), text_view(other.tls_server_name)),
    ensures
        one_id@ == other_id@,
{
    lemma_same_identity(one.download_url@, other.download_url@);
    lemma_same_identity(one.upload_url@, other.upload_url@);
    if one.tls_server_name is Some {
        lemma_same_letters(one.tls_server_name->0@, other.tls_server_name->0@);
    }
}

/// What tells an endpoint from others begins with its scheme and its host, and ends with its port
/// and its path.
pub proof fn law_endpoint_is_known_by_its_place(url: Url, text: String)
    requires
        call_ensures(endpoint_identity, (&url,), text),
    ensures
        ({
            let start = url.scheme@ + "://"@;
            let host = if url.host is Some {
                url.host->0@
            } else {
                Seq::empty()
            };
            let end = ":"@ + dec(
                if url.known_port is Some {
                    url.known_port->0 as nat
                } else {
                    0
                },
            ) + url.path@;
            &&& text@.len() == start.len() + host.len() + end.len()
            &&& text@.take(start.len() as int) == start
            &&& text@.skip((start.len() + host.len()) as int) == end
            &&& same_letters(
                host,
                text@.subrange(start.len() as int, (start.len() + host.len()) as int),
            )
        }),
{
    let start = url.scheme@ + "://"@;
    let host = if url.host is Some {
        url.host->0@
    } else {
        Seq::empty()
    };
    let end = ":"@ + dec(
        if url.known_port is Some {
            url.known_port->0 as nat
        } else {
            0
        },
    ) + url.path@;
    let low = super::direct::lowered(host);
    assert(super::direct::lowered(Seq::empty()) =~= Seq::<char>::empty());
    assert(text@ =~= start + low + end);
    assert(text@.take(start.len() as int) =~= start);
    assert(text@.skip((start.len() + host.len()) as int) =~= end);
    assert(text@.subrange(start.len() as int, (start.len() + host.len()) as int) =~= low);
}

/// A direct provider has the endpoints that are named, or those of its target; its server name, its
/// certificate and its leave to go unencrypted are those that were given. A whole test and its end
/// fit between two starts, and all of a day's tests into the day.
pub proof fn law_direct_provider_is_as_it_was_given(
    cli: Cli,
    file: FileConfig,
    context: ResolveContext,
    config: ResolvedConfig,
)
    requires
        call_ensures(resolve, (&cli, &file, &context), Ok::<ResolvedConfig, ConfigError>(config)),
        asks_direct(cli.options, file.bandwidth),
    ensures
        config.bandwidth.provider is Direct,
        ({
            let direct = config.bandwidth.provider->Direct_0;
            let o = cli.options;
            let f = file.bandwidth.direct;
            let target = if o.ndt_target is Some {
                o.ndt_target
            } else {
                f.target
            };
            let download = if o.ndt_download_url is Some {
                o.ndt_download_url
            } else {
                f.download_url
            };
            let upload = if o.ndt_upload_url is Some {
                o.ndt_upload_url
            } else {
                f.upload_url
            };
            let server = if o.ndt_tls_server_name is Some {
                o.ndt_tls_server_name
            } else {
                f.tls_server_name
            };
            let certificate = if o.ndt_ca_cert is Some {
                o.ndt_ca_cert
            } else {
                f.ca_cert
            };
            &&& direct.allow_insecure <==> o.allow_insecure_ndt || f.allow_insecure == Some(true)
            &&& target is Some <==> direct.target is Some
            &&& target is Some ==> direct.target->0@ == target->0.text@ && download is None
                && upload is None
            &&& target is None ==> {
                &&& download is Some && upload is Some
                &&& parsed_url(download->0@) == Some(direct.download_url@)
                &&& parsed_url(upload->0@) == Some(direct.upload_url@)
            }
            &&& server is Some <==> direct.tls_server_name is Some
            &&& server is Some ==> direct.tls_server_name->0@ == server->0.text@
                && direct.download_url.scheme@ == "wss"@
            &&& certificate is Some <==> direct.ca_cert is Some
            &&& certificate is Some ==> direct.download_url.scheme@ == "wss"@
                && super::laws::leads_to(
                context.current_dir@,
                certificate->0@,
                direct.ca_cert->0@,
            )
            &&& direct.download_url.scheme@ == "ws"@ || direct.upload_url.scheme@ == "ws"@
                ==> direct.allow_insecure
            &&& o.mlab_locate_url is None && file.bandwidth.mlab.locate_url is None
            &&& !o.accept_mlab_policy && file.bandwidth.accept_mlab_policy != Some(true)
        }),
        config.bandwidth.whole_test_timeout.nanos + config.bandwidth.shutdown_margin.nanos
            <= config.bandwidth.min_spacing.nanos,
        config.bandwidth.min_spacing.nanos >= 60_000_000_000,
        config.bandwidth.daily_max * (config.bandwidth.min_spacing.nanos / 1_000_000_000) <= 86_400
            || config.bandwidth.daily_max == 0,
{
    let o = cli.options;
    let f = file.bandwidth.direct;
    if o.ndt_ca_cert is Some {
        super::laws::lemma_leads_to(context.current_dir@, o.ndt_ca_cert->0@);
    } else if f.ca_cert is Some {
        super::laws::lemma_leads_to(context.current_dir@, f.ca_cert->0@);
    }
    let most = config.bandwidth.daily_max as int;
    let apart = config.bandwidth.min_spacing.nanos as int / 1_000_000_000;
    if most > 0 {
        assert(apart > 0);
        let capped = config.bandwidth.min_spacing.secs_capped() as int;
        assert(most <= 86_400int / capped);
        assert(most * capped <= 86_400) by (nonlinear_arith)
            requires
                0 < most <= 86_400int / capped,
                capped > 0,
        ;
        if capped != apart {
            assert(86_400int / capped == 0);
        }
    }
}

/// A machine is fit if it has every interface that is configured; the first that it lacks is named.
pub proof fn law_missing_interface_is_named(
    config: ResolvedConfig,
    available: Vec<String>,
    checked: Result<(), ConfigError>,
)
    requires
        call_ensures(check_interfaces, (&config, &available), checked),
    ensures
        checked is Ok <==> forall|i: int|
            0 <= i < config.interfaces@.len() ==> has_name(
                available@,
                (#[trigger] config.interfaces@[i])@,
            ),
        checked is Err ==> exists|i: int|
            {
                &&& 0 <= i < config.interfaces@.len()
                &&& !has_name(available@, (#[trigger] config.interfaces@[i])@)
                &&& checked->Err_0.message@ == "network interface does not exist: "@
                    + config.interfaces@[i]@
                &&& forall|k: int|
                    0 <= k < i ==> has_name(available@, (#[trigger] config.interfaces@[k])@)
            },
{
    lemma_absent(config.interfaces@, available@);
}

proof fn lemma_absent(configured: Seq<String>, available: Seq<String>)
    ensures
        first_absent(configured, available) is None <==> forall|i: int|
            0 <= i < configured.len() ==> has_name(available, (#[trigger] configured[i])@),
        first_absent(configured, available) is Some ==> exists|i: int|
            {
                &&& 0 <= i < configured.len()
                &&& !has_name(available, (#[trigger] configured[i])@)
                &&& first_absent(configured, available)->0 == configured[i]@
                &&& forall|k: int|
                    0 <= k < i ==> has_name(available, (#[trigger] configured[k])@)
            },
    decreases configured.len(),
{
    if configured.len() > 0 {
        let rest = configured.drop_first();
        lemma_absent(rest, available);
        assert(forall|i: int| 0 <= i < rest.len() ==> #[trigger] rest[i] == configured[i + 1]);
        if has_name(available, configured[0]@) {
            if first_absent(rest, available) is None {
                assert forall|i: int| 0 <= i < configured.len() implies has_name(
                    available,
                    (#[trigger] configured[i])@,
                ) by {
                    if i > 0 {
                        assert(has_name(available, rest[i - 1]@));
                    }
                }
            } else {
                let i = choose|i: int|
                    {
                        &&& 0 <= i < rest.len()
                        &&& !has_name(available, (#[trigger] rest[i])@)
                        &&& first_absent(rest, available)->0 == rest[i]@
                        &&& forall|k: int|
                            0 <= k < i ==> has_name(available, (#[trigger] rest[k])@)
                    };
                assert forall|k: int| 0 <= k < i + 1 implies has_name(
                    available,
                    (#[trigger] configured[k])@,
                ) by {
                    if k > 0 {
                        assert(has_name(available, rest[k - 1]@));
                    }
                }
                assert(!has_name(available, configured[i + 1]@));
            }
        }
    }
}

/// A directory that is to be written to has to be there, to be one, and not to be read-only; a
/// certificate has to be a file that can be read.
pub proof fn law_places_have_to_be_usable(
    name: &str,
    path: &str,
    facts: Result<PathFacts, String>,
    directory: Result<(), ConfigError>,
    certificate: Result<(), ConfigError>,
)
    requires
        call_ensures(validate_directory, (name, path, &facts), directory),
        call_ensures(validate_certificate, (path, &facts), certificate),
    ensures
        directory is Ok <==> facts is Ok && facts->Ok_0.is_directory && !facts->Ok_0.read_only,
        certificate is Ok <==> facts is Ok && facts->Ok_0.is_file,
{
}

} // verus!
