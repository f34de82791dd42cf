//! What holds of finding servers, told by what was configured and what M-Lab replied.
use crate::config::{BandwidthConfig, ProviderConfig};
use crate::endpoint::{Url, parsed_url};
use crate::model::{ErrorKind, Outcome, ProviderKind, RequestStage};
use crate::provider::{
    CandidateView, EndpointResolution, FailureView, LocateError, LocateReply, LocateResult,
    RequestFailure, ResolutionPlan, RetryAfter, all_digits, asked_resolution, candidate_views,
    failure_views, http_date, locate_failure, locate_status_failure, located, located_candidates,
    located_failures, number, parse_locate_candidates, parse_retry_after_value, plan_resolution,
    resolve_mlab, retry_detail, stamp_resolution, trimmed,
};
use crate::sanitize::whitespace;
use crate::string_map::lookup;
use crate::text::{dec, digit, text_view};
use crate::time::{Timestamp, MAX_UTC_NANOS};
use vstd::prelude::*;

verus! {

/// Nothing but white space.
pub open spec fn blank(text: Seq<char>) -> bool {
    forall|i: int| 0 <= i < text.len() ==> whitespace(#[trigger] text[i])
}

/// A text that neither begins nor ends with white space.
pub open spec fn bare(text: Seq<char>) -> bool {
    text.len() > 0 && !whitespace(text[0]) && !whitespace(text.last())
}

proof fn lemma_trimmed(lead: Seq<char>, core: Seq<char>, tail: Seq<char>)
    requires
        blank(lead),
        blank(tail),
        bare(core),
    ensures
        trimmed(lead + core + tail) == core,
    decreases lead.len() + tail.len(),
{
    let text = lead + core + tail;
    if lead.len() > 0 {
        assert(text[0] == lead[0]);
        assert(text.drop_first() =~= lead.drop_first() + core + tail);
        assert(blank(lead.drop_first())) by {
            assert forall|i: int| 0 <= i < lead.drop_first().len() implies whitespace(
                #[trigger] lead.drop_first()[i],
            ) by {
                assert(lead.drop_first()[i] == lead[i + 1]);
            }
        }
        lemma_trimmed(lead.drop_first(), core, tail);
    } else {
        assert(text[0] == core[0]);
        if tail.len() > 0 {
            assert(text.last() == tail.last());
            assert(whitespace(tail[tail.len() - 1]));
            assert(text.drop_last() =~= lead + core + tail.drop_last());
            assert(blank(tail.drop_last())) by {
                assert forall|i: int| 0 <= i < tail.drop_last().len() implies whitespace(
                    #[trigger] tail.drop_last()[i],
                ) by {
                    assert(tail.drop_last()[i] == tail[i]);
                }
            }
            lemma_trimmed(lead, core, tail.drop_last());
        } else {
            assert(text =~= core);
        }
    }
}

proof fn lemma_digits_are_bare(c: char)
    requires
        '0' <= c <= '9',
    ensures
        !whitespace(c),
{
}

proof fn lemma_number_of_digits(n: nat)
    ensures
        all_digits(dec(n)),
        number(dec(n)) == n,
    decreases n,
{
    reveal_with_fuel(number, 2);
    if n < 10 {
        assert(dec(n).drop_last() =~= Seq::empty());
    } else {
        lemma_number_of_digits(n / 10);
        let head = dec(n / 10);
        assert(dec(n) == head.push(digit(n % 10)));
        assert(dec(n).drop_last() =~= head);
        assert forall|i: int| 0 <= i < dec(n).len() implies '0' <= #[trigger] dec(n)[i] && dec(
            n,
        )[i] <= '9' by {
            if i < head.len() {
                assert(dec(n)[i] == head[i]);
            }
        }
    }
}

/// The end of a delay behind an instant, at most the last instant that can be told.
pub open spec fn ends_at(deadline: Timestamp, received_at: Timestamp, nanos: int) -> bool {
    deadline.nanos == if received_at.nanos + nanos <= MAX_UTC_NANOS {
        received_at.nanos + nanos
    } else {
        MAX_UTC_NANOS as int
    }
}

/// A server that asks to wait for a number of seconds is given that delay, whatever white space is
/// around the number.
pub proof fn law_seconds_to_wait_are_read(
    value: &str,
    received_at: Timestamp,
    retry: Option<RetryAfter>,
    seconds: u64,
    lead: Seq<char>,
    tail: Seq<char>,
)
    requires
        call_ensures(parse_retry_after_value, (value, received_at), retry),
        value@ == lead + dec(seconds as nat) + tail,
        blank(lead),
        blank(tail),
    ensures
        retry is Some,
        retry->0.delay.nanos == seconds * 1_000_000_000,
        ends_at(retry->0.deadline, received_at, seconds * 1_000_000_000),
{
    let core = dec(seconds as nat);
    lemma_number_of_digits(seconds as nat);
    crate::text::lemma_dec_starts_with_a_digit(seconds as nat);
    lemma_digits_are_bare(core[0]);
    assert('0' <= core[core.len() - 1] && core[core.len() - 1] <= '9');
    lemma_digits_are_bare(core.last());
    lemma_trimmed(lead, core, tail);
}

/// A server that names a date is asked again then; a date that is past asks for no delay. A text
/// that is neither a number nor a date asks for nothing.
pub proof fn law_date_to_wait_for_is_read(
    value: &str,
    received_at: Timestamp,
    retry: Option<RetryAfter>,
    lead: Seq<char>,
    core: Seq<char>,
    tail: Seq<char>,
)
    requires
        call_ensures(parse_retry_after_value, (value, received_at), retry),
        value@ == lead + core + tail,
        blank(lead),
        blank(tail),
        bare(core),
        exists|i: int| 0 <= i < core.len() && !('0' <= #[trigger] core[i] && core[i] <= '9'),
    ensures
        retry is Some <==> http_date(core) is Some,
        retry matches Some(found) ==> {
            let at = http_date(core)->0 * 1_000_000_000;
            &&& found.deadline.nanos == at
            &&& at > received_at.nanos ==> found.delay.nanos == at - received_at.nanos
            &&& at <= received_at.nanos ==> found.delay.nanos == 0
        },
{
    lemma_trimmed(lead, core, tail);
    let i = choose|i: int| 0 <= i < core.len() && !('0' <= #[trigger] core[i] && core[i] <= '9');
    assert(!all_digits(core)) by {
        assert(!('0' <= core[i] && core[i] <= '9'));
    }
}

/// Success is no failure. No capacity, a rate limit and a request to wait are told as such, and
/// any other status as an error. All of them reach the whole provider and carry the status and the
/// delay that was asked for.
pub proof fn law_status_is_told(
    status: u16,
    header_present: bool,
    retry_after: Option<RetryAfter>,
    received_at: Timestamp,
    locate_url: Url,
    failure: Option<RequestFailure>,
)
    requires
        call_ensures(
            locate_status_failure,
            (status, header_present, retry_after, received_at, &locate_url),
            failure,
        ),
    ensures
        failure is None <==> status == 200,
        failure matches Some(told) ==> {
            &&& told.outcome is NoCapacity <==> status == 204
            &&& told.outcome is RateLimited <==> status == 429 || (status == 503 && retry_after
                is Some)
            &&& told.outcome is NoCapacity || told.outcome is RateLimited || told.outcome is Error
            &&& told.http_status == Some(status)
            &&& told.retry_after == retry_after
            &&& told.stage is Locate
            &&& told.error_kind is HttpStatus
            &&& told.disposition is ProviderWide
            &&& told.attempt == 1
            &&& text_view(told.request_url) == Some(locate_url.text@)
            &&& told.started_at_utc == received_at
            &&& told.finished_at_utc == received_at
        },
{
    assert(failure is Some ==> crate::provider::failure_view(failure) == Some(failure->0@));
}

/// A server that M-Lab named can be used: it has both endpoints, and both are encrypted.
pub open spec fn usable(result: LocateResult) -> bool {
    let download = lookup(result.urls.entries(), "wss:///ndt/v7/download"@);
    let upload = lookup(result.urls.entries(), "wss:///ndt/v7/upload"@);
    &&& download is Some && upload is Some
    &&& parsed_url(download->0@) is Some && parsed_url(upload->0@) is Some
    &&& parsed_url(download->0@)->0.scheme == "wss"@
    &&& parsed_url(upload->0@)->0.scheme == "wss"@
}

/// What a test runs against: the endpoints that M-Lab gave for each direction, under the name of
/// the machine.
pub open spec fn usable_server(result: LocateResult, provider_id: Seq<char>) -> CandidateView {
    CandidateView {
        download_url: parsed_url(
            lookup(result.urls.entries(), "wss:///ndt/v7/download"@)->0@,
        )->0,
        upload_url: parsed_url(lookup(result.urls.entries(), "wss:///ndt/v7/upload"@)->0@)->0,
        logical_server: result.machine@,
        provider_id,
        provider_kind: ProviderKind::Mlab,
        tls_server_name: None,
        ca_cert: None,
        allow_insecure: false,
    }
}

proof fn lemma_usable_servers(
    results: Seq<LocateResult>,
    n: nat,
    provider_id: Seq<char>,
    locate_url: Seq<char>,
    now: Timestamp,
)
    requires
        n <= results.len(),
    ensures
        located_candidates(results, n, provider_id) == results.take(n as int).filter(
            |r: LocateResult| usable(r),
        ).map_values(|r: LocateResult| usable_server(r, provider_id)),
        located_failures(results, n, locate_url, now).len() == results.take(n as int).filter(
            |r: LocateResult| !usable(r),
        ).len(),
        forall|k: int|
            0 <= k < located_failures(results, n, locate_url, now).len() ==> {
                let failure = #[trigger] located_failures(results, n, locate_url, now)[k];
                &&& failure.stage is Locate
                &&& failure.error_kind is Protocol
                &&& failure.outcome is Error
                &&& failure.request_url == Some(locate_url)
            },
    decreases n,
{
    reveal(Seq::filter);
    let good = |r: LocateResult| usable(r);
    let bad = |r: LocateResult| !usable(r);
    let make = |r: LocateResult| usable_server(r, provider_id);
    if n > 0 {
        let m = (n - 1) as nat;
        lemma_usable_servers(results, m, provider_id, locate_url, now);
        assert(results.take(n as int).drop_last() =~= results.take(m as int));
        let last = results[n - 1];
        assert(results.take(n as int).last() == last);
        assert(located(last) is Ok <==> usable(last));
        let before = results.take(m as int).filter(good);
        if usable(last) {
            assert(before.push(last).map_values(make) =~= before.map_values(make).push(make(last)));
        }
    }
    assert(located_candidates(results, n, provider_id) =~= results.take(n as int).filter(
        good,
    ).map_values(make));
}

/// A test runs against every server that M-Lab named with both endpoints encrypted, in M-Lab's
/// order and on its endpoints, and against no other. Each of the others is told as a failure, and
/// so is that none is left.
pub proof fn law_named_servers_are_used(
    answer: Result<Vec<LocateResult>, String>,
    provider_id: &str,
    locate_url: Url,
    now: Timestamp,
    resolution: EndpointResolution,
)
    requires
        call_ensures(
            parse_locate_candidates,
            (&answer, provider_id, &locate_url, now),
            resolution,
        ),
    ensures
        answer matches Ok(results) ==> {
            &&& resolution@.candidates == results@.filter(
                |r: LocateResult| usable(r),
            ).map_values(|r: LocateResult| usable_server(r, provider_id@))
            &&& resolution@.failures.len() == results@.filter(|r: LocateResult| !usable(r)).len()
            &&& resolution.terminal is Some <==> results@.filter(
                |r: LocateResult| usable(r),
            ).len() == 0
        },
        answer is Err ==> {
            &&& resolution.candidates@.len() == 0
            &&& resolution.terminal is Some
        },
        resolution.terminal matches Some(failure) ==> {
            &&& failure.stage is Locate
            &&& failure.error_kind is Protocol
            &&& failure.outcome is Error
            &&& text_view(failure.request_url) == Some(locate_url.text@)
        },
{
    if answer is Ok {
        let results = answer->Ok_0@;
        lemma_usable_servers(results, results.len(), provider_id@, locate_url.text@, now);
        assert(results.take(results.len() as int) =~= results);
    } else {
        assert(candidate_views(resolution.candidates@).len() == resolution.candidates@.len());
    }
    if resolution.terminal is Some {
        assert(resolution@.terminal == Some(resolution.terminal->0@));
    }
}

/// A configured server is known without asking: it is the only one, on its own endpoints and with
/// its own terms. M-Lab is asked exactly if its policy was accepted; before that no server is
/// found, and it is said why.
pub proof fn law_only_accepted_providers_are_asked(
    config: BandwidthConfig,
    now: Timestamp,
    plan: ResolutionPlan,
)
    requires
        call_ensures(plan_resolution, (&config, now), plan),
    ensures
        config.provider matches ProviderConfig::Mlab(mlab) ==> {
            &&& plan is AskLocate <==> mlab.policy_accepted
            &&& plan matches ResolutionPlan::Known(found) ==> {
                &&& found.candidates@.len() == 0
                &&& found.terminal is Some
                &&& found.terminal->0.error_kind is PermissionDenied
                &&& found.terminal->0.stage is Locate
                &&& found.terminal->0.message@
                    == "M-Lab bandwidth requires explicit policy acceptance"@
            }
        },
        config.provider matches ProviderConfig::Direct(direct) ==> {
            &&& plan is Known
            &&& ({
                let found = plan->Known_0;
                let server = found.candidates@[0];
                &&& found.candidates@.len() == 1
                &&& found.failures@.len() == 0
                &&& found.terminal is None
                &&& server.download_url@ == direct.download_url@
                &&& server.upload_url@ == direct.upload_url@
                &&& server.provider_id@ == config.provider_id@
                &&& server.provider_kind is Direct
                &&& text_view(server.tls_server_name) == text_view(direct.tls_server_name)
                &&& text_view(server.ca_cert) == text_view(direct.ca_cert)
                &&& server.allow_insecure == direct.allow_insecure
                &&& direct.tls_server_name matches Some(name) ==> server.logical_server@ == name@
                &&& direct.tls_server_name is None && direct.download_url.host is Some
                    ==> server.logical_server@ == direct.download_url.host->0@
            })
        },
{
    if plan is Known {
        let found = plan->Known_0;
        assert(candidate_views(found.candidates@).len() == found.candidates@.len());
        assert(failure_views(found.failures@).len() == found.failures@.len());
        if found.candidates@.len() > 0 {
            assert(found@.candidates[0] == found.candidates@[0]@);
        }
        if found.terminal is Some {
            assert(found@.terminal == Some(found.terminal->0@));
        }
    }
}

/// What asking M-Lab comes to: servers only from an answer with the status of success, and
/// otherwise none. Every failure is told from when the asking began.
pub proof fn law_asking_comes_to_servers_or_a_reason(
    asked: Result<LocateReply, LocateError>,
    provider_id: &str,
    locate_url: Url,
    started_at: Timestamp,
    now: Timestamp,
    resolution: EndpointResolution,
)
    requires
        call_ensures(
            resolve_mlab,
            (asked, provider_id, &locate_url, started_at, now),
            resolution,
        ),
    ensures
        resolution.candidates@.len() > 0 ==> asked is Ok && asked->Ok_0.status == 200
            && asked->Ok_0.answer is Ok,
        asked is Ok && asked->Ok_0.status == 200 && asked->Ok_0.answer is Ok
            ==> resolution@.candidates == asked->Ok_0.answer->Ok_0@.filter(
            |r: LocateResult| usable(r),
        ).map_values(|r: LocateResult| usable_server(r, provider_id@)),
        resolution.terminal is Some <==> resolution.candidates@.len() == 0,
        resolution.terminal matches Some(failure) ==> {
            &&& failure.started_at_utc == started_at
            &&& asked is Ok && asked->Ok_0.status != 200 ==> failure.http_status == Some(
                asked->Ok_0.status,
            ) && failure.disposition is ProviderWide && failure.finished_at_utc
                == asked->Ok_0.received_at
        },
        forall|i: int|
            0 <= i < resolution.failures@.len() ==> (
            #[trigger] resolution.failures@[i]).started_at_utc == started_at,
{
    assert(candidate_views(resolution.candidates@).len() == resolution.candidates@.len());
    let plain = asked_resolution(asked, provider_id@, locate_url.text@, now);
    if asked is Ok && asked->Ok_0.answer is Ok {
        let results = asked->Ok_0.answer->Ok_0@;
        lemma_usable_servers(results, results.len(), provider_id@, locate_url.text@, now);
        assert(results.take(results.len() as int) =~= results);
    }
    if resolution.terminal is Some {
        assert(resolution@.terminal == Some(resolution.terminal->0@));
    }
    assert forall|i: int| 0 <= i < resolution.failures@.len() implies (
    #[trigger] resolution.failures@[i]).started_at_utc == started_at by {
        assert(resolution@.failures[i] == resolution.failures@[i]@);
        assert(resolution@.failures.len() == plain.failures.len());
    }
}

/// When a resolution began is noted in every failure of it, and nothing else is changed.
pub proof fn law_beginning_is_noted_in_every_failure(
    resolution: EndpointResolution,
    started_at: Timestamp,
    result: EndpointResolution,
    i: int,
)
    requires
        call_ensures(stamp_resolution, (resolution, started_at), result),
        0 <= i < resolution.failures@.len(),
    ensures
        result@.candidates == resolution@.candidates,
        result.failures@.len() == resolution.failures@.len(),
        result.failures@[i].started_at_utc == started_at,
        result.failures@[i].finished_at_utc == resolution.failures@[i].finished_at_utc,
        result.failures@[i].message@ == resolution.failures@[i].message@,
        result.failures@[i].error_kind == resolution.failures@[i].error_kind,
        result.failures@[i].outcome == resolution.failures@[i].outcome,
        result.terminal is Some <==> resolution.terminal is Some,
        result.terminal is Some ==> {
            &&& result.terminal->0.started_at_utc == started_at
            &&& result.terminal->0.finished_at_utc == resolution.terminal->0.finished_at_utc
            &&& result.terminal->0.message@ == resolution.terminal->0.message@
            &&& result.terminal->0.error_kind == resolution.terminal->0.error_kind
            &&& result.terminal->0.outcome == resolution.terminal->0.outcome
        },
{
    let before = failure_views(resolution.failures@);
    let after = failure_views(result.failures@);
    assert(result@.failures == after && resolution@.failures == before);
    assert(before.len() == resolution.failures@.len());
    assert(after.len() == result.failures@.len());
    assert(after.len() == before.len());
    assert(before[i] == resolution.failures@[i]@);
    assert(after[i] == result.failures@[i]@);
    assert(after[i] == (FailureView { started_at_utc: started_at, ..before[i] }));
    if resolution.terminal is Some {
        assert(result@.terminal == Some(
            FailureView { started_at_utc: started_at, ..resolution.terminal->0@ },
        ));
    }
}

/// It is told whether M-Lab said how long to wait, and whether that could be read.
pub proof fn law_reply_without_a_wait_is_told(present: bool, parsed: bool, text: &'static str)
    requires
        call_ensures(retry_detail, (present, parsed), text),
    ensures
        !present ==> text@ == "Retry-After missing"@,
        present && parsed ==> text@ == "Retry-After parsed"@,
        present && !parsed ==> text@ == "Retry-After malformed"@,
{
}

/// A request that did not get through, and an answer that could not be read, end the search with
/// one failure that says where and why.
pub proof fn law_failed_request_ends_the_search(
    error: LocateError,
    locate_url: Url,
    now: Timestamp,
    resolution: EndpointResolution,
)
    requires
        call_ensures(locate_failure, (error, &locate_url, now), resolution),
    ensures
        resolution@.candidates.len() == 0,
        resolution@.failures.len() == 0,
        resolution@.terminal is Some,
        resolution@.terminal->0.stage == RequestStage::Locate,
        resolution@.terminal->0.outcome == Outcome::Error,
        resolution@.terminal->0.request_url == Some(locate_url.text@),
        resolution@.terminal->0.started_at_utc == now,
        resolution@.terminal->0.finished_at_utc == now,
        resolution@.terminal->0.attempt == 1,
        resolution@.terminal->0.error_kind == (match error {
            LocateError::Body(_) => ErrorKind::Protocol,
            LocateError::Send { timeout: false, .. } => ErrorKind::Io,
            _ => ErrorKind::Connect,
        }),
        resolution@.terminal->0.message == (match error {
            LocateError::Bind(message) => message@,
            LocateError::Client(message) => "cannot configure Locate client: "@ + message@,
            LocateError::Send { message, .. } => "Locate request failed: "@ + message@,
            LocateError::Body(message) => "cannot read Locate response: "@ + message@,
        }),
{
}

} // verus!
