use std::collections::HashSet;
use std::time::Duration;
use vstd::prelude::*;
use vstd::string::StringExecFns;

use crate::config::EngineConfig;
use crate::downloader::stat::{
    DownloaderStats, StatsTracker, StatsView, TrackerStep, bump, fresh_stats, snapshot_of,
    wrap_add_u64,
};
use crate::errors::EngineError;
use crate::utils::wrap_dec;

verus! {

#[verifier::external_type_specification]
#[verifier::external_body]
pub struct ExClient(reqwest::Client);

#[verifier::external_type_specification]
#[verifier::external_body]
pub struct ExClientBuilder(reqwest::ClientBuilder);

/// A character that an HTTP header value may hold: every byte of its UTF-8 encoding is a
/// tab or at least 32 and not 127, which is the case for every character from 128 on.
pub open spec fn header_value_char(c: char) -> bool {
    (c as u32 >= 32 && c as u32 != 127) || c == '\t'
}

/// A text that `HeaderValue` accepts as a header value.
pub open spec fn valid_header_text(s: Seq<char>) -> bool {
    forall|i: int| 0 <= i < s.len() ==> header_value_char(#[trigger] s[i])
}

/// What a reqwest `ClientBuilder` holds of the settings the downloader makes: the total
/// timeout, the connect timeout and the user agent, each where set.
pub uninterp spec fn client_builder_settings(b: reqwest::ClientBuilder) -> (
    Option<Duration>,
    Option<Duration>,
    Option<Seq<char>>,
);

/// Whether a reqwest `ClientBuilder` has recorded a setting it refused (its configuration
/// error), with which `build` fails.
pub uninterp spec fn client_builder_refused(b: reqwest::ClientBuilder) -> bool;

/// The same settings as held by a built reqwest `Client`.
pub uninterp spec fn client_settings(c: reqwest::Client) -> (
    Option<Duration>,
    Option<Duration>,
    Option<Seq<char>>,
);

/// `reqwest::Client::builder()`: no timeouts, no user agent and nothing refused.
#[verifier::external_body]
fn client_builder() -> (b: reqwest::ClientBuilder)
    ensures
        client_builder_settings(b) == (None::<Duration>, None::<Duration>, None::<Seq<char>>),
        !client_builder_refused(b),
{
    reqwest::Client::builder()
}

/// `ClientBuilder::timeout`: it sets the timeout and nothing else.
#[verifier::external_body]
fn client_builder_timeout(b: reqwest::ClientBuilder, d: Duration) -> (r: reqwest::ClientBuilder)
    ensures
        client_builder_settings(r) == (
            Some(d),
            client_builder_settings(b).1,
            client_builder_settings(b).2,
        ),
        client_builder_refused(r) == client_builder_refused(b),
{
    b.timeout(d)
}

/// `ClientBuilder::connect_timeout`: it sets the connect timeout and nothing else.
#[verifier::external_body]
fn client_builder_connect_timeout(b: reqwest::ClientBuilder, d: Duration) -> (r:
    reqwest::ClientBuilder)
    ensures
        client_builder_settings(r) == (
            client_builder_settings(b).0,
            Some(d),
            client_builder_settings(b).2,
        ),
        client_builder_refused(r) == client_builder_refused(b),
{
    b.connect_timeout(d)
}

/// `ClientBuilder::user_agent`: an agent that is a valid header value is set; another one is
/// recorded as refused, and the later `build` fails.
#[verifier::external_body]
fn client_builder_user_agent(b: reqwest::ClientBuilder, user_agent: &str) -> (r:
    reqwest::ClientBuilder)
    ensures
        valid_header_text(user_agent@) ==> client_builder_settings(r) == (
            client_builder_settings(b).0,
            client_builder_settings(b).1,
            Some(user_agent@),
        ),
        !valid_header_text(user_agent@) ==> client_builder_settings(r) == client_builder_settings(b),
        client_builder_refused(r) == (client_builder_refused(b) || !valid_header_text(user_agent@)),
{
    b.user_agent(user_agent)
}

/// `ClientBuilder::build`: it fails exactly when a setting was refused (this build has no TLS
/// backend to set up); the client holds the builder's settings.
#[verifier::external_body]
fn client_builder_build(b: reqwest::ClientBuilder) -> (r: Result<reqwest::Client, reqwest::Error>)
    ensures
        r is Ok <==> !client_builder_refused(b),
        r matches Ok(c) ==> client_settings(c) == client_builder_settings(b),
{
    b.build()
}

/// `format!("{}", e)` on a `reqwest::Error`. Nothing is stated of the text.
#[verifier::external_body]
fn reqwest_error_text(e: &reqwest::Error) -> String {
    format!("{}", e)
}

/// Whether a reqwest error is a timeout, as `reqwest::Error::is_timeout` tells.
pub uninterp spec fn reqwest_timeout(e: reqwest::Error) -> bool;

/// Whether a reqwest error comes from connecting, as `reqwest::Error::is_connect` tells.
pub uninterp spec fn reqwest_connect(e: reqwest::Error) -> bool;

/// Whether a reqwest error comes from sending the request, as `reqwest::Error::is_request`
/// tells.
pub uninterp spec fn reqwest_request(e: reqwest::Error) -> bool;

/// Whether a reqwest error comes from a request or response body, as
/// `reqwest::Error::is_body` tells.
pub uninterp spec fn reqwest_body(e: reqwest::Error) -> bool;

/// `reqwest::Error::is_timeout`. The answer is named: it depends on the error alone (its
/// kind and the errors it wraps).
#[verifier::external_body]
fn reqwest_error_is_timeout(e: &reqwest::Error) -> (b: bool)
    ensures
        b == reqwest_timeout(*e),
{
    e.is_timeout()
}

/// `reqwest::Error::is_connect`. The answer is named: it depends on the error alone.
#[verifier::external_body]
fn reqwest_error_is_connect(e: &reqwest::Error) -> (b: bool)
    ensures
        b == reqwest_connect(*e),
{
    e.is_connect()
}

/// `reqwest::Error::is_request`. The answer is named: it depends on the error alone.
#[verifier::external_body]
fn reqwest_error_is_request(e: &reqwest::Error) -> (b: bool)
    ensures
        b == reqwest_request(*e),
{
    e.is_request()
}

/// `reqwest::Error::is_body`. The answer is named: it depends on the error alone.
#[verifier::external_body]
fn reqwest_error_is_body(e: &reqwest::Error) -> (b: bool)
    ensures
        b == reqwest_body(*e),
{
    e.is_body()
}

/// `HashSet::clone` on a set of status codes: an equal set, as std documents it.
#[verifier::external_body]
fn status_set_clone(s: &HashSet<u16>) -> (r: HashSet<u16>)
    ensures
        r@ == s@,
{
    s.clone()
}

/// How many requests may wait for a download slot, per slot.
pub const WAITING_FACTOR: usize = 2;

/// The name under which a failed download is counted, by what kind of error it was: the
/// first of timeout, connection, request and body that applies, else "unkown".
pub open spec fn spec_exception_kind(
    is_timeout: bool,
    is_connect: bool,
    is_request: bool,
    is_body: bool,
) -> Seq<char> {
    if is_timeout {
        "timeout"@
    } else if is_connect {
        "connect"@
    } else if is_request {
        "request"@
    } else if is_body {
        "body"@
    } else {
        "unkown"@
    }
}

/// The kind of a failed download, by what kind of error it was.
pub fn exception_kind(is_timeout: bool, is_connect: bool, is_request: bool, is_body: bool) -> (s:
    &'static str)
    ensures
        s@ == spec_exception_kind(is_timeout, is_connect, is_request, is_body),
{
    if is_timeout {
        "timeout"
    } else if is_connect {
        "connect"
    } else if is_request {
        "request"
    } else if is_body {
        "body"
    } else {
        "unkown"
    }
}

/// A response is kept when its status is not an error (4xx or 5xx), or is one of the
/// allowed error codes.
pub open spec fn spec_status_accepted(status: u16, allowed: Set<u16>) -> bool {
    !(400 <= status < 600) || allowed.contains(status)
}

/// Which responses go on to the spiders: every response whose status is one of the allowed
/// codes, whatever its class, and every response whose status is not an error; a response
/// is held back exactly when its status is a 4xx or 5xx code that is not allowed.
pub proof fn lemma_status_acceptance(status: u16, allowed: Set<u16>)
    ensures
        allowed.contains(status) ==> spec_status_accepted(status, allowed),
        !(400 <= status <= 599) ==> spec_status_accepted(status, allowed),
        !spec_status_accepted(status, allowed) <==> (400 <= status <= 599 && !allowed.contains(
            status,
        )),
{
}

/// Allowing more codes never holds back a response that was accepted before.
pub proof fn lemma_status_acceptance_monotonic(status: u16, a: Set<u16>, b: Set<u16>)
    requires
        a.subset_of(b),
        spec_status_accepted(status, a),
    ensures
        spec_status_accepted(status, b),
{
}

/// Downloads the requests of the scheduler; here, the part that decides and counts.
pub struct Downloader {
    client: reqwest::Client,
    http_error_allow_codes: HashSet<u16>,
    stats_tracker: StatsTracker,
    max_waiting: usize,
}

impl Downloader {
    pub closed spec fn spec_max_waiting(&self) -> usize {
        self.max_waiting
    }

    pub closed spec fn spec_allow_codes(&self) -> Set<u16> {
        self.http_error_allow_codes@
    }

    pub closed spec fn stats(&self) -> StatsView {
        self.stats_tracker.view()
    }

    /// The HTTP client the downloader was built with.
    pub closed spec fn spec_client(&self) -> reqwest::Client {
        self.client
    }

    pub closed spec fn wf(&self) -> bool {
        self.stats_tracker.wf()
    }

    /// Builds the HTTP client from the settings; the downloader may hold twice as many
    /// waiting requests as it downloads at once.
    pub fn new(engine_config: &EngineConfig) -> (r: Result<Self, EngineError>)
        requires
            engine_config.concurrent_limit * WAITING_FACTOR <= usize::MAX,
        ensures
            r matches Ok(d) ==> d.wf() && d.spec_max_waiting() == engine_config.concurrent_limit
                * WAITING_FACTOR && d.spec_allow_codes() == engine_config.http_error_allow_codes@
                && d.stats() == fresh_stats(),
            r is Ok <==> (engine_config.user_agent matches Some(ua) ==> valid_header_text(ua@)),
            r matches Ok(d) ==> client_settings(d.spec_client()) == (
                Some(engine_config.downloader_request_timeout),
                Some(engine_config.downloader_connection_timeout),
                match engine_config.user_agent {
                    Some(ua) => Some(ua@),
                    None => None::<Seq<char>>,
                },
            ),
            r matches Err(e) ==> (e matches EngineError::InitializationError(msg)
                && msg@.len() >= 40 && msg@.subrange(0, 40)
                == "Error while building downloader client: "@),
    {
        let http_error_allow_codes = status_set_clone(&engine_config.http_error_allow_codes);
        let mut client_builder = client_builder();
        client_builder = client_builder_timeout(
            client_builder,
            engine_config.downloader_request_timeout,
        );
        client_builder = client_builder_connect_timeout(
            client_builder,
            engine_config.downloader_connection_timeout,
        );
        match &engine_config.user_agent {
            Some(user_agent) => {
                client_builder = client_builder_user_agent(client_builder, user_agent.as_str());
            },
            None => {},
        }
        let client = match client_builder_build(client_builder) {
            Ok(c) => c,
            Err(e) => {
                proof {
                    reveal_strlit("Error while building downloader client: ");
                }
                let text = reqwest_error_text(&e);
                let msg = String::from_str("Error while building downloader client: ").concat(
                    text.as_str(),
                );
                assert(msg@.subrange(0, 40) =~= "Error while building downloader client: "@);
                return Err(EngineError::InitializationError(msg));
            },
        };
        let max_waiting = engine_config.concurrent_limit * WAITING_FACTOR;
        Ok(
            Downloader {
                client,
                http_error_allow_codes,
                stats_tracker: StatsTracker::new(),
                max_waiting,
            },
        )
    }

    /// The HTTP client that the downloads go through.
    pub fn client(&self) -> (c: &reqwest::Client)
        ensures
            *c == self.spec_client(),
    {
        &self.client
    }

    pub fn get_stats(&self) -> (s: DownloaderStats)
        requires
            self.wf(),
        ensures
            snapshot_of(s, self.stats()),
            s.min_response_time_ms <= s.max_response_time_ms,
    {
        self.stats_tracker.get_stats()
    }

    /// No request is being downloaded.
    pub fn is_idle(&self) -> (b: bool)
        ensures
            b == (self.stats().active_requests == 0),
    {
        self.stats_tracker.is_idle()
    }

    /// As many requests wait for a slot as the downloader may hold: it takes no more from the
    /// scheduler for now.
    pub fn is_saturated(&self) -> (b: bool)
        ensures
            b == (self.stats().waiting_requests >= self.spec_max_waiting()),
    {
        self.stats_tracker.get_waiting() >= self.max_waiting
    }

    /// Whether a response with this status is handed to the spiders.
    pub fn is_status_accepted(&self, status: u16) -> (b: bool)
        ensures
            b == spec_status_accepted(status, self.spec_allow_codes()),
            self.spec_allow_codes().contains(status) ==> b,
            !(400 <= status < 600) ==> b,
            b ==> !(400 <= status < 600) || self.spec_allow_codes().contains(status),
    {
        !(400 <= status && status < 600) || self.http_error_allow_codes.contains(&status)
    }

    /// A request was taken from the scheduler and waits for a slot.
    pub fn request_waiting(&mut self)
        requires
            old(self).wf(),
            old(self).stats().waiting_requests + 1 + old(self).stats().active_requests
                <= usize::MAX,
        ensures
            final(self).wf(),
            final(self).stats() == old(self).stats().step(TrackerStep::Waited),
            final(self).stats().waiting_requests == old(self).stats().waiting_requests + 1,
            final(self).stats().peak_queued_requests >= final(self).stats().waiting_requests
                + final(self).stats().active_requests,
            final(self).spec_max_waiting() == old(self).spec_max_waiting(),
            final(self).spec_allow_codes() == old(self).spec_allow_codes(),
    {
        self.stats_tracker.inc_waiting();
    }

    /// A waiting request of `size` bytes got its slot and is sent.
    pub fn request_admitted(&mut self, size: u64)
        requires
            old(self).wf(),
            old(self).stats().active_requests + 1 + wrap_dec(old(self).stats().waiting_requests)
                <= usize::MAX,
        ensures
            final(self).wf(),
            final(self).stats() == old(self).stats().step(TrackerStep::Admitted(size)),
            final(self).stats().waiting_requests == wrap_dec(old(self).stats().waiting_requests),
            final(self).stats().active_requests == old(self).stats().active_requests + 1,
            final(self).stats().total_requests == wrap_add_u64(old(self).stats().total_requests, 1),
            final(self).stats().total_request_bytes == wrap_add_u64(
                old(self).stats().total_request_bytes,
                size,
            ),
            final(self).stats().peak_queued_requests >= final(self).stats().waiting_requests
                + final(self).stats().active_requests,
            final(self).spec_max_waiting() == old(self).spec_max_waiting(),
            final(self).spec_allow_codes() == old(self).spec_allow_codes(),
    {
        self.stats_tracker.dec_waiting_inc_active();
        self.stats_tracker.inc_requests(size);
    }

    /// A download finished, with a response or with an error.
    pub fn request_finished(&mut self)
        requires
            old(self).wf(),
        ensures
            final(self).wf(),
            final(self).stats() == old(self).stats().step(TrackerStep::Finished),
            final(self).spec_max_waiting() == old(self).spec_max_waiting(),
            final(self).spec_allow_codes() == old(self).spec_allow_codes(),
    {
        self.stats_tracker.dec_active();
    }

    /// Counts a response and tells whether it goes on to the spiders.
    pub fn record_response(&mut self, status: u16, body_len: u64, response_time_ms: u64) -> (b:
        bool)
        requires
            old(self).wf(),
        ensures
            final(self).wf(),
            b == spec_status_accepted(status, old(self).spec_allow_codes()),
            old(self).spec_allow_codes().contains(status) ==> b,
            !(400 <= status < 600) ==> b,
            b ==> !(400 <= status < 600) || old(self).spec_allow_codes().contains(status),
            final(self).stats().total_response_bytes == wrap_add_u64(
                old(self).stats().total_response_bytes,
                body_len,
            ),
            final(self).stats() == old(self).stats().step(
                TrackerStep::Responded(status, body_len, response_time_ms),
            ),
            final(self).stats().total_responses == wrap_add_u64(
                old(self).stats().total_responses,
                1,
            ),
            final(self).stats().status_counts == bump(old(self).stats().status_counts, status),
            final(self).stats().min_response_time_ms <= response_time_ms
                <= final(self).stats().max_response_time_ms,
            final(self).spec_max_waiting() == old(self).spec_max_waiting(),
            final(self).spec_allow_codes() == old(self).spec_allow_codes(),
    {
        self.stats_tracker.inc_response(status, body_len, response_time_ms);
        self.is_status_accepted(status)
    }

    /// Counts a failed download under the kind of its error, and gives that kind.
    pub fn record_error(&mut self, error: &reqwest::Error) -> (kind: &'static str)
        requires
            old(self).wf(),
        ensures
            final(self).wf(),
            kind@ == spec_exception_kind(
                reqwest_timeout(*error),
                reqwest_connect(*error),
                reqwest_request(*error),
                reqwest_body(*error),
            ),
            final(self).stats() == old(self).stats().step(TrackerStep::Failed(kind@)),
            final(self).spec_max_waiting() == old(self).spec_max_waiting(),
            final(self).spec_allow_codes() == old(self).spec_allow_codes(),
    {
        let t = reqwest_error_is_timeout(error);
        let c = reqwest_error_is_connect(error);
        let q = reqwest_error_is_request(error);
        let y = reqwest_error_is_body(error);
        let kind = exception_kind(t, c, q, y);
        self.stats_tracker.inc_exception(kind);
        kind
    }
}

} // verus!
