//! The per-request context: decision and headers for one request.

use crate::clock::{lemma_truncate_never_later, WindowBoundary};
use crate::config::Config;
use crate::headers::{
    effective_remaining, headers_after, is_representative, lemma_representative_none,
    lemma_representative_unique, lemma_window_without_headers_is_not_named, names, outranks,
    representative, reset_seconds, shows, window_header_of, window_headers_of, HeaderLine,
    Headers, Summary, WindowHeader,
};
use crate::increment::{lemma_next_counter, next_counter, Increment};
use crate::usage::{
    counters_wf, first_exhausted, is_exhausted, Evaluation, Limits, UsageMap, Usages,
};
use crate::window::{lemma_same_at_every_kind, PerWindow, WindowKind, WINDOW_COUNT};
use vstd::prelude::*;
use vstd::string::StringExecFns;
use vstd::utf8::{decode_utf8, valid_utf8};

verus! {

/// What becomes of the request after a processing step.
#[derive(Clone, Copy, Debug, PartialEq, Eq, Structural)]
pub enum Action {
    /// Processing goes on.
    Continue,
    /// Processing stops here; the blocked response is sent instead.
    Pause,
}

/// The rate limiter of one request.
#[derive(Debug)]
pub struct RateLimitingHttp {
    pub context_id: u32,
    pub config: Config,
    pub limits: Limits,
    /// Headers to attach to the response, once the request is decided.
    pub headers: Option<Headers>,
}

/// Whether the current request is counted against the window of
/// `kind`: it is unless another window blocks the request.
fn counted_against(stop: Option<WindowKind>, kind: WindowKind) -> (counted: bool)
    ensures
        counted == (stop is None || stop == Some(kind)),
{
    match stop {
        Some(blocking) => blocking == kind,
        None => true,
    }
}

/// Where the identity of a request is looked up first.
#[derive(Debug)]
pub enum IdentityLookup {
    /// In the request header of this name.
    Header(String),
    /// In the path of the request.
    Path,
    /// Nowhere: the identity is the source address.
    RemoteAddress,
}

/// How the handling of a request goes on once its usage is known.
#[derive(Debug)]
pub enum RequestOutcome {
    /// The counter store failed and faults are not tolerated: the
    /// handling of the request ends with this fault.
    Fatal(String),
    /// The request goes on. With `increment`, its counters are to be
    /// incremented, as that tells.
    Continue { increment: Option<Increment> },
    /// The request is blocked: it is answered with this status and body.
    Pause { status: u32, body: String },
}

/// `String::from_utf8`: the text that `bytes` encode in UTF-8, and none
/// where they are not valid UTF-8.
#[verifier::external_body]
fn text_from_utf8(bytes: Vec<u8>) -> (text: Option<String>)
    ensures
        text is Some <==> valid_utf8(bytes@),
        text matches Some(decoded) ==> decoded@ == decode_utf8(bytes@),
{
    match String::from_utf8(bytes) {
        Ok(decoded) => Some(decoded),
        Err(_) => None,
    }
}

/// The text of a property of the host: what its bytes spell, and
/// nothing where the property is missing or is not valid UTF-8.
pub open spec fn spec_prop(value: Option<Vec<u8>>) -> Seq<char> {
    match value {
        Some(bytes) => if valid_utf8(bytes@) {
            decode_utf8(bytes@)
        } else {
            Seq::empty()
        },
        None => Seq::empty(),
    }
}

pub fn get_prop(value: Option<Vec<u8>>) -> (text: String)
    ensures
        text@ == spec_prop(value),
{
    match value {
        Some(bytes) => match text_from_utf8(bytes) {
            Some(decoded) => decoded,
            None => String::new(),
        },
        None => String::new(),
    }
}

impl RateLimitingHttp {
    /// Decides the request from the usage of its windows: it is blocked
    /// exactly when `stop` names a blocking window. Sets the response
    /// headers: limit and remaining capacity of every evaluated window
    /// and of the representative one, unless client headers are hidden,
    /// and for a blocked request when to retry.
    pub fn process_usage(
        &mut self,
        counters: &UsageMap,
        stop: Option<WindowKind>,
        ts: &WindowBoundary,
    ) -> (action: Action)
        requires
            counters_wf(*counters),
            ts.wf(),
        ensures
            action == (if stop is Some {
                Action::Pause
            } else {
                Action::Continue
            }),
            final(self).headers == headers_after(
                old(self).headers,
                old(self).config.hide_client_headers,
                *counters,
                stop,
                *ts,
            ),
            final(self).config == old(self).config,
            final(self).limits == old(self).limits,
            final(self).context_id == old(self).context_id,
    {
        let mut best: Option<WindowKind> = None;
        let mut limit: i32 = 0;
        let mut window: i64 = 0;
        let mut remaining: i64 = 0;
        let mut reset: i64 = 0;
        let mut windows: PerWindow<Option<WindowHeader>> = PerWindow::filled(None);
        let mut i: usize = 0;
        while i < WINDOW_COUNT
            invariant
                i <= WINDOW_COUNT,
                counters_wf(*counters),
                ts.wf(),
                forall|k: WindowKind|
                    k.spec_index() < i ==> #[trigger] windows.at(k) == window_header_of(
                        *counters,
                        stop,
                        k,
                    ),
                forall|k: WindowKind| k.spec_index() >= i ==> (#[trigger] windows.at(k)) is None,
                best is None ==> limit == 0 && remaining == 0 && reset == 0,
                best is None ==> forall|k: WindowKind|
                    k.spec_index() < i ==> (#[trigger] counters.at(k)) is None,
                best matches Some(b) ==> {
                    &&& b.spec_index() < i
                    &&& counters.at(b) matches Some(u) && limit == u.limit
                    &&& window == b.spec_duration()
                    &&& remaining == effective_remaining(*counters, stop, b)
                    &&& reset == reset_seconds(*ts, b)
                    &&& forall|k: WindowKind|
                        k.spec_index() < i && (#[trigger] counters.at(k)) is Some ==> outranks(
                            *counters,
                            stop,
                            b,
                            k,
                        )
                },
            decreases WINDOW_COUNT - i,
        {
            let kind = WindowKind::from_index(i);
            match counters.get(kind) {
                Some(usage) => {
                    let cur_limit: i32 = usage.limit;
                    let cur_window: i64 = kind.duration();
                    let mut cur_remaining: i64 = usage.remaining;
                    if counted_against(stop, kind) {
                        cur_remaining = cur_remaining - 1;
                    }
                    if cur_remaining < 0 {
                        cur_remaining = 0;
                    }
                    if best.is_none() || cur_remaining < remaining || (cur_remaining == remaining
                        && cur_window > window) {
                        best = Some(kind);
                        limit = cur_limit;
                        window = cur_window;
                        remaining = cur_remaining;
                        proof {
                            lemma_truncate_never_later(ts.now as int, kind);
                        }
                        let left: i64 = window - (ts.now - ts.start(kind));
                        reset = if left < 1 {
                            1
                        } else {
                            left
                        };
                    }
                    windows.set(
                        kind,
                        Some(WindowHeader { limit: cur_limit, remaining: cur_remaining }),
                    );
                },
                None => {},
            }
            i = i + 1;
        }
        proof {
            match best {
                Some(b) => {
                    assert(is_representative(*counters, stop, b));
                    lemma_representative_unique(*counters, stop, b);
                },
                None => {
                    lemma_representative_none(*counters, stop);
                },
            }
            lemma_same_at_every_kind(windows, window_headers_of(*counters, stop));
        }
        if !self.config.hide_client_headers {
            self.headers = Some(
                Headers {
                    windows,
                    summary: Some(Summary { limit, remaining, reset }),
                    retry_after: None,
                },
            );
        }
        match stop {
            Some(_) => {
                let base = match self.headers {
                    Some(headers) => headers,
                    None => Headers {
                        windows: PerWindow::filled(None),
                        summary: None,
                        retry_after: None,
                    },
                };
                self.headers = Some(
                    Headers {
                        windows: base.windows,
                        summary: base.summary,
                        retry_after: Some(reset),
                    },
                );
                Action::Pause
            },
            None => Action::Continue,
        }
    }

    /// Where the identity of a request is looked up first, as
    /// configured: in a header, in the path, or nowhere.
    pub open spec fn spec_identifier_lookup(&self) -> IdentityLookup {
        if self.config.limit_by@ == "header"@ {
            IdentityLookup::Header(self.config.header_name)
        } else if self.config.limit_by@ == "path"@ {
            IdentityLookup::Path
        } else {
            IdentityLookup::RemoteAddress
        }
    }

    /// The identity that the first lookup gives, `found` being what it
    /// found: the value of the configured header, or the path where
    /// it is the configured one. None where the source address is to
    /// identify the request.
    pub open spec fn spec_identifier(&self, found: Option<String>) -> Option<String> {
        match found {
            Some(value) => if self.config.limit_by@ == "header"@ {
                Some(value)
            } else if self.config.limit_by@ == "path"@ && value@ == self.config.path@ {
                Some(value)
            } else {
                None
            },
            None => None,
        }
    }

    pub fn identifier_lookup(&self) -> (lookup: IdentityLookup)
        ensures
            lookup == self.spec_identifier_lookup(),
    {
        let by_header = String::from_str("header");
        let by_path = String::from_str("path");
        if self.config.limit_by == by_header {
            IdentityLookup::Header(self.config.header_name.clone())
        } else if self.config.limit_by == by_path {
            IdentityLookup::Path
        } else {
            IdentityLookup::RemoteAddress
        }
    }

    pub fn get_identifier(&self, found: Option<String>) -> (id: Option<String>)
        ensures
            id == self.spec_identifier(found),
    {
        let by_header = String::from_str("header");
        let by_path = String::from_str("path");
        match found {
            Some(value) => {
                if self.config.limit_by == by_header {
                    Some(value)
                } else if self.config.limit_by == by_path && value == self.config.path {
                    Some(value)
                } else {
                    None
                }
            },
            None => None,
        }
    }

    /// The evaluation of a request against the limits of this context,
    /// with nothing read yet.
    pub fn get_usages(&self) -> (evaluation: Evaluation)
        ensures
            evaluation == Evaluation::spec_begin(self.limits),
            evaluation.wf(),
    {
        Evaluation::begin(self.limits)
    }

    /// The increments of the counters of an admitted request, none
    /// attempted yet.
    pub fn increment(&self, counters: &UsageMap) -> (increment: Increment)
        ensures
            increment == Increment::spec_begin(*counters),
            increment.wf(),
    {
        Increment::begin(counters)
    }

    /// How the handling of a request goes on after the evaluation
    /// `usages`. Where the store failed, the request ends with the
    /// fault, or, if faults are tolerated, goes on without headers and
    /// without being counted. Otherwise it is blocked exactly when a
    /// window blocks it, and counted exactly when it is not.
    pub open spec fn spec_outcome(&self, usages: Usages) -> RequestOutcome {
        match usages.err {
            Some(fault) => if self.config.fault_tolerant {
                RequestOutcome::Continue { increment: None }
            } else {
                RequestOutcome::Fatal(fault)
            },
            None => if usages.stop is Some {
                RequestOutcome::Pause {
                    status: self.config.error_code,
                    body: self.config.error_message,
                }
            } else {
                RequestOutcome::Continue {
                    increment: Some(Increment::spec_begin(usages.counters)),
                }
            },
        }
    }

    /// Decides a request whose evaluation gave `usages`, at the instant
    /// of the window starts `ts`, and sets the headers of the response.
    pub fn on_http_request_headers(&mut self, usages: Usages, ts: &WindowBoundary) -> (outcome:
        RequestOutcome)
        requires
            counters_wf(usages.counters),
            ts.wf(),
        ensures
            outcome == old(self).spec_outcome(usages),
            final(self).headers == if usages.err is Some {
                old(self).headers
            } else {
                headers_after(
                    old(self).headers,
                    old(self).config.hide_client_headers,
                    usages.counters,
                    usages.stop,
                    *ts,
                )
            },
            final(self).config == old(self).config,
            final(self).limits == old(self).limits,
            final(self).context_id == old(self).context_id,
    {
        match usages.err {
            Some(fault) => {
                if !self.config.fault_tolerant {
                    return RequestOutcome::Fatal(fault);
                }
                RequestOutcome::Continue { increment: None }
            },
            None => {
                let action = self.process_usage(&usages.counters, usages.stop, ts);
                match action {
                    Action::Pause => RequestOutcome::Pause {
                        status: self.config.error_code,
                        body: self.config.error_message.clone(),
                    },
                    Action::Continue => RequestOutcome::Continue {
                        increment: Some(self.increment(&usages.counters)),
                    },
                }
            },
        }
    }

    /// The headers to attach to the response: those set when the
    /// request was decided, once the response headers are complete.
    pub open spec fn spec_response_headers(&self, eof: bool) -> Seq<(Seq<char>, Seq<char>)> {
        match self.headers {
            Some(headers) => if eof {
                headers.spec_lines()
            } else {
                seq![]
            },
            None => seq![],
        }
    }

    pub fn on_http_response_headers(&self, eof: bool) -> (lines: Vec<HeaderLine>)
        ensures
            shows(lines@, self.spec_response_headers(eof)),
    {
        if !eof {
            return Vec::new();
        }
        match &self.headers {
            Some(headers) => headers.lines(),
            None => Vec::new(),
        }
    }
}

/// A window that is not enforced never shows: a context never reads
/// its counter, holds no usage of it, is never blocked by it, sets no
/// header of its names nor takes the summary from it, and never
/// increments its counter.
pub proof fn lemma_disabled_window_never_appears(
    evaluation: Evaluation,
    kind: WindowKind,
    hide_client_headers: bool,
    ts: WindowBoundary,
)
    requires
        evaluation.wf(),
        evaluation.limits.at(kind) == -1,
    ensures
        evaluation.spec_pending() != Some(kind),
        evaluation.usages.counters.at(kind) is None,
        evaluation.usages.stop != Some(kind),
        representative(evaluation.usages.counters, evaluation.usages.stop) != Some(kind),
        headers_after(
            None,
            hide_client_headers,
            evaluation.usages.counters,
            evaluation.usages.stop,
            ts,
        ) matches Some(headers) ==> headers.windows.at(kind) is None && !names(
            headers.spec_lines(),
            kind.spec_limit_header(),
        ) && !names(headers.spec_lines(), kind.spec_remaining_header()),
        forall|from: int|
            0 <= from ==> next_counter(evaluation.usages.counters, from) != kind.spec_index(),
{
    let counters = evaluation.usages.counters;
    let stop = evaluation.usages.stop;
    if representative(counters, stop) == Some(kind) {
        assert(is_representative(counters, stop, kind));
    }
    match headers_after(None, hide_client_headers, counters, stop, ts) {
        Some(headers) => {
            lemma_window_without_headers_is_not_named(headers, kind);
        },
        None => {},
    }
    assert forall|from: int| 0 <= from implies next_counter(counters, from)
        != kind.spec_index() by {
        lemma_next_counter(counters, from);
    }
}

/// A request is blocked exactly when a window that was read is
/// exhausted, which is when counting the request would take the
/// window over its limit.
pub proof fn lemma_blocked_iff_exhausted(counters: UsageMap)
    requires
        counters_wf(counters),
    ensures
        first_exhausted(counters) is Some <==> exists|kind: WindowKind|
            is_exhausted(counters, kind),
        first_exhausted(counters) matches Some(kind) ==> is_exhausted(counters, kind),
        forall|kind: WindowKind|
            is_exhausted(counters, kind) <==> ((#[trigger] counters.at(kind)) matches Some(u)
                && u.usage + 1 > u.limit),
{
    if exists|kind: WindowKind| is_exhausted(counters, kind) {
        let kind = choose|kind: WindowKind| is_exhausted(counters, kind);
        assert(is_exhausted(counters, kind));
    }
}

/// Where something is left of every window that was read, the request
/// is let through and counted, and, unless client headers are hidden,
/// the header of each such window shows one less than was left.
pub proof fn lemma_capacity_left_allows(
    http: RateLimitingHttp,
    usages: Usages,
    ts: WindowBoundary,
)
    requires
        counters_wf(usages.counters),
        usages.err is None,
        usages.stop == first_exhausted(usages.counters),
        forall|kind: WindowKind|
            (#[trigger] usages.counters.at(kind)) matches Some(u) ==> u.remaining > 0,
    ensures
        http.spec_outcome(usages) == (RequestOutcome::Continue {
            increment: Some(Increment::spec_begin(usages.counters)),
        }),
        !http.config.hide_client_headers ==> (headers_after(
            http.headers,
            false,
            usages.counters,
            usages.stop,
            ts,
        ) matches Some(headers) && headers.retry_after is None && forall|kind: WindowKind|
            (#[trigger] usages.counters.at(kind)) matches Some(u) ==> headers.windows.at(kind)
                == Some(WindowHeader { limit: u.limit, remaining: (u.remaining - 1) as i64 })),
{
}

/// Where exactly one window that was read is exhausted, it is the
/// blocking window, the request is blocked, and the client is told
/// to retry when that window starts anew.
pub proof fn lemma_single_exhausted_window_blocks(
    http: RateLimitingHttp,
    usages: Usages,
    ts: WindowBoundary,
    kind: WindowKind,
)
    requires
        counters_wf(usages.counters),
        ts.wf(),
        usages.err is None,
        usages.stop == first_exhausted(usages.counters),
        is_exhausted(usages.counters, kind),
        forall|other: WindowKind| other != kind ==> !is_exhausted(usages.counters, other),
    ensures
        usages.stop == Some(kind),
        http.spec_outcome(usages) == (RequestOutcome::Pause {
            status: http.config.error_code,
            body: http.config.error_message,
        }),
        representative(usages.counters, usages.stop) == Some(kind),
        (headers_after(
            http.headers,
            http.config.hide_client_headers,
            usages.counters,
            usages.stop,
            ts,
        ) matches Some(headers) && headers.retry_after == Some(reset_seconds(ts, kind) as i64)),
        1 <= reset_seconds(ts, kind) <= kind.spec_duration(),
{
    let counters = usages.counters;
    assert(is_representative(counters, usages.stop, kind)) by {
        assert forall|other: WindowKind| (#[trigger] counters.at(other)) is Some implies outranks(
            counters,
            usages.stop,
            kind,
            other,
        ) by {
            if other != kind {
                assert(!is_exhausted(counters, other));
            }
        }
    }
    lemma_representative_unique(counters, usages.stop, kind);
    lemma_truncate_never_later(ts.now as int, kind);
}

} // verus!
