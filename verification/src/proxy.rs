//! What the proxy does with a request: turns it down or passes it on, and answers it with the
//! backend's response, transformed, or with an error of its own.
//!
//! The functions here decide; whoever runs the proxy talks to the client and the backend.
use crate::capture::{
    host_matches_frontend, is_with_response, make_gateway_error, reason_of, ExchangeCapture,
    GatewayResponse, RequestHead, ResponseHead, SharedExchangeCapture,
};
use crate::clock::in_calendar;
use crate::config::{uri_text, ConfigError, ConfigFault, RuntimeConfig};
use crate::error::{ErrorInfo, ErrorKind, ProxyResult};
use crate::event::ProxyEvent;
use crate::fields::{is_hop_by_hop, is_stripped, lists_name, strip_hop_by_hop_headers};
use crate::headers::{
    header_entries, insert_header, is_value, remove_header, text_named, values_named,
};
use crate::number::{decimal, decimal_text, is_digit};
use crate::text::{
    bytes_of, is_piece, joined, lower, opt_text, pieces_are_stretches, split, stretches_are_pieces,
};
use crate::transform::{
    body_run, header_run, request_url, url_text, PrebufferDisposition, TransformError,
};
use rama::http::HeaderMap;
use vstd::prelude::*;
use vstd::utf8::encode_utf8;

verus! {

/// What becomes of a request: the proxy answers it itself, or the backend is asked for a URI.
#[derive(Debug)]
pub enum RequestDecision {
    Reject { response: GatewayResponse, event: Option<ProxyEvent> },
    Forward { uri: String },
}

/// What came of asking the backend.
#[derive(Debug)]
pub enum UpstreamResult {
    Response(ResponseHead),
    Failed(String),
    TimedOut,
}

/// What becomes of the backend's answer: the proxy answers in its place, the response streams on
/// to the client, or its body is needed first, for the rules from an index on.
#[derive(Debug)]
pub enum ResponseDecision {
    Fail { response: GatewayResponse, event: Option<ProxyEvent> },
    Stream { head: ResponseHead },
    Buffer { head: ResponseHead, from: usize },
}

/// What becomes of a response whose body is there: the proxy answers in its place, or it goes to
/// the client as it is now.
#[derive(Debug)]
pub enum BufferedDecision {
    Fail { response: GatewayResponse, event: Option<ProxyEvent> },
    Send { head: ResponseHead, body: Vec<u8> },
}

/// Whether a response is the proxy's own, with a status and a message.
pub open spec fn is_gateway(response: GatewayResponse, status: u16, message: Seq<char>) -> bool {
    response.status == status && response.content_type@ == "text/plain; charset=utf-8"@
        && response.body@ == message
}

/// Whether an exchange has ended, as another with a rejection noted, and whether the event is the
/// one that is logged of it.
pub open spec fn is_rejected(
    before: ExchangeCapture,
    after: ExchangeCapture,
    event: Option<ProxyEvent>,
    status: u16,
    kind: ErrorKind,
    text: Seq<char>,
) -> bool {
    &&& after.error matches Some(error) && error.kind == kind && error.text@ == text
    &&& opt_text(after.reason_phrase) == reason_of(status)
    &&& after == (ExchangeCapture {
        status_code: Some(status),
        reason_phrase: after.reason_phrase,
        proxy_result: ProxyResult::ClientRejected,
        error: after.error,
        finalized: true,
        ..before
    })
    &&& event is Some == !before.finalized
    &&& event matches Some(event) ==> after.is_logged_as(event.request_end_ts, event)
}

/// Whether an exchange has ended, as another with a failure of the backend noted, and whether the
/// event is the one that is logged of it.
pub open spec fn is_failed(
    before: ExchangeCapture,
    after: ExchangeCapture,
    event: Option<ProxyEvent>,
    kind: ErrorKind,
    text: Seq<char>,
) -> bool {
    &&& after.error matches Some(error) && error.kind == kind && error.text@ == text
    &&& after == (ExchangeCapture {
        proxy_result: ProxyResult::UpstreamError,
        error: after.error,
        finalized: true,
        ..before
    })
    &&& event is Some == !before.finalized
    &&& event matches Some(event) ==> after.is_logged_as(event.request_end_ts, event)
}

/// The message of the error that comes of a request whose URI cannot be built.
pub open spec fn uri_failure_text(error: ConfigError) -> Seq<char> {
    "failed to construct upstream URI: "@ + error.message_text()
}

/// Whether headers are those of a request as it is passed on: without `host` and without those
/// that are about one connection only.
pub open spec fn is_forwarded(
    before: Seq<(Seq<char>, Seq<u8>)>,
    after: Seq<(Seq<char>, Seq<u8>)>,
) -> bool {
    forall|name: Seq<char>| #[trigger]
        values_named(after, name) == if name == "host"@ || is_hop_by_hop(before, name) {
            Seq::<Seq<u8>>::empty()
        } else {
            values_named(before, name)
        }
}

/// Taking `host` out does not change what a `connection` header lists.
proof fn lemma_strip_after_host(
    before: Seq<(Seq<char>, Seq<u8>)>,
    middle: Seq<(Seq<char>, Seq<u8>)>,
    after: Seq<(Seq<char>, Seq<u8>)>,
)
    requires
        values_named(middle, "host"@) == Seq::<Seq<u8>>::empty(),
        forall|name: Seq<char>|
            name != "host"@ ==> #[trigger] values_named(middle, name) == values_named(before, name),
        is_stripped(middle, after),
    ensures
        is_forwarded(before, after),
{
    reveal_strlit("host");
    reveal_strlit("connection");
    assert("host"@.len() == 4);
    assert("connection"@.len() == 10);
    assert(values_named(middle, "connection"@) == values_named(before, "connection"@));
    assert(crate::fields::connection_tokens(middle) == crate::fields::connection_tokens(before));
    assert forall|name: Seq<char>| #[trigger]
        values_named(after, name) == if name == "host"@ || is_hop_by_hop(before, name) {
            Seq::<Seq<u8>>::empty()
        } else {
            values_named(before, name)
        } by {
        assert(is_hop_by_hop(middle, name) == is_hop_by_hop(before, name));
    }
}

/// Decides what becomes of a request, given the URI to ask the backend for, where it could be
/// built. One that is not for the proxy's domain is answered with 421, one without a URI with 400;
/// either ends the exchange. Any other is passed on, its headers stripped.
pub fn admit_request_given(
    cfg: &RuntimeConfig,
    req: &mut RequestHead,
    capture: &mut SharedExchangeCapture,
    uri: Result<String, ConfigError>,
) -> (decision: RequestDecision)
    requires
        old(capture).wf(),
    ensures
        final(capture).wf(),
        ({
            let misdirected = !old(req).is_for_domain(cfg.frontend_domain@);
            match decision {
                RequestDecision::Reject { response, event } => {
                    &&& *final(req) == *old(req)
                    &&& misdirected || uri is Err
                    &&& misdirected ==> is_gateway(response, 421, "misdirected request"@)
                        && is_rejected(
                        old(capture).exchange,
                        final(capture).exchange,
                        event,
                        421,
                        ErrorKind::ClientProtocol,
                        "request host does not match configured frontend domain"@,
                    )
                    &&& !misdirected ==> is_gateway(response, 400, "bad request"@) && is_rejected(
                        old(capture).exchange,
                        final(capture).exchange,
                        event,
                        400,
                        ErrorKind::Config,
                        uri_failure_text(uri->Err_0),
                    )
                },
                RequestDecision::Forward { uri: asked } => {
                    &&& !misdirected
                    &&& uri == Ok::<String, ConfigError>(asked)
                    &&& final(capture).exchange == old(capture).exchange
                    &&& *final(req) == (RequestHead { headers: final(req).headers, ..*old(req) })
                    &&& is_forwarded(
                        header_entries(old(req).headers),
                        header_entries(final(req).headers),
                    )
                },
            }
        }),
{
    if !host_matches_frontend(req, cfg.frontend_domain.as_str()) {
        capture.set_rejection(
            421,
            ErrorInfo::new(
                ErrorKind::ClientProtocol,
                "request host does not match configured frontend domain",
            ),
        );
        let event = capture.finalize_and_send();
        return RequestDecision::Reject {
            response: make_gateway_error(421, "misdirected request"),
            event,
        };
    }
    match uri {
        Ok(uri) => {
            let ghost before = header_entries(req.headers);
            proof {
                reveal_strlit("host");
                assert(lower("host"@) =~= "host"@);
            }
            remove_header(&mut req.headers, "host");
            let ghost middle = header_entries(req.headers);
            strip_hop_by_hop_headers(&mut req.headers);
            proof {
                lemma_strip_after_host(before, middle, header_entries(req.headers));
            }
            RequestDecision::Forward { uri }
        },
        Err(error) => {
            let text = joined("failed to construct upstream URI: ", error.message().as_str());
            capture.set_rejection(400, ErrorInfo::from_display(ErrorKind::Config, text));
            let event = capture.finalize_and_send();
            RequestDecision::Reject { response: make_gateway_error(400, "bad request"), event }
        },
    }
}

/// Decides what becomes of a request. One that is not for the proxy's domain is answered with
/// 421, one whose upstream URI cannot be built with 400; either ends the exchange. Any other is
/// passed on, its headers stripped.
pub fn admit_request(
    cfg: &RuntimeConfig,
    req: &mut RequestHead,
    capture: &mut SharedExchangeCapture,
) -> (decision: RequestDecision)
    requires
        old(capture).wf(),
    ensures
        final(capture).wf(),
        ({
            let query = opt_text(old(req).query);
            let url = cfg.backend_url_for(old(req).path@, query);
            let misdirected = !old(req).is_for_domain(cfg.frontend_domain@);
            let buildable = url is Ok && uri_text(url->Ok_0) is Some;
            match decision {
                RequestDecision::Reject { response, event } => {
                    &&& *final(req) == *old(req)
                    &&& misdirected || !buildable
                    &&& misdirected ==> is_gateway(response, 421, "misdirected request"@)
                        && is_rejected(
                        old(capture).exchange,
                        final(capture).exchange,
                        event,
                        421,
                        ErrorKind::ClientProtocol,
                        "request host does not match configured frontend domain"@,
                    )
                    &&& !misdirected ==> is_gateway(response, 400, "bad request"@) && exists|
                        error: ConfigError,
                    |
                        {
                            &&& error@ == match url {
                                Ok(url) => ConfigFault::InvalidUpstreamUri(url),
                                Err(fault) => fault,
                            }
                            &&& is_rejected(
                                old(capture).exchange,
                                final(capture).exchange,
                                event,
                                400,
                                ErrorKind::Config,
                                #[trigger] uri_failure_text(error),
                            )
                        }
                },
                RequestDecision::Forward { uri } => {
                    &&& !misdirected
                    &&& buildable
                    &&& uri_text(url->Ok_0) == Some(uri@)
                    &&& final(capture).exchange == old(capture).exchange
                    &&& *final(req) == (RequestHead { headers: final(req).headers, ..*old(req) })
                    &&& is_forwarded(
                        header_entries(old(req).headers),
                        header_entries(final(req).headers),
                    )
                },
            }
        }),
{
    let query = match &req.query {
        Some(query) => Some(query.as_str()),
        None => None,
    };
    let uri = cfg.build_backend_uri(req.path.as_str(), query);
    admit_request_given(cfg, req, capture, uri)
}

/// Ends an exchange with a failure of the backend.
fn fail_upstream(capture: &mut SharedExchangeCapture, kind: ErrorKind, text: String) -> (event:
    Option<ProxyEvent>)
    requires
        old(capture).wf(),
    ensures
        final(capture).wf(),
        is_failed(old(capture).exchange, final(capture).exchange, event, kind, text@),
{
    capture.set_upstream_error(ErrorInfo::from_display(kind, text));
    capture.finalize_and_send()
}

/// Whether a response head is another with other headers.
pub open spec fn same_but_headers(a: ResponseHead, b: ResponseHead) -> bool {
    a == (ResponseHead { headers: a.headers, ..b })
}

/// Decides what becomes of what came of asking the backend. A failure is answered with 502, no
/// answer in time with 504; either ends the exchange. A response is noted and stripped, and the
/// rules run over its headers up to the first that needs the body; one that fails is answered with
/// 502 and ends the exchange.
pub fn admit_response(
    cfg: &RuntimeConfig,
    path: &str,
    query: Option<&str>,
    capture: &mut SharedExchangeCapture,
    result: UpstreamResult,
    response_started_at: i128,
) -> (decision: ResponseDecision)
    requires
        old(capture).wf(),
        in_calendar(response_started_at as int),
    ensures
        final(capture).wf(),
        match result {
            UpstreamResult::Failed(text) => ({
                &&& decision matches ResponseDecision::Fail { response, event }
                &&& is_gateway(response, 502, "bad gateway"@)
                &&& is_failed(
                    old(capture).exchange,
                    final(capture).exchange,
                    event,
                    ErrorKind::UpstreamProtocol,
                    text@,
                )
            }),
            UpstreamResult::TimedOut => ({
                &&& decision matches ResponseDecision::Fail { response, event }
                &&& is_gateway(response, 504, "gateway timeout"@)
                &&& is_failed(
                    old(capture).exchange,
                    final(capture).exchange,
                    event,
                    ErrorKind::Timeout,
                    "upstream request timed out"@,
                )
            }),
            UpstreamResult::Response(head) => exists|
                stripped: Seq<(Seq<char>, Seq<u8>)>,
                noted: ExchangeCapture,
            |
                {
                    let run = header_run(
                        cfg.transforms.transforms@,
                        0,
                        url_text(path@, crate::text::opt_str(query)),
                        stripped,
                    );
                    &&& #[trigger] is_stripped(header_entries(head.headers), stripped)
                    &&& #[trigger] is_with_response(
                        old(capture).exchange,
                        noted,
                        *cfg,
                        head,
                        response_started_at,
                    )
                    &&& match decision {
                        ResponseDecision::Fail { response, event } => {
                            &&& is_gateway(response, 502, "bad gateway"@)
                            &&& exists|error: TransformError|
                                run.report is Err && error@ == run.report->Err_0 && is_failed(
                                    noted,
                                    final(capture).exchange,
                                    event,
                                    ErrorKind::Internal,
                                    #[trigger] error.message_text(),
                                )
                        },
                        ResponseDecision::Stream { head: sent } => {
                            &&& run.report matches Ok(outcome) && outcome.disposition
                                == PrebufferDisposition::Stream
                            &&& same_but_headers(sent, head)
                            &&& header_entries(sent.headers) == run.entries
                            &&& final(capture).exchange == noted
                        },
                        ResponseDecision::Buffer { head: sent, from } => {
                            &&& run.report matches Ok(outcome) && outcome.disposition
                                == PrebufferDisposition::BufferFrom(from)
                            &&& same_but_headers(sent, head)
                            &&& header_entries(sent.headers) == run.entries
                            &&& final(capture).exchange == noted
                        },
                    }
                },
        },
{
    match result {
        UpstreamResult::Failed(text) => {
            let event = fail_upstream(capture, ErrorKind::UpstreamProtocol, text);
            ResponseDecision::Fail { response: make_gateway_error(502, "bad gateway"), event }
        },
        UpstreamResult::TimedOut => {
            let event = fail_upstream(
                capture,
                ErrorKind::Timeout,
                "upstream request timed out".to_owned(),
            );
            ResponseDecision::Fail { response: make_gateway_error(504, "gateway timeout"), event }
        },
        UpstreamResult::Response(head) => {
            let mut head = head;
            let ghost given = head;
            capture.set_upstream_response(cfg, &head, response_started_at);
            let ghost noted = capture.exchange;
            strip_hop_by_hop_headers(&mut head.headers);
            let ghost stripped = header_entries(head.headers);
            assert(is_stripped(header_entries(given.headers), stripped));
            assert(is_with_response(
                old(capture).exchange,
                noted,
                *cfg,
                given,
                response_started_at,
            ));
            let url = request_url(path, query);
            match cfg.transforms.apply_until_body(url.as_str(), &mut head.headers) {
                Ok(outcome) => match outcome.disposition {
                    PrebufferDisposition::Stream => ResponseDecision::Stream { head },
                    PrebufferDisposition::BufferFrom(from) => ResponseDecision::Buffer {
                        head,
                        from,
                    },
                },
                Err(error) => {
                    let text = error.message();
                    assert(text@ == error.message_text());
                    let event = fail_upstream(capture, ErrorKind::Internal, text);
                    ResponseDecision::Fail {
                        response: make_gateway_error(502, "bad gateway"),
                        event,
                    }
                },
            }
        },
    }
}

/// Whether headers are others with the length of the body stated: one `content-length`, or, in a
/// map that is full, none.
pub open spec fn states_length(
    before: Seq<(Seq<char>, Seq<u8>)>,
    after: Seq<(Seq<char>, Seq<u8>)>,
    length: nat,
) -> bool {
    &&& forall|name: Seq<char>|
        name != "content-length"@ ==> #[trigger] values_named(after, name) == values_named(
            before,
            name,
        )
    &&& {
        ||| values_named(after, "content-length"@) == seq![encode_utf8(decimal_text(length))]
        ||| before.len() >= 6554 && values_named(after, "content-length"@)
            == Seq::<Seq<u8>>::empty()
    }
}

/// Digits are written in UTF-8 as a header value may hold them.
proof fn lemma_digits_are_a_value(digits: Seq<char>)
    requires
        forall|i: int| 0 <= i < digits.len() ==> is_digit(#[trigger] digits[i]),
    ensures
        is_value(encode_utf8(digits)),
    decreases digits.len(),
{
    if digits.len() > 0 {
        let rest = digits.drop_first();
        assert forall|i: int| 0 <= i < rest.len() implies is_digit(#[trigger] rest[i]) by {
            assert(rest[i] == digits[i + 1]);
        }
        lemma_digits_are_a_value(rest);
        let first: u32 = digits[0] as u32;
        assert(is_digit(digits[0]));
        assert(48 <= first <= 57 ==> 48 <= vstd::utf8::leading_byte_width_1(first) <= 57)
            by (bit_vector);
        assert(vstd::utf8::encode_scalar(first) =~= seq![vstd::utf8::leading_byte_width_1(first)]);
        let front = vstd::utf8::encode_scalar(first);
        let whole = encode_utf8(digits);
        assert(whole == front + encode_utf8(rest));
        assert forall|i: int| 0 <= i < whole.len() implies crate::headers::is_value_byte(
            #[trigger] whole[i],
        ) by {
            if i > 0 {
                assert(whole[i] == encode_utf8(rest)[i - 1]);
            }
        }
    }
}

/// States the length of the body in the headers.
fn state_length(headers: &mut HeaderMap, length: usize)
    ensures
        states_length(
            header_entries(*old(headers)),
            header_entries(*final(headers)),
            length as nat,
        ),
{
    proof {
        reveal_strlit("content-length");
        assert("content-length"@.len() == 14);
        assert(lower("content-length"@) =~= "content-length"@);
        assert forall|i: int| 0 <= i < "content-length"@.len() implies crate::headers::is_name_char(
            #[trigger] "content-length"@[i],
        ) by {}
        crate::number::decimal_text_reads_back(length as nat);
        lemma_digits_are_a_value(decimal_text(length as nat));
    }
    remove_header(headers, "content-length");
    let text = decimal(length as u64);
    let _ = insert_header(headers, "content-length", bytes_of(text.as_str()).as_slice());
}

/// Decides what becomes of a response whose body had to be read first. Where reading it failed, or
/// a rule fails, the proxy answers with 502 and the exchange ends. Else the rules run from the one
/// that needed the body on, and where they change the body its new length is stated.
pub fn admit_buffered(
    cfg: &RuntimeConfig,
    path: &str,
    query: Option<&str>,
    capture: &mut SharedExchangeCapture,
    head: ResponseHead,
    from: usize,
    body: Result<Vec<u8>, String>,
) -> (decision: BufferedDecision)
    requires
        old(capture).wf(),
    ensures
        final(capture).wf(),
        match body {
            Err(text) => ({
                &&& decision matches BufferedDecision::Fail { response, event }
                &&& is_gateway(response, 502, "bad gateway"@)
                &&& is_failed(
                    old(capture).exchange,
                    final(capture).exchange,
                    event,
                    ErrorKind::UpstreamProtocol,
                    text@,
                )
            }),
            Ok(bytes) => ({
                let run = body_run(
                    cfg.transforms.transforms@,
                    from as int,
                    url_text(path@, crate::text::opt_str(query)),
                    header_entries(head.headers),
                    bytes@,
                );
                match decision {
                    BufferedDecision::Fail { response, event } => {
                        &&& is_gateway(response, 502, "bad gateway"@)
                        &&& exists|error: TransformError|
                            run.report is Err && error@ == run.report->Err_0 && is_failed(
                                old(capture).exchange,
                                final(capture).exchange,
                                event,
                                ErrorKind::Internal,
                                #[trigger] error.message_text(),
                            )
                    },
                    BufferedDecision::Send { head: sent, body: sent_body } => {
                        &&& run.report matches Ok(outcome) && if outcome.body_changed {
                            states_length(
                                run.entries,
                                header_entries(sent.headers),
                                run.body.len(),
                            )
                        } else {
                            header_entries(sent.headers) == run.entries
                        }
                        &&& same_but_headers(sent, head)
                        &&& sent_body@ == run.body
                        &&& final(capture).exchange == old(capture).exchange
                    },
                }
            }),
        },
{
    let mut bytes = match body {
        Ok(bytes) => bytes,
        Err(text) => {
            let event = fail_upstream(capture, ErrorKind::UpstreamProtocol, text);
            return BufferedDecision::Fail {
                response: make_gateway_error(502, "bad gateway"),
                event,
            };
        },
    };
    let mut head = head;
    let url = request_url(path, query);
    match cfg.transforms.apply_with_body(from, url.as_str(), &mut head.headers, &mut bytes) {
        Ok(outcome) => {
            if outcome.body_changed {
                state_length(&mut head.headers, bytes.len());
            }
            BufferedDecision::Send { head, body: bytes }
        },
        Err(error) => {
            let text = error.message();
            assert(text@ == error.message_text());
            let event = fail_upstream(capture, ErrorKind::Internal, text);
            BufferedDecision::Fail { response: make_gateway_error(502, "bad gateway"), event }
        },
    }
}

// ---------------------------------------------------------------------------
// Laws
// ---------------------------------------------------------------------------

/// A request is passed on without `host` and without the headers that are about one connection
/// only, and with every other header as it came.
pub proof fn forwarding_keeps_end_to_end_headers(
    before: Seq<(Seq<char>, Seq<u8>)>,
    after: Seq<(Seq<char>, Seq<u8>)>,
    name: Seq<char>,
)
    requires
        is_forwarded(before, after),
    ensures
        is_hop_by_hop(before, name) ==> values_named(after, name).len() == 0,
        values_named(after, "host"@).len() == 0,
        !is_hop_by_hop(before, name) && name != "host"@ ==> values_named(after, name)
            == values_named(before, name),
{
    assert(values_named(after, name) == if name == "host"@ || is_hop_by_hop(before, name) {
        Seq::<Seq<u8>>::empty()
    } else {
        values_named(before, name)
    });
}

/// Which headers are logged makes no difference to what is passed on: the URI that the backend is
/// asked for does not depend on it, nor does whether a request is turned down.
pub proof fn logging_does_not_affect_forwarding(
    cfg: RuntimeConfig,
    other: RuntimeConfig,
    req: RequestHead,
)
    requires
        other == (RuntimeConfig { header_log_policy: other.header_log_policy, ..cfg }),
    ensures
        req.is_for_domain(cfg.frontend_domain@) == req.is_for_domain(other.frontend_domain@),
        cfg.backend_url_for(req.path@, opt_text(req.query)) == other.backend_url_for(
            req.path@,
            opt_text(req.query),
        ),
        cfg.transforms == other.transforms,
{
}

/// A request without a `connection` header is passed on with every header but `host` and eight that
/// are about one connection only.
pub proof fn forwarding_takes_out_nothing_else(
    before: Seq<(Seq<char>, Seq<u8>)>,
    after: Seq<(Seq<char>, Seq<u8>)>,
    name: Seq<char>,
)
    requires
        is_forwarded(before, after),
        values_named(before, "connection"@).len() == 0,
        name != "host"@,
        name != "connection"@,
        name != "proxy-authenticate"@,
        name != "proxy-authorization"@,
        name != "te"@,
        name != "trailer"@,
        name != "transfer-encoding"@,
        name != "upgrade"@,
        name != "keep-alive"@,
    ensures
        values_named(after, name) == values_named(before, name),
{
    assert(crate::fields::connection_tokens(before) =~= Seq::<Seq<char>>::empty());
    assert(!is_hop_by_hop(before, name));
}

/// A request is passed on without `host`, without eight headers that are about one connection only
/// and without those that its `connection` header lists; every other header is passed on as it
/// came.
pub proof fn forwarding_follows_the_connection_header(
    before: Seq<(Seq<char>, Seq<u8>)>,
    after: Seq<(Seq<char>, Seq<u8>)>,
    name: Seq<char>,
)
    requires
        is_forwarded(before, after),
        name.len() > 0,
    ensures
        ({
            let listed = text_named(before, "connection"@) matches Some(text) && lists_name(
                text,
                name,
            );
            let about_connection = name == "connection"@ || name == "proxy-authenticate"@ || name
                == "proxy-authorization"@ || name == "te"@ || name == "trailer"@ || name
                == "transfer-encoding"@ || name == "upgrade"@ || name == "keep-alive"@;
            &&& name == "host"@ || about_connection || listed ==> values_named(after, name).len()
                == 0
            &&& name != "host"@ && !about_connection && !listed ==> values_named(after, name)
                == values_named(before, name)
        }),
{
    if let Some(text) = text_named(before, "connection"@) {
        let tokens = crate::fields::connection_tokens(before);
        let pieces = split(text, ',');
        if lists_name(text, name) {
            let (i, j) = choose|i: int, j: int|
                #[trigger] is_piece(text, ',', i, j) && lower(
                    crate::text::trim(text.subrange(i, j)),
                ) == name;
            stretches_are_pieces(text, ',', i, j);
            let k = choose|k: int| 0 <= k < pieces.len() && pieces[k] == text.subrange(i, j);
            assert(tokens[k] == name);
            assert(tokens.contains(name));
        } else if tokens.contains(name) {
            let k = choose|k: int| 0 <= k < tokens.len() && tokens[k] == name;
            assert(tokens[k] == lower(crate::text::trim(pieces[k])));
            assert(pieces.contains(pieces[k]));
            pieces_are_stretches(text, ',', pieces[k]);
        }
    }
}

/// A rejected request is answered with a status and logged with it: as rejected by the proxy, with
/// the kind and the text of what was wrong, and with what the request was.
pub proof fn rejections_are_logged_as_such(
    before: ExchangeCapture,
    after: ExchangeCapture,
    event: ProxyEvent,
    status: u16,
    kind: ErrorKind,
    text: Seq<char>,
)
    requires
        is_rejected(before, after, Some(event), status, kind, text),
    ensures
        after.finalized,
        !before.finalized,
        event.status_code == Some(status),
        opt_text(event.reason_phrase) == reason_of(status),
        event.error_kind == Some(kind),
        opt_text(event.error_text) == Some(text),
        event.proxy_result == ProxyResult::ClientRejected,
        event.method == before.method,
        event.path == before.path,
        event.query == before.query,
        event.authority == before.authority,
        event.client_ip == before.client_ip,
        event.event_id == before.event_id,
        event.request_headers_json == before.request_headers_json,
{
}

/// A failed exchange is logged as an error of the backend, with the kind and the text of what went
/// wrong, and with what the request was.
pub proof fn failures_are_logged_as_such(
    before: ExchangeCapture,
    after: ExchangeCapture,
    event: ProxyEvent,
    kind: ErrorKind,
    text: Seq<char>,
)
    requires
        is_failed(before, after, Some(event), kind, text),
    ensures
        after.finalized,
        !before.finalized,
        event.status_code == before.status_code,
        event.error_kind == Some(kind),
        opt_text(event.error_text) == Some(text),
        event.proxy_result == ProxyResult::UpstreamError,
        event.method == before.method,
        event.path == before.path,
        event.query == before.query,
        event.authority == before.authority,
        event.client_ip == before.client_ip,
        event.event_id == before.event_id,
        event.request_headers_json == before.request_headers_json,
{
}

/// An exchange that had ended is not logged again.
pub proof fn ended_exchanges_are_not_logged_again(
    before: ExchangeCapture,
    after: ExchangeCapture,
    event: Option<ProxyEvent>,
    status: u16,
    kind: ErrorKind,
    text: Seq<char>,
)
    ensures
        before.finalized && is_rejected(before, after, event, status, kind, text) ==> event is None,
        before.finalized && is_failed(before, after, event, kind, text) ==> event is None,
        !before.finalized && is_rejected(before, after, event, status, kind, text)
            ==> event is Some,
        !before.finalized && is_failed(before, after, event, kind, text) ==> event is Some,
{
}

/// The answers that the proxy gives itself are plain text with a status and a message.
pub proof fn own_answers_are_plain_text(response: GatewayResponse, status: u16, message: Seq<char>)
    requires
        is_gateway(response, status, message),
    ensures
        response.status == status,
        response.body@ == message,
        response.content_type@ == "text/plain; charset=utf-8"@,
{
}

/// A rewritten body has its length stated once, in decimal digits, unless there are thousands of
/// headers; the other headers stay.
pub proof fn rewritten_bodies_have_their_length_stated(
    before: Seq<(Seq<char>, Seq<u8>)>,
    after: Seq<(Seq<char>, Seq<u8>)>,
    length: nat,
    name: Seq<char>,
)
    requires
        states_length(before, after, length),
    ensures
        before.len() < 6554 ==> values_named(after, "content-length"@) == seq![
            encode_utf8(decimal_text(length)),
        ],
        values_named(after, "content-length"@).len() <= 1,
        name != "content-length"@ ==> values_named(after, name) == values_named(before, name),
{
}

/// A response is passed on with its status, version and connection as they came.
pub proof fn responses_keep_their_status(sent: ResponseHead, head: ResponseHead)
    requires
        same_but_headers(sent, head),
    ensures
        sent.status == head.status,
        sent.version == head.version,
        sent.upstream == head.upstream,
{
}

/// A request whose URI cannot be built is rejected with why it cannot.
pub proof fn unbuildable_uris_are_explained(error: ConfigError)
    ensures
        uri_failure_text(error) == "failed to construct upstream URI: "@ + error.message_text(),
{
}

/// Ending an exchange changes nothing that is known of it but how it ended.
pub proof fn ending_keeps_what_is_known(
    before: ExchangeCapture,
    after: ExchangeCapture,
    event: Option<ProxyEvent>,
    status: u16,
    kind: ErrorKind,
    text: Seq<char>,
)
    ensures
        is_rejected(before, after, event, status, kind, text) ==> before == (ExchangeCapture {
            status_code: before.status_code,
            reason_phrase: before.reason_phrase,
            proxy_result: before.proxy_result,
            error: before.error,
            finalized: before.finalized,
            ..after
        }),
        is_failed(before, after, event, kind, text) ==> before == (ExchangeCapture {
            proxy_result: before.proxy_result,
            error: before.error,
            finalized: before.finalized,
            ..after
        }),
{
}

} // verus!
