//! Retry and transport fallback decisions for Responses requests.
use vstd::prelude::*;

use crate::error::CodexErr;
use crate::error::UnexpectedResponseError;
use crate::text::decimal;
use crate::text::digits_value;
use crate::text::lemma_decimal_reads_back;
use crate::text::has_infix;
use crate::text::lemma_has_infix_split;
use crate::text::push_decimal;
use crate::text::str_contains;

verus! {

broadcast use vstd::string::group_string_axioms;

/// The kind of Responses request whose stream failed.
#[derive(Debug, Clone, Copy, PartialEq, Eq)]
pub enum ResponsesStreamRequest {
    Sampling,
    RemoteCompactionV2,
}

/// Where the wait before the next attempt comes from.
#[derive(Debug, Clone, Copy)]
pub enum RetryDelay {
    /// The server asked for this delay.
    Requested(std::time::Duration),
    /// No delay was asked for: wait the backoff of the retry count.
    Backoff,
}

/// What to do after a retryable stream error.
#[derive(Debug, Clone, Copy)]
pub enum RetryStep {
    /// The transport was switched from WebSockets to HTTPS: warn, and start the
    /// request loop again with a retry count of zero.
    FallBackToHttps,
    /// Retry the request after the delay; tell the user about it when
    /// `report_error` holds.
    Retry { retry_count: u64, delay: RetryDelay, report_error: bool },
    /// The retries are used up: surface the error.
    GiveUp,
}

/// The delay that the error asks for.
pub open spec fn spec_retry_delay(err: &CodexErr) -> RetryDelay {
    match err {
        CodexErr::Stream(_, Some(d)) => RetryDelay::Requested(*d),
        _ => RetryDelay::Backoff,
    }
}

/// The retry count after a step, and the step, from the retry count before it.
pub open spec fn spec_retry_step(
    retries: u64,
    max_retries: u64,
    switched_transport: bool,
    err: &CodexErr,
    websocket_enabled: bool,
    debug_build: bool,
) -> (u64, RetryStep) {
    if retries >= max_retries && switched_transport {
        (0, RetryStep::FallBackToHttps)
    } else if retries < max_retries {
        let retry_count = (retries + 1) as u64;
        (
            retry_count,
            RetryStep::Retry {
                retry_count,
                delay: spec_retry_delay(err),
                report_error: retry_count > 1 || debug_build || !websocket_enabled,
            },
        )
    } else {
        (retries, RetryStep::GiveUp)
    }
}

/// Whether the retries are used up, so that a switch of transport should be
/// tried before anything else.
pub fn retries_exhausted(retries: u64, max_retries: u64) -> (res: bool)
    ensures
        res == (retries >= max_retries),
{
    retries >= max_retries
}

/// The delay that the error asks for, if any.
pub fn retry_delay(err: &CodexErr) -> (res: RetryDelay)
    ensures
        res == spec_retry_delay(err),
{
    match err {
        CodexErr::Stream(_, Some(d)) => RetryDelay::Requested(*d),
        _ => RetryDelay::Backoff,
    }
}

/// Decides what follows a retryable stream error, and updates the retry count.
///
/// `switched_transport` is whether the client switched from WebSockets to
/// HTTPS; it is asked only when the retries are used up (see
/// `retries_exhausted`), and is ignored otherwise. The first retry is not
/// reported to the user in release builds with WebSockets enabled.
pub fn handle_retryable_response_stream_error(
    retries: &mut u64,
    max_retries: u64,
    switched_transport: bool,
    err: &CodexErr,
    websocket_enabled: bool,
    debug_build: bool,
) -> (step: RetryStep)
    ensures
        (*final(retries), step) == spec_retry_step(
            *old(retries),
            max_retries,
            switched_transport,
            err,
            websocket_enabled,
            debug_build,
        ),
{
    if *retries >= max_retries && switched_transport {
        *retries = 0;
        return RetryStep::FallBackToHttps;
    }
    if *retries < max_retries {
        *retries = *retries + 1;
        let retry_count = *retries;
        let delay = retry_delay(err);
        let report_error = retry_count > 1 || debug_build || !websocket_enabled;
        return RetryStep::Retry { retry_count, delay, report_error };
    }
    RetryStep::GiveUp
}


/// The retry count after `attempts` retryable errors in a row, none of which
/// switched the transport.
pub open spec fn retries_after(
    start: u64,
    max_retries: u64,
    err: &CodexErr,
    websocket_enabled: bool,
    debug_build: bool,
    attempts: nat,
) -> u64
    decreases attempts,
{
    if attempts == 0 {
        start
    } else {
        spec_retry_step(
            retries_after(start, max_retries, err, websocket_enabled, debug_build, (attempts - 1) as nat),
            max_retries,
            false,
            err,
            websocket_enabled,
            debug_build,
        ).0
    }
}

/// Law: a retry count within the limit stays within it, whatever the step.
pub proof fn lemma_retry_count_bounded(
    retries: u64,
    max_retries: u64,
    switched_transport: bool,
    err: &CodexErr,
    websocket_enabled: bool,
    debug_build: bool,
)
    requires
        retries <= max_retries,
    ensures
        spec_retry_step(retries, max_retries, switched_transport, err, websocket_enabled, debug_build).0
            <= max_retries,
{
}

/// Law: without a switch of transport, errors in a row are retried until the
/// count reaches `max_retries`, one more for each error, and the error after
/// that is given up on.
pub proof fn lemma_gives_up_after_max_retries(
    start: u64,
    max_retries: u64,
    err: &CodexErr,
    websocket_enabled: bool,
    debug_build: bool,
    attempts: nat,
)
    requires
        start <= max_retries,
    ensures
        retries_after(start, max_retries, err, websocket_enabled, debug_build, attempts) == if start
            + attempts <= max_retries {
            start + attempts
        } else {
            max_retries as int
        },
        spec_retry_step(
            retries_after(start, max_retries, err, websocket_enabled, debug_build, attempts),
            max_retries,
            false,
            err,
            websocket_enabled,
            debug_build,
        ).1 is GiveUp <==> start + attempts >= max_retries,
    decreases attempts,
{
    if attempts > 0 {
        lemma_gives_up_after_max_retries(
            start,
            max_retries,
            err,
            websocket_enabled,
            debug_build,
            (attempts - 1) as nat,
        );
    }
}


/// Law of a retry step: where the transport was switched after the retries
/// ran out, the loop restarts from zero; otherwise, while retries remain, the
/// count goes up by one and the retry waits the delay that a broken stream
/// asked for, or the backoff where none was asked for, at every retry alike,
/// and is reported unless it is the first one in a release build with
/// WebSockets; once the retries ran out, the error is given up on.
pub proof fn lemma_retry_step_outcomes(
    retries: u64,
    max_retries: u64,
    switched_transport: bool,
    err: &CodexErr,
    websocket_enabled: bool,
    debug_build: bool,
)
    ensures
        ({
            let (after, step) = spec_retry_step(
                retries,
                max_retries,
                switched_transport,
                err,
                websocket_enabled,
                debug_build,
            );
            &&& retries >= max_retries && switched_transport ==> after == 0
                && step is FallBackToHttps
            &&& !switched_transport && retries >= max_retries ==> after == retries && step is GiveUp
            &&& retries < max_retries ==> {
                &&& after == retries + 1
                &&& step matches RetryStep::Retry { retry_count, delay, report_error }
                &&& retry_count == retries + 1
                &&& report_error == (retries >= 1 || debug_build || !websocket_enabled)
                &&& match err {
                    CodexErr::Stream(_, Some(d)) => delay == RetryDelay::Requested(*d),
                    _ => delay is Backoff,
                }
            }
        }),
{
}

/// Law: two retries of the same error wait the same kind of delay, whatever
/// their retry counts.
pub proof fn lemma_retry_delay_same_at_every_count(
    first: u64,
    second: u64,
    max_retries: u64,
    err: &CodexErr,
    websocket_enabled: bool,
    debug_build: bool,
)
    requires
        first < max_retries,
        second < max_retries,
    ensures
        spec_retry_step(first, max_retries, false, err, websocket_enabled, debug_build).1->delay
            == spec_retry_step(second, max_retries, false, err, websocket_enabled, debug_build).1->delay,
{
}

/// The notice that tells the user about a retry.
pub open spec fn spec_reconnecting_message(retry_count: u64, max_retries: u64) -> Seq<char> {
    "Reconnecting... "@ + decimal(retry_count as nat) + "/"@ + decimal(max_retries as nat)
}

/// The notice that tells the user about a retry: `Reconnecting... 2/5`.
pub fn reconnecting_message(retry_count: u64, max_retries: u64) -> (res: String)
    ensures
        res@ == spec_reconnecting_message(retry_count, max_retries),
{
    let mut message = "Reconnecting... ".to_owned();
    push_decimal(&mut message, retry_count);
    message.append("/");
    push_decimal(&mut message, max_retries);
    message
}


/// Law of the notice: it is `Reconnecting... ` followed by the retry count and
/// the limit, in decimal digits, separated by one slash.
pub proof fn lemma_reconnecting_message_counts(retry_count: u64, max_retries: u64)
    ensures
        ({
            let m = spec_reconnecting_message(retry_count, max_retries);
            let rest = m.skip(16);
            &&& m.take(16) == "Reconnecting... "@
            &&& exists|j: int|
                0 <= j < rest.len() && rest[j] == '/' && digits_value(rest.take(j)) == retry_count
                    && digits_value(rest.skip(j + 1)) == max_retries && (forall|i: int|
                    0 <= i < rest.len() && i != j ==> '0' <= #[trigger] rest[i] <= '9')
        }),
{
    reveal_strlit("Reconnecting... ");
    reveal_strlit("/");
    let a = decimal(retry_count as nat);
    let b = decimal(max_retries as nat);
    lemma_decimal_reads_back(retry_count as nat);
    lemma_decimal_reads_back(max_retries as nat);
    let m = spec_reconnecting_message(retry_count, max_retries);
    let rest = m.skip(16);
    assert(m.take(16) =~= "Reconnecting... "@);
    assert(rest =~= a + "/"@ + b);
    let j = a.len() as int;
    assert(rest.take(j) =~= a);
    assert(rest.skip(j + 1) =~= b);
    assert(rest[j] == '/');
    assert forall|i: int| 0 <= i < rest.len() && i != j implies '0' <= #[trigger] rest[i] <= '9' by {
        if i < j {
            assert(rest[i] == a[i]);
        } else {
            assert(rest[i] == b[i - j - 1]);
        }
    }
}

/// The body says that the gateway refuses the Responses API for this model.
pub open spec fn names_responses_rejection(body: Seq<char>) -> bool {
    has_infix(body, "does not allow Responses API"@) || has_infix(body, "\"code\":\"400005\""@)
}

/// Whether the error asks for an immediate retry with the Chat Completions API.
pub open spec fn spec_should_fallback_to_chat(err: &CodexErr) -> bool {
    match err {
        CodexErr::InvalidRequest(body) => names_responses_rejection(body@),
        CodexErr::UnexpectedStatus(unexpected) => names_responses_rejection(unexpected.body@),
        _ => false,
    }
}


/// Law: the gateway's refusal is read the same way from an invalid request as
/// from an unexpected status: the same body gives the same decision, whatever
/// the status and the other fields.
pub proof fn lemma_fallback_same_for_both_refusals(body: String, unexpected: UnexpectedResponseError)
    requires
        unexpected.body@ == body@,
    ensures
        spec_should_fallback_to_chat(&CodexErr::InvalidRequest(body))
            == spec_should_fallback_to_chat(&CodexErr::UnexpectedStatus(unexpected)),
{
}

/// Law: an invalid request or an unexpected status falls back exactly when
/// its body contains the code `400005` (as `"code":"400005"`) or the words
/// "does not allow Responses API" somewhere; every other error never does.
pub proof fn lemma_fallback_markers(err: &CodexErr)
    ensures
        spec_should_fallback_to_chat(err) <==> match err {
            CodexErr::InvalidRequest(b) => (exists|x: Seq<char>, y: Seq<char>|
                b@ == x + "\"code\":\"400005\""@ + y) || (exists|x: Seq<char>, y: Seq<char>|
                b@ == x + "does not allow Responses API"@ + y),
            CodexErr::UnexpectedStatus(u) => (exists|x: Seq<char>, y: Seq<char>|
                u.body@ == x + "\"code\":\"400005\""@ + y) || (exists|x: Seq<char>, y: Seq<char>|
                u.body@ == x + "does not allow Responses API"@ + y),
            _ => false,
        },
{
    match err {
        CodexErr::InvalidRequest(b) => {
            lemma_has_infix_split(b@, "\"code\":\"400005\""@);
            lemma_has_infix_split(b@, "does not allow Responses API"@);
        },
        CodexErr::UnexpectedStatus(u) => {
            lemma_has_infix_split(u.body@, "\"code\":\"400005\""@);
            lemma_has_infix_split(u.body@, "does not allow Responses API"@);
        },
        _ => {},
    }
}

fn body_names_responses_rejection(body: &String) -> (res: bool)
    ensures
        res == names_responses_rejection(body@),
{
    str_contains(body.as_str(), "does not allow Responses API") || str_contains(
        body.as_str(),
        "\"code\":\"400005\"",
    )
}

/// Returns `true` when the error shows that the Responses API is unusable for
/// this model or request, and the caller should retry at once with the Chat
/// Completions API: the gateway refused the request (an invalid request, or an
/// unexpected status) with a body that carries the code `400005` or says that
/// the model "does not allow Responses API".
pub fn should_fallback_to_chat(err: &CodexErr) -> (res: bool)
    ensures
        res == spec_should_fallback_to_chat(err),
{
    match err {
        CodexErr::InvalidRequest(body) => body_names_responses_rejection(body),
        CodexErr::UnexpectedStatus(unexpected) => body_names_responses_rejection(&unexpected.body),
        _ => false,
    }
}

} // verus!
