//! The course of a request: a search that a second request backs, and an answer without search that
//! is tried twice. Requests, waiting and clocks are the caller's; what comes next is decided here.

use crate::ai_reply;
use crate::ai_reply::AiAnswer;
use crate::ai_reply::AnswerModel;
use crate::config::AiApiFormat;
use crate::failure;
use crate::failure::Failure;
use crate::provider_error;
use crate::provider_error::ErrorModel;
use crate::provider_error::ProviderError;
use crate::scan;
use vstd::prelude::*;

verus! {

/// The least time that a request is started with, in nanoseconds.
pub const LEAST_TIME: u128 = 500_000_000;

pub open spec fn service_name(format: AiApiFormat) -> Seq<char> {
    match format {
        AiApiFormat::GeminiInteractions => "Gemini"@,
        _ => "OpenAI-compatible"@,
    }
}

pub fn service_label(format: AiApiFormat) -> (r: &'static str)
    ensures
        r@ == service_name(format),
{
    match format {
        AiApiFormat::GeminiInteractions => "Gemini",
        _ => "OpenAI-compatible",
    }
}

/// The error of a request that took too long.
pub fn timeout_error(format: AiApiFormat) -> (r: ProviderError)
    ensures
        r@ == provider_error::transient_error(service_name(format) + " request timed out"@),
{
    let mut message = service_label(format).to_owned();
    message.append(" request timed out");
    ProviderError { message, transient: true, retry_after: None }
}

// ---------------------------------------------------------------------------------------------
// Searching
// ---------------------------------------------------------------------------------------------

/// How far a search has come.
pub enum SearchState {
    /// The first request runs alone.
    First,
    /// Both requests run.
    Both,
    /// The first request failed, the second runs.
    SecondLeft(ProviderError),
    /// The second request failed, the first runs.
    FirstLeft(ProviderError),
    /// There is a result.
    Done,
}

/// What has happened.
pub enum SearchEvent {
    FirstDone(Result<AiAnswer, ProviderError>),
    SecondDone(Result<AiAnswer, ProviderError>),
    /// The first request has not come to an end within the time after which a second one starts.
    FirstSlow,
}

/// What is to be done.
pub enum SearchAction {
    /// Start the second request, with so many nanoseconds to go.
    StartSecond { limit: u128 },
    /// Wait for what runs.
    Wait,
    Finish(Result<AiAnswer, Failure>),
}

pub enum StateModel {
    First,
    Both,
    SecondLeft(ErrorModel),
    FirstLeft(ErrorModel),
    Done,
}

pub enum EventModel {
    FirstDone(Result<AnswerModel, ErrorModel>),
    SecondDone(Result<AnswerModel, ErrorModel>),
    FirstSlow,
}

pub enum ActionModel {
    StartSecond { limit: u128 },
    Wait,
    Finish(Result<AnswerModel, Seq<char>>),
}

impl View for SearchState {
    type V = StateModel;

    open spec fn view(&self) -> StateModel {
        match *self {
            SearchState::First => StateModel::First,
            SearchState::Both => StateModel::Both,
            SearchState::SecondLeft(e) => StateModel::SecondLeft(e@),
            SearchState::FirstLeft(e) => StateModel::FirstLeft(e@),
            SearchState::Done => StateModel::Done,
        }
    }
}

impl View for SearchEvent {
    type V = EventModel;

    open spec fn view(&self) -> EventModel {
        match *self {
            SearchEvent::FirstDone(r) => EventModel::FirstDone(ai_reply::reply_outcome(r)),
            SearchEvent::SecondDone(r) => EventModel::SecondDone(ai_reply::reply_outcome(r)),
            SearchEvent::FirstSlow => EventModel::FirstSlow,
        }
    }
}

impl View for SearchAction {
    type V = ActionModel;

    open spec fn view(&self) -> ActionModel {
        match *self {
            SearchAction::StartSecond { limit } => ActionModel::StartSecond { limit },
            SearchAction::Wait => ActionModel::Wait,
            SearchAction::Finish(Ok(answer)) => ActionModel::Finish(Ok(answer@)),
            SearchAction::Finish(Err(e)) => ActionModel::Finish(Err(e@)),
        }
    }
}

/// The message of a search that ran out of time before the second request could start.
pub open spec fn deadline_text(format: AiApiFormat, elapsed: Seq<char>) -> Seq<char> {
    service_name(format) + " native search deadline exceeded after "@ + elapsed + "s"@
}

/// The message of a search of which both requests failed.
pub open spec fn both_failed_text(
    first: Seq<char>,
    second: Seq<char>,
    elapsed: Seq<char>,
) -> Seq<char> {
    "native search failed after "@ + elapsed + "s; primary: "@ + first + "; fallback: "@ + second
}

pub open spec fn finish(r: Result<AnswerModel, Seq<char>>) -> (StateModel, ActionModel) {
    (StateModel::Done, ActionModel::Finish(r))
}

/// Whether a second request backs the first, by the seconds after which it is to start; 0 for never.
pub open spec fn hedged(seconds: u64) -> bool {
    seconds != 0
}

/// What comes next in a search. `hedging` is whether a second request backs the first; `remaining`
/// is what is left of the time for the search, in nanoseconds; `elapsed` is what has passed of it,
/// in words.
pub open spec fn next_search(
    format: AiApiFormat,
    hedging: bool,
    state: StateModel,
    event: EventModel,
    remaining: u128,
    elapsed: Seq<char>,
) -> (StateModel, ActionModel) {
    match (state, event) {
        (StateModel::First, EventModel::FirstDone(Ok(answer))) => finish(Ok(answer)),
        (StateModel::First, EventModel::FirstDone(Err(e))) => if !hedging {
            finish(Err(e.message))
        } else if remaining < LEAST_TIME {
            finish(Err(deadline_text(format, elapsed)))
        } else {
            (StateModel::SecondLeft(e), ActionModel::StartSecond { limit: remaining })
        },
        (StateModel::First, EventModel::FirstSlow) => if !hedging {
            (state, ActionModel::Wait)
        } else if remaining < LEAST_TIME {
            finish(Err(deadline_text(format, elapsed)))
        } else {
            (StateModel::Both, ActionModel::StartSecond { limit: remaining })
        },
        (StateModel::Both, EventModel::FirstDone(Ok(answer))) => finish(Ok(answer)),
        (StateModel::Both, EventModel::FirstDone(Err(e))) => (
            StateModel::SecondLeft(e),
            ActionModel::Wait,
        ),
        (StateModel::Both, EventModel::SecondDone(Ok(answer))) => finish(Ok(answer)),
        (StateModel::Both, EventModel::SecondDone(Err(e))) => (
            StateModel::FirstLeft(e),
            ActionModel::Wait,
        ),
        (StateModel::SecondLeft(first), EventModel::SecondDone(Ok(answer))) => finish(Ok(answer)),
        (StateModel::SecondLeft(first), EventModel::SecondDone(Err(second))) => finish(
            Err(both_failed_text(first.message, second.message, elapsed)),
        ),
        (StateModel::FirstLeft(second), EventModel::FirstDone(Ok(answer))) => finish(Ok(answer)),
        (StateModel::FirstLeft(second), EventModel::FirstDone(Err(first))) => finish(
            Err(both_failed_text(first.message, second.message, elapsed)),
        ),
        _ => (state, ActionModel::Wait),
    }
}

/// Whether the request that an event is about runs in a state.
pub open spec fn runs(state: StateModel, event: EventModel) -> bool {
    match event {
        EventModel::FirstDone(_) => state is First || state is Both || state is FirstLeft,
        EventModel::SecondDone(_) => state is Both || state is SecondLeft,
        EventModel::FirstSlow => state is First,
    }
}

/// The first success wins: whichever request brings an answer, that answer is the result at once.
pub proof fn law_first_success_wins(
    format: AiApiFormat,
    hedging: bool,
    state: StateModel,
    answer: AnswerModel,
    remaining: u128,
    elapsed: Seq<char>,
)
    ensures
        runs(state, EventModel::FirstDone(Ok(answer))) ==> next_search(
            format,
            hedging,
            state,
            EventModel::FirstDone(Ok(answer)),
            remaining,
            elapsed,
        ) == finish(Ok(answer)),
        runs(state, EventModel::SecondDone(Ok(answer))) ==> next_search(
            format,
            hedging,
            state,
            EventModel::SecondDone(Ok(answer)),
            remaining,
            elapsed,
        ) == finish(Ok(answer)),
{
}

/// A search with a second request fails only when no request is left: one failure leads to the other
/// request, unless there is too little time to start it.
pub proof fn law_one_failure_is_not_the_end(
    format: AiApiFormat,
    state: StateModel,
    event: EventModel,
    remaining: u128,
    elapsed: Seq<char>,
)
    requires
        runs(state, event),
        remaining >= LEAST_TIME,
        state is First || state is Both,
    ensures
        !(next_search(format, true, state, event, remaining, elapsed).1 matches ActionModel::Finish(
            Err(_),
        )),
{
}

/// Zero seconds switch the second request off: there is never one, however slow the first is.
pub proof fn law_no_second_request(
    format: AiApiFormat,
    seconds: u64,
    state: StateModel,
    event: EventModel,
    remaining: u128,
    elapsed: Seq<char>,
)
    requires
        seconds == 0,
    ensures
        !(next_search(format, hedged(seconds), state, event, remaining, elapsed).1 is StartSecond),
{
}

/// Any other number of seconds switches it on: while the first request runs alone and is slow, the second one
/// starts if there is time for it.
pub proof fn law_slow_search_is_backed(
    format: AiApiFormat,
    seconds: u64,
    remaining: u128,
    elapsed: Seq<char>,
)
    requires
        seconds > 0,
        remaining >= LEAST_TIME,
    ensures
        next_search(
            format,
            hedged(seconds),
            StateModel::First,
            EventModel::FirstSlow,
            remaining,
            elapsed,
        ) == (StateModel::Both, ActionModel::StartSecond { limit: remaining }),
{
}

/// The second request starts at most once: what starts it happens only while the first runs alone,
/// and that state does not come back.
pub proof fn law_second_request_once(
    format: AiApiFormat,
    hedging: bool,
    state: StateModel,
    event: EventModel,
    remaining: u128,
    elapsed: Seq<char>,
)
    ensures
        ({
            let next = next_search(format, hedging, state, event, remaining, elapsed);
            &&& next.1 is StartSecond ==> state is First && !(next.0 is First)
            &&& next.0 is First ==> state is First
        }),
{
}

fn deadline_failure(format: AiApiFormat, elapsed: &str) -> (r: Failure)
    ensures
        r@ == deadline_text(format, elapsed@),
{
    let mut message = service_label(format).to_owned();
    message.append(" native search deadline exceeded after ");
    message.append(elapsed);
    message.append("s");
    Failure::of(message)
}

pub fn native_search_models_failed(
    primary: &ProviderError,
    fallback: &ProviderError,
    elapsed: &str,
) -> (r: Failure)
    ensures
        r@ == both_failed_text(primary@.message, fallback@.message, elapsed@),
{
    let mut message = "native search failed after ".to_owned();
    message.append(elapsed);
    message.append("s; primary: ");
    message.append(primary.message.as_str());
    message.append("; fallback: ");
    message.append(fallback.message.as_str());
    Failure::of(message)
}

/// What comes next in a search, as `next_search` says.
pub fn search_step(
    format: AiApiFormat,
    hedging: bool,
    state: SearchState,
    event: SearchEvent,
    remaining: u128,
    elapsed: &str,
) -> (r: (SearchState, SearchAction))
    ensures
        (r.0@, r.1@) == next_search(format, hedging, state@, event@, remaining, elapsed@),
{
    match state {
        SearchState::First => match event {
            SearchEvent::FirstDone(Ok(answer)) => (
                SearchState::Done,
                SearchAction::Finish(Ok(answer)),
            ),
            SearchEvent::FirstDone(Err(e)) => {
                if !hedging {
                    (SearchState::Done, SearchAction::Finish(Err(Failure::of(e.message))))
                } else if remaining < LEAST_TIME {
                    (
                        SearchState::Done,
                        SearchAction::Finish(Err(deadline_failure(format, elapsed))),
                    )
                } else {
                    (SearchState::SecondLeft(e), SearchAction::StartSecond { limit: remaining })
                }
            },
            SearchEvent::FirstSlow => {
                if !hedging {
                    (SearchState::First, SearchAction::Wait)
                } else if remaining < LEAST_TIME {
                    (
                        SearchState::Done,
                        SearchAction::Finish(Err(deadline_failure(format, elapsed))),
                    )
                } else {
                    (SearchState::Both, SearchAction::StartSecond { limit: remaining })
                }
            },
            SearchEvent::SecondDone(_) => (SearchState::First, SearchAction::Wait),
        },
        SearchState::Both => match event {
            SearchEvent::FirstDone(Ok(answer)) => (
                SearchState::Done,
                SearchAction::Finish(Ok(answer)),
            ),
            SearchEvent::FirstDone(Err(e)) => (SearchState::SecondLeft(e), SearchAction::Wait),
            SearchEvent::SecondDone(Ok(answer)) => (
                SearchState::Done,
                SearchAction::Finish(Ok(answer)),
            ),
            SearchEvent::SecondDone(Err(e)) => (SearchState::FirstLeft(e), SearchAction::Wait),
            SearchEvent::FirstSlow => (SearchState::Both, SearchAction::Wait),
        },
        SearchState::SecondLeft(first) => match event {
            SearchEvent::SecondDone(Ok(answer)) => (
                SearchState::Done,
                SearchAction::Finish(Ok(answer)),
            ),
            SearchEvent::SecondDone(Err(second)) => (
                SearchState::Done,
                SearchAction::Finish(Err(native_search_models_failed(&first, &second, elapsed))),
            ),
            _ => (SearchState::SecondLeft(first), SearchAction::Wait),
        },
        SearchState::FirstLeft(second) => match event {
            SearchEvent::FirstDone(Ok(answer)) => (
                SearchState::Done,
                SearchAction::Finish(Ok(answer)),
            ),
            SearchEvent::FirstDone(Err(first)) => (
                SearchState::Done,
                SearchAction::Finish(Err(native_search_models_failed(&first, &second, elapsed))),
            ),
            _ => (SearchState::FirstLeft(second), SearchAction::Wait),
        },
        SearchState::Done => (SearchState::Done, SearchAction::Wait),
    }
}

/// Whether a second request backs the first, by the seconds after which it is to start.
pub fn hedges(seconds: u64) -> (r: bool)
    ensures
        r == hedged(seconds),
        r == (seconds != 0),
{
    seconds != 0
}

/// Whether a protocol can be asked to search; if not, why.
pub fn begin_search(format: AiApiFormat) -> (r: Result<(), Failure>)
    ensures
        match r {
            Ok(_) => format.searches(),
            Err(e) => !format.searches() && e@ == format.name()
                + " does not define a standard native web-search tool"@,
        },
{
    if format.supports_native_search() {
        Ok(())
    } else {
        let mut message = format.as_str().to_owned();
        message.append(" does not define a standard native web-search tool");
        Err(Failure::of(message))
    }
}

// ---------------------------------------------------------------------------------------------
// Answering without search
// ---------------------------------------------------------------------------------------------

/// How far an answer without search has come: how many requests were sent, and what the last of them
/// brought if it failed.
pub struct ChatState {
    pub sent: u8,
    pub last_error: Option<ProviderError>,
}

/// What has happened.
pub enum ChatEvent {
    /// It is time for a request, with so many nanoseconds left.
    Ready { remaining: u128 },
    Answered(AiAnswer),
    /// The request failed that was sent with so many nanoseconds left; the next may follow after
    /// `delay` nanoseconds.
    Failed { error: ProviderError, remaining: u128, delay: u128 },
}

/// What is to be done.
pub enum ChatAction {
    /// Send a request, with so many nanoseconds to go.
    Send { limit: u128 },
    /// Wait for so many nanoseconds; then it is time for a request.
    Sleep { delay: u128 },
    Finish(Result<String, Failure>),
}

#[verifier::ext_equal]
pub struct ChatModel {
    pub sent: nat,
    pub last_error: Option<ErrorModel>,
}

pub enum ChatActionModel {
    Send { limit: u128 },
    Sleep { delay: u128 },
    Finish(Result<Seq<char>, Seq<char>>),
}

pub enum ChatEventModel {
    Ready { remaining: u128 },
    Answered(AnswerModel),
    Failed { error: ErrorModel, remaining: u128, delay: u128 },
}

impl View for ChatState {
    type V = ChatModel;

    open spec fn view(&self) -> ChatModel {
        ChatModel {
            sent: self.sent as nat,
            last_error: match self.last_error {
                Some(e) => Some(e@),
                None => None,
            },
        }
    }
}

impl View for ChatEvent {
    type V = ChatEventModel;

    open spec fn view(&self) -> ChatEventModel {
        match *self {
            ChatEvent::Ready { remaining } => ChatEventModel::Ready { remaining },
            ChatEvent::Answered(answer) => ChatEventModel::Answered(answer@),
            ChatEvent::Failed { error, remaining, delay } => ChatEventModel::Failed {
                error: error@,
                remaining,
                delay,
            },
        }
    }
}

impl View for ChatAction {
    type V = ChatActionModel;

    open spec fn view(&self) -> ChatActionModel {
        match *self {
            ChatAction::Send { limit } => ChatActionModel::Send { limit },
            ChatAction::Sleep { delay } => ChatActionModel::Sleep { delay },
            ChatAction::Finish(r) => ChatActionModel::Finish(failure::text_outcome(r)),
        }
    }
}

/// The message of an answer that did not come.
pub open spec fn chat_failed_text(
    format: AiApiFormat,
    last_error: Option<ErrorModel>,
    elapsed: Seq<char>,
) -> Seq<char> {
    service_name(format) + " request failed after "@ + elapsed + "s: "@ + match last_error {
        Some(e) => e.message,
        None => service_name(format) + " request deadline exceeded"@,
    }
}

/// What comes next in an answer without search: at most two requests, the second only after an error
/// that may pass, and none with too little time left.
pub open spec fn next_chat(
    format: AiApiFormat,
    state: ChatModel,
    event: ChatEventModel,
    elapsed: Seq<char>,
) -> (ChatModel, ChatActionModel) {
    match event {
        ChatEventModel::Ready { remaining } => if state.sent >= 2 || remaining < LEAST_TIME {
            (
                state,
                ChatActionModel::Finish(Err(chat_failed_text(format, state.last_error, elapsed))),
            )
        } else {
            (
                ChatModel { sent: state.sent + 1, ..state },
                ChatActionModel::Send { limit: remaining },
            )
        },
        ChatEventModel::Answered(answer) => (state, ChatActionModel::Finish(Ok(answer.text))),
        ChatEventModel::Failed { error, remaining, delay } => {
            let failed = ChatModel { last_error: Some(error), ..state };
            if error.transient && state.sent == 1 && delay + LEAST_TIME < remaining {
                (failed, ChatActionModel::Sleep { delay })
            } else {
                (
                    failed,
                    ChatActionModel::Finish(
                        Err(chat_failed_text(format, Some(error), elapsed)),
                    ),
                )
            }
        },
    }
}

/// At most two requests are sent for an answer without search, none with less than half a second left,
/// and after an error that will not pass there is no other.
pub proof fn law_chat_requests(
    format: AiApiFormat,
    state: ChatModel,
    event: ChatEventModel,
    elapsed: Seq<char>,
)
    requires
        state.sent <= 2,
    ensures
        ({
            let next = next_chat(format, state, event, elapsed);
            &&& next.0.sent <= 2
            &&& next.1 is Send <==> next.0.sent == state.sent + 1
            &&& next.1 matches ChatActionModel::Send { limit } ==> limit >= LEAST_TIME
            &&& event matches ChatEventModel::Failed { error, .. } ==> (!error.transient
                ==> next.1 is Finish)
        }),
{
}

fn chat_failure(format: AiApiFormat, last_error: &Option<ProviderError>, elapsed: &str) -> (r:
    Failure)
    ensures
        r@ == chat_failed_text(
            format,
            match *last_error {
                Some(e) => Some(e@),
                None => None,
            },
            elapsed@,
        ),
{
    let mut message = service_label(format).to_owned();
    message.append(" request failed after ");
    message.append(elapsed);
    message.append("s: ");
    match last_error {
        Some(e) => {
            message.append(e.message.as_str());
        },
        None => {
            let mut late = service_label(format).to_owned();
            late.append(" request deadline exceeded");
            message.append(late.as_str());
        },
    }
    Failure::of(message)
}

impl ChatState {
    /// Nothing has been sent.
    pub fn new() -> (r: ChatState)
        ensures
            r@ == (ChatModel { sent: 0, last_error: None }),
    {
        ChatState { sent: 0, last_error: None }
    }
}

/// What comes next in an answer without search, as `next_chat` says.
pub fn chat_step(format: AiApiFormat, state: ChatState, event: ChatEvent, elapsed: &str) -> (r: (
    ChatState,
    ChatAction,
))
    ensures
        (r.0@, r.1@) == next_chat(format, state@, event@, elapsed@),
{
    match event {
        ChatEvent::Ready { remaining } => {
            if state.sent >= 2 || remaining < LEAST_TIME {
                let e = chat_failure(format, &state.last_error, elapsed);
                (state, ChatAction::Finish(Err(e)))
            } else {
                (
                    ChatState { sent: state.sent + 1, last_error: state.last_error },
                    ChatAction::Send { limit: remaining },
                )
            }
        },
        ChatEvent::Answered(answer) => (state, ChatAction::Finish(Ok(answer.text))),
        ChatEvent::Failed { error, remaining, delay } => {
            let retry = error.transient && state.sent == 1 && remaining > LEAST_TIME && delay
                < remaining - LEAST_TIME;
            let last_error = Some(error);
            if retry {
                (ChatState { sent: state.sent, last_error }, ChatAction::Sleep { delay })
            } else {
                let e = chat_failure(format, &last_error, elapsed);
                (ChatState { sent: state.sent, last_error }, ChatAction::Finish(Err(e)))
            }
        },
    }
}

// ---------------------------------------------------------------------------------------------
// Laws of both courses
// ---------------------------------------------------------------------------------------------

/// If both requests of a search fail, the failure says why each did, whichever failed first.
pub proof fn law_both_failures_are_told(
    format: AiApiFormat,
    hedging: bool,
    first: ErrorModel,
    second: ErrorModel,
    remaining: u128,
    elapsed: Seq<char>,
)
    ensures
        ({
            let told = "native search failed after "@ + elapsed + "s; primary: "@ + first.message
                + "; fallback: "@ + second.message;
            &&& next_search(
                format,
                hedging,
                StateModel::SecondLeft(first),
                EventModel::SecondDone(Err(second)),
                remaining,
                elapsed,
            ).1 == ActionModel::Finish(Err(told))
            &&& next_search(
                format,
                hedging,
                StateModel::FirstLeft(second),
                EventModel::FirstDone(Err(first)),
                remaining,
                elapsed,
            ).1 == ActionModel::Finish(Err(told))
            &&& next_search(
                format,
                hedging,
                StateModel::Both,
                EventModel::FirstDone(Err(first)),
                remaining,
                elapsed,
            ) == (StateModel::SecondLeft(first), ActionModel::Wait)
            &&& next_search(
                format,
                hedging,
                StateModel::Both,
                EventModel::SecondDone(Err(second)),
                remaining,
                elapsed,
            ) == (StateModel::FirstLeft(second), ActionModel::Wait)
        }),
{
}

/// If the first request fails, the second one follows at once with all the time that is left, if that is
/// half a second or more; where there is no second one, the failure is what the first one failed of.
pub proof fn law_first_failure(
    format: AiApiFormat,
    seconds: u64,
    e: ErrorModel,
    remaining: u128,
    elapsed: Seq<char>,
)
    ensures
        ({
            let next = next_search(
                format,
                hedged(seconds),
                StateModel::First,
                EventModel::FirstDone(Err(e)),
                remaining,
                elapsed,
            );
            &&& seconds == 0 ==> next == (
                StateModel::Done,
                ActionModel::Finish(Err::<AnswerModel, Seq<char>>(e.message)),
            )
            &&& seconds > 0 && remaining >= 500_000_000 ==> next == (
                StateModel::SecondLeft(e),
                ActionModel::StartSecond { limit: remaining },
            )
            &&& seconds > 0 && remaining < 500_000_000 ==> next.0 is Done
                && next.1 matches ActionModel::Finish(Err(_))
        }),
{
}

/// A result ends a search: nothing follows it, and while no request has come to an end, none is given.
pub proof fn law_search_waits(
    format: AiApiFormat,
    hedging: bool,
    answer: AnswerModel,
    remaining: u128,
    elapsed: Seq<char>,
)
    ensures
        next_search(
            format,
            hedging,
            StateModel::First,
            EventModel::FirstDone(Ok(answer)),
            remaining,
            elapsed,
        ) == (StateModel::Done, ActionModel::Finish(Ok::<AnswerModel, Seq<char>>(answer))),
        next_search(
            format,
            hedging,
            StateModel::Both,
            EventModel::SecondDone(Ok(answer)),
            remaining,
            elapsed,
        ) == (StateModel::Done, ActionModel::Finish(Ok::<AnswerModel, Seq<char>>(answer))),
        next_search(
            format,
            hedging,
            StateModel::Done,
            EventModel::FirstDone(Ok(answer)),
            remaining,
            elapsed,
        ) == (StateModel::Done, ActionModel::Wait),
        next_search(
            format,
            hedging,
            StateModel::Done,
            EventModel::SecondDone(Ok(answer)),
            remaining,
            elapsed,
        ) == (StateModel::Done, ActionModel::Wait),
        next_search(
            format,
            hedging,
            StateModel::Both,
            EventModel::FirstSlow,
            remaining,
            elapsed,
        ) == (StateModel::Both, ActionModel::Wait),
{
}

/// An answer without search: a request is sent with all the time that is left, what is answered is shown,
/// and after a failure that may pass, a second request follows, if there is time for it behind the pause.
pub proof fn law_chat_course(
    format: AiApiFormat,
    answer: AnswerModel,
    first: ErrorModel,
    second: ErrorModel,
    remaining: u128,
    delay: u128,
    elapsed: Seq<char>,
)
    requires
        remaining >= 500_000_000,
    ensures
        ({
            let fresh = ChatModel { sent: 0, last_error: None };
            let sent = next_chat(format, fresh, ChatEventModel::Ready { remaining }, elapsed);
            let failed = next_chat(
                format,
                sent.0,
                ChatEventModel::Failed { error: first, remaining, delay },
                elapsed,
            );
            let again = next_chat(format, failed.0, ChatEventModel::Ready { remaining }, elapsed);
            &&& sent.1 == ChatActionModel::Send { limit: remaining }
            &&& next_chat(format, sent.0, ChatEventModel::Answered(answer), elapsed).1
                == ChatActionModel::Finish(Ok(answer.text))
            &&& first.transient && delay + 500_000_000 < remaining ==> failed.1
                == ChatActionModel::Sleep { delay } && again.1 == ChatActionModel::Send {
                limit: remaining,
            }
            &&& !first.transient || delay + 500_000_000 >= remaining ==> (failed.1
                matches ChatActionModel::Finish(Err(m)) && scan::ends(m, first.message))
            &&& next_chat(
                format,
                again.0,
                ChatEventModel::Failed { error: second, remaining, delay },
                elapsed,
            ).1 matches ChatActionModel::Finish(Err(m)) && scan::ends(m, second.message)
            &&& next_chat(format, again.0, ChatEventModel::Answered(answer), elapsed).1
                == ChatActionModel::Finish(Ok(answer.text))
        }),
{
    lemma_told(format, first, elapsed);
    lemma_told(format, second, elapsed);
}

proof fn lemma_told(format: AiApiFormat, e: ErrorModel, elapsed: Seq<char>)
    ensures
        scan::ends(chat_failed_text(format, Some(e), elapsed), e.message),
{
    let t = chat_failed_text(format, Some(e), elapsed);
    assert(t.subrange(t.len() - e.message.len(), t.len() as int) =~= e.message);
}

/// What is said of a search that took too long, and of a question that was not answered.
pub proof fn law_failure_texts(format: AiApiFormat, e: ErrorModel, elapsed: Seq<char>)
    ensures
        ({
            let name = if format == AiApiFormat::GeminiInteractions {
                "Gemini"@
            } else {
                "OpenAI-compatible"@
            };
            &&& deadline_text(format, elapsed) == name + " native search deadline exceeded after "@
                + elapsed + "s"@
            &&& chat_failed_text(format, Some(e), elapsed) == name + " request failed after "@
                + elapsed + "s: "@ + e.message
            &&& chat_failed_text(format, None, elapsed) == name + " request failed after "@ + elapsed
                + "s: "@ + (name + " request deadline exceeded"@)
            &&& service_name(format) == name
        }),
{
}

/// A second request is made where half a second is left for it.
pub proof fn law_limits()
    ensures
        LEAST_TIME == 500 * provider_error::MILLISECOND,
        provider_error::MILLISECOND == 1_000_000,
{
}

/// Each request without search gets all the time that is left, is counted, and leaves its error behind.
pub proof fn law_chat_state(
    format: AiApiFormat,
    state: ChatModel,
    remaining: u128,
    delay: u128,
    error: ErrorModel,
    answer: AnswerModel,
    elapsed: Seq<char>,
)
    ensures
        state.sent < 2 && remaining >= 500_000_000 ==> next_chat(
            format,
            state,
            ChatEventModel::Ready { remaining },
            elapsed,
        ) == (
            ChatModel { sent: state.sent + 1, last_error: state.last_error },
            ChatActionModel::Send { limit: remaining },
        ),
        state.sent >= 2 || remaining < 500_000_000 ==> next_chat(
            format,
            state,
            ChatEventModel::Ready { remaining },
            elapsed,
        ) == (
            state,
            ChatActionModel::Finish(Err(chat_failed_text(format, state.last_error, elapsed))),
        ),
        next_chat(format, state, ChatEventModel::Failed { error, remaining, delay }, elapsed).0 == (
        ChatModel { sent: state.sent, last_error: Some(error) }),
        next_chat(format, state, ChatEventModel::Answered(answer), elapsed) == (
            state,
            ChatActionModel::Finish(Ok(answer.text)),
        ),
{
}

/// A search whose second request would come too late is over, and says so.
pub proof fn law_search_deadline(
    format: AiApiFormat,
    seconds: u64,
    error: ErrorModel,
    remaining: u128,
    elapsed: Seq<char>,
)
    requires
        seconds > 0,
        remaining < 500_000_000,
    ensures
        next_search(
            format,
            hedged(seconds),
            StateModel::First,
            EventModel::FirstDone(Err(error)),
            remaining,
            elapsed,
        ) == (
            StateModel::Done,
            ActionModel::Finish(Err::<AnswerModel, Seq<char>>(deadline_text(format, elapsed))),
        ),
        next_search(
            format,
            hedged(seconds),
            StateModel::First,
            EventModel::FirstSlow,
            remaining,
            elapsed,
        ) == (
            StateModel::Done,
            ActionModel::Finish(Err::<AnswerModel, Seq<char>>(deadline_text(format, elapsed))),
        ),
{
}

} // verus!
