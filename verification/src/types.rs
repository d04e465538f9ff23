//! Event and response vocabulary of IEEE 2030.5, and the response rules of its Table 27.
use vstd::prelude::*;

verus! {

/// The status of an event resource, as the server reports it.
#[derive(Clone, Copy, Debug, PartialEq, Eq, Structural)]
pub enum EventStatusType {
    Scheduled,
    Active,
    Cancelled,
    CancelledRandom,
    Superseded,
}

/// The status a client reports in a response to an event (Table 27).
#[derive(Clone, Copy, Debug, PartialEq, Eq, Structural)]
pub enum ResponseStatus {
    EventReceived,
    EventStarted,
    EventCompleted,
    EventOptOut,
    EventOptIn,
    EventCancelled,
    EventSuperseded,
    EventPartialOptOut,
    EventPartialOptIn,
    EventCompletedNoUserParticipation,
    EventAcknowledge,
    EventNoDisplay,
    EventAbortedServer,
    EventAbortedProgram,
    EventNotApplicable,
    EventInvalid,
    EventExpired,
}

/// The wire code of each response status.
pub open spec fn spec_response_code(s: ResponseStatus) -> u8 {
    match s {
        ResponseStatus::EventReceived => 1,
        ResponseStatus::EventStarted => 2,
        ResponseStatus::EventCompleted => 3,
        ResponseStatus::EventOptOut => 4,
        ResponseStatus::EventOptIn => 5,
        ResponseStatus::EventCancelled => 6,
        ResponseStatus::EventSuperseded => 7,
        ResponseStatus::EventPartialOptOut => 8,
        ResponseStatus::EventPartialOptIn => 9,
        ResponseStatus::EventCompletedNoUserParticipation => 10,
        ResponseStatus::EventAcknowledge => 11,
        ResponseStatus::EventNoDisplay => 12,
        ResponseStatus::EventAbortedServer => 13,
        ResponseStatus::EventAbortedProgram => 14,
        ResponseStatus::EventNotApplicable => 252,
        ResponseStatus::EventInvalid => 253,
        ResponseStatus::EventExpired => 254,
    }
}

impl ResponseStatus {
    /// The code that represents this status on the wire.
    pub fn code(&self) -> (c: u8)
        ensures
            c == spec_response_code(*self),
    {
        match self {
            ResponseStatus::EventReceived => 1,
            ResponseStatus::EventStarted => 2,
            ResponseStatus::EventCompleted => 3,
            ResponseStatus::EventOptOut => 4,
            ResponseStatus::EventOptIn => 5,
            ResponseStatus::EventCancelled => 6,
            ResponseStatus::EventSuperseded => 7,
            ResponseStatus::EventPartialOptOut => 8,
            ResponseStatus::EventPartialOptIn => 9,
            ResponseStatus::EventCompletedNoUserParticipation => 10,
            ResponseStatus::EventAcknowledge => 11,
            ResponseStatus::EventNoDisplay => 12,
            ResponseStatus::EventAbortedServer => 13,
            ResponseStatus::EventAbortedProgram => 14,
            ResponseStatus::EventNotApplicable => 252,
            ResponseStatus::EventInvalid => 253,
            ResponseStatus::EventExpired => 254,
        }
    }
}

/// The response a client reads off an event's own status.
pub open spec fn spec_response_from_event_status(s: EventStatusType) -> ResponseStatus {
    match s {
        EventStatusType::Scheduled => ResponseStatus::EventReceived,
        EventStatusType::Active => ResponseStatus::EventStarted,
        EventStatusType::Cancelled => ResponseStatus::EventCancelled,
        EventStatusType::CancelledRandom => ResponseStatus::EventCancelled,
        EventStatusType::Superseded => ResponseStatus::EventSuperseded,
    }
}

impl From<EventStatusType> for ResponseStatus {
    fn from(value: EventStatusType) -> (r: Self) {
        match value {
            EventStatusType::Scheduled => ResponseStatus::EventReceived,
            EventStatusType::Active => ResponseStatus::EventStarted,
            EventStatusType::Cancelled => ResponseStatus::EventCancelled,
            EventStatusType::CancelledRandom => ResponseStatus::EventCancelled,
            EventStatusType::Superseded => ResponseStatus::EventSuperseded,
        }
    }
}

impl vstd::std_specs::convert::FromSpecImpl<EventStatusType> for ResponseStatus {
    open spec fn obeys_from_spec() -> bool {
        true
    }

    open spec fn from_spec(v: EventStatusType) -> Self {
        spec_response_from_event_status(v)
    }
}

/// The current state of an event instance in a schedule.
#[derive(Clone, Copy, Debug, PartialEq, Eq, Structural)]
pub enum EIStatus {
    Scheduled,
    Active,
    Cancelled,
    Complete,
    CancelledRandom,
    Superseded,
}

/// The local state an event takes on when the server reports the given status.
pub open spec fn spec_ei_status_from(s: EventStatusType) -> EIStatus {
    match s {
        EventStatusType::Scheduled => EIStatus::Scheduled,
        EventStatusType::Active => EIStatus::Active,
        EventStatusType::Cancelled => EIStatus::Cancelled,
        EventStatusType::CancelledRandom => EIStatus::CancelledRandom,
        EventStatusType::Superseded => EIStatus::Superseded,
    }
}

impl From<EventStatusType> for EIStatus {
    fn from(value: EventStatusType) -> (r: Self) {
        match value {
            EventStatusType::Scheduled => EIStatus::Scheduled,
            EventStatusType::Active => EIStatus::Active,
            EventStatusType::Cancelled => EIStatus::Cancelled,
            EventStatusType::CancelledRandom => EIStatus::CancelledRandom,
            EventStatusType::Superseded => EIStatus::Superseded,
        }
    }
}

impl vstd::std_specs::convert::FromSpecImpl<EventStatusType> for EIStatus {
    open spec fn obeys_from_spec() -> bool {
        true
    }

    open spec fn from_spec(v: EventStatusType) -> Self {
        spec_ei_status_from(v)
    }
}

/// The response that reports an event instance's local state to the server.
pub open spec fn spec_response_from_ei_status(s: EIStatus) -> ResponseStatus {
    match s {
        EIStatus::Scheduled => ResponseStatus::EventReceived,
        EIStatus::Active => ResponseStatus::EventStarted,
        EIStatus::Cancelled => ResponseStatus::EventCancelled,
        EIStatus::Complete => ResponseStatus::EventCompleted,
        EIStatus::CancelledRandom => ResponseStatus::EventCancelled,
        EIStatus::Superseded => ResponseStatus::EventSuperseded,
    }
}

impl From<EIStatus> for ResponseStatus {
    fn from(value: EIStatus) -> (r: Self) {
        match value {
            EIStatus::Scheduled => ResponseStatus::EventReceived,
            EIStatus::Active => ResponseStatus::EventStarted,
            EIStatus::Cancelled => ResponseStatus::EventCancelled,
            EIStatus::Complete => ResponseStatus::EventCompleted,
            EIStatus::CancelledRandom => ResponseStatus::EventCancelled,
            EIStatus::Superseded => ResponseStatus::EventSuperseded,
        }
    }
}

impl vstd::std_specs::convert::FromSpecImpl<EIStatus> for ResponseStatus {
    open spec fn obeys_from_spec() -> bool {
        true
    }

    open spec fn from_spec(v: EIStatus) -> Self {
        spec_response_from_ei_status(v)
    }
}

/// Reading an event's status into a local state and reporting that state answers the server
/// with the response read directly off the event's status.
pub proof fn lemma_status_conversions_commute(s: EventStatusType)
    ensures
        spec_response_from_ei_status(spec_ei_status_from(s)) == spec_response_from_event_status(s),
{
}

/// The event-based function sets that this client schedules.
#[derive(Clone, Copy, Debug, PartialEq, Eq, Structural)]
pub enum FunctionSet {
    /// Distributed energy resources: `DERControl` events.
    Der,
    /// Demand response and load control: `EndDeviceControl` events.
    Drlc,
    /// Messaging: `TextMessage` events.
    Messaging,
    /// Pricing: `TimeTariffInterval` events.
    Pricing,
}

/// `responseRequired` bit: a response is wanted when the event is received.
pub const MESSAGE_RECEIVED: u8 = 1;
/// `responseRequired` bit: a response is wanted for specific event states.
pub const SPECIFIC_RESPONSE: u8 = 2;
/// `responseRequired` bit: a response is wanted when the user acknowledges the event.
pub const RESPONSE_REQUIRED: u8 = 4;

/// Whether the flag is set in the `responseRequired` bits.
pub open spec fn has_flag(bits: u8, flag: u8) -> bool {
    bits & flag == flag
}

/// Table 27: whether a response with the given status may be sent for an event of the
/// function set whose `responseRequired` field is `required`.
pub open spec fn spec_response_permitted(fs: FunctionSet, status: ResponseStatus, required: Option<u8>) -> bool {
    match required {
        None => false,
        Some(rr) => match fs {
            FunctionSet::Der | FunctionSet::Drlc => {
                &&& status != ResponseStatus::EventNoDisplay
                &&& {
                    ||| status == ResponseStatus::EventReceived && has_flag(rr, MESSAGE_RECEIVED)
                    ||| status == ResponseStatus::EventAcknowledge && has_flag(rr, RESPONSE_REQUIRED)
                    ||| has_flag(rr, SPECIFIC_RESPONSE)
                }
            },
            FunctionSet::Messaging | FunctionSet::Pricing => match status {
                ResponseStatus::EventReceived => has_flag(rr, MESSAGE_RECEIVED),
                ResponseStatus::EventAcknowledge => has_flag(rr, RESPONSE_REQUIRED),
                ResponseStatus::EventNoDisplay => fs == FunctionSet::Messaging && has_flag(rr, SPECIFIC_RESPONSE),
                ResponseStatus::EventStarted
                | ResponseStatus::EventCompleted
                | ResponseStatus::EventSuperseded
                | ResponseStatus::EventAbortedServer
                | ResponseStatus::EventAbortedProgram
                | ResponseStatus::EventExpired => has_flag(rr, SPECIFIC_RESPONSE),
                _ => false,
            },
        },
    }
}

/// No response is sent for an event that does not ask for one, and DER and DRLC devices never
/// report that they do not display an event.
pub proof fn lemma_response_needs_request(fs: FunctionSet, status: ResponseStatus, required: Option<u8>)
    ensures
        required is None ==> !spec_response_permitted(fs, status, required),
        (fs == FunctionSet::Der || fs == FunctionSet::Drlc) ==> !spec_response_permitted(fs, ResponseStatus::EventNoDisplay, required),
        fs == FunctionSet::Pricing ==> !spec_response_permitted(fs, ResponseStatus::EventNoDisplay, required),
{
}

/// A status that reports how an event went: started, completed, superseded, aborted by the
/// server or by the program, or expired.
pub open spec fn reports_progress(status: ResponseStatus) -> bool {
    status == ResponseStatus::EventStarted || status == ResponseStatus::EventCompleted
        || status == ResponseStatus::EventSuperseded || status == ResponseStatus::EventAbortedServer
        || status == ResponseStatus::EventAbortedProgram || status == ResponseStatus::EventExpired
}

/// Table 27, column by column. Nothing is sent for an event that asks for no response. For
/// every function set a received response needs the message-received bit (1) and an
/// acknowledgement the response-required bit (4). For messaging and pricing, a status that
/// reports how the event went needs the specific-response bit (2), and opting in or out,
/// cancelling and the like are never sent; a text message may report that it was not
/// displayed under the specific-response bit, and a price never. For DER and DRLC, "not
/// displayed" is never sent, and any other status is sent under the specific-response bit.
pub proof fn lemma_table_27(fs: FunctionSet, status: ResponseStatus, required: Option<u8>)
    ensures
        required is None ==> !spec_response_permitted(fs, status, required),
        required matches Some(rr) && status == ResponseStatus::EventReceived && rr & 1 == 1
            ==> spec_response_permitted(fs, status, required),
        required matches Some(rr) && status == ResponseStatus::EventAcknowledge && rr & 4 == 4
            ==> spec_response_permitted(fs, status, required),
        (fs == FunctionSet::Messaging || fs == FunctionSet::Pricing) && reports_progress(status) ==> (
            spec_response_permitted(fs, status, required) <==> (required matches Some(rr) && rr & 2 == 2)),
        (fs == FunctionSet::Messaging || fs == FunctionSet::Pricing) && (status == ResponseStatus::EventOptOut
            || status == ResponseStatus::EventOptIn || status == ResponseStatus::EventCancelled
            || status == ResponseStatus::EventPartialOptOut || status == ResponseStatus::EventPartialOptIn
            || status == ResponseStatus::EventCompletedNoUserParticipation
            || status == ResponseStatus::EventNotApplicable || status == ResponseStatus::EventInvalid)
            ==> !spec_response_permitted(fs, status, required),
        fs == FunctionSet::Messaging && status == ResponseStatus::EventNoDisplay ==> (
            spec_response_permitted(fs, status, required) <==> (required matches Some(rr) && rr & 2 == 2)),
        (fs == FunctionSet::Pricing || fs == FunctionSet::Der || fs == FunctionSet::Drlc)
            && status == ResponseStatus::EventNoDisplay ==> !spec_response_permitted(fs, status, required),
        required matches Some(rr) && rr & 2 == 2 && (fs == FunctionSet::Der || fs == FunctionSet::Drlc)
            && status != ResponseStatus::EventNoDisplay ==> spec_response_permitted(fs, status, required),
{
}

/// Decide, per Table 27, whether a response with `status` may be sent for an event of
/// function set `fs` whose `responseRequired` field is `required`.
pub fn response_permitted(fs: FunctionSet, status: ResponseStatus, required: Option<u8>) -> (ok: bool)
    ensures
        ok == spec_response_permitted(fs, status, required),
        (fs == FunctionSet::Messaging || fs == FunctionSet::Pricing) && reports_progress(status) ==> (ok <==> (
            required matches Some(rr) && rr & 2 == 2)),
{
    proof {
        lemma_table_27(fs, status, required);
    }
    match required {
        None => false,
        Some(rr) => match fs {
            FunctionSet::Der | FunctionSet::Drlc => {
                match status {
                    ResponseStatus::EventReceived if rr & MESSAGE_RECEIVED == MESSAGE_RECEIVED => true,
                    ResponseStatus::EventAcknowledge if rr & RESPONSE_REQUIRED == RESPONSE_REQUIRED => true,
                    ResponseStatus::EventNoDisplay => false,
                    _ => rr & SPECIFIC_RESPONSE == SPECIFIC_RESPONSE,
                }
            },
            FunctionSet::Messaging | FunctionSet::Pricing => match status {
                ResponseStatus::EventReceived => rr & MESSAGE_RECEIVED == MESSAGE_RECEIVED,
                ResponseStatus::EventAcknowledge => rr & RESPONSE_REQUIRED == RESPONSE_REQUIRED,
                ResponseStatus::EventNoDisplay => {
                    match fs {
                        FunctionSet::Messaging => rr & SPECIFIC_RESPONSE == SPECIFIC_RESPONSE,
                        _ => false,
                    }
                },
                ResponseStatus::EventStarted
                | ResponseStatus::EventCompleted
                | ResponseStatus::EventSuperseded
                | ResponseStatus::EventAbortedServer
                | ResponseStatus::EventAbortedProgram
                | ResponseStatus::EventExpired => rr & SPECIFIC_RESPONSE == SPECIFIC_RESPONSE,
                _ => false,
            },
        },
    }
}

} // verus!
