//! Common event functionality: event instances and the schedule state that the
//! function-set schedulers share.
//!
//! Times of events are compared as `i64` counts of seconds since the Unix epoch.
//! The moments at which instances were last updated are monotonic timestamps
//! in nanoseconds, as the caller's clock provides them.
use rand::Rng;
use vstd::prelude::*;

use crate::types::{spec_ei_status_from, EIStatus, EventStatusType, FunctionSet, ResponseStatus};

verus! {

/// The largest magnitude of an event randomisation bound (a `OneHourRangeType`).
pub const ONE_HOUR: i16 = 3600;

/// What the scheduler reads of an event resource.
#[derive(Clone, Copy, Debug, PartialEq, Eq)]
pub struct EventInfo {
    /// The event's mRID.
    pub mrid: u128,
    /// When the server created the event.
    pub creation_time: i64,
    /// The start of the event's interval.
    pub start: i64,
    /// The duration of the event's interval, in seconds.
    pub duration: u32,
    /// The status the server reports for the event.
    pub status: EventStatusType,
    /// The `randomizeStart` bound, if any.
    pub randomize_start: Option<i16>,
    /// The `randomizeDuration` bound, if any.
    pub randomize_duration: Option<i16>,
    /// The device categories the event targets, if the event names any.
    pub device_category: Option<u32>,
    /// For `DERControl` events, one bit per control of the `DERControlBase` that the event sets.
    pub target: u32,
}

/// A randomisation bound lies within one hour either side of zero.
pub open spec fn bound_valid(b: Option<i16>) -> bool {
    match b {
        Some(v) => -3600 <= v <= 3600,
        None => true,
    }
}

impl EventInfo {
    /// The event's fields can be scheduled: randomisation bounds are `OneHourRangeType`s, and
    /// the interval, moved by at most two hours either way, stays within the range of `i64`.
    pub open spec fn valid(self) -> bool {
        &&& bound_valid(self.randomize_start)
        &&& bound_valid(self.randomize_duration)
        &&& i64::MIN + 7200 <= self.start
        &&& self.start + self.duration + 7200 <= i64::MAX
    }

    /// Whether the event's fields can be scheduled (see [`EventInfo::valid`]).
    pub fn is_valid(&self) -> (b: bool)
        ensures
            b == self.valid(),
    {
        let bounds_ok = match (self.randomize_start, self.randomize_duration) {
            (Some(a), _) if a < -ONE_HOUR || a > ONE_HOUR => false,
            (_, Some(b)) if b < -ONE_HOUR || b > ONE_HOUR => false,
            _ => true,
        };
        bounds_ok && self.start >= i64::MIN + 7200 && self.start <= i64::MAX - 7200 - self.duration as i64
    }
}

/// The abstract state of an event instance.
pub struct InstanceView<E> {
    pub start: i64,
    pub end: i64,
    pub primacy: u8,
    pub event: E,
    pub program_mrid: u128,
    pub status: EIStatus,
    pub last_updated: u128,
    pub superseded_by: Seq<u128>,
    pub server_id: u8,
    pub creation_time: i64,
    pub target: u32,
}

impl<E> InstanceView<E> {
    /// The instance with its status replaced, stamped at `now`.
    pub open spec fn with_status(self, status: EIStatus, now: u128) -> Self {
        InstanceView { status, last_updated: now, ..self }
    }

    /// The instance, recorded as superseded by one more event.
    pub open spec fn add_superseding(self, mrid: u128) -> Self {
        InstanceView { superseded_by: self.superseded_by.push(mrid), ..self }
    }
}

/// A wrapper around an event resource, with the times it starts and ends after randomisation,
/// the primacy and program it comes from, and its state in the schedule.
pub struct EventInstance<E> {
    start: i64,
    end: i64,
    primacy: u8,
    event: E,
    program_mrid: u128,
    status: EIStatus,
    last_updated: u128,
    superseded_by: Vec<u128>,
    server_id: u8,
    creation_time: i64,
    target: u32,
}

impl<E> View for EventInstance<E> {
    type V = InstanceView<E>;

    closed spec fn view(&self) -> InstanceView<E> {
        InstanceView {
            start: self.start,
            end: self.end,
            primacy: self.primacy,
            event: self.event,
            program_mrid: self.program_mrid,
            status: self.status,
            last_updated: self.last_updated,
            superseded_by: self.superseded_by@,
            server_id: self.server_id,
            creation_time: self.creation_time,
            target: self.target,
        }
    }
}

/// The instance that an event becomes when it enters a schedule, its start moved by
/// `start_offset` and its end by `start_offset + end_offset`.
pub open spec fn spec_new_instance<E>(
    primacy: u8,
    event: E,
    info: EventInfo,
    program_mrid: u128,
    server_id: u8,
    start_offset: int,
    end_offset: int,
    now: u128,
) -> InstanceView<E> {
    InstanceView {
        start: (info.start + start_offset) as i64,
        end: (info.start + start_offset + info.duration + end_offset) as i64,
        primacy,
        event,
        program_mrid,
        status: spec_ei_status_from(info.status),
        last_updated: now,
        superseded_by: Seq::empty(),
        server_id,
        creation_time: info.creation_time,
        target: info.target,
    }
}

/// A value drawn by randomisation with the given bound: zero without a bound, and otherwise
/// between zero and the bound, inclusive.
pub open spec fn randomized_within(bound: Option<i16>, r: int) -> bool {
    match bound {
        None => r == 0,
        Some(v) => if v >= 0 {
            0 <= r <= v
        } else {
            v <= r <= 0
        },
    }
}

/// Calls `rand::Rng::gen_range` on the thread-local generator over `0..=upper`:
/// the result is some value in that range.
#[verifier::external_body]
fn random_up_to(upper: i64) -> (r: i64)
    requires
        upper >= 0,
    ensures
        0 <= r <= upper,
{
    rand::thread_rng().gen_range(0..=upper)
}

/// Draw a random offset between zero and the bound, inclusive, with the bound's sign;
/// zero if there is no bound.
pub fn randomize(bound: Option<i16>) -> (r: i64)
    requires
        bound_valid(bound),
    ensures
        randomized_within(bound, r as int),
{
    match bound {
        None => 0,
        Some(v) => {
            let wide = v as i64;
            let magnitude = if wide >= 0 { wide } else { -wide };
            signed_draw(v, random_up_to(magnitude))
        },
    }
}

/// The offset given by a value drawn between zero and the magnitude of a bound: the value,
/// with the bound's sign.
pub open spec fn spec_signed_draw(bound: i16, drawn: int) -> int {
    if bound >= 0 {
        drawn
    } else {
        -drawn
    }
}

/// Give a value drawn between zero and the magnitude of the bound, inclusive, the bound's sign.
pub fn signed_draw(bound: i16, drawn: i64) -> (r: i64)
    requires
        0 <= drawn <= (if bound >= 0 { bound as int } else { -bound }),
    ensures
        r == spec_signed_draw(bound, drawn as int),
        randomized_within(Some(bound), r as int),
{
    if bound >= 0 {
        drawn
    } else {
        -drawn
    }
}

/// Whether an mRID differs from `m`.
pub open spec fn other_than(m: u128) -> spec_fn(u128) -> bool {
    |f: u128| f != m
}

/// The mRIDs of `v` other than `m`, in order.
fn without(v: &Vec<u128>, m: u128) -> (r: Vec<u128>)
    ensures
        r@ == v@.filter(other_than(m)),
{
    let mut r: Vec<u128> = Vec::new();
    let mut i: usize = 0;
    while i < v.len()
        invariant
            i <= v@.len(),
            r@ == v@.take(i as int).filter(other_than(m)),
        decreases v@.len() - i,
    {
        proof {
            assert(v@.take(i + 1).drop_last() =~= v@.take(i as int));
            reveal(Seq::filter);
        }
        if v[i] != m {
            r.push(v[i]);
        }
        i = i + 1;
    }
    assert(v@.take(v@.len() as int) =~= v@);
    r
}

impl<E> EventInstance<E> {
    /// Create an instance of an event, with its start moved by `start_offset` and its
    /// end by `start_offset + end_offset`.
    pub fn new_with_offsets(
        primacy: u8,
        event: E,
        info: &EventInfo,
        program_mrid: u128,
        server_id: u8,
        start_offset: i64,
        end_offset: i64,
        now: u128,
    ) -> (ei: Self)
        requires
            info.valid(),
            -3600 <= start_offset <= 3600,
            -3600 <= end_offset <= 3600,
        ensures
            ei@ == spec_new_instance(primacy, event, *info, program_mrid, server_id, start_offset as int, end_offset as int, now),
    {
        let start: i64 = info.start + start_offset;
        let end: i64 = start + info.duration as i64 + end_offset;
        EventInstance {
            start,
            end,
            primacy,
            event,
            program_mrid,
            status: EIStatus::from(info.status),
            last_updated: now,
            superseded_by: Vec::new(),
            server_id,
            creation_time: info.creation_time,
            target: info.target,
        }
    }

    /// Create an instance of an event that starts and ends at the times its interval gives.
    pub fn new(primacy: u8, event: E, info: &EventInfo, program_mrid: u128, server_id: u8, now: u128) -> (ei: Self)
        requires
            info.valid(),
        ensures
            ei@ == spec_new_instance(primacy, event, *info, program_mrid, server_id, 0, 0, now),
    {
        Self::new_with_offsets(primacy, event, info, program_mrid, server_id, 0, 0, now)
    }

    /// Create an instance of an event whose start is moved by a random amount within its
    /// `randomizeDuration` bound, and whose end moves with the start and by a further random
    /// amount within its `randomizeStart` bound.
    pub fn new_rand(primacy: u8, event: E, info: &EventInfo, program_mrid: u128, server_id: u8, now: u128) -> (ei: Self)
        requires
            info.valid(),
        ensures
            exists|a: int, b: int|
                randomized_within(info.randomize_duration, a) && randomized_within(info.randomize_start, b)
                    && ei@ == spec_new_instance(primacy, event, *info, program_mrid, server_id, a, b, now),
    {
        let start_offset = randomize(info.randomize_duration);
        let end_offset = randomize(info.randomize_start);
        let ei = Self::new_with_offsets(primacy, event, info, program_mrid, server_id, start_offset, end_offset, now);
        assert(randomized_within(info.randomize_duration, start_offset as int) && randomized_within(info.randomize_start, end_offset as int)
            && ei@ == spec_new_instance(primacy, event, *info, program_mrid, server_id, start_offset as int, end_offset as int, now));
        ei
    }

    /// Set the instance's status, recording `now` as the moment it changed.
    pub fn update_status(&mut self, status: EIStatus, now: u128)
        ensures
            final(self)@ == old(self)@.with_status(status, now),
    {
        self.status = status;
        self.last_updated = now;
    }

    /// Record that the event with the given mRID supersedes this one.
    pub fn superseded_by(&mut self, other: u128)
        ensures
            final(self)@ == old(self)@.add_superseding(other),
    {
        self.superseded_by.push(other);
    }

    /// The instance's current status.
    pub fn status(&self) -> (s: EIStatus)
        ensures
            s == self@.status,
    {
        self.status
    }

    /// The event resource itself.
    pub fn event(&self) -> (e: &E)
        ensures
            *e == self@.event,
    {
        &self.event
    }

    /// The primacy of the program the event belongs to.
    pub fn primacy(&self) -> (p: u8)
        ensures
            p == self@.primacy,
    {
        self.primacy
    }

    /// When the event starts, after randomisation.
    pub fn start_time(&self) -> (t: i64)
        ensures
            t == self@.start,
    {
        self.start
    }

    /// When the event ends, after randomisation.
    pub fn end_time(&self) -> (t: i64)
        ensures
            t == self@.end,
    {
        self.end
    }

    /// The mRID of the program the event belongs to.
    pub fn program_mrid(&self) -> (m: u128)
        ensures
            m == self@.program_mrid,
    {
        self.program_mrid
    }

    /// The server the event came from.
    pub fn server_id(&self) -> (s: u8)
        ensures
            s == self@.server_id,
    {
        self.server_id
    }

    /// Forget that the event with the given mRID supersedes this one.
    pub fn no_longer_superseded_by(&mut self, other: u128)
        ensures
            final(self)@ == (InstanceView { superseded_by: old(self)@.superseded_by.filter(other_than(other)), ..old(self)@ }),
    {
        let kept = without(&self.superseded_by, other);
        self.superseded_by = kept;
    }

    /// When the instance last changed status.
    pub fn last_updated(&self) -> (t: u128)
        ensures
            t == self@.last_updated,
    {
        self.last_updated
    }
}

/// The abstract state of a schedule's events: each event's mRID with its instance, and
/// the next event to start and the next event to end.
pub struct EventsView<E> {
    pub entries: Seq<(u128, InstanceView<E>)>,
    pub next_start: Option<(i64, u128)>,
    pub next_end: Option<(i64, u128)>,
}

/// No mRID occurs twice.
pub open spec fn keys_unique<E>(entries: Seq<(u128, InstanceView<E>)>) -> bool {
    forall|i: int, j: int| 0 <= i < j < entries.len() ==> entries[i].0 != entries[j].0
}

/// Some entry has the given mRID.
pub open spec fn has_key<E>(entries: Seq<(u128, InstanceView<E>)>, mrid: u128) -> bool {
    exists|i: int| 0 <= i < entries.len() && entries[i].0 == mrid
}

/// The position of the entry with the given mRID.
pub open spec fn key_index<E>(entries: Seq<(u128, InstanceView<E>)>, mrid: u128) -> int {
    choose|i: int| 0 <= i < entries.len() && entries[i].0 == mrid
}

/// The instance with the given mRID.
pub open spec fn instance_of<E>(entries: Seq<(u128, InstanceView<E>)>, mrid: u128) -> InstanceView<E> {
    entries[key_index(entries, mrid)].1
}

/// A time comes before the recorded next one, or nothing is recorded.
pub open spec fn precedes(t: i64, next: Option<(i64, u128)>) -> bool {
    match next {
        None => true,
        Some((u, _)) => t < u,
    }
}

/// The time that orders instances: the start for scheduled ones, the end for active ones.
pub open spec fn timing<E>(ei: InstanceView<E>, by_end: bool) -> i64 {
    if by_end {
        ei.end
    } else {
        ei.start
    }
}

/// `next` names, among the first `n` entries, one with status `status` whose timing is the
/// earliest, or is `None` if no such entry has that status.
pub open spec fn earliest<E>(
    entries: Seq<(u128, InstanceView<E>)>,
    n: int,
    status: EIStatus,
    by_end: bool,
    next: Option<(i64, u128)>,
) -> bool {
    match next {
        None => forall|j: int| 0 <= j < n ==> entries[j].1.status != status,
        Some((t, m)) => {
            &&& exists|j: int|
                0 <= j < n && entries[j].0 == m && entries[j].1.status == status && timing(
                    entries[j].1,
                    by_end,
                ) == t
            &&& forall|j: int|
                0 <= j < n && entries[j].1.status == status ==> t <= timing(entries[j].1, by_end)
        },
    }
}

impl<E> EventsView<E> {
    /// Well-formedness: mRIDs are unique, the next event to start is a scheduled event with
    /// the earliest start, and the next event to end is an active event with the earliest end.
    pub open spec fn wf(self) -> bool {
        &&& keys_unique(self.entries)
        &&& earliest(self.entries, self.entries.len() as int, EIStatus::Scheduled, false, self.next_start)
        &&& earliest(self.entries, self.entries.len() as int, EIStatus::Active, true, self.next_end)
    }
}

/// The events of a schedule, indexed by mRID, with the next event to start and to end kept at hand.
///
/// The events are held as a vector of entries with unique mRIDs, in the order they arrived,
/// rather than in a hash map. Adding and cancelling an event walk every held event and change
/// some of them, and the responses to send come out in the order of that walk. A hash map is
/// walked in an order seeded afresh in each process, so neither that order nor the order of the
/// responses could be stated; the vector fixes one order and the contracts state it.
pub struct Events<E> {
    entries: Vec<(u128, EventInstance<E>)>,
    next_start: Option<(i64, u128)>,
    next_end: Option<(i64, u128)>,
}

/// An instance after the event `mrid` is cancelled at schedule time `now`: if it is superseded,
/// it forgets that `mrid` supersedes it, and if nothing supersedes it any more and it has not
/// started yet, it is scheduled again.
pub open spec fn unsupersede<E>(ei: InstanceView<E>, mrid: u128, now: i64, stamp: u128) -> InstanceView<E> {
    if ei.status == EIStatus::Superseded {
        let rest = ei.superseded_by.filter(other_than(mrid));
        let kept = InstanceView { superseded_by: rest, ..ei };
        if rest.len() == 0 && ei.start > now {
            kept.with_status(EIStatus::Scheduled, stamp)
        } else {
            kept
        }
    } else {
        ei
    }
}

/// Every entry after the event `mrid` is cancelled at schedule time `now`.
pub open spec fn unsupersede_all<E>(entries: Seq<(u128, InstanceView<E>)>, mrid: u128, now: i64, stamp: u128) -> Seq<(u128, InstanceView<E>)> {
    entries.map_values(|p: (u128, InstanceView<E>)| (p.0, unsupersede(p.1, mrid, now, stamp)))
}

/// The abstract entries of a sequence of concrete ones.
pub closed spec fn entries_view<E>(v: Seq<(u128, EventInstance<E>)>) -> Seq<(u128, InstanceView<E>)> {
    v.map_values(|p: (u128, EventInstance<E>)| (p.0, p.1@))
}

/// Whether an entry survives a clean-up at `since`: it is active or scheduled, or it changed
/// after `since`.
pub open spec fn kept_since<E>(since: u128) -> spec_fn((u128, InstanceView<E>)) -> bool {
    |p: (u128, InstanceView<E>)|
        p.1.status == EIStatus::Active || p.1.status == EIStatus::Scheduled || p.1.last_updated > since
}

/// The next event to start is due at schedule time `now`.
pub open spec fn due(next: Option<(i64, u128)>, now: i64) -> bool {
    match next {
        Some((t, _)) => t < now,
        None => false,
    }
}

/// The time that a record of the next event holds.
pub open spec fn next_time(next: Option<(i64, u128)>) -> i64 {
    match next {
        Some((t, _)) => t,
        None => 0,
    }
}

/// The mRID that a due record names.
pub open spec fn due_mrid(next: Option<(i64, u128)>) -> u128 {
    match next {
        Some((_, m)) => m,
        None => 0,
    }
}

/// Whether a device's response to an event's start withdraws it from the event.
pub open spec fn declines_start(resp: ResponseStatus) -> bool {
    resp == ResponseStatus::EventOptOut || resp == ResponseStatus::EventNotApplicable
        || resp == ResponseStatus::EventInvalid
}

/// A device withdraws from an event at its start exactly when it answers that it opts out,
/// that the event does not apply to it, or that the event is invalid; every other answer,
/// including opting in or acknowledging, keeps it taking part.
pub proof fn lemma_start_refusals(resp: ResponseStatus)
    ensures
        declines_start(ResponseStatus::EventOptOut),
        declines_start(ResponseStatus::EventNotApplicable),
        declines_start(ResponseStatus::EventInvalid),
        declines_start(resp) ==> resp == ResponseStatus::EventOptOut || resp == ResponseStatus::EventNotApplicable
            || resp == ResponseStatus::EventInvalid,
        !declines_start(ResponseStatus::EventStarted),
        !declines_start(ResponseStatus::EventOptIn),
        !declines_start(ResponseStatus::EventAcknowledge),
{
}

/// Filtering entries keeps mRIDs unique, and keeps the earliest records right as long as
/// every entry with the recorded status is kept.
proof fn lemma_filter_wf<E>(
    entries: Seq<(u128, InstanceView<E>)>,
    pred: spec_fn((u128, InstanceView<E>)) -> bool,
    status: EIStatus,
    by_end: bool,
    next: Option<(i64, u128)>,
)
    requires
        keys_unique(entries),
        earliest(entries, entries.len() as int, status, by_end, next),
        forall|i: int| 0 <= i < entries.len() && entries[i].1.status == status ==> pred(entries[i]),
    ensures
        keys_unique(entries.filter(pred)),
        earliest(entries.filter(pred), entries.filter(pred).len() as int, status, by_end, next),
{
    let f = entries.filter(pred);
    lemma_filter_unique(entries, pred);
    assert forall|k: int| 0 <= k < f.len() implies entries.contains(#[trigger] f[k]) by {
        entries.lemma_filter_contains_rev(pred, f[k]);
    }
    match next {
        None => {},
        Some((t, m)) => {
            let w = choose|j: int|
                0 <= j < entries.len() && entries[j].0 == m && entries[j].1.status == status && timing(entries[j].1, by_end) == t;
            entries.lemma_filter_contains(pred, w);
            assert(f.contains(entries[w]));
            let k = choose|k: int| 0 <= k < f.len() && f[k] == entries[w];
            assert(f[k].0 == m);
        },
    }
}

/// Filtering a sequence with unique mRIDs keeps them unique.
proof fn lemma_filter_unique<E>(entries: Seq<(u128, InstanceView<E>)>, pred: spec_fn((u128, InstanceView<E>)) -> bool)
    requires
        keys_unique(entries),
    ensures
        keys_unique(entries.filter(pred)),
    decreases entries.len(),
{
    reveal(Seq::filter);
    if entries.len() > 0 {
        let rest = entries.drop_last();
        assert(keys_unique(rest));
        lemma_filter_unique(rest, pred);
        if pred(entries.last()) {
            let f = rest.filter(pred);
            let g = f.push(entries.last());
            assert forall|a: int, b: int| 0 <= a < b < g.len() implies g[a].0 != g[b].0 by {
                if b == g.len() - 1 {
                    rest.lemma_filter_contains_rev(pred, f[a]);
                    let j = choose|j: int| 0 <= j < rest.len() && rest[j] == f[a];
                    assert(entries[j] == rest[j]);
                    assert(entries[entries.len() - 1] == entries.last());
                } else {
                    assert(g[a] == f[a] && g[b] == f[b]);
                }
            }
        }
    }
}

/// The entries after the event `mrid` is cancelled for `reason` at schedule time `now`.
pub open spec fn spec_cancel<E>(entries: Seq<(u128, InstanceView<E>)>, mrid: u128, reason: EIStatus, now: i64, stamp: u128) -> Seq<(u128, InstanceView<E>)> {
    unsupersede_all(entries, mrid, now, stamp).update(
        key_index(entries, mrid),
        (mrid, unsupersede(instance_of(entries, mrid), mrid, now, stamp).with_status(reason, stamp)),
    )
}

/// An action the caller carries out after a schedule changes.
#[derive(Clone, Copy, Debug, PartialEq, Eq, Structural)]
pub enum ScheduleAction {
    /// Tell the device about the event's new state; its answer is not sent on.
    Notify(u128),
    /// Tell the device about the event's new state, and send the server the device's answer.
    NotifyAndRespond(u128),
    /// Send the server a response with the given status for the event.
    Respond(u128, ResponseStatus),
}

/// `a` supersedes `b`: they overlap in time, and `b` has a lesser primacy than `a`
/// (a greater primacy value), or the same primacy and was created before `a`.
pub open spec fn does_supersede<E>(a: InstanceView<E>, b: InstanceView<E>) -> bool {
    &&& a.start <= b.end
    &&& a.end >= b.start
    &&& (a.primacy < b.primacy || (a.primacy == b.primacy && a.creation_time > b.creation_time))
}

/// Within the function set, `a` supersedes `b`: DER events must also target the same
/// controls, pricing intervals must belong to the same rate component, and text messages
/// never supersede one another.
pub open spec fn supersedes_in<E>(fs: FunctionSet, a: InstanceView<E>, b: InstanceView<E>) -> bool {
    match fs {
        FunctionSet::Der => a.target == b.target && does_supersede(a, b),
        FunctionSet::Drlc => does_supersede(a, b),
        FunctionSet::Pricing => a.program_mrid == b.program_mrid && does_supersede(a, b),
        FunctionSet::Messaging => false,
    }
}

/// The response for an event that another supersedes, given the status it had: an active
/// event is aborted by a different program, or (outside DRLC) by a different server.
pub open spec fn superseded_response<E>(
    fs: FunctionSet,
    prev: EIStatus,
    superseded: InstanceView<E>,
    superseding: InstanceView<E>,
) -> ResponseStatus {
    if prev == EIStatus::Active {
        if superseded.program_mrid != superseding.program_mrid {
            ResponseStatus::EventAbortedProgram
        } else if fs != FunctionSet::Drlc && superseded.server_id != superseding.server_id {
            ResponseStatus::EventAbortedServer
        } else {
            ResponseStatus::EventSuperseded
        }
    } else {
        ResponseStatus::EventSuperseded
    }
}

/// What the caller does for an event that another supersedes: an event that was active is
/// over, so the device hears of it first; then the server gets the response.
pub open spec fn supersede_actions(mrid: u128, prev: EIStatus, resp: ResponseStatus) -> Seq<ScheduleAction> {
    if prev == EIStatus::Active {
        seq![ScheduleAction::Notify(mrid), ScheduleAction::Respond(mrid, resp)]
    } else {
        seq![ScheduleAction::Respond(mrid, resp)]
    }
}

/// Compare the new event `mrid` (instance `target`) with one event already held: whichever
/// supersedes the other marks it superseded, and the actions that follow are returned.
pub open spec fn supersede_step<E>(
    fs: FunctionSet,
    mrid: u128,
    target: InstanceView<E>,
    o_mrid: u128,
    other: InstanceView<E>,
    stamp: u128,
) -> (InstanceView<E>, InstanceView<E>, Seq<ScheduleAction>) {
    if supersedes_in(fs, target, other) {
        let other2 = other.with_status(EIStatus::Superseded, stamp).add_superseding(mrid);
        (target, other2, supersede_actions(o_mrid, other.status, superseded_response(fs, other.status, other2, target)))
    } else if supersedes_in(fs, other, target) {
        let target2 = target.with_status(EIStatus::Superseded, stamp).add_superseding(o_mrid);
        (target2, other, supersede_actions(mrid, target.status, superseded_response(fs, target.status, target2, other)))
    } else {
        (target, other, Seq::empty())
    }
}

/// Compare the new event with every event held, in order.
pub open spec fn supersede_pass<E>(
    fs: FunctionSet,
    mrid: u128,
    target: InstanceView<E>,
    others: Seq<(u128, InstanceView<E>)>,
    stamp: u128,
) -> (InstanceView<E>, Seq<(u128, InstanceView<E>)>, Seq<ScheduleAction>)
    decreases others.len(),
{
    if others.len() == 0 {
        (target, others, Seq::empty())
    } else {
        let earlier = supersede_pass(fs, mrid, target, others.drop_last(), stamp);
        let step = supersede_step(fs, mrid, earlier.0, others.last().0, others.last().1, stamp);
        (step.0, earlier.1.push((others.last().0, step.1)), earlier.2 + step.2)
    }
}

/// Of two events, at most one supersedes the other.
pub proof fn lemma_supersede_asymmetric<E>(a: InstanceView<E>, b: InstanceView<E>)
    ensures
        !(does_supersede(a, b) && does_supersede(b, a)),
{
}

/// The event a schedule starts next is a scheduled event whose start time has passed, and no
/// scheduled event starts before it.
pub proof fn lemma_next_start_is_earliest_scheduled<E>(v: EventsView<E>, now: i64)
    requires
        v.wf(),
        due(v.next_start, now),
    ensures
        has_key(v.entries, due_mrid(v.next_start)),
        instance_of(v.entries, due_mrid(v.next_start)).status == EIStatus::Scheduled,
        instance_of(v.entries, due_mrid(v.next_start)).start < now,
        forall|j: int|
            0 <= j < v.entries.len() && v.entries[j].1.status == EIStatus::Scheduled
                ==> instance_of(v.entries, due_mrid(v.next_start)).start <= #[trigger] v.entries[j].1.start,
{
    let m = due_mrid(v.next_start);
    let w = choose|j: int|
        0 <= j < v.entries.len() && v.entries[j].0 == m && v.entries[j].1.status == EIStatus::Scheduled
            && timing(v.entries[j].1, false) == next_time(v.next_start);
    lemma_key_index(v.entries, w);
}

/// The event a schedule ends next is an active event whose end time has passed, and no
/// active event ends before it.
pub proof fn lemma_next_end_is_earliest_active<E>(v: EventsView<E>, now: i64)
    requires
        v.wf(),
        due(v.next_end, now),
    ensures
        has_key(v.entries, due_mrid(v.next_end)),
        instance_of(v.entries, due_mrid(v.next_end)).status == EIStatus::Active,
        instance_of(v.entries, due_mrid(v.next_end)).end < now,
        forall|j: int|
            0 <= j < v.entries.len() && v.entries[j].1.status == EIStatus::Active
                ==> instance_of(v.entries, due_mrid(v.next_end)).end <= #[trigger] v.entries[j].1.end,
{
    let m = due_mrid(v.next_end);
    let w = choose|j: int|
        0 <= j < v.entries.len() && v.entries[j].0 == m && v.entries[j].1.status == EIStatus::Active
            && timing(v.entries[j].1, true) == next_time(v.next_end);
    lemma_key_index(v.entries, w);
}

/// When the only event superseding a scheduled-to-be event is cancelled before that event's
/// start, the event is scheduled again.
pub proof fn lemma_cancel_restores_superseded<E>(
    entries: Seq<(u128, InstanceView<E>)>,
    mrid: u128,
    reason: EIStatus,
    now: i64,
    stamp: u128,
    i: int,
)
    requires
        keys_unique(entries),
        has_key(entries, mrid),
        0 <= i < entries.len(),
        entries[i].0 != mrid,
        entries[i].1.status == EIStatus::Superseded,
        entries[i].1.superseded_by == seq![mrid],
        entries[i].1.start > now,
    ensures
        spec_cancel(entries, mrid, reason, now, stamp)[i].1.status == EIStatus::Scheduled,
        spec_cancel(entries, mrid, reason, now, stamp)[i].1.superseded_by.len() == 0,
{
    let sb = entries[i].1.superseded_by;
    reveal(Seq::filter);
    assert(sb.drop_last() =~= Seq::<u128>::empty());
    assert(sb.filter(other_than(mrid)) =~= Seq::<u128>::empty().filter(other_than(mrid)));
    assert(Seq::<u128>::empty().filter(other_than(mrid)) =~= Seq::<u128>::empty());
    let k = key_index(entries, mrid);
    assert(k != i);
}

/// Two instances describe the same event placed at the same times for the same program:
/// they differ at most in status and in what supersedes them.
pub open spec fn same_event<E>(a: InstanceView<E>, b: InstanceView<E>) -> bool {
    &&& a.start == b.start
    &&& a.end == b.end
    &&& a.primacy == b.primacy
    &&& a.event == b.event
    &&& a.program_mrid == b.program_mrid
    &&& a.server_id == b.server_id
    &&& a.creation_time == b.creation_time
    &&& a.target == b.target
}

/// The effect of comparing a new event with every held event: each held event that the new
/// one supersedes is marked superseded by it, and every other held event is left as it was;
/// the new event stays the same event, and is superseded exactly when some held event that it
/// does not supersede supersedes it.
pub proof fn lemma_pass_effect<E>(
    fs: FunctionSet,
    mrid: u128,
    target: InstanceView<E>,
    others: Seq<(u128, InstanceView<E>)>,
    stamp: u128,
)
    ensures
        supersede_pass(fs, mrid, target, others, stamp).1.len() == others.len(),
        forall|i: int| 0 <= i < others.len() ==> #[trigger] supersede_pass(fs, mrid, target, others, stamp).1[i] == (
            others[i].0,
            if supersedes_in(fs, target, others[i].1) {
                others[i].1.with_status(EIStatus::Superseded, stamp).add_superseding(mrid)
            } else {
                others[i].1
            },
        ),
        same_event(supersede_pass(fs, mrid, target, others, stamp).0, target),
        supersede_pass(fs, mrid, target, others, stamp).0.status == (if exists|i: int|
            0 <= i < others.len() && !supersedes_in(fs, target, #[trigger] others[i].1) && supersedes_in(fs, others[i].1, target) {
            EIStatus::Superseded
        } else {
            target.status
        }),
    decreases others.len(),
{
    if others.len() > 0 {
        let prefix = others.drop_last();
        lemma_pass_effect(fs, mrid, target, prefix, stamp);
        let earlier = supersede_pass(fs, mrid, target, prefix, stamp);
        let last = others.last();
        assert(supersedes_in(fs, earlier.0, last.1) == supersedes_in(fs, target, last.1));
        assert(supersedes_in(fs, last.1, earlier.0) == supersedes_in(fs, last.1, target));
        let res = supersede_pass(fs, mrid, target, others, stamp);
        assert forall|i: int| 0 <= i < others.len() implies #[trigger] res.1[i] == (
            others[i].0,
            if supersedes_in(fs, target, others[i].1) {
                others[i].1.with_status(EIStatus::Superseded, stamp).add_superseding(mrid)
            } else {
                others[i].1
            },
        ) by {
            if i < prefix.len() {
                assert(prefix[i] == others[i]);
                assert(res.1[i] == earlier.1[i]);
            }
        }
        let ex_prefix = exists|i: int|
            0 <= i < prefix.len() && !supersedes_in(fs, target, #[trigger] prefix[i].1) && supersedes_in(fs, prefix[i].1, target);
        let ex_all = exists|i: int|
            0 <= i < others.len() && !supersedes_in(fs, target, #[trigger] others[i].1) && supersedes_in(fs, others[i].1, target);
        if ex_prefix {
            let w = choose|i: int|
                0 <= i < prefix.len() && !supersedes_in(fs, target, #[trigger] prefix[i].1) && supersedes_in(fs, prefix[i].1, target);
            assert(others[w] == prefix[w]);
            assert(ex_all);
        }
        if ex_all && !ex_prefix {
            let w = choose|i: int|
                0 <= i < others.len() && !supersedes_in(fs, target, #[trigger] others[i].1) && supersedes_in(fs, others[i].1, target);
            if w < prefix.len() {
                assert(others[w] == prefix[w]);
            }
            assert(w == others.len() - 1);
        }
        if !ex_all && !supersedes_in(fs, target, last.1) {
            assert(!supersedes_in(fs, others[others.len() - 1].1, target));
        }
    }
}

/// The pass keeps every held event at its position, with its mRID.
pub proof fn lemma_pass_keys<E>(
    fs: FunctionSet,
    mrid: u128,
    target: InstanceView<E>,
    others: Seq<(u128, InstanceView<E>)>,
    stamp: u128,
)
    ensures
        supersede_pass(fs, mrid, target, others, stamp).1.len() == others.len(),
        forall|i: int| 0 <= i < others.len() ==> #[trigger] supersede_pass(fs, mrid, target, others, stamp).1[i].0 == others[i].0,
    decreases others.len(),
{
    if others.len() > 0 {
        lemma_pass_keys(fs, mrid, target, others.drop_last(), stamp);
    }
}

/// Decide whether `a` supersedes `b` within the function set.
pub fn supersedes<E>(fs: FunctionSet, a: &EventInstance<E>, b: &EventInstance<E>) -> (r: bool)
    ensures
        r == supersedes_in(fs, a@, b@),
{
    let overlap = a.start <= b.end && a.end >= b.start;
    let outranks = a.primacy < b.primacy || (a.primacy == b.primacy && a.creation_time > b.creation_time);
    let does = overlap && outranks;
    match fs {
        FunctionSet::Der => a.target == b.target && does,
        FunctionSet::Drlc => does,
        FunctionSet::Pricing => a.program_mrid == b.program_mrid && does,
        FunctionSet::Messaging => false,
    }
}

/// The response for an event that another supersedes, given the status it had.
fn superseded_status<E>(fs: FunctionSet, prev: EIStatus, superseded: &EventInstance<E>, superseding: &EventInstance<E>) -> (r: ResponseStatus)
    ensures
        r == superseded_response(fs, prev, superseded@, superseding@),
{
    if prev == EIStatus::Active {
        if superseded.program_mrid != superseding.program_mrid {
            ResponseStatus::EventAbortedProgram
        } else if fs != FunctionSet::Drlc && superseded.server_id != superseding.server_id {
            ResponseStatus::EventAbortedServer
        } else {
            ResponseStatus::EventSuperseded
        }
    } else {
        ResponseStatus::EventSuperseded
    }
}

impl<E> View for Events<E> {
    type V = EventsView<E>;

    closed spec fn view(&self) -> EventsView<E> {
        EventsView {
            entries: entries_view(self.entries@),
            next_start: self.next_start,
            next_end: self.next_end,
        }
    }
}

/// With unique mRIDs, an entry's mRID determines its position.
pub proof fn lemma_key_index<E>(entries: Seq<(u128, InstanceView<E>)>, i: int)
    requires
        keys_unique(entries),
        0 <= i < entries.len(),
    ensures
        has_key(entries, entries[i].0),
        key_index(entries, entries[i].0) == i,
{
    assert(has_key(entries, entries[i].0));
}

/// Adding an entry keeps the earliest record right, if the record moves to the new entry
/// exactly when it has the status and comes before the recorded time.
proof fn lemma_earliest_push<E>(
    entries: Seq<(u128, InstanceView<E>)>,
    entry: (u128, InstanceView<E>),
    status: EIStatus,
    by_end: bool,
    next: Option<(i64, u128)>,
    next2: Option<(i64, u128)>,
)
    requires
        earliest(entries, entries.len() as int, status, by_end, next),
        next2 == (if entry.1.status == status && precedes(timing(entry.1, by_end), next) {
            Some((timing(entry.1, by_end), entry.0))
        } else {
            next
        }),
    ensures
        earliest(entries.push(entry), entries.len() + 1int, status, by_end, next2),
{
    let e = entries.push(entry);
    let n = entries.len() as int;
    assert(e[n] == entry);
    assert forall|j: int| 0 <= j < n implies e[j] == entries[j] by {}
    match next {
        None => {
            if entry.1.status == status {
                assert(e[n].0 == entry.0 && e[n].1.status == status);
            }
        },
        Some((t, m)) => {
            let w = choose|j: int|
                0 <= j < n && entries[j].0 == m && entries[j].1.status == status && timing(entries[j].1, by_end) == t;
            assert(e[w] == entries[w]);
        },
    }
}

impl<E> Events<E> {
    /// An empty set of events.
    pub fn new() -> (events: Self)
        ensures
            events@.entries.len() == 0,
            events@.next_start is None,
            events@.next_end is None,
            events@.wf(),
    {
        Events { entries: Vec::new(), next_start: None, next_end: None }
    }

    /// The scheduled event that starts first, with its start time.
    pub fn next_start(&self) -> (n: Option<(i64, u128)>)
        ensures
            n == self@.next_start,
    {
        self.next_start
    }

    /// The active event that ends first, with its end time.
    pub fn next_end(&self) -> (n: Option<(i64, u128)>)
        ensures
            n == self@.next_end,
    {
        self.next_end
    }

    /// The number of events held.
    pub fn len(&self) -> (n: usize)
        ensures
            n == self@.entries.len(),
    {
        self.entries.len()
    }

    /// The position of the event with the given mRID, if it is held.
    fn find(&self, mrid: u128) -> (r: Option<usize>)
        requires
            keys_unique(self@.entries),
        ensures
            match r {
                Some(i) => has_key(self@.entries, mrid) && i == key_index(self@.entries, mrid) && i < self@.entries.len(),
                None => !has_key(self@.entries, mrid),
            },
    {
        let mut i: usize = 0;
        while i < self.entries.len()
            invariant
                i <= self@.entries.len(),
                self@.entries.len() == self.entries@.len(),
                keys_unique(self@.entries),
                forall|j: int| 0 <= j < i ==> self@.entries[j].0 != mrid,
            decreases self.entries@.len() - i,
        {
            if self.entries[i].0 == mrid {
                proof {
                    lemma_key_index(self@.entries, i as int);
                }
                return Some(i);
            }
            i = i + 1;
        }
        None
    }

    /// Whether an event with the given mRID is held.
    pub fn contains(&self, mrid: u128) -> (b: bool)
        requires
            self@.wf(),
        ensures
            b == has_key(self@.entries, mrid),
    {
        self.find(mrid).is_some()
    }

    /// The instance of the event with the given mRID, if it is held.
    pub fn get(&self, mrid: u128) -> (r: Option<&EventInstance<E>>)
        requires
            self@.wf(),
        ensures
            match r {
                Some(ei) => has_key(self@.entries, mrid) && ei@ == instance_of(self@.entries, mrid),
                None => !has_key(self@.entries, mrid),
            },
    {
        match self.find(mrid) {
            Some(i) => Some(&self.entries[i].1),
            None => None,
        }
    }

    /// Re-evaluate the next event to start and the next event to end.
    pub fn update_nexts(&mut self)
        requires
            keys_unique(old(self)@.entries),
        ensures
            final(self)@.entries == old(self)@.entries,
            final(self)@.wf(),
    {
        let mut next_start: Option<(i64, u128)> = None;
        let mut next_end: Option<(i64, u128)> = None;
        let n = self.entries.len();
        let mut i: usize = 0;
        while i < n
            invariant
                n == self@.entries.len(),
                self@.entries.len() == self.entries@.len(),
                i <= n,
                keys_unique(self@.entries),
                self@.entries == old(self)@.entries,
                earliest(self@.entries, i as int, EIStatus::Scheduled, false, next_start),
                earliest(self@.entries, i as int, EIStatus::Active, true, next_end),
            decreases n - i,
        {
            let mrid = self.entries[i].0;
            let status = self.entries[i].1.status;
            let start = self.entries[i].1.start;
            let end = self.entries[i].1.end;
            assert(self@.entries[i as int].1.status == status && self@.entries[i as int].1.start == start && self@.entries[i as int].1.end == end && self@.entries[i as int].0 == mrid);
            if status == EIStatus::Scheduled {
                match next_start {
                    Some((t, _)) => {
                        if start < t {
                            next_start = Some((start, mrid));
                        }
                    },
                    None => {
                        next_start = Some((start, mrid));
                    },
                }
            }
            if status == EIStatus::Active {
                match next_end {
                    Some((t, _)) => {
                        if end < t {
                            next_end = Some((end, mrid));
                        }
                    },
                    None => {
                        next_end = Some((end, mrid));
                    },
                }
            }
            i = i + 1;
        }
        self.next_start = next_start;
        self.next_end = next_end;
    }

    /// Set the status of the entry at position `i`, stamped at `now`.
    fn set_status_at(&mut self, i: usize, status: EIStatus, now: u128)
        requires
            i < old(self)@.entries.len(),
        ensures
            final(self)@.entries == old(self)@.entries.update(
                i as int,
                (old(self)@.entries[i as int].0, old(self)@.entries[i as int].1.with_status(status, now)),
            ),
            final(self)@.next_start == old(self)@.next_start,
            final(self)@.next_end == old(self)@.next_end,
    {
        let ghost before = self.entries@;
        let entry = &mut self.entries[i];
        entry.1.update_status(status, now);
        assert(self.entries@ == before.update(i as int, self.entries@[i as int]));
        assert(self@.entries =~= old(self)@.entries.update(
            i as int,
            (old(self)@.entries[i as int].0, old(self)@.entries[i as int].1.with_status(status, now)),
        ));
    }

    /// Change the status of the event with the given mRID, stamped at `now`, and
    /// re-evaluate the next events to start and to end.
    pub fn update_event(&mut self, mrid: u128, status: EIStatus, now: u128)
        requires
            old(self)@.wf(),
            has_key(old(self)@.entries, mrid),
        ensures
            final(self)@.entries == old(self)@.entries.update(
                key_index(old(self)@.entries, mrid),
                (mrid, instance_of(old(self)@.entries, mrid).with_status(status, now)),
            ),
            final(self)@.wf(),
    {
        let i = self.find(mrid).unwrap();
        self.set_status_at(i, status, now);
        proof {
            let e = self@.entries;
            assert forall|a: int, b: int| 0 <= a < b < e.len() implies e[a].0 != e[b].0 by {
                assert(e[a].0 == old(self)@.entries[a].0 && e[b].0 == old(self)@.entries[b].0);
            }
        }
        self.update_nexts();
    }

    /// Cancel the event with the given mRID for the given reason, at schedule time `now`:
    /// superseded events forget that this event supersedes them, and those that are no longer
    /// superseded by anything and have not started yet are scheduled again; then the event
    /// takes the reason as its status and the next events to start and to end are re-evaluated.
    pub fn cancel_event(&mut self, mrid: u128, reason: EIStatus, now: i64, stamp: u128)
        requires
            old(self)@.wf(),
            has_key(old(self)@.entries, mrid),
        ensures
            final(self)@.entries == spec_cancel(old(self)@.entries, mrid, reason, now, stamp),
            final(self)@.wf(),
    {
        let n = self.entries.len();
        let mut i: usize = 0;
        while i < n
            invariant
                n == old(self)@.entries.len(),
                self@.entries.len() == n,
                self.entries@.len() == n,
                i <= n,
                forall|j: int| 0 <= j < i ==> self@.entries[j] == (old(self)@.entries[j].0, unsupersede(old(self)@.entries[j].1, mrid, now, stamp)),
                forall|j: int| i <= j < n ==> self@.entries[j] == old(self)@.entries[j],
                self@.next_start == old(self)@.next_start,
                self@.next_end == old(self)@.next_end,
            decreases n - i,
        {
            let ghost before = self@.entries;
            if self.entries[i].1.status == EIStatus::Superseded {
                let entry = &mut self.entries[i];
                entry.1.no_longer_superseded_by(mrid);
                if entry.1.superseded_by.len() == 0 && entry.1.start > now {
                    entry.1.update_status(EIStatus::Scheduled, stamp);
                }
            }
            assert(self@.entries =~= before.update(i as int, (before[i as int].0, unsupersede(before[i as int].1, mrid, now, stamp))));
            i = i + 1;
        }
        let ghost swept = self@.entries;
        assert(swept =~= unsupersede_all(old(self)@.entries, mrid, now, stamp));
        proof {
            lemma_key_index(old(self)@.entries, key_index(old(self)@.entries, mrid));
            assert forall|a: int, b: int| 0 <= a < b < swept.len() implies swept[a].0 != swept[b].0 by {
                assert(swept[a].0 == old(self)@.entries[a].0 && swept[b].0 == old(self)@.entries[b].0);
            }
        }
        proof {
            let w = key_index(old(self)@.entries, mrid);
            assert(swept[w].0 == mrid);
        }
        let k = self.find(mrid).unwrap();
        proof {
            lemma_key_index(swept, k as int);
            lemma_key_index(old(self)@.entries, k as int);
        }
        self.set_status_at(k, reason, stamp);
        proof {
            let e = self@.entries;
            assert forall|a: int, b: int| 0 <= a < b < e.len() implies e[a].0 != e[b].0 by {
                assert(e[a].0 == swept[a].0 && e[b].0 == swept[b].0);
            }
        }
        self.update_nexts();
    }

    /// Drop the events that are neither active nor scheduled and have not changed since `since`.
    pub fn prune(&mut self, since: u128)
        requires
            old(self)@.wf(),
        ensures
            final(self)@.entries == old(self)@.entries.filter(kept_since(since)),
            final(self)@.next_start == old(self)@.next_start,
            final(self)@.next_end == old(self)@.next_end,
            final(self)@.wf(),
    {
        let ghost orig = self@.entries;
        let mut rest: Vec<(u128, EventInstance<E>)> = Vec::new();
        std::mem::swap(&mut rest, &mut self.entries);
        assert(entries_view(rest@) == orig);
        let ghost n = orig.len();
        let ghost mut k: int = 0;
        while rest.len() > 0
            invariant
                n == orig.len(),
                0 <= k <= n,
                entries_view(rest@) == orig.skip(k),
                self@.entries == orig.take(k).filter(kept_since(since)),
                self@.next_start == old(self)@.next_start,
                self@.next_end == old(self)@.next_end,
            decreases rest@.len(),
        {
            let ghost before = rest@;
            let entry = rest.remove(0);
            proof {
                assert(entries_view(before).len() == before.len());
                assert(orig.skip(k).len() == n - k);
                assert(k < n);
                assert(entries_view(before)[0] == (entry.0, entry.1@));
                assert(orig.skip(k)[0] == orig[k]);
                assert(orig[k] == (entry.0, entry.1@));
                assert(rest@ == before.remove(0));
                assert forall|j: int| 0 <= j < rest@.len() implies entries_view(rest@)[j] == orig.skip(k + 1)[j] by {
                    assert(rest@[j] == before[j + 1]);
                    assert(entries_view(before)[j + 1] == orig.skip(k)[j + 1]);
                    assert(orig.skip(k)[j + 1] == orig[k + 1 + j]);
                    assert(orig.skip(k + 1)[j] == orig[k + 1 + j]);
                }
                assert(entries_view(rest@) =~= orig.skip(k + 1));
                assert(orig.take(k + 1).drop_last() =~= orig.take(k));
                assert(orig.take(k + 1).last() == orig[k]);
                reveal(Seq::filter);
            }
            let keep = entry.1.status == EIStatus::Active || entry.1.status == EIStatus::Scheduled || entry.1.last_updated > since;
            let ghost kept_before = self@.entries;
            if keep {
                self.entries.push(entry);
                assert(self@.entries =~= kept_before.push(orig[k]));
            }
            proof {
                k = k + 1;
            }
        }
        proof {
            assert(orig.take(k) =~= orig);
            lemma_filter_wf(orig, kept_since(since), EIStatus::Scheduled, false, self.next_start);
            lemma_filter_wf(orig, kept_since(since), EIStatus::Active, true, self.next_end);
        }
    }

    /// If the next event to start is due at schedule time `now`, mark it active, stamped at
    /// `stamp`, and return its mRID.
    pub fn start_next(&mut self, now: i64, stamp: u128) -> (r: Option<u128>)
        requires
            old(self)@.wf(),
        ensures
            if due(old(self)@.next_start, now) {
                let m = due_mrid(old(self)@.next_start);
                &&& r == Some(m)
                &&& final(self)@.entries == old(self)@.entries.update(
                    key_index(old(self)@.entries, m),
                    (m, instance_of(old(self)@.entries, m).with_status(EIStatus::Active, stamp)),
                )
            } else {
                r is None && final(self)@ == old(self)@
            },
            final(self)@.wf(),
    {
        match self.next_start {
            Some((t, m)) => {
                if t < now {
                    self.update_event(m, EIStatus::Active, stamp);
                    Some(m)
                } else {
                    None
                }
            },
            None => None,
        }
    }

    /// If the next event to end is due at schedule time `now`, mark it complete, stamped at
    /// `stamp`, and return its mRID.
    pub fn end_next(&mut self, now: i64, stamp: u128) -> (r: Option<u128>)
        requires
            old(self)@.wf(),
        ensures
            if due(old(self)@.next_end, now) {
                let m = due_mrid(old(self)@.next_end);
                &&& r == Some(m)
                &&& final(self)@.entries == old(self)@.entries.update(
                    key_index(old(self)@.entries, m),
                    (m, instance_of(old(self)@.entries, m).with_status(EIStatus::Complete, stamp)),
                )
            } else {
                r is None && final(self)@ == old(self)@
            },
            final(self)@.wf(),
    {
        match self.next_end {
            Some((t, m)) => {
                if t < now {
                    self.update_event(m, EIStatus::Complete, stamp);
                    Some(m)
                } else {
                    None
                }
            },
            None => None,
        }
    }

    /// Apply the device's response to the start of the event `mrid`: a DER device that opts
    /// out, finds the event not applicable or invalid is no longer taking part, and the event
    /// is cancelled. Returns whether it was.
    pub fn respond_to_start(&mut self, fs: FunctionSet, mrid: u128, resp: ResponseStatus, stamp: u128) -> (cancelled: bool)
        requires
            old(self)@.wf(),
            has_key(old(self)@.entries, mrid),
        ensures
            cancelled == (fs == FunctionSet::Der && declines_start(resp)),
            if cancelled {
                final(self)@.entries == old(self)@.entries.update(
                    key_index(old(self)@.entries, mrid),
                    (mrid, instance_of(old(self)@.entries, mrid).with_status(EIStatus::Cancelled, stamp)),
                )
            } else {
                final(self)@ == old(self)@
            },
            final(self)@.wf(),
            fs == FunctionSet::Der && (resp == ResponseStatus::EventOptOut || resp == ResponseStatus::EventNotApplicable
                || resp == ResponseStatus::EventInvalid) ==> cancelled && has_key(final(self)@.entries, mrid)
                && instance_of(final(self)@.entries, mrid).status == EIStatus::Cancelled,
            fs != FunctionSet::Der ==> !cancelled && final(self)@ == old(self)@,
    {
        proof {
            lemma_start_refusals(resp);
        }
        let declines = match resp {
            ResponseStatus::EventOptOut | ResponseStatus::EventNotApplicable | ResponseStatus::EventInvalid => true,
            _ => false,
        };
        if fs == FunctionSet::Der && declines {
            let ghost k = key_index(old(self)@.entries, mrid);
            self.update_event(mrid, EIStatus::Cancelled, stamp);
            proof {
                lemma_key_index(old(self)@.entries, k);
                lemma_key_index(self@.entries, k);
            }
            true
        } else {
            false
        }
    }

    /// Compare a new event, `mrid` with instance `target`, with every event held, in order:
    /// whichever of the two supersedes the other marks it superseded. Returns the actions that
    /// follow. The next events to start and to end are left for the caller to re-evaluate.
    pub fn supersede_with(&mut self, fs: FunctionSet, mrid: u128, target: &mut EventInstance<E>, stamp: u128) -> (actions: Vec<ScheduleAction>)
        ensures
            final(target)@ == supersede_pass(fs, mrid, old(target)@, old(self)@.entries, stamp).0,
            final(self)@.entries == supersede_pass(fs, mrid, old(target)@, old(self)@.entries, stamp).1,
            actions@ == supersede_pass(fs, mrid, old(target)@, old(self)@.entries, stamp).2,
            final(self)@.next_start == old(self)@.next_start,
            final(self)@.next_end == old(self)@.next_end,
    {
        let ghost orig = self@.entries;
        let ghost t0 = target@;
        let mut actions: Vec<ScheduleAction> = Vec::new();
        let n = self.entries.len();
        let mut i: usize = 0;
        while i < n
            invariant
                n == orig.len(),
                self@.entries.len() == n,
                self.entries@.len() == n,
                i <= n,
                target@ == supersede_pass(fs, mrid, t0, orig.take(i as int), stamp).0,
                self@.entries.take(i as int) == supersede_pass(fs, mrid, t0, orig.take(i as int), stamp).1,
                actions@ == supersede_pass(fs, mrid, t0, orig.take(i as int), stamp).2,
                forall|j: int| i <= j < n ==> self@.entries[j] == orig[j],
                self@.next_start == old(self)@.next_start,
                self@.next_end == old(self)@.next_end,
            decreases n - i,
        {
            let ghost before = self@.entries;
            let ghost acts_before = actions@;
            let ghost t_before = target@;
            proof {
                assert(orig.take(i + 1).drop_last() =~= orig.take(i as int));
                assert(orig.take(i + 1).last() == orig[i as int]);
                assert(before[i as int] == orig[i as int]);
            }
            let o_mrid = self.entries[i].0;
            if supersedes(fs, target, &self.entries[i].1) {
                let entry = &mut self.entries[i];
                let prev = entry.1.status;
                entry.1.update_status(EIStatus::Superseded, stamp);
                entry.1.superseded_by(mrid);
                if prev == EIStatus::Active {
                    actions.push(ScheduleAction::Notify(o_mrid));
                }
                let resp = superseded_status(fs, prev, &entry.1, target);
                actions.push(ScheduleAction::Respond(o_mrid, resp));
            } else if supersedes(fs, &self.entries[i].1, target) {
                let prev = target.status;
                target.update_status(EIStatus::Superseded, stamp);
                target.superseded_by(o_mrid);
                if prev == EIStatus::Active {
                    actions.push(ScheduleAction::Notify(mrid));
                }
                let resp = superseded_status(fs, prev, target, &self.entries[i].1);
                actions.push(ScheduleAction::Respond(mrid, resp));
            }
            proof {
                let step = supersede_step(fs, mrid, t_before, orig[i as int].0, orig[i as int].1, stamp);
                assert(target@ == step.0);
                assert(self@.entries =~= before.update(i as int, (orig[i as int].0, step.1)));
                assert(actions@ =~= acts_before + step.2);
                assert(self@.entries.take(i + 1) =~= before.take(i as int).push((orig[i as int].0, step.1)));
            }
            i = i + 1;
        }
        proof {
            assert(orig.take(n as int) =~= orig);
            assert(self@.entries.take(n as int) =~= self@.entries);
        }
        actions
    }

    /// Add an event that the schedule does not hold yet, keeping the next event to start and
    /// to end up to date.
    pub fn insert(&mut self, mrid: u128, ei: EventInstance<E>)
        requires
            old(self)@.wf(),
            !has_key(old(self)@.entries, mrid),
        ensures
            final(self)@.entries == old(self)@.entries.push((mrid, ei@)),
            final(self)@.next_start == (if ei@.status == EIStatus::Scheduled && precedes(ei@.start, old(self)@.next_start) {
                Some((ei@.start, mrid))
            } else {
                old(self)@.next_start
            }),
            final(self)@.next_end == (if ei@.status == EIStatus::Active && precedes(ei@.end, old(self)@.next_end) {
                Some((ei@.end, mrid))
            } else {
                old(self)@.next_end
            }),
            final(self)@.wf(),
    {
        if ei.status == EIStatus::Scheduled {
            match self.next_start {
                Some((start, _)) => {
                    if ei.start < start {
                        self.next_start = Some((ei.start, mrid));
                    }
                },
                None => {
                    self.next_start = Some((ei.start, mrid));
                },
            }
        }
        if ei.status == EIStatus::Active {
            match self.next_end {
                Some((end, _)) => {
                    if ei.end < end {
                        self.next_end = Some((ei.end, mrid));
                    }
                },
                None => {
                    self.next_end = Some((ei.end, mrid));
                },
            }
        }
        let ghost old_entries = self@.entries;
        self.entries.push((mrid, ei));
        assert(self@.entries =~= old_entries.push((mrid, ei@)));
        proof {
            let e = self@.entries;
            let n = e.len() as int;
            assert forall|i: int, j: int| 0 <= i < j < n implies e[i].0 != e[j].0 by {
                if j == n - 1 {
                    assert(old_entries[i].0 != mrid);
                } else {
                    assert(e[i] == old_entries[i] && e[j] == old_entries[j]);
                }
            }
            lemma_earliest_push(old_entries, (mrid, ei@), EIStatus::Scheduled, false, old(self)@.next_start, self@.next_start);
            lemma_earliest_push(old_entries, (mrid, ei@), EIStatus::Active, true, old(self)@.next_end, self@.next_end);
        }
    }
}

} // verus!
