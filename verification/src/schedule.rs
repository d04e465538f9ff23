//! The decisions a function-set schedule makes when an event resource arrives.
//!
//! A caller holds the schedule's [`Events`], hands each retrieved or notified event to
//! [`add_event`], and carries out the returned [`ScheduleAction`]s: it calls the device's
//! event handler and posts responses to the server.
use vstd::prelude::*;

use crate::event::{
    has_key, instance_of, key_index, keys_unique, lemma_key_index, lemma_pass_effect, lemma_pass_keys, randomize,
    randomized_within, same_event, spec_cancel, spec_new_instance, supersede_pass,
    supersedes_in, EventInfo, EventInstance, Events, InstanceView, ScheduleAction,
};
use crate::types::{
    spec_ei_status_from, spec_response_from_event_status, EIStatus, EventStatusType, FunctionSet,
    ResponseStatus,
};

verus! {

/// The event names device categories, none of which this device belongs to. Only DER and
/// DRLC events are filtered this way.
pub open spec fn targets_other_devices(fs: FunctionSet, category: Option<u32>, device_categories: u32) -> bool {
    &&& (fs == FunctionSet::Der || fs == FunctionSet::Drlc)
    &&& match category {
        Some(c) => c & device_categories == 0,
        None => false,
    }
}

/// Whether the status the server reports for an event already held ends it here: an active
/// event can be cancelled or superseded, and a scheduled one can be cancelled.
pub open spec fn cancels(current: EIStatus, incoming: EventStatusType) -> bool {
    ||| current == EIStatus::Active && (incoming == EventStatusType::Cancelled
        || incoming == EventStatusType::CancelledRandom || incoming == EventStatusType::Superseded)
    ||| current == EIStatus::Scheduled && (incoming == EventStatusType::Cancelled
        || incoming == EventStatusType::CancelledRandom)
}

/// The server reports a new event as already over before it began.
pub open spec fn arrives_ended(incoming: EventStatusType) -> bool {
    incoming == EventStatusType::Cancelled || incoming == EventStatusType::CancelledRandom
        || incoming == EventStatusType::Superseded
}

/// The instance a new event becomes: text messages keep their interval, other events are
/// moved by the random offsets.
pub open spec fn spec_placed<E>(
    fs: FunctionSet,
    event: E,
    info: EventInfo,
    primacy: u8,
    program_mrid: u128,
    server_id: u8,
    stamp: u128,
    start_offset: int,
    end_offset: int,
) -> InstanceView<E> {
    if fs == FunctionSet::Messaging {
        spec_new_instance(primacy, event, info, program_mrid, server_id, 0, 0, stamp)
    } else {
        spec_new_instance(primacy, event, info, program_mrid, server_id, start_offset, end_offset, stamp)
    }
}

/// What adding an event does to a schedule's entries, and the actions that follow.
///
/// - An event aimed at other device categories is ignored.
/// - An event already held only changes status: if the server cancels (or, for an active
///   event, supersedes) it, it is cancelled here; an active event's device is told and its
///   answer sent, otherwise the server is told it is cancelled.
/// - A new event is acknowledged. If it arrives cancelled or superseded, the server hears
///   that status and the event is dropped. Otherwise it is placed in time (text messages
///   without randomisation); if it has already ended it is dropped, and outside messaging the
///   server hears it expired. Otherwise, outside messaging, it is compared with every event held
///   for superseding, and it joins the schedule.
pub open spec fn spec_add_event<E>(
    fs: FunctionSet,
    entries: Seq<(u128, InstanceView<E>)>,
    event: E,
    info: EventInfo,
    primacy: u8,
    program_mrid: u128,
    server_id: u8,
    device_categories: u32,
    now: i64,
    stamp: u128,
    start_offset: int,
    end_offset: int,
) -> (Seq<(u128, InstanceView<E>)>, Seq<ScheduleAction>) {
    let mrid = info.mrid;
    if targets_other_devices(fs, info.device_category, device_categories) {
        (entries, Seq::empty())
    } else if has_key(entries, mrid) {
        let current = instance_of(entries, mrid).status;
        if cancels(current, info.status) {
            let after = spec_cancel(entries, mrid, spec_ei_status_from(info.status), now, stamp);
            if current == EIStatus::Active {
                (after, seq![ScheduleAction::NotifyAndRespond(mrid)])
            } else {
                (after, seq![ScheduleAction::Respond(mrid, ResponseStatus::EventCancelled)])
            }
        } else {
            (entries, Seq::empty())
        }
    } else {
        let received = seq![ScheduleAction::Respond(mrid, ResponseStatus::EventReceived)];
        if arrives_ended(info.status) {
            (entries, received.push(ScheduleAction::Respond(mrid, spec_response_from_event_status(info.status))))
        } else {
            let ei = spec_placed(fs, event, info, primacy, program_mrid, server_id, stamp, start_offset, end_offset);
            if ei.end <= now {
                if fs == FunctionSet::Messaging {
                    (entries, received)
                } else {
                    (entries, received.push(ScheduleAction::Respond(mrid, ResponseStatus::EventExpired)))
                }
            } else if fs == FunctionSet::Messaging {
                (entries.push((mrid, ei)), received)
            } else {
                let pass = supersede_pass(fs, mrid, ei, entries, stamp);
                (pass.1.push((mrid, pass.0)), received + pass.2)
            }
        }
    }
}

/// Add an event resource to a schedule at schedule time `now`, with the random offsets of its
/// start and end already drawn. Returns what the caller must do next, in order.
pub fn add_event_with_offsets<E>(
    events: &mut Events<E>,
    fs: FunctionSet,
    event: E,
    info: &EventInfo,
    primacy: u8,
    program_mrid: u128,
    server_id: u8,
    device_categories: u32,
    now: i64,
    stamp: u128,
    start_offset: i64,
    end_offset: i64,
) -> (actions: Vec<ScheduleAction>)
    requires
        old(events)@.wf(),
        info.valid(),
        -3600 <= start_offset <= 3600,
        -3600 <= end_offset <= 3600,
    ensures
        final(events)@.entries == spec_add_event(fs, old(events)@.entries, event, *info, primacy, program_mrid,
            server_id, device_categories, now, stamp, start_offset as int, end_offset as int).0,
        actions@ == spec_add_event(fs, old(events)@.entries, event, *info, primacy, program_mrid,
            server_id, device_categories, now, stamp, start_offset as int, end_offset as int).1,
        final(events)@.wf(),
{
    let mrid = info.mrid;
    let filtered = match fs {
        FunctionSet::Der | FunctionSet::Drlc => match info.device_category {
            Some(c) => c & device_categories == 0,
            None => false,
        },
        _ => false,
    };
    if filtered {
        return Vec::new();
    }
    if events.contains(mrid) {
        let current = events.get(mrid).unwrap().status();
        let ends = match (current, info.status) {
            (EIStatus::Active, EventStatusType::Cancelled)
            | (EIStatus::Active, EventStatusType::CancelledRandom)
            | (EIStatus::Active, EventStatusType::Superseded)
            | (EIStatus::Scheduled, EventStatusType::Cancelled)
            | (EIStatus::Scheduled, EventStatusType::CancelledRandom) => true,
            _ => false,
        };
        let mut actions: Vec<ScheduleAction> = Vec::new();
        if ends {
            events.cancel_event(mrid, EIStatus::from(info.status), now, stamp);
            if current == EIStatus::Active {
                actions.push(ScheduleAction::NotifyAndRespond(mrid));
            } else {
                actions.push(ScheduleAction::Respond(mrid, ResponseStatus::EventCancelled));
            }
        }
        proof {
            if ends {
                assert(actions@ =~= spec_add_event(fs, old(events)@.entries, event, *info, primacy, program_mrid,
                    server_id, device_categories, now, stamp, start_offset as int, end_offset as int).1);
            } else {
                assert(actions@ =~= Seq::<ScheduleAction>::empty());
            }
        }
        return actions;
    }
    let mut actions: Vec<ScheduleAction> = Vec::new();
    actions.push(ScheduleAction::Respond(mrid, ResponseStatus::EventReceived));
    let ended = match info.status {
        EventStatusType::Cancelled | EventStatusType::CancelledRandom | EventStatusType::Superseded => true,
        _ => false,
    };
    if ended {
        actions.push(ScheduleAction::Respond(mrid, ResponseStatus::from(info.status)));
        return actions;
    }
    let mut ei = match fs {
        FunctionSet::Messaging => EventInstance::new(primacy, event, info, program_mrid, server_id, stamp),
        _ => EventInstance::new_with_offsets(primacy, event, info, program_mrid, server_id, start_offset, end_offset, stamp),
    };
    if ei.end_time() <= now {
        match fs {
            FunctionSet::Messaging => {},
            _ => {
                actions.push(ScheduleAction::Respond(mrid, ResponseStatus::EventExpired));
            },
        }
        return actions;
    }
    match fs {
        FunctionSet::Messaging => {
            events.update_nexts();
            events.insert(mrid, ei);
        },
        _ => {
            let ghost before = events@.entries;
            let ghost ei0 = ei@;
            let more = events.supersede_with(fs, mrid, &mut ei, stamp);
            proof {
                lemma_pass_keys(fs, mrid, ei0, before, stamp);
                let after = events@.entries;
                assert forall|a: int, b: int| 0 <= a < b < after.len() implies after[a].0 != after[b].0 by {
                    assert(after[a].0 == before[a].0 && after[b].0 == before[b].0);
                }
            }
            events.update_nexts();
            proof {
                let after = events@.entries;
                if has_key(after, mrid) {
                    let w = choose|w: int| 0 <= w < after.len() && after[w].0 == mrid;
                    assert(before[w].0 == mrid);
                }
            }
            events.insert(mrid, ei);
            let ghost acts_before = actions@;
            let mut more = more;
            actions.append(&mut more);
            assert(actions@ =~= acts_before + supersede_pass(fs, mrid, ei0, before, stamp).2);
        },
    }
    actions
}

/// Add an event resource to a schedule at schedule time `now`. Outside messaging, the event's
/// start is moved by a random amount within its `randomizeDuration` bound and its end by a
/// further random amount within its `randomizeStart` bound. Returns what the caller must do
/// next, in order.
pub fn add_event<E>(
    events: &mut Events<E>,
    fs: FunctionSet,
    event: E,
    info: &EventInfo,
    primacy: u8,
    program_mrid: u128,
    server_id: u8,
    device_categories: u32,
    now: i64,
    stamp: u128,
) -> (actions: Vec<ScheduleAction>)
    requires
        old(events)@.wf(),
        info.valid(),
    ensures
        exists|a: int, b: int|
            randomized_within(info.randomize_duration, a) && randomized_within(info.randomize_start, b)
                && final(events)@.entries == spec_add_event(fs, old(events)@.entries, event, *info, primacy,
                program_mrid, server_id, device_categories, now, stamp, a, b).0
                && actions@ == spec_add_event(fs, old(events)@.entries, event, *info, primacy,
                program_mrid, server_id, device_categories, now, stamp, a, b).1,
        final(events)@.wf(),
{
    let start_offset = randomize(info.randomize_duration);
    let end_offset = randomize(info.randomize_start);
    add_event_with_offsets(events, fs, event, info, primacy, program_mrid, server_id, device_categories, now, stamp, start_offset, end_offset)
}

/// Adding an event keeps every held event at its position with its mRID, and changes at most
/// its status and what supersedes it ("editing events shall not be allowed, except for updating
/// status"); an event the schedule already holds adds nothing, and a new event, if it joins,
/// joins at the end.
pub proof fn lemma_add_event_edits_only_status<E>(
    fs: FunctionSet,
    entries: Seq<(u128, InstanceView<E>)>,
    event: E,
    info: EventInfo,
    primacy: u8,
    program_mrid: u128,
    server_id: u8,
    device_categories: u32,
    now: i64,
    stamp: u128,
    a: int,
    b: int,
)
    requires
        keys_unique(entries),
    ensures
        ({
            let r = spec_add_event(fs, entries, event, info, primacy, program_mrid, server_id, device_categories, now, stamp, a, b).0;
            &&& r.len() == entries.len() || (r.len() == entries.len() + 1 && !has_key(entries, info.mrid)
                && r[entries.len() as int].0 == info.mrid)
            &&& forall|i: int| 0 <= i < entries.len() ==> #[trigger] r[i].0 == entries[i].0 && same_event(r[i].1, entries[i].1)
        }),
{
    let mrid = info.mrid;
    if !targets_other_devices(fs, info.device_category, device_categories) && !has_key(entries, mrid) {
        if !arrives_ended(info.status) {
            let ei = spec_placed(fs, event, info, primacy, program_mrid, server_id, stamp, a, b);
            if ei.end > now && fs != FunctionSet::Messaging {
                lemma_pass_effect(fs, mrid, ei, entries, stamp);
            }
        }
    }
}

/// When a new event joins a schedule (it targets this device, arrives neither cancelled nor
/// superseded, and has not ended), every held event that it supersedes is marked superseded by
/// it and every other held event is left as it was; the new event is superseded exactly when
/// some held event that it does not supersede supersedes it. Text messages supersede nothing.
pub proof fn lemma_new_event_supersedes<E>(
    fs: FunctionSet,
    entries: Seq<(u128, InstanceView<E>)>,
    event: E,
    info: EventInfo,
    primacy: u8,
    program_mrid: u128,
    server_id: u8,
    device_categories: u32,
    now: i64,
    stamp: u128,
    a: int,
    b: int,
)
    requires
        keys_unique(entries),
        !targets_other_devices(fs, info.device_category, device_categories),
        !has_key(entries, info.mrid),
        !arrives_ended(info.status),
        spec_placed(fs, event, info, primacy, program_mrid, server_id, stamp, a, b).end > now,
    ensures
        ({
            let ei = spec_placed(fs, event, info, primacy, program_mrid, server_id, stamp, a, b);
            let r = spec_add_event(fs, entries, event, info, primacy, program_mrid, server_id, device_categories, now, stamp, a, b).0;
            &&& r.len() == entries.len() + 1
            &&& forall|i: int| 0 <= i < entries.len() ==> #[trigger] r[i] == (
                entries[i].0,
                if supersedes_in(fs, ei, entries[i].1) {
                    entries[i].1.with_status(EIStatus::Superseded, stamp).add_superseding(info.mrid)
                } else {
                    entries[i].1
                },
            )
            &&& r[entries.len() as int].0 == info.mrid
            &&& same_event(r[entries.len() as int].1, ei)
            &&& r[entries.len() as int].1.status == (if exists|i: int|
                0 <= i < entries.len() && !supersedes_in(fs, ei, #[trigger] entries[i].1) && supersedes_in(fs, entries[i].1, ei) {
                EIStatus::Superseded
            } else {
                ei.status
            })
        }),
{
    let ei = spec_placed(fs, event, info, primacy, program_mrid, server_id, stamp, a, b);
    lemma_pass_effect(fs, info.mrid, ei, entries, stamp);
    if fs == FunctionSet::Messaging {
        assert(forall|i: int| 0 <= i < entries.len() ==> !supersedes_in(fs, ei, #[trigger] entries[i].1));
    }
}

/// The server ends an event the schedule already holds. Unless the event is aimed at other
/// device categories: an active event that the server cancels (with or without randomisation)
/// or supersedes takes that status, and the device is told that it is over and its answer is
/// sent on; a scheduled event that the server cancels takes that status, and the server is told
/// it is cancelled. The schedule keeps the same events, each with its mRID.
pub proof fn lemma_server_ends_held_event<E>(
    fs: FunctionSet,
    entries: Seq<(u128, InstanceView<E>)>,
    event: E,
    info: EventInfo,
    primacy: u8,
    program_mrid: u128,
    server_id: u8,
    device_categories: u32,
    now: i64,
    stamp: u128,
    a: int,
    b: int,
)
    requires
        keys_unique(entries),
        has_key(entries, info.mrid),
        fs == FunctionSet::Messaging || fs == FunctionSet::Pricing || info.device_category is None
            || info.device_category->0 & device_categories != 0,
        ({
            let current = instance_of(entries, info.mrid).status;
            ||| current == EIStatus::Active && (info.status == EventStatusType::Cancelled
                || info.status == EventStatusType::CancelledRandom || info.status == EventStatusType::Superseded)
            ||| current == EIStatus::Scheduled && (info.status == EventStatusType::Cancelled
                || info.status == EventStatusType::CancelledRandom)
        }),
    ensures
        ({
            let r = spec_add_event(fs, entries, event, info, primacy, program_mrid, server_id, device_categories, now, stamp, a, b);
            let was_active = instance_of(entries, info.mrid).status == EIStatus::Active;
            &&& r.0.len() == entries.len()
            &&& forall|i: int| 0 <= i < entries.len() ==> #[trigger] r.0[i].0 == entries[i].0
            &&& has_key(r.0, info.mrid)
            &&& instance_of(r.0, info.mrid).status == (match info.status {
                EventStatusType::Cancelled => EIStatus::Cancelled,
                EventStatusType::CancelledRandom => EIStatus::CancelledRandom,
                _ => EIStatus::Superseded,
            })
            &&& was_active ==> r.1 == seq![ScheduleAction::NotifyAndRespond(info.mrid)]
            &&& !was_active ==> r.1 == seq![ScheduleAction::Respond(info.mrid, ResponseStatus::EventCancelled)]
        }),
{
    let mrid = info.mrid;
    let k = key_index(entries, mrid);
    assert(0 <= k < entries.len() && entries[k].0 == mrid);
    let r = spec_add_event(fs, entries, event, info, primacy, program_mrid, server_id, device_categories, now, stamp, a, b);
    let after = spec_cancel(entries, mrid, spec_ei_status_from(info.status), now, stamp);
    assert(r.0 == after);
    assert forall|i: int| 0 <= i < entries.len() implies #[trigger] after[i].0 == entries[i].0 by {}
    assert(keys_unique(after)) by {
        assert forall|x: int, y: int| 0 <= x < y < after.len() implies after[x].0 != after[y].0 by {
            assert(after[x].0 == entries[x].0 && after[y].0 == entries[y].0);
        }
    }
    lemma_key_index(after, k);
}

/// An event aimed at other device categories, one that arrives cancelled or superseded, and
/// one that has already ended leave the schedule as it was.
pub proof fn lemma_rejected_event_changes_nothing<E>(
    fs: FunctionSet,
    entries: Seq<(u128, InstanceView<E>)>,
    event: E,
    info: EventInfo,
    primacy: u8,
    program_mrid: u128,
    server_id: u8,
    device_categories: u32,
    now: i64,
    stamp: u128,
    a: int,
    b: int,
)
    requires
        targets_other_devices(fs, info.device_category, device_categories) || (!has_key(entries, info.mrid) && (
        arrives_ended(info.status) || spec_placed(fs, event, info, primacy, program_mrid, server_id, stamp, a, b).end <= now)),
    ensures
        spec_add_event(fs, entries, event, info, primacy, program_mrid, server_id, device_categories, now, stamp, a, b).0 == entries,
{
}

} // verus!
